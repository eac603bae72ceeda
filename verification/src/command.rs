//! Detected tools and project commands, command runs, and the registry of
//! commands the command palette searches.
use vstd::prelude::*;

use std::time::SystemTime;

use crate::clock::{duration_secs, elapsed, elapsed_between, now, unix_epoch, whole_secs};
use crate::sort::{is_stable_sort, stable_sort_indices};
use crate::strmap::StrMap;
use crate::text::{
    chars_of, decimal, owned, push_str, seq_contains, seq_starts_with, split_words,
    str_contains, str_starts_with, to_lower, u64_to_string, unicode_lower, views_of, words,
};
use vstd::utf8::encode_utf8;
use vstd::string::StringSliceAdditionalSpecFns;

verus! {

#[derive(Clone, Copy, Debug, PartialEq, Eq, Structural)]
pub enum PackageManager {
    Npm,
    Pnpm,
    Yarn,
    Bun,
}

/// The prefix that runs a package script.
pub open spec fn run_prefix_text(pm: PackageManager) -> Seq<char> {
    match pm {
        PackageManager::Npm => "npm run"@,
        PackageManager::Pnpm => "pnpm"@,
        PackageManager::Yarn => "yarn"@,
        PackageManager::Bun => "bun run"@,
    }
}

/// The command that installs dependencies.
pub open spec fn install_text(pm: PackageManager) -> Seq<char> {
    match pm {
        PackageManager::Npm => "npm install"@,
        PackageManager::Pnpm => "pnpm install"@,
        PackageManager::Yarn => "yarn install"@,
        PackageManager::Bun => "bun install"@,
    }
}

impl PackageManager {
    /// The prefix that runs a package script.
    pub fn run_prefix(&self) -> (r: &'static str)
        ensures
            r@ == run_prefix_text(*self),
    {
        match self {
            PackageManager::Npm => "npm run",
            PackageManager::Pnpm => "pnpm",
            PackageManager::Yarn => "yarn",
            PackageManager::Bun => "bun run",
        }
    }

    /// The command that installs dependencies.
    pub fn install_cmd(&self) -> (r: &'static str)
        ensures
            r@ == install_text(*self),
    {
        match self {
            PackageManager::Npm => "npm install",
            PackageManager::Pnpm => "pnpm install",
            PackageManager::Yarn => "yarn install",
            PackageManager::Bun => "bun install",
        }
    }
}

#[derive(Clone, Copy, Debug, PartialEq, Eq, Structural)]
pub enum PythonPackageManager {
    Pip,
    Uv,
    Poetry,
}

/// A tool found in a project; compose, make and just files carry their path.
#[derive(Debug, PartialEq, Eq)]
pub enum DetectedTool {
    Node { pm: PackageManager },
    Python { pm: PythonPackageManager },
    Rust,
    Go,
    DockerCompose { file: String },
    Make { file: String },
    Just { file: String },
}

impl Clone for DetectedTool {
    fn clone(&self) -> (r: Self)
        ensures
            r == *self,
    {
        match self {
            DetectedTool::Node { pm } => DetectedTool::Node { pm: *pm },
            DetectedTool::Python { pm } => DetectedTool::Python { pm: *pm },
            DetectedTool::Rust => DetectedTool::Rust,
            DetectedTool::Go => DetectedTool::Go,
            DetectedTool::DockerCompose { file } => DetectedTool::DockerCompose { file: file.clone() },
            DetectedTool::Make { file } => DetectedTool::Make { file: file.clone() },
            DetectedTool::Just { file } => DetectedTool::Just { file: file.clone() },
        }
    }
}

pub open spec fn tool_short_name(t: DetectedTool) -> Seq<char> {
    match t {
        DetectedTool::Node { .. } => "Node"@,
        DetectedTool::Python { .. } => "Python"@,
        DetectedTool::Rust => "Rust"@,
        DetectedTool::Go => "Go"@,
        DetectedTool::DockerCompose { .. } => "Docker"@,
        DetectedTool::Make { .. } => "Make"@,
        DetectedTool::Just { .. } => "Just"@,
    }
}

/// The short name in lower case (the short names are ASCII).
pub open spec fn tool_tag(t: DetectedTool) -> Seq<char> {
    match t {
        DetectedTool::Node { .. } => "node"@,
        DetectedTool::Python { .. } => "python"@,
        DetectedTool::Rust => "rust"@,
        DetectedTool::Go => "go"@,
        DetectedTool::DockerCompose { .. } => "docker"@,
        DetectedTool::Make { .. } => "make"@,
        DetectedTool::Just { .. } => "just"@,
    }
}

impl DetectedTool {
    pub fn short_name(&self) -> (r: &'static str)
        ensures
            r@ == tool_short_name(*self),
    {
        match self {
            DetectedTool::Node { .. } => "Node",
            DetectedTool::Python { .. } => "Python",
            DetectedTool::Rust => "Rust",
            DetectedTool::Go => "Go",
            DetectedTool::DockerCompose { .. } => "Docker",
            DetectedTool::Make { .. } => "Make",
            DetectedTool::Just { .. } => "Just",
        }
    }

    /// The short name in lower case.
    pub fn tag(&self) -> (r: &'static str)
        ensures
            r@ == tool_tag(*self),
    {
        match self {
            DetectedTool::Node { .. } => "node",
            DetectedTool::Python { .. } => "python",
            DetectedTool::Rust => "rust",
            DetectedTool::Go => "go",
            DetectedTool::DockerCompose { .. } => "docker",
            DetectedTool::Make { .. } => "make",
            DetectedTool::Just { .. } => "just",
        }
    }

    pub fn icon(&self) -> (r: &'static str)
        ensures
            r@ == match self {
                DetectedTool::Node { .. } => "N"@,
                DetectedTool::Python { .. } => "P"@,
                DetectedTool::Rust => "R"@,
                DetectedTool::Go => "G"@,
                DetectedTool::DockerCompose { .. } => "D"@,
                DetectedTool::Make { .. } => "M"@,
                DetectedTool::Just { .. } => "J"@,
            },
    {
        match self {
            DetectedTool::Node { .. } => "N",
            DetectedTool::Python { .. } => "P",
            DetectedTool::Rust => "R",
            DetectedTool::Go => "G",
            DetectedTool::DockerCompose { .. } => "D",
            DetectedTool::Make { .. } => "M",
            DetectedTool::Just { .. } => "J",
        }
    }
}

#[derive(Clone, Copy, Debug, PartialEq, Eq, Structural, PartialOrd, Ord)]
pub enum CommandCategory {
    Dev,
    Build,
    Test,
    Lint,
    Script,
    Task,
}

/// Position of a category in the category order.
pub open spec fn category_rank(c: CommandCategory) -> int {
    match c {
        CommandCategory::Dev => 0,
        CommandCategory::Build => 1,
        CommandCategory::Test => 2,
        CommandCategory::Lint => 3,
        CommandCategory::Script => 4,
        CommandCategory::Task => 5,
    }
}

pub open spec fn category_label(c: CommandCategory) -> Seq<char> {
    match c {
        CommandCategory::Dev => "dev"@,
        CommandCategory::Build => "build"@,
        CommandCategory::Test => "test"@,
        CommandCategory::Lint => "lint"@,
        CommandCategory::Script => "script"@,
        CommandCategory::Task => "task"@,
    }
}

impl CommandCategory {
    pub fn icon(&self) -> (r: &'static str)
        ensures
            r@ == match self {
                CommandCategory::Dev => "◉"@,
                CommandCategory::Build => "⚙"@,
                CommandCategory::Test => "✓"@,
                CommandCategory::Lint => "◆"@,
                CommandCategory::Script => "▸"@,
                CommandCategory::Task => "≡"@,
            },
    {
        match self {
            CommandCategory::Dev => "◉",
            CommandCategory::Build => "⚙",
            CommandCategory::Test => "✓",
            CommandCategory::Lint => "◆",
            CommandCategory::Script => "▸",
            CommandCategory::Task => "≡",
        }
    }

    pub fn label(&self) -> (r: &'static str)
        ensures
            r@ == category_label(*self),
    {
        match self {
            CommandCategory::Dev => "dev",
            CommandCategory::Build => "build",
            CommandCategory::Test => "test",
            CommandCategory::Lint => "lint",
            CommandCategory::Script => "script",
            CommandCategory::Task => "task",
        }
    }

    /// Position in the category order (the order `Ord` gives).
    pub fn rank(&self) -> (r: i64)
        ensures
            r == category_rank(*self),
    {
        match self {
            CommandCategory::Dev => 0,
            CommandCategory::Build => 1,
            CommandCategory::Test => 2,
            CommandCategory::Lint => 3,
            CommandCategory::Script => 4,
            CommandCategory::Task => 5,
        }
    }
}

/// A command found in a project.
#[derive(Clone, Debug)]
pub struct CommandSpec {
    pub id: String,
    pub tool: DetectedTool,
    pub name: String,
    pub display_name: String,
    pub command: String,
    pub cwd: Option<String>,
    pub description: Option<String>,
    pub category: CommandCategory,
}

#[derive(Clone, Debug, PartialEq, Eq)]
pub enum RunStatus {
    Running,
    Exited { code: Option<i32> },
    Killed,
    Failed { message: String },
}

impl RunStatus {
    pub fn icon(&self) -> (r: &'static str)
        ensures
            r@ == match self {
                RunStatus::Running => "●"@,
                RunStatus::Exited { code: Some(0) } => "✓"@,
                RunStatus::Exited { .. } => "✗"@,
                RunStatus::Killed => "⊘"@,
                RunStatus::Failed { .. } => "✗"@,
            },
    {
        match self {
            RunStatus::Running => "●",
            RunStatus::Exited { code: Some(0) } => "✓",
            RunStatus::Exited { .. } => "✗",
            RunStatus::Killed => "⊘",
            RunStatus::Failed { .. } => "✗",
        }
    }

    pub fn is_running(&self) -> (r: bool)
        ensures
            r == (*self is Running),
    {
        match self {
            RunStatus::Running => true,
            _ => false,
        }
    }

    /// Exited with code zero.
    pub fn is_success(&self) -> (r: bool)
        ensures
            r == (*self == RunStatus::Exited { code: Some(0) }),
    {
        match self {
            RunStatus::Exited { code: Some(0) } => true,
            _ => false,
        }
    }
}

/// Elapsed time as the UI shows it: seconds below a minute, minutes and
/// seconds below an hour, hours and minutes beyond.
pub open spec fn elapsed_text(secs: nat) -> Seq<char> {
    if secs < 60 {
        decimal(secs) + "s"@
    } else if secs < 3600 {
        decimal(secs / 60) + "m "@ + decimal(secs % 60) + "s"@
    } else {
        decimal(secs / 3600) + "h "@ + decimal((secs % 3600) / 60) + "m"@
    }
}

/// Renders a number of seconds as `elapsed_text` describes.
pub fn format_elapsed(secs: u64) -> (r: String)
    ensures
        r@ == elapsed_text(secs as nat),
{
    if secs < 60 {
        let mut s = u64_to_string(secs);
        push_str(&mut s, "s");
        s
    } else if secs < 3600 {
        let mut s = u64_to_string(secs / 60);
        push_str(&mut s, "m ");
        let t = u64_to_string(secs % 60);
        push_str(&mut s, t.as_str());
        push_str(&mut s, "s");
        s
    } else {
        let mut s = u64_to_string(secs / 3600);
        push_str(&mut s, "h ");
        let t = u64_to_string((secs % 3600) / 60);
        push_str(&mut s, t.as_str());
        push_str(&mut s, "m");
        s
    }
}

/// One run of a project command.
#[derive(Clone, Debug)]
pub struct CommandRun {
    pub id: String,
    pub command_id: String,
    pub command: String,
    pub display_name: String,
    pub status: RunStatus,
    pub started_at: SystemTime,
    pub finished_at: Option<SystemTime>,
    pub exit_code: Option<i32>,
    pub pid: Option<u32>,
}

impl CommandRun {
    /// Time from the start to the finish, or to now while still running.
    pub fn duration(&self) -> (r: std::time::Duration)
        ensures
            match self.finished_at {
                Some(f) => r == elapsed(self.started_at, f),
                None => exists|t: SystemTime| r == #[trigger] elapsed(self.started_at, t),
            },
    {
        let end = match self.finished_at {
            Some(t) => t,
            None => now(),
        };
        elapsed_between(&self.started_at, &end)
    }

    /// The duration rendered as `elapsed_text` describes.
    pub fn duration_str(&self) -> (r: String)
        ensures
            match self.finished_at {
                Some(f) => r@ == elapsed_text(whole_secs(elapsed(self.started_at, f)) as nat),
                None => exists|t: SystemTime| r@ == elapsed_text(whole_secs(#[trigger] elapsed(self.started_at, t)) as nat),
            },
    {
        let d = self.duration();
        let secs = duration_secs(&d);
        format_elapsed(secs)
    }
}

/// What indexing a project found: its tools and their commands by id.
#[derive(Debug)]
pub struct ProjectIndex {
    pub root: String,
    pub tools: Vec<DetectedTool>,
    pub commands: StrMap<CommandSpec>,
    pub indexed_at: SystemTime,
}

impl Default for ProjectIndex {
    fn default() -> (r: Self)
        ensures
            r.root@.len() == 0,
            r.tools@.len() == 0,
            r.commands.keys().len() == 0,
    {
        ProjectIndex { root: String::new(), tools: Vec::new(), commands: StrMap::new(), indexed_at: unix_epoch() }
    }
}

/// Category ranks of a list of command specs.
pub open spec fn spec_ranks(s: Seq<CommandSpec>) -> Seq<i64> {
    s.map_values(|c: CommandSpec| category_rank(c.category) as i64)
}

/// Names of a list of command specs.
pub open spec fn spec_names(s: Seq<CommandSpec>) -> Seq<Seq<char>> {
    s.map_values(|c: CommandSpec| c.name@)
}

impl ProjectIndex {
    /// An empty index of `root`, stamped with the current time.
    pub fn new(root: String) -> (r: Self)
        ensures
            r.root == root,
            r.tools@.len() == 0,
            r.commands.keys().len() == 0,
    {
        ProjectIndex { root, tools: Vec::new(), commands: StrMap::new(), indexed_at: now() }
    }

    /// The commands ordered by category and then by name; commands with the
    /// same category and name keep their id order.
    pub fn commands_sorted(&self) -> (r: Vec<&CommandSpec>)
        ensures
            exists|ord: Seq<usize>|
                #![trigger is_stable_sort(spec_ranks(self.commands.vals()), spec_names(self.commands.vals()), ord)]
                is_stable_sort(spec_ranks(self.commands.vals()), spec_names(self.commands.vals()), ord) && r@.len() == ord.len() && forall|i: int|
                    0 <= i < r@.len() ==> *r@[i] == self.commands.vals()[#[trigger] ord[i] as int],
    {
        let n = self.commands.len();
        let mut ranks: Vec<i64> = Vec::new();
        let mut names: Vec<String> = Vec::new();
        let mut i: usize = 0;
        while i < n
            invariant
                i <= n,
                n == self.commands.vals().len(),
                ranks@ == spec_ranks(self.commands.vals()).take(i as int),
                ranks.len() == i,
                names.len() == i,
                names@.map_values(|s: String| s@) == spec_names(self.commands.vals()).take(i as int),
            decreases n - i,
        {
            let c = self.commands.value_at(i);
            ranks.push(c.category.rank());
            let nm = c.name.clone();
            assert(nm@ == c.name@);
            assert(c.name@ == spec_names(self.commands.vals())[i as int]);
            names.push(nm);
            proof {
                assert(names@[i as int]@ == spec_names(self.commands.vals())[i as int]);
                assert(ranks@ =~= spec_ranks(self.commands.vals()).take(i + 1));
                assert(names@.map_values(|s: String| s@) =~= spec_names(self.commands.vals()).take(i + 1));
            }
            i = i + 1;
        }
        proof {
            assert(ranks@ =~= spec_ranks(self.commands.vals()));
            assert(names@.map_values(|s: String| s@) =~= spec_names(self.commands.vals()));
        }
        let ord = stable_sort_indices(&ranks, &names);
        let mut out: Vec<&CommandSpec> = Vec::new();
        let mut k: usize = 0;
        while k < ord.len()
            invariant
                k <= ord.len(),
                ord.len() == n,
                n == self.commands.vals().len(),
                forall|j: int| 0 <= j < ord.len() ==> (#[trigger] ord@[j]) < n,
                out@.len() == k,
                forall|j: int| 0 <= j < k ==> *out@[j] == self.commands.vals()[#[trigger] ord@[j] as int],
            decreases ord.len() - k,
        {
            out.push(self.commands.value_at(ord[k]));
            k = k + 1;
        }
        out
    }
}

#[derive(Clone, Copy, Debug, PartialEq, Eq, Structural)]
pub enum LifecycleAction {
    Start,
    Stop,
    Restart,
    Toggle,
    Kill,
}

pub open spec fn action_label(a: LifecycleAction) -> Seq<char> {
    match a {
        LifecycleAction::Start => "Start"@,
        LifecycleAction::Stop => "Stop"@,
        LifecycleAction::Restart => "Restart"@,
        LifecycleAction::Toggle => "Toggle"@,
        LifecycleAction::Kill => "Kill"@,
    }
}

/// The label in lower case (the labels are ASCII).
pub open spec fn action_word(a: LifecycleAction) -> Seq<char> {
    match a {
        LifecycleAction::Start => "start"@,
        LifecycleAction::Stop => "stop"@,
        LifecycleAction::Restart => "restart"@,
        LifecycleAction::Toggle => "toggle"@,
        LifecycleAction::Kill => "kill"@,
    }
}

/// The key bound to an action in the unit list.
pub open spec fn action_key(a: LifecycleAction) -> Seq<char> {
    match a {
        LifecycleAction::Start => "t"@,
        LifecycleAction::Stop => "s"@,
        LifecycleAction::Restart => "r"@,
        LifecycleAction::Toggle => "Enter"@,
        LifecycleAction::Kill => "x"@,
    }
}

impl LifecycleAction {
    pub fn label(&self) -> (r: &'static str)
        ensures
            r@ == action_label(*self),
    {
        match self {
            LifecycleAction::Start => "Start",
            LifecycleAction::Stop => "Stop",
            LifecycleAction::Restart => "Restart",
            LifecycleAction::Toggle => "Toggle",
            LifecycleAction::Kill => "Kill",
        }
    }

    /// The label in lower case.
    pub fn word(&self) -> (r: &'static str)
        ensures
            r@ == action_word(*self),
    {
        match self {
            LifecycleAction::Start => "start",
            LifecycleAction::Stop => "stop",
            LifecycleAction::Restart => "restart",
            LifecycleAction::Toggle => "toggle",
            LifecycleAction::Kill => "kill",
        }
    }

    fn key(&self) -> (r: &'static str)
        ensures
            r@ == action_key(*self),
    {
        match self {
            LifecycleAction::Start => "t",
            LifecycleAction::Stop => "s",
            LifecycleAction::Restart => "r",
            LifecycleAction::Toggle => "Enter",
            LifecycleAction::Kill => "x",
        }
    }

    pub fn icon(&self) -> (r: &'static str)
        ensures
            r@ == match self {
                LifecycleAction::Start => "▶"@,
                LifecycleAction::Stop => "■"@,
                LifecycleAction::Restart => "⟲"@,
                LifecycleAction::Toggle => "⇄"@,
                LifecycleAction::Kill => "✕"@,
            },
    {
        match self {
            LifecycleAction::Start => "▶",
            LifecycleAction::Stop => "■",
            LifecycleAction::Restart => "⟲",
            LifecycleAction::Toggle => "⇄",
            LifecycleAction::Kill => "✕",
        }
    }
}

#[derive(Clone, Copy, Debug, PartialEq, Eq, Structural)]
pub enum UiAction {
    SwitchToLogs,
    SwitchToInspect,
    SwitchToDeps,
    OpenCommandPalette,
    ToggleFocus,
    ClearLogs,
    ToggleFollow,
    Quit,
    Help,
}

pub open spec fn ui_label(a: UiAction) -> Seq<char> {
    match a {
        UiAction::SwitchToLogs => "Logs View"@,
        UiAction::SwitchToInspect => "Inspect View"@,
        UiAction::SwitchToDeps => "Dependencies View"@,
        UiAction::OpenCommandPalette => "Command Palette"@,
        UiAction::ToggleFocus => "Toggle Focus"@,
        UiAction::ClearLogs => "Clear Logs"@,
        UiAction::ToggleFollow => "Toggle Follow"@,
        UiAction::Quit => "Quit"@,
        UiAction::Help => "Help"@,
    }
}

/// The id of a UI action's command: its variant name in lower case.
pub open spec fn ui_id(a: UiAction) -> Seq<char> {
    match a {
        UiAction::SwitchToLogs => "builtin.ui.switchtologs"@,
        UiAction::SwitchToInspect => "builtin.ui.switchtoinspect"@,
        UiAction::SwitchToDeps => "builtin.ui.switchtodeps"@,
        UiAction::OpenCommandPalette => "builtin.ui.opencommandpalette"@,
        UiAction::ToggleFocus => "builtin.ui.togglefocus"@,
        UiAction::ClearLogs => "builtin.ui.clearlogs"@,
        UiAction::ToggleFollow => "builtin.ui.togglefollow"@,
        UiAction::Quit => "builtin.ui.quit"@,
        UiAction::Help => "builtin.ui.help"@,
    }
}

pub open spec fn ui_key(a: UiAction) -> Seq<char> {
    match a {
        UiAction::SwitchToLogs => "l"@,
        UiAction::SwitchToInspect => "i"@,
        UiAction::SwitchToDeps => "d"@,
        UiAction::OpenCommandPalette => ":"@,
        UiAction::ToggleFocus => "Tab"@,
        UiAction::ClearLogs => "c"@,
        UiAction::ToggleFollow => "f"@,
        UiAction::Quit => "q"@,
        UiAction::Help => "?"@,
    }
}

impl UiAction {
    pub fn label(&self) -> (r: &'static str)
        ensures
            r@ == ui_label(*self),
    {
        match self {
            UiAction::SwitchToLogs => "Logs View",
            UiAction::SwitchToInspect => "Inspect View",
            UiAction::SwitchToDeps => "Dependencies View",
            UiAction::OpenCommandPalette => "Command Palette",
            UiAction::ToggleFocus => "Toggle Focus",
            UiAction::ClearLogs => "Clear Logs",
            UiAction::ToggleFollow => "Toggle Follow",
            UiAction::Quit => "Quit",
            UiAction::Help => "Help",
        }
    }

    fn command_id(&self) -> (r: &'static str)
        ensures
            r@ == ui_id(*self),
    {
        match self {
            UiAction::SwitchToLogs => "builtin.ui.switchtologs",
            UiAction::SwitchToInspect => "builtin.ui.switchtoinspect",
            UiAction::SwitchToDeps => "builtin.ui.switchtodeps",
            UiAction::OpenCommandPalette => "builtin.ui.opencommandpalette",
            UiAction::ToggleFocus => "builtin.ui.togglefocus",
            UiAction::ClearLogs => "builtin.ui.clearlogs",
            UiAction::ToggleFollow => "builtin.ui.togglefollow",
            UiAction::Quit => "builtin.ui.quit",
            UiAction::Help => "builtin.ui.help",
        }
    }

    fn key(&self) -> (r: &'static str)
        ensures
            r@ == ui_key(*self),
    {
        match self {
            UiAction::SwitchToLogs => "l",
            UiAction::SwitchToInspect => "i",
            UiAction::SwitchToDeps => "d",
            UiAction::OpenCommandPalette => ":",
            UiAction::ToggleFocus => "Tab",
            UiAction::ClearLogs => "c",
            UiAction::ToggleFollow => "f",
            UiAction::Quit => "q",
            UiAction::Help => "?",
        }
    }
}

#[derive(Clone, Debug, PartialEq, Eq)]
pub enum CommandKind {
    Lifecycle { unit_id: String, action: LifecycleAction },
    Exec { unit_id: String, command_id: String },
    Project { command_id: String },
    UI { action: UiAction },
}

impl CommandKind {
    /// The unit a lifecycle or exec command acts on.
    pub fn unit_id(&self) -> (r: Option<&str>)
        ensures
            match self {
                CommandKind::Lifecycle { unit_id, .. } => r is Some && r->0@ == unit_id@,
                CommandKind::Exec { unit_id, .. } => r is Some && r->0@ == unit_id@,
                _ => r is None,
            },
    {
        match self {
            CommandKind::Lifecycle { unit_id, .. } => Some(unit_id.as_str()),
            CommandKind::Exec { unit_id, .. } => Some(unit_id.as_str()),
            CommandKind::Project { .. } => None,
            CommandKind::UI { .. } => None,
        }
    }
}

#[derive(Clone, Debug, PartialEq, Eq)]
pub enum CommandScope {
    Global,
    Unit(String),
}

#[derive(Clone, Debug, PartialEq, Eq)]
pub enum CommandSource {
    Builtin,
    Detected,
    Config,
    Plugin(String),
}

pub open spec fn source_label(s: CommandSource) -> Seq<char> {
    match s {
        CommandSource::Builtin => "builtin"@,
        CommandSource::Detected => "detected"@,
        CommandSource::Config => "config"@,
        CommandSource::Plugin(name) => name@,
    }
}

impl CommandSource {
    pub fn label(&self) -> (r: &str)
        ensures
            r@ == source_label(*self),
    {
        match self {
            CommandSource::Builtin => "builtin",
            CommandSource::Detected => "detected",
            CommandSource::Config => "config",
            CommandSource::Plugin(name) => name.as_str(),
        }
    }
}

#[derive(Clone, Debug)]
pub struct ConfirmSpec {
    pub message: String,
    pub destructive: bool,
}

#[derive(Clone, Debug)]
pub struct KeyHint {
    pub key: String,
    pub global: bool,
}

/// A command the palette can run.
#[derive(Clone, Debug)]
pub struct RegistryCommand {
    pub id: String,
    pub title: String,
    pub description: Option<String>,
    pub kind: CommandKind,
    pub tags: Vec<String>,
    pub scope: CommandScope,
    pub confirm: Option<ConfirmSpec>,
    pub default_key: Option<KeyHint>,
    pub source: CommandSource,
}

/// One word of a query hits a command: it occurs in the lowercased title,
/// a lowercased tag, the lowercased description or the lowercased id.
pub open spec fn part_hits(c: RegistryCommand, part: Seq<char>) -> bool {
    seq_contains(unicode_lower(c.title@), part) || (exists|t: int|
        0 <= t < c.tags@.len() && seq_contains(unicode_lower(#[trigger] c.tags@[t]@), part))
        || (match c.description {
        Some(d) => seq_contains(unicode_lower(d@), part),
        None => false,
    }) || seq_contains(unicode_lower(c.id@), part)
}

/// Every whitespace-separated word of the lowercased query hits the command.
pub open spec fn cmd_matches(c: RegistryCommand, query: Seq<char>) -> bool {
    let parts = words(unicode_lower(query));
    forall|i: int| 0 <= i < parts.len() ==> part_hits(c, #[trigger] parts[i])
}

/// Some lowercased tag contains `q`.
pub open spec fn tag_hit(c: RegistryCommand, q: Seq<char>) -> bool {
    exists|t: int| 0 <= t < c.tags@.len() && seq_contains(unicode_lower(#[trigger] c.tags@[t]@), q)
}

/// The relevance of a command to a query: an exact, prefix or substring
/// title match, a tag match, and a bonus for short titles (measured in
/// UTF-8 bytes of the lowercased title, capped at 100).
pub open spec fn cmd_score(c: RegistryCommand, query: Seq<char>) -> int {
    let q = unicode_lower(query);
    let t = unicode_lower(c.title@);
    let title_part: int = if t == q {
        100
    } else if seq_starts_with(t, q) {
        50
    } else if seq_contains(t, q) {
        25
    } else {
        0
    };
    let tag_part: int = if tag_hit(c, q) {
        10
    } else {
        0
    };
    let blen = encode_utf8(t).len() as usize;
    let short: int = if blen >= 100 {
        0
    } else {
        (100 - blen) / 10
    };
    title_part + tag_part + short
}

/// Whether some lowercased text in `texts` contains `q`.
fn any_contains(texts: &Vec<String>, q: &str) -> (r: bool)
    ensures
        r == exists|t: int| 0 <= t < texts@.len() && seq_contains(unicode_lower(#[trigger] texts@[t]@), q@),
{
    let mut i: usize = 0;
    while i < texts.len()
        invariant
            i <= texts.len(),
            forall|t: int| 0 <= t < i ==> !seq_contains(unicode_lower(#[trigger] texts@[t]@), q@),
        decreases texts.len() - i,
    {
        let l = to_lower(texts[i].as_str());
        if str_contains(l.as_str(), q) {
            return true;
        }
        i = i + 1;
    }
    false
}

/// The built-in command that applies `action` to the unit `unit_id`.
pub open spec fn lifecycle_shaped(r: RegistryCommand, unit_id: Seq<char>, action: LifecycleAction) -> bool {
    &&& r.id@ == "builtin.lifecycle."@ + action_word(action) + "."@ + unit_id
    &&& r.title@ == action_label(action) + " "@ + unit_id
    &&& r.description is None
    &&& r.kind matches CommandKind::Lifecycle { unit_id: u, action: a } && u@ == unit_id && a == action
    &&& r.tags@.len() == 1
    &&& r.tags@[0]@ == "lifecycle"@
    &&& r.scope matches CommandScope::Unit(u) && u@ == unit_id
    &&& (action == LifecycleAction::Kill ==> (r.confirm matches Some(c) && c.message@ == "Kill "@ + unit_id
        + " and all child processes?"@ && c.destructive))
    &&& (action != LifecycleAction::Kill ==> r.confirm is None)
    &&& r.default_key matches Some(k) && k.key@ == action_key(action) && !k.global
    &&& r.source == CommandSource::Builtin
}

/// The built-in command for the UI action `action`.
pub open spec fn ui_shaped(r: RegistryCommand, action: UiAction) -> bool {
    &&& r.id@ == ui_id(action)
    &&& r.title@ == ui_label(action)
    &&& r.description is None
    &&& r.kind == (CommandKind::UI { action })
    &&& r.tags@.len() == 1
    &&& r.tags@[0]@ == "ui"@
    &&& r.scope == CommandScope::Global
    &&& r.confirm is None
    &&& r.default_key matches Some(k) && k.key@ == ui_key(action) && k.global
    &&& r.source == CommandSource::Builtin
}

/// The lifecycle actions in the order a unit's commands are registered.
pub open spec fn lifecycle_order() -> Seq<LifecycleAction> {
    seq![
        LifecycleAction::Start,
        LifecycleAction::Stop,
        LifecycleAction::Restart,
        LifecycleAction::Toggle,
        LifecycleAction::Kill,
    ]
}

/// The UI actions in the order their commands are registered.
pub open spec fn ui_order() -> Seq<UiAction> {
    seq![
        UiAction::SwitchToLogs,
        UiAction::SwitchToInspect,
        UiAction::SwitchToDeps,
        UiAction::OpenCommandPalette,
        UiAction::ToggleFocus,
        UiAction::ClearLogs,
        UiAction::ToggleFollow,
        UiAction::Quit,
        UiAction::Help,
    ]
}

/// The registry after registering `c`: unchanged when its id is taken,
/// else with `c` at the end.
pub open spec fn added(s: Seq<RegistryCommand>, c: RegistryCommand) -> Seq<RegistryCommand> {
    if has_id(s, c.id@) {
        s
    } else {
        s.push(c)
    }
}

/// The registry after registering each of `cs` in turn.
pub open spec fn added_all(s: Seq<RegistryCommand>, cs: Seq<RegistryCommand>) -> Seq<RegistryCommand>
    decreases cs.len(),
{
    if cs.len() == 0 {
        s
    } else {
        added(added_all(s, cs.drop_last()), cs.last())
    }
}

impl RegistryCommand {
    /// The built-in command that applies `action` to a unit.
    pub fn lifecycle(unit_id: &str, action: LifecycleAction) -> (r: Self)
        ensures
            lifecycle_shaped(r, unit_id@, action),
    {
        let mut id = owned("builtin.lifecycle.");
        push_str(&mut id, action.word());
        push_str(&mut id, ".");
        push_str(&mut id, unit_id);
        let mut title = owned(action.label());
        push_str(&mut title, " ");
        push_str(&mut title, unit_id);
        let mut tags: Vec<String> = Vec::new();
        tags.push(owned("lifecycle"));
        let confirm = match action {
            LifecycleAction::Kill => {
                let mut m = owned("Kill ");
                push_str(&mut m, unit_id);
                push_str(&mut m, " and all child processes?");
                Some(ConfirmSpec { message: m, destructive: true })
            },
            _ => None,
        };
        RegistryCommand {
            id,
            title,
            description: None,
            kind: CommandKind::Lifecycle { unit_id: owned(unit_id), action },
            tags,
            scope: CommandScope::Unit(owned(unit_id)),
            confirm,
            default_key: Some(KeyHint { key: owned(action.key()), global: false }),
            source: CommandSource::Builtin,
        }
    }

    /// The built-in command for a UI action.
    pub fn ui_action(action: UiAction) -> (r: Self)
        ensures
            ui_shaped(r, action),
    {
        let mut tags: Vec<String> = Vec::new();
        tags.push(owned("ui"));
        RegistryCommand {
            id: owned(action.command_id()),
            title: owned(action.label()),
            description: None,
            kind: CommandKind::UI { action },
            tags,
            scope: CommandScope::Global,
            confirm: None,
            default_key: Some(KeyHint { key: owned(action.key()), global: true }),
            source: CommandSource::Builtin,
        }
    }

    /// The palette command for a detected project command.
    pub fn from_command_spec(spec: &CommandSpec, source: CommandSource) -> (r: Self)
        ensures
            r.id@ == source_label(source) + "."@ + spec.id@,
            r.title@ == spec.display_name@,
            r.description == spec.description,
            r.kind matches CommandKind::Project { command_id: c } && c@ == spec.id@,
            r.tags@.len() == 2,
            r.tags@[0]@ == tool_tag(spec.tool),
            r.tags@[1]@ == category_label(spec.category),
            r.scope == CommandScope::Global,
            r.confirm is None,
            r.default_key is None,
            r.source == source,
    {
        let mut id = owned(source.label());
        push_str(&mut id, ".");
        push_str(&mut id, spec.id.as_str());
        let mut tags: Vec<String> = Vec::new();
        tags.push(owned(spec.tool.tag()));
        tags.push(owned(spec.category.label()));
        let description = match &spec.description {
            Some(d) => Some(d.clone()),
            None => None,
        };
        RegistryCommand {
            id,
            title: spec.display_name.clone(),
            description,
            kind: CommandKind::Project { command_id: spec.id.clone() },
            tags,
            scope: CommandScope::Global,
            confirm: None,
            default_key: None,
            source,
        }
    }

    /// Whether one (already lowercased) query word hits this command.
    fn hits(&self, part: &str) -> (r: bool)
        ensures
            r == part_hits(*self, part@),
    {
        let t = to_lower(self.title.as_str());
        if str_contains(t.as_str(), part) {
            return true;
        }
        if any_contains(&self.tags, part) {
            return true;
        }
        match &self.description {
            Some(d) => {
                let dl = to_lower(d.as_str());
                if str_contains(dl.as_str(), part) {
                    return true;
                }
            },
            None => {},
        }
        let il = to_lower(self.id.as_str());
        str_contains(il.as_str(), part)
    }

    /// Whether every word of the query occurs, ignoring case, in the title,
    /// a tag, the description or the id.
    pub fn matches(&self, query: &str) -> (r: bool)
        ensures
            r == cmd_matches(*self, query@),
    {
        let q = to_lower(query);
        let qc = chars_of(q.as_str());
        let parts = split_words(qc.as_slice());
        let ghost ps = words(unicode_lower(query@));
        assert(views_of(parts@) == ps);
        let mut i: usize = 0;
        while i < parts.len()
            invariant
                i <= parts.len(),
                views_of(parts@) == ps,
                ps == words(unicode_lower(query@)),
                forall|k: int| 0 <= k < i ==> part_hits(*self, #[trigger] ps[k]),
            decreases parts.len() - i,
        {
            let p = crate::text::string_of(parts[i].as_slice());
            assert(p@ == ps[i as int]);
            if !self.hits(p.as_str()) {
                assert(!cmd_matches(*self, query@)) by {
                    assert(words(unicode_lower(query@))[i as int] == ps[i as int]);
                    assert(!part_hits(*self, ps[i as int]));
                }
                return false;
            }
            i = i + 1;
        }
        true
    }

    /// The relevance score `cmd_score` describes.
    pub fn match_score(&self, query: &str) -> (r: u32)
        ensures
            r == cmd_score(*self, query@),
    {
        let q = to_lower(query);
        let t = to_lower(self.title.as_str());
        let mut score: u32 = 0;
        if t == q {
            score = score + 100;
        } else if str_starts_with(t.as_str(), q.as_str()) {
            score = score + 50;
        } else if str_contains(t.as_str(), q.as_str()) {
            score = score + 25;
        }
        if any_contains(&self.tags, q.as_str()) {
            score = score + 10;
        }
        let ts = t.as_str();
        let blen = ts.len();
        assert(ts@ == unicode_lower(self.title@));
        assert(blen == encode_utf8(unicode_lower(self.title@)).len() as usize);
        if blen < 100 {
            score = score + ((100 - blen) / 10) as u32;
        }
        score
    }
}

/// Whether a command is listed under a scope filter: the global filter lists
/// everything; a unit filter lists global commands and that unit's commands.
pub open spec fn in_scope(filter: Option<CommandScope>, c: RegistryCommand) -> bool {
    match filter {
        None => true,
        Some(CommandScope::Global) => true,
        Some(CommandScope::Unit(f)) => match c.scope {
            CommandScope::Unit(u) => u@ == f@,
            CommandScope::Global => true,
        },
    }
}

/// Some command in `s` has id `id`.
pub open spec fn has_id(s: Seq<RegistryCommand>, id: Seq<char>) -> bool {
    exists|i: int| 0 <= i < s.len() && (#[trigger] s[i]).id@ == id
}

/// The id of the lifecycle command for `action` on a unit.
pub open spec fn lifecycle_id(action: LifecycleAction, unit_id: Seq<char>) -> Seq<char> {
    "builtin.lifecycle."@ + action_word(action) + "."@ + unit_id
}

pub open spec fn is_lifecycle_for(c: RegistryCommand, unit_id: Seq<char>) -> bool {
    c.kind matches CommandKind::Lifecycle { unit_id: u, .. } && u@ == unit_id
}

pub open spec fn is_project(c: RegistryCommand) -> bool {
    c.kind is Project
}

pub open spec fn is_ui(c: RegistryCommand) -> bool {
    c.kind is UI
}

/// The scope a filter argument refers to.
pub open spec fn scope_of(s: Option<&CommandScope>) -> Option<CommandScope> {
    match s {
        Some(x) => Some(*x),
        None => None,
    }
}

/// Filtering a prefix one element longer.
pub proof fn lemma_filter_step<T>(s: Seq<T>, p: spec_fn(T) -> bool, i: int)
    requires
        0 <= i < s.len(),
    ensures
        s.take(i + 1).filter(p) == (if p(s[i]) {
            s.take(i).filter(p).push(s[i])
        } else {
            s.take(i).filter(p)
        }),
{
    reveal(Seq::filter);
    assert(s.take(i + 1).drop_last() =~= s.take(i));
    assert(s.take(i + 1).last() == s[i]);
}

/// The commands referenced by a list of references.
pub open spec fn derefs(v: Seq<&RegistryCommand>) -> Seq<RegistryCommand> {
    v.map_values(|c: &RegistryCommand| *c)
}

/// No two commands share an id.
pub open spec fn ids_distinct(s: Seq<RegistryCommand>) -> bool {
    forall|i: int, j: int| 0 <= i < s.len() && 0 <= j < s.len() && i != j ==> (#[trigger] s[i]).id@ != (#[trigger] s[j]).id@
}

/// Score ranks (negated scores) of a list of commands for a query.
pub open spec fn score_ranks(s: Seq<RegistryCommand>, query: Seq<char>) -> Seq<i64> {
    s.map_values(|c: RegistryCommand| (-cmd_score(c, query)) as i64)
}

/// The commands registered so far, in the order they were added; no two
/// share an id.
#[derive(Debug)]
pub struct CommandRegistry {
    commands: Vec<RegistryCommand>,
}

impl View for CommandRegistry {
    type V = Seq<RegistryCommand>;

    closed spec fn view(&self) -> Seq<RegistryCommand> {
        self.commands@
    }
}

impl Default for CommandRegistry {
    fn default() -> (r: Self)
        ensures
            r@ == Seq::<RegistryCommand>::empty(),
    {
        CommandRegistry { commands: Vec::new() }
    }
}

/// Which commands a registry query picks.
#[derive(Clone, Copy)]
enum Selector<'a> {
    LifecycleOf(&'a str),
    Project,
    Ui,
}

spec fn selects(which: Selector, c: RegistryCommand) -> bool {
    match which {
        Selector::LifecycleOf(u) => is_lifecycle_for(c, u@),
        Selector::Project => is_project(c),
        Selector::Ui => is_ui(c),
    }
}

fn selector_admits(which: Selector, c: &RegistryCommand) -> (r: bool)
    ensures
        r == selects(which, *c),
{
    match which {
        Selector::LifecycleOf(u) => match &c.kind {
            CommandKind::Lifecycle { unit_id, .. } => str_eq(unit_id.as_str(), u),
            _ => false,
        },
        Selector::Project => match &c.kind {
            CommandKind::Project { .. } => true,
            _ => false,
        },
        Selector::Ui => match &c.kind {
            CommandKind::UI { .. } => true,
            _ => false,
        },
    }
}

/// Equality of two texts.
pub fn str_eq(a: &str, b: &str) -> (r: bool)
    ensures
        r == (a@ == b@),
{
    let x = chars_of(a);
    let y = chars_of(b);
    if x.len() != y.len() {
        return false;
    }
    let mut i: usize = 0;
    while i < x.len()
        invariant
            i <= x.len(),
            x.len() == y.len(),
            x@ == a@,
            y@ == b@,
            forall|k: int| 0 <= k < i ==> x@[k] == y@[k],
        decreases x.len() - i,
    {
        if x[i] != y[i] {
            assert(x@[i as int] != y@[i as int]);
            return false;
        }
        i = i + 1;
    }
    assert(x@ =~= y@);
    true
}

/// `n` empty texts.
pub open spec fn blank_texts(n: nat) -> Seq<Seq<char>> {
    Seq::new(n, |_i: int| Seq::<char>::empty())
}

/// Whether a command is listed under a scope filter (`in_scope`).
fn scope_admits(scope: Option<&CommandScope>, c: &RegistryCommand) -> (r: bool)
    ensures
        r == in_scope(scope_of(scope), *c),
{
    match scope {
        None => true,
        Some(fs) => match fs {
            CommandScope::Global => true,
            CommandScope::Unit(f) => match &c.scope {
                CommandScope::Unit(u) => {
                    let e = u.eq(f);
                    e
                },
                CommandScope::Global => true,
            },
        },
    }
}

impl CommandRegistry {
    #[verifier::type_invariant]
    closed spec fn inv(&self) -> bool {
        ids_distinct(self.commands@)
    }

    pub fn new() -> (r: Self)
        ensures
            r@ == Seq::<RegistryCommand>::empty(),
    {
        CommandRegistry { commands: Vec::new() }
    }

    /// Registers `cmd` unless a command with its id is already registered.
    pub fn add(&mut self, cmd: RegistryCommand)
        ensures
            final(self)@ == added(old(self)@, cmd),
            (exists|i: int| 0 <= i < old(self)@.len() && (#[trigger] old(self)@[i]).id@ == cmd.id@)
                ==> final(self)@ == old(self)@,
            !(exists|i: int| 0 <= i < old(self)@.len() && (#[trigger] old(self)@[i]).id@ == cmd.id@)
                ==> final(self)@ == old(self)@.push(cmd),
            ids_distinct(final(self)@),
            old(self)@.len() <= final(self)@.len(),
            forall|i: int| 0 <= i < old(self)@.len() ==> final(self)@[i] == old(self)@[i],
            exists|i: int| 0 <= i < final(self)@.len() && (#[trigger] final(self)@[i]).id@ == cmd.id@,
            forall|id: Seq<char>| has_id(old(self)@, id) ==> #[trigger] has_id(final(self)@, id),
    {
        proof {
            use_type_invariant(&*self);
        }
        let mut i: usize = 0;
        while i < self.commands.len()
            invariant
                i <= self.commands.len(),
                ids_distinct(self.commands@),
                forall|k: int| 0 <= k < i ==> (#[trigger] self.commands@[k]).id@ != cmd.id@,
            decreases self.commands.len() - i,
        {
            if self.commands[i].id == cmd.id {
                assert(self@[i as int].id@ == cmd.id@);
                assert(ids_distinct(self@));
                return;
            }
            i = i + 1;
        }
        let mut tmp: Vec<RegistryCommand> = Vec::new();
        std::mem::swap(&mut tmp, &mut self.commands);
        let ghost before = tmp@;
        tmp.push(cmd);
        proof {
            assert forall|a: int, b: int| 0 <= a < tmp@.len() && 0 <= b < tmp@.len() && a != b implies (#[trigger] tmp@[a]).id@
                != (#[trigger] tmp@[b]).id@ by {
                if a < before.len() && b < before.len() {
                    assert(tmp@[a] == before[a] && tmp@[b] == before[b]);
                }
            }
        }
        self.commands = tmp;
        assert(self@[self@.len() - 1].id@ == cmd.id@);
        proof {
            assert forall|id: Seq<char>| has_id(old(self)@, id) implies #[trigger] has_id(self@, id) by {
                let i = choose|i: int| 0 <= i < old(self)@.len() && (#[trigger] old(self)@[i]).id@ == id;
                assert(self@[i] == old(self)@[i]);
            }
        }
    }

    /// Registers the five lifecycle commands of a unit: start, stop,
    /// restart, toggle and kill, in that order, each unless its id is taken.
    pub fn add_unit_lifecycle(&mut self, unit_id: &str)
        ensures
            exists|cs: Seq<RegistryCommand>|
                cs.len() == 5 && (forall|k: int| 0 <= k < 5 ==> lifecycle_shaped(#[trigger] cs[k], unit_id@, lifecycle_order()[k]))
                    && final(self)@ == added_all(old(self)@, cs),
            ids_distinct(final(self)@),
            old(self)@.len() <= final(self)@.len(),
            forall|i: int| 0 <= i < old(self)@.len() ==> final(self)@[i] == old(self)@[i],
            forall|a: LifecycleAction| #[trigger] has_id(final(self)@, lifecycle_id(a, unit_id@)),
            forall|id: Seq<char>| has_id(old(self)@, id) ==> #[trigger] has_id(final(self)@, id),
    {
        let ghost s0 = self@;
        let c1 = RegistryCommand::lifecycle(unit_id, LifecycleAction::Start);
        let ghost g1 = c1;
        self.add(c1);
        let c2 = RegistryCommand::lifecycle(unit_id, LifecycleAction::Stop);
        let ghost g2 = c2;
        self.add(c2);
        let c3 = RegistryCommand::lifecycle(unit_id, LifecycleAction::Restart);
        let ghost g3 = c3;
        self.add(c3);
        let c4 = RegistryCommand::lifecycle(unit_id, LifecycleAction::Toggle);
        let ghost g4 = c4;
        self.add(c4);
        let c5 = RegistryCommand::lifecycle(unit_id, LifecycleAction::Kill);
        let ghost g5 = c5;
        self.add(c5);
        proof {
            let cs = seq![g1, g2, g3, g4, g5];
            assert(cs.drop_last() =~= seq![g1, g2, g3, g4]);
            assert(seq![g1, g2, g3, g4].drop_last() =~= seq![g1, g2, g3]);
            assert(seq![g1, g2, g3].drop_last() =~= seq![g1, g2]);
            assert(seq![g1, g2].drop_last() =~= seq![g1]);
            assert(seq![g1].drop_last() =~= Seq::<RegistryCommand>::empty());
            reveal_with_fuel(added_all, 10);
            assert(self@ == added_all(s0, cs));
            assert forall|k: int| 0 <= k < 5 implies lifecycle_shaped(#[trigger] cs[k], unit_id@, lifecycle_order()[k]) by {
            }
            assert forall|a: LifecycleAction| #[trigger] has_id(self@, lifecycle_id(a, unit_id@)) by {
                match a {
                    LifecycleAction::Start => {},
                    LifecycleAction::Stop => {},
                    LifecycleAction::Restart => {},
                    LifecycleAction::Toggle => {},
                    LifecycleAction::Kill => {},
                }
            }
        }
    }

    /// Registers the commands of the nine UI actions, in `ui_order`, each
    /// unless its id is taken.
    pub fn add_ui_actions(&mut self)
        ensures
            exists|cs: Seq<RegistryCommand>|
                cs.len() == 9 && (forall|k: int| 0 <= k < 9 ==> ui_shaped(#[trigger] cs[k], ui_order()[k]))
                    && final(self)@ == added_all(old(self)@, cs),
            ids_distinct(final(self)@),
            old(self)@.len() <= final(self)@.len(),
            forall|i: int| 0 <= i < old(self)@.len() ==> final(self)@[i] == old(self)@[i],
            forall|a: UiAction| #[trigger] has_id(final(self)@, ui_id(a)),
            forall|id: Seq<char>| has_id(old(self)@, id) ==> #[trigger] has_id(final(self)@, id),
    {
        let ghost s0 = self@;
        let c1 = RegistryCommand::ui_action(UiAction::SwitchToLogs);
        let ghost g1 = c1;
        self.add(c1);
        let c2 = RegistryCommand::ui_action(UiAction::SwitchToInspect);
        let ghost g2 = c2;
        self.add(c2);
        let c3 = RegistryCommand::ui_action(UiAction::SwitchToDeps);
        let ghost g3 = c3;
        self.add(c3);
        let c4 = RegistryCommand::ui_action(UiAction::OpenCommandPalette);
        let ghost g4 = c4;
        self.add(c4);
        let c5 = RegistryCommand::ui_action(UiAction::ToggleFocus);
        let ghost g5 = c5;
        self.add(c5);
        let c6 = RegistryCommand::ui_action(UiAction::ClearLogs);
        let ghost g6 = c6;
        self.add(c6);
        let c7 = RegistryCommand::ui_action(UiAction::ToggleFollow);
        let ghost g7 = c7;
        self.add(c7);
        let c8 = RegistryCommand::ui_action(UiAction::Quit);
        let ghost g8 = c8;
        self.add(c8);
        let c9 = RegistryCommand::ui_action(UiAction::Help);
        let ghost g9 = c9;
        self.add(c9);
        proof {
            let cs = seq![g1, g2, g3, g4, g5, g6, g7, g8, g9];
            assert(cs.drop_last() =~= seq![g1, g2, g3, g4, g5, g6, g7, g8]);
            assert(seq![g1, g2, g3, g4, g5, g6, g7, g8].drop_last() =~= seq![g1, g2, g3, g4, g5, g6, g7]);
            assert(seq![g1, g2, g3, g4, g5, g6, g7].drop_last() =~= seq![g1, g2, g3, g4, g5, g6]);
            assert(seq![g1, g2, g3, g4, g5, g6].drop_last() =~= seq![g1, g2, g3, g4, g5]);
            assert(seq![g1, g2, g3, g4, g5].drop_last() =~= seq![g1, g2, g3, g4]);
            assert(seq![g1, g2, g3, g4].drop_last() =~= seq![g1, g2, g3]);
            assert(seq![g1, g2, g3].drop_last() =~= seq![g1, g2]);
            assert(seq![g1, g2].drop_last() =~= seq![g1]);
            assert(seq![g1].drop_last() =~= Seq::<RegistryCommand>::empty());
            reveal_with_fuel(added_all, 10);
            assert(self@ == added_all(s0, cs));
            assert forall|k: int| 0 <= k < 9 implies ui_shaped(#[trigger] cs[k], ui_order()[k]) by {
            }
            assert forall|a: UiAction| #[trigger] has_id(self@, ui_id(a)) by {
                match a {
                    UiAction::SwitchToLogs => {},
                    UiAction::SwitchToInspect => {},
                    UiAction::SwitchToDeps => {},
                    UiAction::OpenCommandPalette => {},
                    UiAction::ToggleFocus => {},
                    UiAction::ClearLogs => {},
                    UiAction::ToggleFollow => {},
                    UiAction::Quit => {},
                    UiAction::Help => {},
                }
            }
        }
    }

    /// Registers a palette command for every command of the index, in id
    /// order, with the `detected` source.
    pub fn add_from_project_index(&mut self, index: &ProjectIndex)
        ensures
            ids_distinct(final(self)@),
            old(self)@.len() <= final(self)@.len(),
            forall|i: int| 0 <= i < old(self)@.len() ==> final(self)@[i] == old(self)@[i],
            forall|k: int| 0 <= k < index.commands.vals().len() ==> has_id(final(self)@, "detected"@ + "."@ + (#[trigger] index.commands.vals()[k]).id@),
            forall|id: Seq<char>| has_id(old(self)@, id) ==> #[trigger] has_id(final(self)@, id),
    {
        proof {
            use_type_invariant(&*self);
        }
        let n = index.commands.len();
        let mut i: usize = 0;
        while i < n
            invariant
                i <= n,
                n == index.commands.vals().len(),
                ids_distinct(self@),
                old(self)@.len() <= self@.len(),
                forall|j: int| 0 <= j < old(self)@.len() ==> self@[j] == old(self)@[j],
                forall|k: int| 0 <= k < i ==> has_id(self@, "detected"@ + "."@ + (#[trigger] index.commands.vals()[k]).id@),
                forall|id: Seq<char>| has_id(old(self)@, id) ==> #[trigger] has_id(self@, id),
            decreases n - i,
        {
            let spec = index.commands.value_at(i);
            let ghost before = self@;
            self.add(RegistryCommand::from_command_spec(spec, CommandSource::Detected));
            proof {
                assert forall|k: int| 0 <= k < i + 1 implies has_id(self@, "detected"@ + "."@ + (#[trigger] index.commands.vals()[k]).id@) by {
                    if k < i {
                        assert(has_id(before, "detected"@ + "."@ + index.commands.vals()[k].id@));
                    } else {
                        assert(source_label(CommandSource::Detected) == "detected"@);
                    }
                }
            }
            i = i + 1;
        }
    }

    /// The commands listed under a scope filter, in registration order.
    pub fn list(&self, scope: Option<&CommandScope>) -> (r: Vec<&RegistryCommand>)
        ensures
            derefs(r@) == self@.filter(|c: RegistryCommand| in_scope(scope_of(scope), c)),
    {
        let ghost p = |c: RegistryCommand| in_scope(scope_of(scope), c);
        let mut out: Vec<&RegistryCommand> = Vec::new();
        let mut i: usize = 0;
        while i < self.commands.len()
            invariant
                i <= self.commands.len(),
                p == |c: RegistryCommand| in_scope(scope_of(scope), c),
                derefs(out@) == self@.take(i as int).filter(p),
            decreases self.commands.len() - i,
        {
            let c = &self.commands[i];
            let keep = scope_admits(scope, c);
            proof {
                lemma_filter_step(self@, p, i as int);
                assert(*c == self@[i as int]);
                assert(p(self@[i as int]) == in_scope(scope_of(scope), self@[i as int]));
                assert(keep == p(self@[i as int]));
            }
            let ghost prev = derefs(out@);
            if keep {
                out.push(c);
                assert(derefs(out@) =~= prev.push(*c));
            }
            i = i + 1;
        }
        assert(self@.take(self@.len() as int) =~= self@);
        out
    }

    /// The commands a selector picks, in registration order.
    fn select(&self, which: Selector) -> (r: Vec<&RegistryCommand>)
        ensures
            derefs(r@) == self@.filter(|c: RegistryCommand| selects(which, c)),
    {
        let ghost p = |c: RegistryCommand| selects(which, c);
        let mut out: Vec<&RegistryCommand> = Vec::new();
        let mut i: usize = 0;
        while i < self.commands.len()
            invariant
                i <= self.commands.len(),
                p == |c: RegistryCommand| selects(which, c),
                derefs(out@) == self@.take(i as int).filter(p),
            decreases self.commands.len() - i,
        {
            let c = &self.commands[i];
            let keep = selector_admits(which, c);
            proof {
                lemma_filter_step(self@, p, i as int);
                assert(*c == self@[i as int]);
                assert(p(self@[i as int]) == selects(which, self@[i as int]));
            }
            let ghost prev = derefs(out@);
            if keep {
                out.push(c);
                assert(derefs(out@) =~= prev.push(*c));
            }
            i = i + 1;
        }
        assert(self@.take(self@.len() as int) =~= self@);
        out
    }

    /// The lifecycle commands of a unit.
    pub fn lifecycle_commands(&self, unit_id: &str) -> (r: Vec<&RegistryCommand>)
        ensures
            derefs(r@) == self@.filter(|c: RegistryCommand| is_lifecycle_for(c, unit_id@)),
    {
        let r = self.select(Selector::LifecycleOf(unit_id));
        assert(self@.filter(|c: RegistryCommand| selects(Selector::LifecycleOf(unit_id), c)) =~= self@.filter(|c: RegistryCommand| is_lifecycle_for(c, unit_id@))) by {
            assert((|c: RegistryCommand| selects(Selector::LifecycleOf(unit_id), c)) =~= (|c: RegistryCommand| is_lifecycle_for(c, unit_id@)));
        }
        r
    }

    /// The project commands.
    pub fn project_commands(&self) -> (r: Vec<&RegistryCommand>)
        ensures
            derefs(r@) == self@.filter(|c: RegistryCommand| is_project(c)),
    {
        let r = self.select(Selector::Project);
        assert(self@.filter(|c: RegistryCommand| selects(Selector::Project, c)) =~= self@.filter(|c: RegistryCommand| is_project(c))) by {
            assert((|c: RegistryCommand| selects(Selector::Project, c)) =~= (|c: RegistryCommand| is_project(c)));
        }
        r
    }

    /// The UI commands.
    pub fn ui_commands(&self) -> (r: Vec<&RegistryCommand>)
        ensures
            derefs(r@) == self@.filter(|c: RegistryCommand| is_ui(c)),
    {
        let r = self.select(Selector::Ui);
        assert(self@.filter(|c: RegistryCommand| selects(Selector::Ui, c)) =~= self@.filter(|c: RegistryCommand| is_ui(c))) by {
            assert((|c: RegistryCommand| selects(Selector::Ui, c)) =~= (|c: RegistryCommand| is_ui(c)));
        }
        r
    }

    /// The command with id `id`, if registered.
    pub fn get(&self, id: &str) -> (r: Option<&RegistryCommand>)
        ensures
            match r {
                Some(c) => c.id@ == id@ && exists|i: int| 0 <= i < self@.len() && self@[i] == *c,
                None => !has_id(self@, id@),
            },
    {
        let mut i: usize = 0;
        while i < self.commands.len()
            invariant
                i <= self.commands.len(),
                forall|k: int| 0 <= k < i ==> (#[trigger] self@[k]).id@ != id@,
            decreases self.commands.len() - i,
        {
            let c = &self.commands[i];
            if str_eq(c.id.as_str(), id) {
                assert(self@[i as int] == *c);
                return Some(c);
            }
            i = i + 1;
        }
        None
    }

    /// The commands listed under `scope` that match `query`, ordered by
    /// score from highest to lowest; commands with equal scores keep their
    /// registration order.  An empty query lists everything under `scope`.
    pub fn search(&self, query: &str, scope: Option<&CommandScope>) -> (r: Vec<&RegistryCommand>)
        ensures
            query@.len() == 0 ==> derefs(r@) == self@.filter(|c: RegistryCommand| in_scope(scope_of(scope), c)),
            query@.len() > 0 ==> ({
                let m = self@.filter(|c: RegistryCommand| in_scope(scope_of(scope), c)).filter(|c: RegistryCommand| cmd_matches(c, query@));
                exists|ord: Seq<usize>| #![trigger is_stable_sort(score_ranks(m, query@), blank_texts(m.len()), ord)]
                    is_stable_sort(score_ranks(m, query@), blank_texts(m.len()), ord) && r@.len() == ord.len() && forall|i: int|
                        0 <= i < r@.len() ==> *r@[i] == m[#[trigger] ord[i] as int]
            }),
    {
        let qc = chars_of(query);
        if qc.len() == 0 {
            return self.list(scope);
        }
        let listed = self.list(scope);
        let ghost l = derefs(listed@);
        let ghost p = |c: RegistryCommand| cmd_matches(c, query@);
        let mut found: Vec<&RegistryCommand> = Vec::new();
        let mut ranks: Vec<i64> = Vec::new();
        let mut texts: Vec<String> = Vec::new();
        let mut i: usize = 0;
        while i < listed.len()
            invariant
                i <= listed.len(),
                l == derefs(listed@),
                p == |c: RegistryCommand| cmd_matches(c, query@),
                derefs(found@) == l.take(i as int).filter(p),
                ranks@ == score_ranks(derefs(found@), query@),
                texts@.map_values(|s: String| s@) == blank_texts(found@.len()),
                texts.len() == found.len(),
            decreases listed.len() - i,
        {
            let c = listed[i];
            proof {
                lemma_filter_step(l, p, i as int);
                assert(*c == l[i as int]);
            }
            let ghost prev = derefs(found@);
            if c.matches(query) {
                let sc = c.match_score(query);
                found.push(c);
                ranks.push(-(sc as i64));
                let e = String::new();
                let ghost tprev = texts@;
                texts.push(e);
                proof {
                    assert(texts@[texts.len() - 1]@ == Seq::<char>::empty());
                    assert forall|j: int| #![trigger texts@[j]] 0 <= j < texts.len() implies texts@.map_values(|s: String| s@)[j] == blank_texts(found@.len())[j] by {
                        if j < tprev.len() {
                            assert(texts@[j] == tprev[j]);
                            assert(tprev.map_values(|s: String| s@)[j] == blank_texts(prev.len())[j]);
                        }
                    }
                    assert(derefs(found@) =~= prev.push(*c));
                    assert(ranks@ =~= score_ranks(derefs(found@), query@));
                    assert(texts@.map_values(|s: String| s@) =~= blank_texts(found@.len()));
                }
            }
            i = i + 1;
        }
        assert(l.take(l.len() as int) =~= l);
        let ord = stable_sort_indices(&ranks, &texts);
        let ghost m = derefs(found@);
        let mut out: Vec<&RegistryCommand> = Vec::new();
        let mut k: usize = 0;
        while k < ord.len()
            invariant
                k <= ord.len(),
                ord.len() == found.len(),
                m == derefs(found@),
                forall|j: int| 0 <= j < ord.len() ==> (#[trigger] ord@[j]) < found.len(),
                out@.len() == k,
                forall|j: int| 0 <= j < k ==> *out@[j] == m[#[trigger] ord@[j] as int],
            decreases ord.len() - k,
        {
            out.push(found[ord[k]]);
            k = k + 1;
        }
        out
    }

    pub fn len(&self) -> (r: usize)
        ensures
            r == self@.len(),
    {
        self.commands.len()
    }

    pub fn is_empty(&self) -> (r: bool)
        ensures
            r == (self@.len() == 0),
    {
        self.commands.len() == 0
    }
}

/// Title matches rank in classes: for two commands whose lowercased titles
/// have the same length and whose tags both hit the query or both miss
/// it, a title equal to the query scores 50 more than one that starts with
/// it, a title that starts with the query scores 25 more than one that
/// only contains it, and one that contains it scores 25 more than one that
/// does not.  A tag hit adds 10.
pub proof fn law_title_match_classes(a: RegistryCommand, b: RegistryCommand, query: Seq<char>)
    requires
        unicode_lower(a.title@).len() == unicode_lower(b.title@).len(),
        encode_utf8(unicode_lower(a.title@)).len() == encode_utf8(unicode_lower(b.title@)).len(),
    ensures
        ({
            let q = unicode_lower(query);
            let ta = unicode_lower(a.title@);
            let tb = unicode_lower(b.title@);
            let same_tags = tag_hit(a, q) == tag_hit(b, q);
            &&& same_tags && ta == q && tb != q && seq_starts_with(tb, q) ==> cmd_score(a, query) == cmd_score(b, query) + 50
            &&& same_tags && ta != q && seq_starts_with(ta, q) && !seq_starts_with(tb, q) && seq_contains(tb, q)
                ==> cmd_score(a, query) == cmd_score(b, query) + 25
            &&& same_tags && !seq_starts_with(ta, q) && seq_contains(ta, q) && !seq_contains(tb, q)
                ==> cmd_score(a, query) == cmd_score(b, query) + 25
            &&& ta == tb && tag_hit(a, q) && !tag_hit(b, q) ==> cmd_score(a, query) == cmd_score(b, query) + 10
            &&& same_tags && seq_starts_with(ta, q) && !seq_starts_with(tb, q) ==> cmd_score(a, query) > cmd_score(b, query)
        }),
{
    let q = unicode_lower(query);
    let ta = unicode_lower(a.title@);
    let tb = unicode_lower(b.title@);
    lemma_score_parts(a, query);
    lemma_score_parts(b, query);
    assert(short_bonus(ta) == short_bonus(tb));
    lemma_match_kinds(ta, q);
    lemma_match_kinds(tb, q);
}

/// A title equal to the query starts with it, and one that starts with it
/// contains it.
proof fn lemma_match_kinds(t: Seq<char>, q: Seq<char>)
    ensures
        t == q ==> seq_starts_with(t, q),
        seq_starts_with(t, q) ==> seq_contains(t, q),
{
    if t == q {
        assert(t.subrange(0, t.len() as int) =~= t);
    }
    if seq_starts_with(t, q) {
        assert(crate::text::occurs_at(t, q, 0));
    }
}

spec fn title_class(t: Seq<char>, q: Seq<char>) -> int {
    if t == q {
        100
    } else if seq_starts_with(t, q) {
        50
    } else if seq_contains(t, q) {
        25
    } else {
        0
    }
}

spec fn short_bonus(t: Seq<char>) -> int {
    let blen = encode_utf8(t).len() as usize;
    if blen >= 100 {
        0
    } else {
        (100 - blen) / 10
    }
}

proof fn lemma_score_parts(c: RegistryCommand, query: Seq<char>)
    ensures
        cmd_score(c, query) == title_class(unicode_lower(c.title@), unicode_lower(query)) + (if tag_hit(
            c,
            unicode_lower(query),
        ) {
            10int
        } else {
            0int
        }) + short_bonus(unicode_lower(c.title@)),
{
}

} // verus!
