//! The built-in plugins: what each recognises in a project and the commands
//! it contributes.
//!
//! Whether a plugin applies is decided from which files the project root
//! holds; those checks, and the confidence each plugin reports, belong to
//! the program around the library.
use vstd::prelude::*;

use crate::command::{run_prefix_text, CommandCategory, CommandSpec, DetectedTool, PackageManager, PythonPackageManager};
use crate::text::{
    chars_of, join_path, owned, path_join, push_char, push_str, seq_contains, str_contains, to_lower,
    unicode_lower,
};

verus! {

/// What the doctor found out about the machine.
#[derive(Clone, Debug)]
pub struct EnvironmentInfo {
    pub available_commands: Vec<String>,
    pub has_docker: bool,
    pub node_version: Option<String>,
    pub python_version: Option<String>,
    pub rust_version: Option<String>,
}

impl Default for EnvironmentInfo {
    fn default() -> (r: Self)
        ensures
            r.available_commands@.len() == 0,
            !r.has_docker,
            r.node_version is None,
            r.python_version is None,
            r.rust_version is None,
    {
        EnvironmentInfo {
            available_commands: Vec::new(),
            has_docker: false,
            node_version: None,
            python_version: None,
            rust_version: None,
        }
    }
}

/// What a plugin looks at when it detects a project.
#[derive(Clone, Debug)]
pub struct DetectContext {
    pub repo_root: String,
    pub known_files: Vec<String>,
    pub env_info: EnvironmentInfo,
}

impl DetectContext {
    pub fn new(repo_root: String) -> (r: Self)
        ensures
            r.repo_root == repo_root,
            r.known_files@.len() == 0,
            r.env_info.available_commands@.len() == 0,
            !r.env_info.has_docker,
    {
        DetectContext { repo_root, known_files: Vec::new(), env_info: EnvironmentInfo::default() }
    }

    /// The path of a file of the project.
    pub fn file_path(&self, name: &str) -> (r: String)
        ensures
            r@ == path_join(self.repo_root@, name@),
    {
        join_path(self.repo_root.as_str(), name)
    }
}

/// What a plugin gets when it contributes.
#[derive(Clone, Debug)]
pub struct PluginContext {
    pub repo_root: String,
    pub plugin_id: String,
}

/// Reads `package.json` scripts.
#[derive(Clone, Copy, Debug)]
pub struct NodePlugin;

/// Offers the standard cargo commands.
#[derive(Clone, Copy, Debug)]
pub struct RustPlugin;

/// Offers the commands of a Python project's package manager.
#[derive(Clone, Copy, Debug)]
pub struct PythonPlugin;

/// Offers the standard Docker Compose commands.
#[derive(Clone, Copy, Debug)]
pub struct DockerPlugin;

/// `s` with every space replaced by `-`.
pub open spec fn dashed(s: Seq<char>) -> Seq<char> {
    s.map_values(|c: char| if c == ' ' { '-' } else { c })
}

fn dashes(s: &str) -> (r: String)
    ensures
        r@ == dashed(s@),
{
    let cs = chars_of(s);
    let mut out = String::new();
    let mut i: usize = 0;
    while i < cs.len()
        invariant
            i <= cs.len(),
            cs@ == s@,
            out@ == dashed(s@.take(i as int)),
        decreases cs.len() - i,
    {
        let c = cs[i];
        push_char(&mut out, if c == ' ' { '-' } else { c });
        i = i + 1;
        assert(out@ =~= dashed(s@.take(i as int)));
    }
    assert(s@.take(cs.len() as int) =~= s@);
    out
}

/// A row of a plugin's command table: name, command line, category.
pub type Row = (Seq<char>, Seq<char>, CommandCategory);

/// Whether `c` is the plugin command of `row`, with ids made of `prefix`
/// and the name with spaces as dashes.
pub open spec fn listed(c: CommandSpec, prefix: Seq<char>, tool: DetectedTool, row: Row) -> bool {
    &&& c.id@ == prefix + dashed(row.0)
    &&& c.tool == tool
    &&& c.name@ == row.0
    &&& c.display_name@ == row.1
    &&& c.command@ == row.1
    &&& c.cwd is None
    &&& c.description is None
    &&& c.category == row.2
}

/// `cs` lists the rows of `table` in order.
pub open spec fn lists(cs: Seq<CommandSpec>, prefix: Seq<char>, tool: DetectedTool, table: Seq<Row>) -> bool {
    cs.len() == table.len() && forall|i: int| 0 <= i < cs.len() ==> listed(#[trigger] cs[i], prefix, tool, table[i])
}

fn command_row(prefix: &str, tool: &DetectedTool, name: &str, command: &str, category: CommandCategory) -> (c: CommandSpec)
    ensures
        listed(c, prefix@, *tool, (name@, command@, category)),
{
    let mut id = owned(prefix);
    push_str(&mut id, dashes(name).as_str());
    CommandSpec {
        id,
        tool: tool.clone(),
        name: owned(name),
        display_name: owned(command),
        command: owned(command),
        cwd: None,
        description: None,
        category,
    }
}

/// Pushes a row, keeping `lists` in step.
fn push_row(
    v: &mut Vec<CommandSpec>,
    prefix: &str,
    tool: &DetectedTool,
    name: &str,
    command: &str,
    category: CommandCategory,
    Ghost(table): Ghost<Seq<Row>>,
)
    requires
        lists(old(v)@, prefix@, *tool, table),
    ensures
        lists(final(v)@, prefix@, *tool, table.push((name@, command@, category))),
{
    let c = command_row(prefix, tool, name, command, category);
    v.push(c);
    assert forall|i: int| 0 <= i < v@.len() implies listed(#[trigger] v@[i], prefix@, *tool, table.push((name@, command@, category))[i]) by {
        if i < table.len() {
            assert(v@[i] == old(v)@[i]);
        }
    }
}

/// The category of an npm script whose lowercased name is `l`.
pub open spec fn npm_script_category(l: Seq<char>) -> CommandCategory {
    if seq_contains(l, "dev"@) || seq_contains(l, "start"@) || seq_contains(l, "serve"@) {
        CommandCategory::Dev
    } else if seq_contains(l, "build"@) || seq_contains(l, "compile"@) {
        CommandCategory::Build
    } else if seq_contains(l, "test"@) || seq_contains(l, "spec"@) {
        CommandCategory::Test
    } else if seq_contains(l, "lint"@) || seq_contains(l, "format"@) || seq_contains(l, "prettier"@) {
        CommandCategory::Lint
    } else {
        CommandCategory::Script
    }
}

/// Categorizes an npm script by the words its name contains, in any case.
pub fn categorize_npm_script(name: &str) -> (r: CommandCategory)
    ensures
        r == npm_script_category(unicode_lower(name@)),
{
    let lower = to_lower(name);
    let l = lower.as_str();
    if str_contains(l, "dev") || str_contains(l, "start") || str_contains(l, "serve") {
        CommandCategory::Dev
    } else if str_contains(l, "build") || str_contains(l, "compile") {
        CommandCategory::Build
    } else if str_contains(l, "test") || str_contains(l, "spec") {
        CommandCategory::Test
    } else if str_contains(l, "lint") || str_contains(l, "format") || str_contains(l, "prettier") {
        CommandCategory::Lint
    } else {
        CommandCategory::Script
    }
}

impl NodePlugin {
    pub fn id(&self) -> (r: &'static str)
        ensures
            r@ == "node"@,
    {
        "node"
    }

    pub fn name(&self) -> (r: &'static str)
        ensures
            r@ == "Node.js"@,
    {
        "Node.js"
    }

    /// The command that runs the script `name` with the package manager.
    pub fn script_command(pm: PackageManager, name: &str) -> (c: CommandSpec)
        ensures
            c.id@ == "node:"@ + name@,
            c.tool == (DetectedTool::Node { pm }),
            c.name@ == name@,
            c.display_name@ == run_prefix_text(pm) + " "@ + name@,
            c.command@ == run_prefix_text(pm) + " "@ + name@,
            c.cwd is None,
            c.description is None,
            c.category == npm_script_category(unicode_lower(name@)),
    {
        let mut line = owned(pm.run_prefix());
        push_str(&mut line, " ");
        push_str(&mut line, name);
        let mut id = owned("node:");
        push_str(&mut id, name);
        CommandSpec {
            id,
            tool: DetectedTool::Node { pm },
            name: owned(name),
            display_name: line.clone(),
            command: line,
            cwd: None,
            description: None,
            category: categorize_npm_script(name),
        }
    }

    /// The summary line naming the package manager.
    pub fn summary(pm: PackageManager) -> (r: String)
        ensures
            r@ == "Found package.json ("@ + run_prefix_text(pm) + ")"@,
    {
        let mut s = owned("Found package.json (");
        push_str(&mut s, pm.run_prefix());
        push_str(&mut s, ")");
        s
    }
}

pub open spec fn cargo_table() -> Seq<Row> {
    seq![
        ("build"@, "cargo build"@, CommandCategory::Build),
        ("build --release"@, "cargo build --release"@, CommandCategory::Build),
        ("test"@, "cargo test"@, CommandCategory::Test),
        ("run"@, "cargo run"@, CommandCategory::Dev),
        ("clippy"@, "cargo clippy"@, CommandCategory::Lint),
        ("fmt"@, "cargo fmt"@, CommandCategory::Lint),
        ("check"@, "cargo check"@, CommandCategory::Build),
    ]
}

impl RustPlugin {
    pub fn id(&self) -> (r: &'static str)
        ensures
            r@ == "rust"@,
    {
        "rust"
    }

    pub fn name(&self) -> (r: &'static str)
        ensures
            r@ == "Rust/Cargo"@,
    {
        "Rust/Cargo"
    }

    /// The standard cargo commands.
    pub fn commands(&self) -> (r: Vec<CommandSpec>)
        ensures
            lists(r@, "cargo:"@, DetectedTool::Rust, cargo_table()),
    {
        let tool = DetectedTool::Rust;
        let mut v: Vec<CommandSpec> = Vec::new();
        push_row(&mut v, "cargo:", &tool, "build", "cargo build", CommandCategory::Build, Ghost(Seq::<Row>::empty()));
        push_row(&mut v, "cargo:", &tool, "build --release", "cargo build --release", CommandCategory::Build, Ghost(cargo_table().take(1)));
        push_row(&mut v, "cargo:", &tool, "test", "cargo test", CommandCategory::Test, Ghost(cargo_table().take(2)));
        push_row(&mut v, "cargo:", &tool, "run", "cargo run", CommandCategory::Dev, Ghost(cargo_table().take(3)));
        push_row(&mut v, "cargo:", &tool, "clippy", "cargo clippy", CommandCategory::Lint, Ghost(cargo_table().take(4)));
        push_row(&mut v, "cargo:", &tool, "fmt", "cargo fmt", CommandCategory::Lint, Ghost(cargo_table().take(5)));
        push_row(&mut v, "cargo:", &tool, "check", "cargo check", CommandCategory::Build, Ghost(cargo_table().take(6)));
        v
    }
}

/// The package manager of a Python project: uv when `uv.lock` is there,
/// else for a `pyproject.toml` poetry when it has a `[tool.poetry]`
/// section and uv otherwise (pip when it cannot be read), else pip.
pub open spec fn python_pm_choice(has_uv_lock: bool, has_pyproject: bool, pyproject: Option<Seq<char>>) -> PythonPackageManager {
    if has_uv_lock {
        PythonPackageManager::Uv
    } else if has_pyproject {
        match pyproject {
            Some(t) => if seq_contains(t, "[tool.poetry]"@) {
                PythonPackageManager::Poetry
            } else {
                PythonPackageManager::Uv
            },
            None => PythonPackageManager::Pip,
        }
    } else {
        PythonPackageManager::Pip
    }
}

pub open spec fn python_table(pm: PythonPackageManager) -> Seq<Row> {
    match pm {
        PythonPackageManager::Uv => seq![
            ("uv run"@, "uv run python"@, CommandCategory::Dev),
            ("uv sync"@, "uv sync"@, CommandCategory::Build),
            ("uv test"@, "uv run pytest"@, CommandCategory::Test),
        ],
        PythonPackageManager::Poetry => seq![
            ("poetry run"@, "poetry run python"@, CommandCategory::Dev),
            ("poetry install"@, "poetry install"@, CommandCategory::Build),
            ("poetry test"@, "poetry run pytest"@, CommandCategory::Test),
        ],
        PythonPackageManager::Pip => seq![
            ("pip install"@, "pip install -r requirements.txt"@, CommandCategory::Build),
            ("pytest"@, "pytest"@, CommandCategory::Test),
        ],
    }
}

pub open spec fn pm_debug(pm: PythonPackageManager) -> Seq<char> {
    match pm {
        PythonPackageManager::Pip => "Pip"@,
        PythonPackageManager::Uv => "Uv"@,
        PythonPackageManager::Poetry => "Poetry"@,
    }
}

impl PythonPlugin {
    pub fn id(&self) -> (r: &'static str)
        ensures
            r@ == "python"@,
    {
        "python"
    }

    pub fn name(&self) -> (r: &'static str)
        ensures
            r@ == "Python"@,
    {
        "Python"
    }

    /// The package manager, as `python_pm_choice` says; `pyproject` is the
    /// text of `pyproject.toml` when it could be read.
    pub fn package_manager(has_uv_lock: bool, has_pyproject: bool, pyproject: Option<&str>) -> (r: PythonPackageManager)
        ensures
            r == python_pm_choice(
                has_uv_lock,
                has_pyproject,
                match pyproject {
                    Some(t) => Some(t@),
                    None => None,
                },
            ),
    {
        if has_uv_lock {
            PythonPackageManager::Uv
        } else if has_pyproject {
            match pyproject {
                Some(t) => {
                    if str_contains(t, "[tool.poetry]") {
                        PythonPackageManager::Poetry
                    } else {
                        PythonPackageManager::Uv
                    }
                },
                None => PythonPackageManager::Pip,
            }
        } else {
            PythonPackageManager::Pip
        }
    }

    /// The summary line naming the package manager.
    pub fn summary(pm: PythonPackageManager) -> (r: String)
        ensures
            r@ == "Python project detected ("@ + pm_debug(pm) + ")"@,
    {
        let mut s = owned("Python project detected (");
        push_str(
            &mut s,
            match pm {
                PythonPackageManager::Pip => "Pip",
                PythonPackageManager::Uv => "Uv",
                PythonPackageManager::Poetry => "Poetry",
            },
        );
        push_str(&mut s, ")");
        s
    }

    /// The commands for the package manager; they are all marked as pip
    /// commands.
    pub fn commands(&self, pm: PythonPackageManager) -> (r: Vec<CommandSpec>)
        ensures
            lists(r@, "python:"@, DetectedTool::Python { pm: PythonPackageManager::Pip }, python_table(pm)),
    {
        let tool = DetectedTool::Python { pm: PythonPackageManager::Pip };
        let mut v: Vec<CommandSpec> = Vec::new();
        match pm {
            PythonPackageManager::Uv => {
                push_row(&mut v, "python:", &tool, "uv run", "uv run python", CommandCategory::Dev, Ghost(Seq::<Row>::empty()));
                push_row(&mut v, "python:", &tool, "uv sync", "uv sync", CommandCategory::Build, Ghost(python_table(pm).take(1)));
                push_row(&mut v, "python:", &tool, "uv test", "uv run pytest", CommandCategory::Test, Ghost(python_table(pm).take(2)));
            },
            PythonPackageManager::Poetry => {
                push_row(&mut v, "python:", &tool, "poetry run", "poetry run python", CommandCategory::Dev, Ghost(Seq::<Row>::empty()));
                push_row(&mut v, "python:", &tool, "poetry install", "poetry install", CommandCategory::Build, Ghost(python_table(pm).take(1)));
                push_row(&mut v, "python:", &tool, "poetry test", "poetry run pytest", CommandCategory::Test, Ghost(python_table(pm).take(2)));
            },
            PythonPackageManager::Pip => {
                push_row(&mut v, "python:", &tool, "pip install", "pip install -r requirements.txt", CommandCategory::Build, Ghost(Seq::<Row>::empty()));
                push_row(&mut v, "python:", &tool, "pytest", "pytest", CommandCategory::Test, Ghost(python_table(pm).take(1)));
            },
        }
        v
    }
}

pub open spec fn compose_table() -> Seq<Row> {
    seq![
        ("up"@, "docker compose up"@, CommandCategory::Dev),
        ("up -d"@, "docker compose up -d"@, CommandCategory::Dev),
        ("down"@, "docker compose down"@, CommandCategory::Script),
        ("build"@, "docker compose build"@, CommandCategory::Build),
        ("logs"@, "docker compose logs -f"@, CommandCategory::Script),
        ("ps"@, "docker compose ps"@, CommandCategory::Script),
        ("restart"@, "docker compose restart"@, CommandCategory::Script),
    ]
}

impl DockerPlugin {
    pub fn id(&self) -> (r: &'static str)
        ensures
            r@ == "docker"@,
    {
        "docker"
    }

    pub fn name(&self) -> (r: &'static str)
        ensures
            r@ == "Docker Compose"@,
    {
        "Docker Compose"
    }

    /// The standard compose commands for the compose file at `file`.
    pub fn commands(&self, file: &str) -> (r: Vec<CommandSpec>)
        ensures
            exists|tool: DetectedTool| #![trigger lists(r@, "docker:"@, tool, compose_table())]
                lists(r@, "docker:"@, tool, compose_table()) && (tool matches DetectedTool::DockerCompose { file: f } && f@ == file@),
    {
        let path = owned(file);
        let tool = DetectedTool::DockerCompose { file: path };
        let mut v: Vec<CommandSpec> = Vec::new();
        push_row(&mut v, "docker:", &tool, "up", "docker compose up", CommandCategory::Dev, Ghost(Seq::<Row>::empty()));
        push_row(&mut v, "docker:", &tool, "up -d", "docker compose up -d", CommandCategory::Dev, Ghost(compose_table().take(1)));
        push_row(&mut v, "docker:", &tool, "down", "docker compose down", CommandCategory::Script, Ghost(compose_table().take(2)));
        push_row(&mut v, "docker:", &tool, "build", "docker compose build", CommandCategory::Build, Ghost(compose_table().take(3)));
        push_row(&mut v, "docker:", &tool, "logs", "docker compose logs -f", CommandCategory::Script, Ghost(compose_table().take(4)));
        push_row(&mut v, "docker:", &tool, "ps", "docker compose ps", CommandCategory::Script, Ghost(compose_table().take(5)));
        push_row(&mut v, "docker:", &tool, "restart", "docker compose restart", CommandCategory::Script, Ghost(compose_table().take(6)));
        assert(compose_table().take(6).push(("restart"@, "docker compose restart"@, CommandCategory::Script)) =~= compose_table());
        v
    }
}


/// One of the built-in plugins.
#[derive(Debug)]
pub enum BuiltinPlugin {
    Node(NodePlugin),
    Rust(RustPlugin),
    Python(PythonPlugin),
    Docker(DockerPlugin),
}

pub open spec fn plugin_id_text(p: BuiltinPlugin) -> Seq<char> {
    match p {
        BuiltinPlugin::Node(_) => "node"@,
        BuiltinPlugin::Rust(_) => "rust"@,
        BuiltinPlugin::Python(_) => "python"@,
        BuiltinPlugin::Docker(_) => "docker"@,
    }
}

impl BuiltinPlugin {
    pub fn id(&self) -> (r: &'static str)
        ensures
            r@ == plugin_id_text(*self),
    {
        match self {
            BuiltinPlugin::Node(p) => p.id(),
            BuiltinPlugin::Rust(p) => p.id(),
            BuiltinPlugin::Python(p) => p.id(),
            BuiltinPlugin::Docker(p) => p.id(),
        }
    }

    pub fn name(&self) -> (r: &'static str)
        ensures
            r@ == match *self {
                BuiltinPlugin::Node(_) => "Node.js"@,
                BuiltinPlugin::Rust(_) => "Rust/Cargo"@,
                BuiltinPlugin::Python(_) => "Python"@,
                BuiltinPlugin::Docker(_) => "Docker Compose"@,
            },
    {
        match self {
            BuiltinPlugin::Node(p) => p.name(),
            BuiltinPlugin::Rust(p) => p.name(),
            BuiltinPlugin::Python(p) => p.name(),
            BuiltinPlugin::Docker(p) => p.name(),
        }
    }
}

/// The ids of the built-in plugins, in the order they are consulted.
pub open spec fn builtin_ids() -> Seq<Seq<char>> {
    seq!["node"@, "rust"@, "python"@, "docker"@]
}

/// The plugins, in the order they are consulted.
#[derive(Debug)]
pub struct PluginManager {
    pub plugins: Vec<BuiltinPlugin>,
}

impl PluginManager {
    /// The built-in plugins: Node, Rust, Python, Docker.
    pub fn new() -> (r: Self)
        ensures
            r.plugins@.map_values(|p: BuiltinPlugin| plugin_id_text(p)) == builtin_ids(),
    {
        let plugins = vec![
            BuiltinPlugin::Node(NodePlugin),
            BuiltinPlugin::Rust(RustPlugin),
            BuiltinPlugin::Python(PythonPlugin),
            BuiltinPlugin::Docker(DockerPlugin),
        ];
        assert(plugins@.map_values(|p: BuiltinPlugin| plugin_id_text(p)) =~= builtin_ids());
        PluginManager { plugins }
    }

    /// The ids of the plugins, in order.
    pub fn plugin_ids(&self) -> (r: Vec<&'static str>)
        ensures
            r@.map_values(|s: &str| s@) == self.plugins@.map_values(|p: BuiltinPlugin| plugin_id_text(p)),
    {
        let mut out: Vec<&'static str> = Vec::new();
        let mut i: usize = 0;
        while i < self.plugins.len()
            invariant
                i <= self.plugins@.len(),
                out@.map_values(|s: &str| s@) == self.plugins@.map_values(|p: BuiltinPlugin| plugin_id_text(p)).take(i as int),
            decreases self.plugins@.len() - i,
        {
            let ghost before = out@;
            let id = self.plugins[i].id();
            out.push(id);
            proof {
                assert(out@.map_values(|s: &str| s@) =~= before.map_values(|s: &str| s@).push(id@));
                assert(self.plugins@.map_values(|p: BuiltinPlugin| plugin_id_text(p)).take(i + 1)
                    =~= self.plugins@.map_values(|p: BuiltinPlugin| plugin_id_text(p)).take(i as int).push(
                    plugin_id_text(self.plugins@[i as int]),
                ));
            }
            i = i + 1;
        }
        proof {
            assert(self.plugins@.map_values(|p: BuiltinPlugin| plugin_id_text(p)).take(i as int)
                =~= self.plugins@.map_values(|p: BuiltinPlugin| plugin_id_text(p)));
        }
        out
    }

    /// The first plugin with the id, if any.
    pub fn get(&self, id: &str) -> (r: Option<&BuiltinPlugin>)
        ensures
            match r {
                Some(p) => exists|i: int|
                    0 <= i < self.plugins@.len() && self.plugins@[i] == *p && plugin_id_text(*p) == id@
                        && forall|j: int| 0 <= j < i ==> plugin_id_text(#[trigger] self.plugins@[j]) != id@,
                None => forall|j: int| 0 <= j < self.plugins@.len() ==> plugin_id_text(#[trigger] self.plugins@[j]) != id@,
            },
    {
        let mut i: usize = 0;
        while i < self.plugins.len()
            invariant
                i <= self.plugins@.len(),
                forall|j: int| 0 <= j < i ==> plugin_id_text(#[trigger] self.plugins@[j]) != id@,
            decreases self.plugins@.len() - i,
        {
            if crate::command::str_eq(self.plugins[i].id(), id) {
                return Some(&self.plugins[i]);
            }
            i = i + 1;
        }
        None
    }
}

impl Default for PluginManager {
    fn default() -> (r: Self)
        ensures
            r.plugins@.map_values(|p: BuiltinPlugin| plugin_id_text(p)) == builtin_ids(),
    {
        PluginManager::new()
    }
}

} // verus!
