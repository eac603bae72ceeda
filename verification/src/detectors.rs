//! The commands each kind of project offers: package scripts, cargo
//! commands and Docker Compose commands.
use vstd::prelude::*;

use crate::command::{CommandCategory, CommandSpec, DetectedTool, PackageManager, str_eq};
use crate::text::{join_path, path_join, concat2, concat3, owned, seq_contains, seq_starts_with, str_contains, str_starts_with, to_lower, unicode_lower};
use crate::yaml::{field, YamlNode};

verus! {

/// Finds a Rust project by its `Cargo.toml` and offers the cargo commands.
pub struct RustDetector;

/// Finds a Node project by its `package.json` and offers its scripts.
pub struct NodeDetector;

/// Finds a Docker Compose file and offers the compose commands.
pub struct DockerComposeDetector;

/// The category of a package script, by its (lowercased) name.
pub open spec fn script_category(l: Seq<char>) -> CommandCategory {
    if l == "dev"@ || l == "start"@ || l == "serve"@ || seq_starts_with(l, "dev:"@) || seq_contains(
        l,
        "watch"@,
    ) {
        CommandCategory::Dev
    } else if l == "build"@ || seq_starts_with(l, "build:"@) || l == "compile"@ {
        CommandCategory::Build
    } else if l == "test"@ || seq_starts_with(l, "test:"@) || l == "coverage"@ {
        CommandCategory::Test
    } else if l == "lint"@ || l == "format"@ || l == "check"@ || seq_starts_with(l, "lint:"@) || l
        == "prettier"@ || l == "eslint"@ {
        CommandCategory::Lint
    } else {
        CommandCategory::Script
    }
}

impl NodeDetector {
    /// Categorizes a package script by its name, in any case.
    pub fn categorize_script(name: &str) -> (r: CommandCategory)
        ensures
            r == script_category(unicode_lower(name@)),
    {
        let lower = to_lower(name);
        let l = lower.as_str();
        if str_eq(l, "dev") || str_eq(l, "start") || str_eq(l, "serve") || str_starts_with(l, "dev:")
            || str_contains(l, "watch") {
            CommandCategory::Dev
        } else if str_eq(l, "build") || str_starts_with(l, "build:") || str_eq(l, "compile") {
            CommandCategory::Build
        } else if str_eq(l, "test") || str_starts_with(l, "test:") || str_eq(l, "coverage") {
            CommandCategory::Test
        } else if str_eq(l, "lint") || str_eq(l, "format") || str_eq(l, "check") || str_starts_with(
            l,
            "lint:",
        ) || str_eq(l, "prettier") || str_eq(l, "eslint") {
            CommandCategory::Lint
        } else {
            CommandCategory::Script
        }
    }
}

/// Whether `c` is the command with these fields, run in `root`.
pub open spec fn spec_row(
    c: CommandSpec,
    tool: DetectedTool,
    root: Seq<char>,
    id: Seq<char>,
    name: Seq<char>,
    display: Seq<char>,
    command: Seq<char>,
    description: Option<Seq<char>>,
    category: CommandCategory,
) -> bool {
    &&& c.id@ == id
    &&& c.tool == tool
    &&& c.name@ == name
    &&& c.display_name@ == display
    &&& c.command@ == command
    &&& c.cwd matches Some(d) && d@ == root
    &&& crate::yaml::opt_text(c.description) == description
    &&& c.category == category
}

fn row(
    tool: &DetectedTool,
    root: &str,
    id: &str,
    name: &str,
    display: &str,
    command: &str,
    description: &str,
    category: CommandCategory,
) -> (c: CommandSpec)
    ensures
        spec_row(c, *tool, root@, id@, name@, display@, command@, Some(description@), category),
{
    CommandSpec {
        id: owned(id),
        tool: tool.clone(),
        name: owned(name),
        display_name: owned(display),
        command: owned(command),
        cwd: Some(owned(root)),
        description: Some(owned(description)),
        category,
    }
}

impl RustDetector {
    /// The cargo commands of a Rust project (none for another tool).
    pub fn commands(&self, root: &str, tool: &DetectedTool) -> (r: Vec<CommandSpec>)
        ensures
            !(*tool is Rust) ==> r@.len() == 0,
            *tool is Rust ==> {
                &&& r@.len() == 8
                &&& spec_row(r@[0], *tool, root@, "cargo:build"@, "build"@, "cargo build"@, "cargo build"@, Some("Build the project"@), CommandCategory::Build)
                &&& spec_row(r@[1], *tool, root@, "cargo:build-release"@, "build --release"@, "cargo build --release"@, "cargo build --release"@, Some("Build in release mode"@), CommandCategory::Build)
                &&& spec_row(r@[2], *tool, root@, "cargo:run"@, "run"@, "cargo run"@, "cargo run"@, Some("Run the project"@), CommandCategory::Dev)
                &&& spec_row(r@[3], *tool, root@, "cargo:test"@, "test"@, "cargo test"@, "cargo test"@, Some("Run tests"@), CommandCategory::Test)
                &&& spec_row(r@[4], *tool, root@, "cargo:check"@, "check"@, "cargo check"@, "cargo check"@, Some("Check for errors without building"@), CommandCategory::Lint)
                &&& spec_row(r@[5], *tool, root@, "cargo:clippy"@, "clippy"@, "cargo clippy"@, "cargo clippy"@, Some("Run Clippy lints"@), CommandCategory::Lint)
                &&& spec_row(r@[6], *tool, root@, "cargo:fmt"@, "fmt"@, "cargo fmt"@, "cargo fmt"@, Some("Format code"@), CommandCategory::Lint)
                &&& spec_row(r@[7], *tool, root@, "cargo:doc"@, "doc"@, "cargo doc"@, "cargo doc --open"@, Some("Build and open documentation"@), CommandCategory::Build)
            },
    {
        let mut v: Vec<CommandSpec> = Vec::new();
        match tool {
            DetectedTool::Rust => {},
            _ => {
                return v;
            },
        }
        v.push(row(tool, root, "cargo:build", "build", "cargo build", "cargo build", "Build the project", CommandCategory::Build));
        v.push(row(tool, root, "cargo:build-release", "build --release", "cargo build --release", "cargo build --release", "Build in release mode", CommandCategory::Build));
        v.push(row(tool, root, "cargo:run", "run", "cargo run", "cargo run", "Run the project", CommandCategory::Dev));
        v.push(row(tool, root, "cargo:test", "test", "cargo test", "cargo test", "Run tests", CommandCategory::Test));
        v.push(row(tool, root, "cargo:check", "check", "cargo check", "cargo check", "Check for errors without building", CommandCategory::Lint));
        v.push(row(tool, root, "cargo:clippy", "clippy", "cargo clippy", "cargo clippy", "Run Clippy lints", CommandCategory::Lint));
        v.push(row(tool, root, "cargo:fmt", "fmt", "cargo fmt", "cargo fmt", "Format code", CommandCategory::Lint));
        v.push(row(tool, root, "cargo:doc", "doc", "cargo doc", "cargo doc --open", "Build and open documentation", CommandCategory::Build));
        v
    }
}

/// The Docker Compose commands that need no service name.
pub open spec fn compose_base_ok(r: Seq<CommandSpec>, tool: DetectedTool, root: Seq<char>) -> bool {
    &&& r.len() >= 7
    &&& spec_row(r[0], tool, root, "compose:up"@, "up"@, "docker compose up"@, "docker compose up"@, Some("Start all services"@), CommandCategory::Dev)
    &&& spec_row(r[1], tool, root, "compose:up-d"@, "up -d"@, "docker compose up -d"@, "docker compose up -d"@, Some("Start all services in background"@), CommandCategory::Dev)
    &&& spec_row(r[2], tool, root, "compose:up-build"@, "up --build"@, "docker compose up --build"@, "docker compose up --build"@, Some("Build and start all services"@), CommandCategory::Build)
    &&& spec_row(r[3], tool, root, "compose:down"@, "down"@, "docker compose down"@, "docker compose down"@, Some("Stop all services"@), CommandCategory::Script)
    &&& spec_row(r[4], tool, root, "compose:logs"@, "logs"@, "docker compose logs -f"@, "docker compose logs -f"@, Some("Follow all logs"@), CommandCategory::Dev)
    &&& spec_row(r[5], tool, root, "compose:ps"@, "ps"@, "docker compose ps"@, "docker compose ps"@, Some("List running containers"@), CommandCategory::Script)
    &&& spec_row(r[6], tool, root, "compose:pull"@, "pull"@, "docker compose pull"@, "docker compose pull"@, Some("Pull latest images"@), CommandCategory::Build)
}

impl DockerComposeDetector {
    /// The seven Docker Compose commands that act on all services.
    pub fn base_commands(root: &str, tool: &DetectedTool) -> (r: Vec<CommandSpec>)
        ensures
            r@.len() == 7,
            compose_base_ok(r@, *tool, root@),
    {
        let mut v: Vec<CommandSpec> = Vec::new();
        v.push(row(tool, root, "compose:up", "up", "docker compose up", "docker compose up", "Start all services", CommandCategory::Dev));
        v.push(row(tool, root, "compose:up-d", "up -d", "docker compose up -d", "docker compose up -d", "Start all services in background", CommandCategory::Dev));
        v.push(row(tool, root, "compose:up-build", "up --build", "docker compose up --build", "docker compose up --build", "Build and start all services", CommandCategory::Build));
        v.push(row(tool, root, "compose:down", "down", "docker compose down", "docker compose down", "Stop all services", CommandCategory::Script));
        v.push(row(tool, root, "compose:logs", "logs", "docker compose logs -f", "docker compose logs -f", "Follow all logs", CommandCategory::Dev));
        v.push(row(tool, root, "compose:ps", "ps", "docker compose ps", "docker compose ps", "List running containers", CommandCategory::Script));
        v.push(row(tool, root, "compose:pull", "pull", "docker compose pull", "docker compose pull", "Pull latest images", CommandCategory::Build));
        v
    }
}

/// The string keys of a mapping's entries, in order.
pub open spec fn string_keys(es: Seq<(YamlNode, YamlNode)>) -> Seq<Seq<char>>
    decreases es.len(),
{
    if es.len() == 0 {
        Seq::empty()
    } else {
        string_keys(es.drop_last()) + match es.last().0 {
            YamlNode::Str(s) => seq![s@],
            _ => Seq::empty(),
        }
    }
}

/// The services of a compose document, by name in document order.
pub open spec fn compose_service_names(doc: YamlNode) -> Seq<Seq<char>> {
    match field(doc, "services"@) {
        Some(YamlNode::Mapping(es)) => string_keys(es@),
        _ => Seq::empty(),
    }
}

/// The two commands of one service: bring it up, follow its logs.
pub open spec fn service_rows(r: Seq<CommandSpec>, at: int, tool: DetectedTool, root: Seq<char>, s: Seq<char>) -> bool {
    &&& spec_row(r[at], tool, root, "compose:up:"@ + s, "up "@ + s, "docker compose up "@ + s, "docker compose up "@ + s, Some("Start "@ + s + " service"@), CommandCategory::Dev)
    &&& spec_row(r[at + 1], tool, root, "compose:logs:"@ + s, "logs "@ + s, "docker compose logs -f "@ + s, "docker compose logs -f "@ + s, Some("Follow logs for "@ + s), CommandCategory::Dev)
}

fn service_pair(v: &mut Vec<CommandSpec>, tool: &DetectedTool, root: &str, s: &str)
    ensures
        final(v)@.len() == old(v)@.len() + 2,
        final(v)@.take(old(v)@.len() as int) == old(v)@,
        service_rows(final(v)@, old(v)@.len() as int, *tool, root@, s@),
{
    let id = concat2("compose:up:", s);
    let name = concat2("up ", s);
    let cmd = concat2("docker compose up ", s);
    let desc = concat3("Start ", s, " service");
    v.push(row(tool, root, id.as_str(), name.as_str(), cmd.as_str(), cmd.as_str(), desc.as_str(), CommandCategory::Dev));
    let id2 = concat2("compose:logs:", s);
    let name2 = concat2("logs ", s);
    let cmd2 = concat2("docker compose logs -f ", s);
    let desc2 = concat2("Follow logs for ", s);
    v.push(row(tool, root, id2.as_str(), name2.as_str(), cmd2.as_str(), cmd2.as_str(), desc2.as_str(), CommandCategory::Dev));
    proof {
        assert(final(v)@.take(old(v)@.len() as int) =~= old(v)@);
    }
}

impl DockerComposeDetector {
    /// The commands of a Docker Compose project whose file holds `content`:
    /// the seven general ones, then two per service.  A file that does not
    /// parse gives the general ones only.
    pub fn commands(&self, root: &str, tool: &DetectedTool, content: &str) -> (r: Vec<CommandSpec>)
        ensures
            compose_base_ok(r@, *tool, root@),
            match crate::yaml::yaml_document(content@) {
                None => r@.len() == 7,
                Some(doc) => {
                    let names = compose_service_names(doc);
                    &&& r@.len() == 7 + 2 * names.len()
                    &&& forall|k: int| 0 <= k < names.len() ==> service_rows(r@, 7 + 2 * k, *tool, root@, #[trigger] names[k])
                },
            },
    {
        match crate::yaml::parse_yaml(content) {
            Ok(doc) => self.commands_of(root, tool, &doc),
            Err(_) => DockerComposeDetector::base_commands(root, tool),
        }
    }

    /// The commands of a Docker Compose project whose file parsed to `doc`:
    /// the seven general ones, then two per service, in the file's order.
    pub fn commands_of(&self, root: &str, tool: &DetectedTool, doc: &YamlNode) -> (r: Vec<CommandSpec>)
        ensures
            compose_base_ok(r@, *tool, root@),
            r@.len() == 7 + 2 * compose_service_names(*doc).len(),
            forall|k: int| 0 <= k < compose_service_names(*doc).len() ==> service_rows(r@, 7 + 2 * k, *tool, root@, #[trigger] compose_service_names(*doc)[k]),
    {
        let mut v = DockerComposeDetector::base_commands(root, tool);
        let es = match crate::yaml::get_field(doc, "services") {
            Some(YamlNode::Mapping(es)) => es,
            _ => {
                proof {
                    assert(compose_service_names(*doc) =~= Seq::<Seq<char>>::empty());
                }
                return v;
            },
        };
        let ghost base = v@;
        let mut i: usize = 0;
        proof {
            assert(string_keys(es@.take(0)) =~= Seq::<Seq<char>>::empty());
        }
        while i < es.len()
            invariant
                i <= es.len(),
                compose_base_ok(v@, *tool, root@),
                v@.take(7) == base.take(7),
                v@.len() == 7 + 2 * string_keys(es@.take(i as int)).len(),
                forall|k: int|
                    0 <= k < string_keys(es@.take(i as int)).len() ==> service_rows(
                        v@,
                        7 + 2 * k,
                        *tool,
                        root@,
                        #[trigger] string_keys(es@.take(i as int))[k],
                    ),
            decreases es.len() - i,
        {
            let ghost before = v@;
            let ghost names0 = string_keys(es@.take(i as int));
            proof {
                assert(es@.take(i + 1).drop_last() =~= es@.take(i as int));
                assert(es@.take(i + 1).last() == es@[i as int]);
            }
            match &es[i].0 {
                YamlNode::Str(s) => {
                    service_pair(&mut v, tool, root, s.as_str());
                    proof {
                        let names1 = string_keys(es@.take(i + 1));
                        assert(names1 =~= names0.push(s@));
                        assert forall|k: int| 0 <= k < names1.len() implies service_rows(
                            v@,
                            7 + 2 * k,
                            *tool,
                            root@,
                            #[trigger] names1[k],
                        ) by {
                            if k < names0.len() {
                                assert(v@[7 + 2 * k] == before[7 + 2 * k]);
                                assert(v@[7 + 2 * k + 1] == before[7 + 2 * k + 1]);
                                assert(names1[k] == names0[k]);
                            }
                        }
                        assert forall|j: int| 0 <= j < 7 implies v@[j] == before[j] by {
                            assert(v@.take(before.len() as int)[j] == before[j]);
                        }
                        assert(v@.take(7) =~= before.take(7));
                    }
                },
                _ => {
                    proof {
                        assert(string_keys(es@.take(i + 1)) =~= names0);
                    }
                },
            }
            i = i + 1;
        }
        proof {
            assert(es@.take(es.len() as int) =~= es@);
        }
        v
    }
}

/// Whether `c` is the command that runs package script `s`.
pub open spec fn script_row(c: CommandSpec, tool: DetectedTool, root: Seq<char>, prefix: Seq<char>, s: Seq<char>) -> bool {
    &&& c.id@ == "node:"@ + s
    &&& c.tool == tool
    &&& c.name@ == s
    &&& c.display_name@ == prefix + " "@ + s
    &&& c.command@ == prefix + " "@ + s
    &&& c.cwd matches Some(d) && d@ == root
    &&& c.description is None
    &&& c.category == script_category(unicode_lower(s))
}

/// The scripts of a package.json document, by name.
pub open spec fn script_names(doc: YamlNode) -> Seq<Seq<char>> {
    match field(doc, "scripts"@) {
        Some(YamlNode::Mapping(es)) => string_keys(es@),
        _ => Seq::empty(),
    }
}

impl NodeDetector {
    /// The commands of a Node project whose package.json holds `content`: the
    /// install command, then one per script.  A file that does not parse
    /// gives none, as does another tool.
    pub fn commands(&self, root: &str, tool: &DetectedTool, content: &str) -> (r: Vec<CommandSpec>)
        ensures
            match (*tool, crate::yaml::json_document(content@)) {
                (DetectedTool::Node { pm }, Some(doc)) => {
                    let names = script_names(doc);
                    let prefix = crate::command::run_prefix_text(pm);
                    &&& r@.len() == 1 + names.len()
                    &&& spec_row(r@[0], *tool, root@, "node:install"@, "install"@, crate::command::install_text(pm), crate::command::install_text(pm), Some("Install dependencies"@), CommandCategory::Build)
                    &&& forall|k: int| 0 <= k < names.len() ==> script_row(r@[1 + k], *tool, root@, prefix, #[trigger] names[k])
                },
                _ => r@.len() == 0,
            },
    {
        let mut v: Vec<CommandSpec> = Vec::new();
        let pm = match tool {
            DetectedTool::Node { pm } => *pm,
            _ => {
                return v;
            },
        };
        match crate::yaml::parse_json(content) {
            Ok(doc) => self.commands_of(root, tool, &doc),
            Err(_) => v,
        }
    }

    /// The commands of a Node project whose package.json parsed to `doc`:
    /// the install command, then one per script in the file's order; none
    /// for another tool.
    pub fn commands_of(&self, root: &str, tool: &DetectedTool, doc: &YamlNode) -> (r: Vec<CommandSpec>)
        ensures
            match *tool {
                DetectedTool::Node { pm } => {
                    let names = script_names(*doc);
                    let prefix = crate::command::run_prefix_text(pm);
                    &&& r@.len() == 1 + names.len()
                    &&& spec_row(r@[0], *tool, root@, "node:install"@, "install"@, crate::command::install_text(pm), crate::command::install_text(pm), Some("Install dependencies"@), CommandCategory::Build)
                    &&& forall|k: int| 0 <= k < names.len() ==> script_row(r@[1 + k], *tool, root@, prefix, #[trigger] names[k])
                },
                _ => r@.len() == 0,
            },
    {
        let mut v: Vec<CommandSpec> = Vec::new();
        let pm = match tool {
            DetectedTool::Node { pm } => *pm,
            _ => {
                return v;
            },
        };
        let install = pm.install_cmd();
        v.push(row(tool, root, "node:install", "install", install, install, "Install dependencies", CommandCategory::Build));
        let es = match crate::yaml::get_field(doc, "scripts") {
            Some(YamlNode::Mapping(es)) => es,
            _ => {
                proof {
                    assert(script_names(*doc) =~= Seq::<Seq<char>>::empty());
                }
                return v;
            },
        };
        let prefix = pm.run_prefix();
        let mut i: usize = 0;
        proof {
            assert(string_keys(es@.take(0)) =~= Seq::<Seq<char>>::empty());
        }
        while i < es.len()
            invariant
                i <= es.len(),
                v@.len() == 1 + string_keys(es@.take(i as int)).len(),
                spec_row(v@[0], *tool, root@, "node:install"@, "install"@, crate::command::install_text(pm), crate::command::install_text(pm), Some("Install dependencies"@), CommandCategory::Build),
                prefix@ == crate::command::run_prefix_text(pm),
                forall|k: int|
                    0 <= k < string_keys(es@.take(i as int)).len() ==> script_row(
                        v@[1 + k],
                        *tool,
                        root@,
                        prefix@,
                        #[trigger] string_keys(es@.take(i as int))[k],
                    ),
            decreases es.len() - i,
        {
            let ghost names0 = string_keys(es@.take(i as int));
            proof {
                assert(es@.take(i + 1).drop_last() =~= es@.take(i as int));
                assert(es@.take(i + 1).last() == es@[i as int]);
            }
            match &es[i].0 {
                YamlNode::Str(s) => {
                    let category = NodeDetector::categorize_script(s.as_str());
                    let display = concat3(prefix, " ", s.as_str());
                    let command = concat3(prefix, " ", s.as_str());
                    v.push(
                        CommandSpec {
                            id: concat2("node:", s.as_str()),
                            tool: tool.clone(),
                            name: s.clone(),
                            display_name: display,
                            command,
                            cwd: Some(owned(root)),
                            description: None,
                            category,
                        },
                    );
                    proof {
                        let names1 = string_keys(es@.take(i + 1));
                        assert(names1 =~= names0.push(s@));
                        assert forall|k: int| 0 <= k < names1.len() implies script_row(
                            v@[1 + k],
                            *tool,
                            root@,
                            prefix@,
                            #[trigger] names1[k],
                        ) by {
                            if k < names0.len() {
                                assert(names1[k] == names0[k]);
                            }
                        }
                    }
                },
                _ => {
                    proof {
                        assert(string_keys(es@.take(i + 1)) =~= names0);
                    }
                },
            }
            i = i + 1;
        }
        proof {
            assert(es@.take(es.len() as int) =~= es@);
        }
        v
    }
}

pub open spec fn pm_choice(has_pnpm_lock: bool, has_yarn_lock: bool, has_bun_lockb: bool) -> PackageManager {
    if has_pnpm_lock {
        PackageManager::Pnpm
    } else if has_yarn_lock {
        PackageManager::Yarn
    } else if has_bun_lockb {
        PackageManager::Bun
    } else {
        PackageManager::Npm
    }
}

impl NodeDetector {
    pub fn name(&self) -> (r: &'static str)
        ensures
            r@ == "node"@,
    {
        "node"
    }

    /// The package manager a project uses, by its lock file: pnpm, then
    /// yarn, then bun, else npm.
    pub fn package_manager(has_pnpm_lock: bool, has_yarn_lock: bool, has_bun_lockb: bool) -> (r: PackageManager)
        ensures
            r == pm_choice(has_pnpm_lock, has_yarn_lock, has_bun_lockb),
    {
        if has_pnpm_lock {
            PackageManager::Pnpm
        } else if has_yarn_lock {
            PackageManager::Yarn
        } else if has_bun_lockb {
            PackageManager::Bun
        } else {
            PackageManager::Npm
        }
    }

    /// A Node project is one with a `package.json`; the flags say which
    /// files the project root holds.
    pub fn detect(&self, has_package_json: bool, has_pnpm_lock: bool, has_yarn_lock: bool, has_bun_lockb: bool) -> (r: Option<DetectedTool>)
        ensures
            r == (if has_package_json {
                Some(DetectedTool::Node { pm: pm_choice(has_pnpm_lock, has_yarn_lock, has_bun_lockb) })
            } else {
                None
            }),
    {
        if has_package_json {
            Some(DetectedTool::Node { pm: Self::package_manager(has_pnpm_lock, has_yarn_lock, has_bun_lockb) })
        } else {
            None
        }
    }
}

impl RustDetector {
    pub fn name(&self) -> (r: &'static str)
        ensures
            r@ == "rust"@,
    {
        "rust"
    }

    /// A Rust project is one with a `Cargo.toml`.
    pub fn detect(&self, has_cargo_toml: bool) -> (r: Option<DetectedTool>)
        ensures
            r == (if has_cargo_toml {
                Some(DetectedTool::Rust)
            } else {
                None
            }),
    {
        if has_cargo_toml {
            Some(DetectedTool::Rust)
        } else {
            None
        }
    }
}

/// The compose file names looked for, in order.
pub open spec fn compose_candidate(i: int) -> Seq<char> {
    if i == 0 {
        "docker-compose.yml"@
    } else if i == 1 {
        "docker-compose.yaml"@
    } else if i == 2 {
        "compose.yml"@
    } else {
        "compose.yaml"@
    }
}

/// The first candidate, from `i` on, that is present.
pub open spec fn first_present(present: Seq<bool>, i: int) -> Option<int>
    decreases 4 - i,
{
    if i >= 4 || i < 0 {
        None
    } else if present[i] {
        Some(i)
    } else {
        first_present(present, i + 1)
    }
}

impl DockerComposeDetector {
    pub fn name(&self) -> (r: &'static str)
        ensures
            r@ == "docker-compose"@,
    {
        "docker-compose"
    }

    /// The name of the `i`-th compose file looked for.
    pub fn candidate(i: usize) -> (r: &'static str)
        requires
            i < 4,
        ensures
            r@ == compose_candidate(i as int),
    {
        if i == 0 {
            "docker-compose.yml"
        } else if i == 1 {
            "docker-compose.yaml"
        } else if i == 2 {
            "compose.yml"
        } else {
            "compose.yaml"
        }
    }

    /// A Docker Compose project is one with a compose file; `present[i]`
    /// says whether the `i`-th candidate is in the root.  The first one
    /// present is the project's compose file.
    pub fn detect(&self, root: &str, present: &[bool]) -> (r: Option<DetectedTool>)
        requires
            present@.len() == 4,
        ensures
            match first_present(present@, 0) {
                Some(i) => r matches Some(DetectedTool::DockerCompose { file }) && file@ == path_join(
                    root@,
                    compose_candidate(i),
                ),
                None => r is None,
            },
    {
        let mut i: usize = 0;
        while i < 4
            invariant
                i <= 4,
                present@.len() == 4,
                first_present(present@, 0) == first_present(present@, i as int),
            decreases 4 - i,
        {
            if present[i] {
                return Some(DetectedTool::DockerCompose { file: join_path(root, Self::candidate(i)) });
            }
            i = i + 1;
        }
        None
    }
}

/// The package manager follows the lock file: a pnpm lock means pnpm
/// whatever else is present; else a yarn lock means yarn; else a bun lock
/// means bun; with no lock file it is npm.  So each lock file on its own
/// selects its own manager.
pub proof fn law_package_manager_follows_lock_file(yarn: bool, bun: bool)
    ensures
        pm_choice(true, yarn, bun) == PackageManager::Pnpm,
        pm_choice(false, true, bun) == PackageManager::Yarn,
        pm_choice(false, false, true) == PackageManager::Bun,
        pm_choice(false, false, false) == PackageManager::Npm,
{
}

} // verus!
