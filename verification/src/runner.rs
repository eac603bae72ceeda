//! Requests to the command runner, which runs detected and ad-hoc commands
//! in a shell.
use vstd::prelude::*;

use crate::command::{CommandCategory, CommandSpec, DetectedTool};
use crate::text::{owned, push_str};

verus! {

/// A request to the command runner.
#[derive(Debug)]
pub enum RunnerCommand {
    Run { spec: CommandSpec },
    RunArbitrary { title: String, command: String, cwd: Option<String> },
    Kill { run_id: String },
    Rerun { run_id: String },
    Shutdown,
}

/// The command an ad-hoc run is recorded as: a script titled `title`, with
/// an id made of the run's id.
pub fn arbitrary_spec(run_id: &str, title: String, command: String, cwd: Option<String>) -> (r: CommandSpec)
    ensures
        r.id@ == "arbitrary:"@ + run_id@,
        r.tool == DetectedTool::Rust,
        r.name@ == title@,
        r.display_name@ == title@,
        r.command == command,
        r.cwd == cwd,
        r.description is None,
        r.category == CommandCategory::Script,
{
    let mut id = owned("arbitrary:");
    push_str(&mut id, run_id);
    CommandSpec {
        id,
        tool: DetectedTool::Rust,
        name: title.clone(),
        display_name: title,
        command,
        cwd,
        description: None,
        category: CommandCategory::Script,
    }
}

/// The output line that reports a run that could not start.
pub fn run_error_line(error: &str) -> (r: String)
    ensures
        r@ == "[error] "@ + error@,
{
    let mut s = owned("[error] ");
    push_str(&mut s, error);
    s
}

} // verus!
