//! The `up`, `down`, `restart` and `install` commands of the command line:
//! which units they act on and how their progress is reported.
use vstd::prelude::*;

use crate::lifecycle::AdapterCommand;
use crate::state::LogStream;
use crate::text::{join, join_strings, owned, push_str, string_views};
use crate::unit::UnitStatus;

verus! {

/// What a lifecycle command of the command line does to its units.
#[derive(Clone, Copy, Debug, PartialEq, Eq, Structural)]
pub enum CliAction {
    Start,
    Stop,
    Restart,
    Install,
}

pub open spec fn action_word(a: CliAction) -> Seq<char> {
    match a {
        CliAction::Start => "Starting"@,
        CliAction::Stop => "Stopping"@,
        CliAction::Restart => "Restarting"@,
        CliAction::Install => "Installing"@,
    }
}

impl CliAction {
    /// The word the progress message starts with.
    pub fn name(&self) -> (r: &'static str)
        ensures
            r@ == action_word(*self),
    {
        match self {
            CliAction::Start => "Starting",
            CliAction::Stop => "Stopping",
            CliAction::Restart => "Restarting",
            CliAction::Install => "Installing",
        }
    }

    /// How long the command follows the units' output, in milliseconds.
    pub fn wait_ms(&self) -> (r: u64)
        ensures
            r == match self {
                CliAction::Start | CliAction::Restart => 2000u64,
                CliAction::Stop => 500u64,
                CliAction::Install => 30_000u64,
            },
    {
        match self {
            CliAction::Start | CliAction::Restart => 2000,
            CliAction::Stop => 500,
            CliAction::Install => 30_000,
        }
    }

    /// The adapter request for one unit.
    pub fn request(&self, id: String) -> (r: AdapterCommand)
        ensures
            match self {
                CliAction::Start => r matches AdapterCommand::Start { id: i } && i == id,
                CliAction::Stop => r matches AdapterCommand::Stop { id: i } && i == id,
                CliAction::Restart => r matches AdapterCommand::Restart { id: i } && i == id,
                CliAction::Install => r matches AdapterCommand::Install { id: i } && i == id,
            },
    {
        match self {
            CliAction::Start => AdapterCommand::Start { id },
            CliAction::Stop => AdapterCommand::Stop { id },
            CliAction::Restart => AdapterCommand::Restart { id },
            CliAction::Install => AdapterCommand::Install { id },
        }
    }

    /// Whether the command ends once every unit is done, rather than when
    /// its time is up.
    pub fn ends_when_done(&self) -> (r: bool)
        ensures
            r == (*self == CliAction::Stop || *self == CliAction::Install),
    {
        match self {
            CliAction::Stop | CliAction::Install => true,
            _ => false,
        }
    }
}

pub open spec fn unknown_unit_text(arg: Seq<char>, ids: Seq<Seq<char>>) -> Seq<char> {
    "Unknown unit '"@ + arg + "'. Available: "@ + join(ids, ", "@)
}

/// The units a command acts on: every unit when an argument is `all`,
/// else the arguments, each of which must be a unit id; the first that is
/// not is reported.
pub fn targets(unit_ids: &Vec<String>, args: &Vec<String>) -> (r: Result<Vec<String>, String>)
    ensures
        string_views(args@).contains("all"@) ==> (r matches Ok(v) && string_views(v@) == string_views(unit_ids@)),
        !string_views(args@).contains("all"@) ==> match r {
            Ok(v) => string_views(v@) == string_views(args@) && forall|i: int|
                0 <= i < args@.len() ==> string_views(unit_ids@).contains(#[trigger] string_views(args@)[i]),
            Err(e) => exists|i: int|
                0 <= i < args@.len() && !string_views(unit_ids@).contains(#[trigger] string_views(args@)[i])
                    && (forall|j: int| 0 <= j < i ==> string_views(unit_ids@).contains(#[trigger] string_views(args@)[j]))
                    && e@ == unknown_unit_text(string_views(args@)[i], string_views(unit_ids@)),
        },
{
    let ghost ids = string_views(unit_ids@);
    let ghost av = string_views(args@);
    let mut k: usize = 0;
    while k < args.len()
        invariant
            k <= args.len(),
            av == string_views(args@),
            forall|j: int| 0 <= j < k ==> av[j] != "all"@,
        decreases args.len() - k,
    {
        if crate::command::str_eq(args[k].as_str(), "all") {
            assert(av[k as int] == "all"@);
            return Ok(crate::text::clone_strings(unit_ids));
        }
        k = k + 1;
    }
    assert(!av.contains("all"@));
    let mut i: usize = 0;
    while i < args.len()
        invariant
            i <= args.len(),
            ids == string_views(unit_ids@),
            av == string_views(args@),
            !av.contains("all"@),
            forall|j: int| 0 <= j < i ==> ids.contains(#[trigger] av[j]),
        decreases args.len() - i,
    {
        if !known_id(unit_ids, args[i].as_str()) {
            let mut msg = owned("Unknown unit '");
            push_str(&mut msg, args[i].as_str());
            push_str(&mut msg, "'. Available: ");
            push_str(&mut msg, join_strings(unit_ids, ", ").as_str());
            assert(av[i as int] == args@[i as int]@);
            assert(!ids.contains(av[i as int]));
            assert(msg@ == unknown_unit_text(av[i as int], ids));
            return Err(msg);
        }
        i = i + 1;
    }
    Ok(crate::text::clone_strings(args))
}

fn known_id(ids: &Vec<String>, id: &str) -> (r: bool)
    ensures
        r == string_views(ids@).contains(id@),
{
    let ghost v = string_views(ids@);
    let mut i: usize = 0;
    while i < ids.len()
        invariant
            i <= ids.len(),
            v == string_views(ids@),
            forall|k: int| 0 <= k < i ==> v[k] != id@,
        decreases ids.len() - i,
    {
        if crate::command::str_eq(ids[i].as_str(), id) {
            assert(v[i as int] == id@);
            return true;
        }
        i = i + 1;
    }
    false
}

pub open spec fn stream_tag(s: LogStream) -> Seq<char> {
    match s {
        LogStream::Stdout => ""@,
        LogStream::Stderr => "[stderr] "@,
        LogStream::System => "[system] "@,
    }
}

/// How a unit's log line is printed: `[id] ` and, but for stdout, its
/// stream.
pub fn log_line(id: &str, stream: LogStream, text: &str) -> (r: String)
    ensures
        r@ == "["@ + id@ + "] "@ + stream_tag(stream) + text@,
{
    let mut s = owned("[");
    push_str(&mut s, id);
    push_str(&mut s, "] ");
    push_str(
        &mut s,
        match stream {
            LogStream::Stdout => "",
            LogStream::Stderr => "[stderr] ",
            LogStream::System => "[system] ",
        },
    );
    push_str(&mut s, text);
    s
}

/// What a status change of a target unit prints and whether it counts the
/// unit as done.
pub struct StatusReport {
    /// The status line, `None` for statuses that are not shown.
    pub line: Option<String>,
    /// An error line printed before it.
    pub error: Option<String>,
    pub done: bool,
}

pub open spec fn status_word(s: UnitStatus) -> Option<Seq<char>> {
    match s {
        UnitStatus::Running => Some("running"@),
        UnitStatus::Stopped => Some("stopped"@),
        UnitStatus::Exited { code } => Some(
            if code == Some(0i32) {
                "exited (0)"@
            } else {
                "exited (error)"@
            },
        ),
        UnitStatus::Errored { .. } => Some("error"@),
        _ => None,
    }
}

/// Reports a status change of unit `id` during `action`: running, stopped,
/// exited and errored units are shown; an exit counts the unit as done,
/// and so does stopping during `down`.
pub fn status_report(action: CliAction, id: &str, status: &UnitStatus) -> (r: StatusReport)
    ensures
        match status_word(*status) {
            Some(w) => r.line matches Some(l) && l@ == "["@ + id@ + "] Status: "@ + w,
            None => r.line is None,
        },
        match status {
            UnitStatus::Errored { message } => r.error matches Some(e) && e@ == "["@ + id@ + "] Error: "@ + message@,
            _ => r.error is None,
        },
        r.done == (*status is Exited || (action == CliAction::Stop && *status is Stopped)),
{
    let word: Option<&str> = match status {
        UnitStatus::Running => Some("running"),
        UnitStatus::Stopped => Some("stopped"),
        UnitStatus::Exited { code } => Some(
            if *code == Some(0) {
                "exited (0)"
            } else {
                "exited (error)"
            },
        ),
        UnitStatus::Errored { .. } => Some("error"),
        _ => None,
    };
    let line = match word {
        Some(w) => {
            let mut s = owned("[");
            push_str(&mut s, id);
            push_str(&mut s, "] Status: ");
            push_str(&mut s, w);
            Some(s)
        },
        None => None,
    };
    let error = match status {
        UnitStatus::Errored { message } => {
            let mut s = owned("[");
            push_str(&mut s, id);
            push_str(&mut s, "] Error: ");
            push_str(&mut s, message.as_str());
            Some(s)
        },
        _ => None,
    };
    let done = match status {
        UnitStatus::Exited { .. } => true,
        UnitStatus::Stopped => action == CliAction::Stop,
        _ => false,
    };
    StatusReport { line, error, done }
}

} // verus!
