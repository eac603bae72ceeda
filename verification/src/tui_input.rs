//! The command line of the terminal UI: `up api`, `restart all`,
//! `exec api ls -la`, ...
use vstd::prelude::*;

use crate::command::str_eq;
use crate::text::{chars_of, concat2, owned, push_str, split_words, string_of, to_lower, unicode_lower, views_of, words};

verus! {

/// A request the command line asks the runtime to carry out.
#[derive(Clone, Debug)]
pub enum TuiCommand {
    Start { id: String },
    Stop { id: String },
    Restart { id: String },
    Kill { id: String },
    Toggle { id: String },
    ClearLogs { id: String },
    Exec { id: String, cmd: Vec<String> },
}

#[derive(Clone, Copy, Debug, PartialEq, Eq, Structural)]
pub enum TuiVerb {
    Start,
    Stop,
    Restart,
    Kill,
    Toggle,
    ClearLogs,
    Exec,
}

/// What a request holds: its verb, its target and, for `exec`, the command.
pub struct TuiCommandView {
    pub verb: TuiVerb,
    pub id: Seq<char>,
    pub cmd: Seq<Seq<char>>,
}

pub open spec fn strings_view(v: Seq<String>) -> Seq<Seq<char>> {
    v.map_values(|s: String| s@)
}

impl View for TuiCommand {
    type V = TuiCommandView;

    open spec fn view(&self) -> TuiCommandView {
        match self {
            TuiCommand::Start { id } => TuiCommandView { verb: TuiVerb::Start, id: id@, cmd: seq![] },
            TuiCommand::Stop { id } => TuiCommandView { verb: TuiVerb::Stop, id: id@, cmd: seq![] },
            TuiCommand::Restart { id } => TuiCommandView { verb: TuiVerb::Restart, id: id@, cmd: seq![] },
            TuiCommand::Kill { id } => TuiCommandView { verb: TuiVerb::Kill, id: id@, cmd: seq![] },
            TuiCommand::Toggle { id } => TuiCommandView { verb: TuiVerb::Toggle, id: id@, cmd: seq![] },
            TuiCommand::ClearLogs { id } => TuiCommandView { verb: TuiVerb::ClearLogs, id: id@, cmd: seq![] },
            TuiCommand::Exec { id, cmd } => TuiCommandView { verb: TuiVerb::Exec, id: id@, cmd: strings_view(cmd@) },
        }
    }
}

pub open spec fn simple(verb: TuiVerb, id: Seq<char>) -> TuiCommandView {
    TuiCommandView { verb, id, cmd: seq![] }
}

/// The services a target names: `all` names every service, a known id
/// names itself.
pub open spec fn expand_target(arg: Option<Seq<char>>, ids: Seq<Seq<char>>) -> Result<Seq<Seq<char>>, Seq<char>> {
    match arg {
        Some(a) => if a == "all"@ {
            Ok(ids)
        } else if ids.contains(a) {
            Ok(seq![a])
        } else {
            Err("Unknown service: "@ + a)
        },
        None => Err("Missing target (service id or 'all')"@),
    }
}

/// One request with `verb` per target.
pub open spec fn with_verb(verb: TuiVerb, r: Result<Seq<Seq<char>>, Seq<char>>) -> Result<Seq<TuiCommandView>, Seq<char>> {
    match r {
        Ok(ids) => Ok(ids.map_values(|id: Seq<char>| simple(verb, id))),
        Err(e) => Err(e),
    }
}

pub open spec fn usage_text() -> Seq<char> {
    "Usage: exec <service> <cmd...>"@
}

/// What a command line asks for.  Its first word, in lower case, is the
/// verb; the second is the target.
pub open spec fn parse_spec(input: Seq<char>, ids: Seq<Seq<char>>) -> Result<Seq<TuiCommandView>, Seq<char>> {
    let parts = words(input);
    if parts.len() == 0 {
        Err("Empty command"@)
    } else {
        let cmd = unicode_lower(parts[0]);
        let arg1 = if parts.len() > 1 {
            Some(parts[1])
        } else {
            None
        };
        if cmd == "up"@ || cmd == "start"@ {
            with_verb(TuiVerb::Start, expand_target(arg1, ids))
        } else if cmd == "down"@ || cmd == "stop"@ {
            with_verb(TuiVerb::Stop, expand_target(arg1, ids))
        } else if cmd == "restart"@ || cmd == "rs"@ {
            with_verb(TuiVerb::Restart, expand_target(arg1, ids))
        } else if cmd == "toggle"@ {
            with_verb(TuiVerb::Toggle, expand_target(arg1, ids))
        } else if cmd == "kill"@ || cmd == "k"@ {
            with_verb(TuiVerb::Kill, expand_target(arg1, ids))
        } else if cmd == "clear"@ || cmd == "cl"@ {
            let target = if arg1 == Some("logs"@) {
                if parts.len() > 2 {
                    parts[2]
                } else {
                    "all"@
                }
            } else if parts.len() > 1 {
                parts[1]
            } else {
                "all"@
            };
            with_verb(TuiVerb::ClearLogs, expand_target(Some(target), ids))
        } else if cmd == "exec"@ || cmd == "run"@ {
            if parts.len() < 2 {
                Err(usage_text())
            } else if !ids.contains(parts[1]) {
                Err("Unknown service: "@ + parts[1])
            } else if parts.len() <= 2 {
                Err(usage_text())
            } else {
                Ok(seq![TuiCommandView { verb: TuiVerb::Exec, id: parts[1], cmd: parts.skip(2) }])
            }
        } else {
            Err("Unknown command: "@ + cmd + "\nTry: up/down/restart/toggle/kill/clear/exec"@)
        }
    }
}

pub open spec fn commands_view(v: Seq<TuiCommand>) -> Seq<TuiCommandView> {
    v.map_values(|c: TuiCommand| c@)
}

pub open spec fn parse_result_view(r: Result<Vec<TuiCommand>, String>) -> Result<Seq<TuiCommandView>, Seq<char>> {
    match r {
        Ok(v) => Ok(commands_view(v@)),
        Err(e) => Err(e@),
    }
}

pub fn make(verb: TuiVerb, id: String) -> (r: TuiCommand)
    requires
        verb != TuiVerb::Exec,
    ensures
        r@ == simple(verb, id@),
{
    match verb {
        TuiVerb::Start => TuiCommand::Start { id },
        TuiVerb::Stop => TuiCommand::Stop { id },
        TuiVerb::Restart => TuiCommand::Restart { id },
        TuiVerb::Kill => TuiCommand::Kill { id },
        TuiVerb::Toggle => TuiCommand::Toggle { id },
        _ => TuiCommand::ClearLogs { id },
    }
}

/// Whether `id` is one of the service ids.
fn known(service_ids: &[String], id: &str) -> (r: bool)
    ensures
        r == strings_view(service_ids@).contains(id@),
{
    let ghost ids = strings_view(service_ids@);
    let mut i: usize = 0;
    while i < service_ids.len()
        invariant
            i <= service_ids.len(),
            ids == strings_view(service_ids@),
            forall|k: int| 0 <= k < i ==> ids[k] != id@,
        decreases service_ids.len() - i,
    {
        if str_eq(service_ids[i].as_str(), id) {
            assert(ids[i as int] == id@);
            return true;
        }
        i = i + 1;
    }
    false
}

/// The requests with `verb` for a target, or the reason it names none.
fn expand(verb: TuiVerb, arg: Option<&str>, service_ids: &[String]) -> (r: Result<Vec<TuiCommand>, String>)
    requires
        verb != TuiVerb::Exec,
    ensures
        parse_result_view(r) == with_verb(verb, expand_target(
            match arg {
                Some(a) => Some(a@),
                None => None,
            },
            strings_view(service_ids@),
        )),
{
    let ghost ids = strings_view(service_ids@);
    match arg {
        None => Err(owned("Missing target (service id or 'all')")),
        Some(a) => {
            if str_eq(a, "all") {
                let mut out: Vec<TuiCommand> = Vec::new();
                let mut i: usize = 0;
                while i < service_ids.len()
                    invariant
                        i <= service_ids.len(),
                        verb != TuiVerb::Exec,
                        ids == strings_view(service_ids@),
                        commands_view(out@) == ids.take(i as int).map_values(|id: Seq<char>| simple(verb, id)),
                    decreases service_ids.len() - i,
                {
                    let sid = service_ids[i].clone();
                    assert(sid@ == ids[i as int]);
                    let c = make(verb, sid);
                    let ghost prev = out@;
                    out.push(c);
                    proof {
                        assert(commands_view(out@) =~= commands_view(prev).push(c@));
                        assert(ids.take(i + 1) =~= ids.take(i as int).push(ids[i as int]));
                        assert(commands_view(out@) =~= ids.take(i + 1).map_values(|id: Seq<char>| simple(verb, id)));
                    }
                    i = i + 1;
                }
                assert(ids.take(ids.len() as int) =~= ids);
                Ok(out)
            } else if known(service_ids, a) {
                let mut out: Vec<TuiCommand> = Vec::new();
                out.push(make(verb, owned(a)));
                assert(commands_view(out@) =~= seq![a@].map_values(|id: Seq<char>| simple(verb, id)));
                Ok(out)
            } else {
                Err(concat2("Unknown service: ", a))
            }
        },
    }
}

/// Reads a command line against the known service ids.
pub fn parse_command(input: &str, service_ids: &[String]) -> (r: Result<Vec<TuiCommand>, String>)
    ensures
        parse_result_view(r) == parse_spec(input@, strings_view(service_ids@)),
{
    let ic = chars_of(input);
    let parts_c = split_words(ic.as_slice());
    let ghost parts = words(input@);
    assert(views_of(parts_c@) == parts);
    if parts_c.len() == 0 {
        return Err(owned("Empty command"));
    }
    let first = string_of(parts_c[0].as_slice());
    let cmd = to_lower(first.as_str());
    let c = cmd.as_str();
    let arg1_s: Option<String> = if parts_c.len() > 1 {
        Some(string_of(parts_c[1].as_slice()))
    } else {
        None
    };
    let arg1: Option<&str> = match &arg1_s {
        Some(s) => Some(s.as_str()),
        None => None,
    };
    proof {
        assert(parts[0] == first@);
        if parts.len() > 1 {
            assert(parts[1] == arg1->0@);
        }
    }
    if str_eq(c, "up") || str_eq(c, "start") {
        expand(TuiVerb::Start, arg1, service_ids)
    } else if str_eq(c, "down") || str_eq(c, "stop") {
        expand(TuiVerb::Stop, arg1, service_ids)
    } else if str_eq(c, "restart") || str_eq(c, "rs") {
        expand(TuiVerb::Restart, arg1, service_ids)
    } else if str_eq(c, "toggle") {
        expand(TuiVerb::Toggle, arg1, service_ids)
    } else if str_eq(c, "kill") || str_eq(c, "k") {
        expand(TuiVerb::Kill, arg1, service_ids)
    } else if str_eq(c, "clear") || str_eq(c, "cl") {
        let is_logs = match arg1 {
            Some(a) => str_eq(a, "logs"),
            None => false,
        };
        let target: String = if is_logs {
            if parts_c.len() > 2 {
                string_of(parts_c[2].as_slice())
            } else {
                owned("all")
            }
        } else {
            match arg1 {
                Some(a) => owned(a),
                None => owned("all"),
            }
        };
        expand(TuiVerb::ClearLogs, Some(target.as_str()), service_ids)
    } else if str_eq(c, "exec") || str_eq(c, "run") {
        match arg1 {
            None => Err(owned("Usage: exec <service> <cmd...>")),
            Some(svc) => {
                if !known(service_ids, svc) {
                    return Err(concat2("Unknown service: ", svc));
                }
                if parts_c.len() <= 2 {
                    return Err(owned("Usage: exec <service> <cmd...>"));
                }
                let mut rest: Vec<String> = Vec::new();
                let mut i: usize = 2;
                while i < parts_c.len()
                    invariant
                        2 <= i <= parts_c.len(),
                        views_of(parts_c@) == parts,
                        strings_view(rest@) == parts.subrange(2, i as int),
                    decreases parts_c.len() - i,
                {
                    let w = string_of(parts_c[i].as_slice());
                    assert(w@ == parts[i as int]);
                    let ghost prev = rest@;
                    rest.push(w);
                    proof {
                        assert(strings_view(rest@) =~= strings_view(prev).push(w@));
                        assert(strings_view(rest@) =~= parts.subrange(2, i + 1));
                    }
                    i = i + 1;
                }
                let mut out: Vec<TuiCommand> = Vec::new();
                out.push(TuiCommand::Exec { id: owned(svc), cmd: rest });
                proof {
                    assert(parts.subrange(2, parts.len() as int) =~= parts.skip(2));
                    assert(commands_view(out@) =~= seq![TuiCommandView { verb: TuiVerb::Exec, id: parts[1], cmd: parts.skip(2) }]);
                }
                Ok(out)
            },
        }
    } else {
        let mut e = owned("Unknown command: ");
        push_str(&mut e, c);
        push_str(&mut e, "\nTry: up/down/restart/toggle/kill/clear/exec");
        Err(e)
    }
}

} // verus!
