//! The findings of `orkesy doctor`: tool versions read off their output and
//! the checks of each configured unit.
use vstd::prelude::*;

use crate::text::{chars_of, decimal, join, join_strings, occurs_at, occurs_at_exec, owned, push_str, string_of, string_views, trim, trim_seq, u64_to_string};
use crate::unit::Unit;

verus! {

/// One finding: a name, whether it passed, a message and maybe a hint.
#[derive(Debug)]
pub struct Check {
    pub name: String,
    pub passed: bool,
    pub message: String,
    pub hint: Option<String>,
}

impl Check {
    pub fn ok(name: &str, message: &str) -> (r: Self)
        ensures
            r.name@ == name@,
            r.passed,
            r.message@ == message@,
            r.hint is None,
    {
        Check { name: owned(name), passed: true, message: owned(message), hint: None }
    }

    pub fn fail(name: &str, message: &str) -> (r: Self)
        ensures
            r.name@ == name@,
            !r.passed,
            r.message@ == message@,
            r.hint is None,
    {
        Check { name: owned(name), passed: false, message: owned(message), hint: None }
    }

    pub fn with_hint(self, hint: &str) -> (r: Self)
        ensures
            r.name == self.name,
            r.passed == self.passed,
            r.message == self.message,
            r.hint matches Some(h) && h@ == hint@,
    {
        Check { hint: Some(owned(hint)), ..self }
    }
}

/// `s` with every occurrence of `pat` taken out, from left to right.
pub open spec fn remove_all(s: Seq<char>, pat: Seq<char>) -> Seq<char>
    decreases s.len(),
{
    if pat.len() == 0 || s.len() == 0 {
        s
    } else if occurs_at(s, pat, 0) {
        remove_all(s.skip(pat.len() as int), pat)
    } else {
        seq![s[0]] + remove_all(s.drop_first(), pat)
    }
}

/// What comes before the first `sep` (all of `s` without one).
pub open spec fn before_sep(s: Seq<char>, sep: char) -> Seq<char>
    decreases s.len(),
{
    if s.len() == 0 || s[0] == sep {
        seq![]
    } else {
        seq![s[0]] + before_sep(s.drop_first(), sep)
    }
}

/// The version a tool printed: its output trimmed, `prefix` taken out
/// wherever it occurs, cut at the first `sep`.
pub open spec fn version_of(output: Seq<char>, prefix: Seq<char>, sep: char) -> Seq<char> {
    before_sep(remove_all(trim(output), prefix), sep)
}

fn remove_all_exec(s: &Vec<char>, pat: &Vec<char>) -> (r: Vec<char>)
    ensures
        r@ == remove_all(s@, pat@),
{
    let mut out: Vec<char> = Vec::new();
    if pat.len() == 0 {
        return s.clone();
    }
    let mut i: usize = 0;
    assert(s@.skip(0) =~= s@);
    assert(out@ + remove_all(s@, pat@) =~= remove_all(s@, pat@));
    while i < s.len()
        invariant
            i <= s.len(),
            pat@.len() > 0,
            out@ + remove_all(s@.skip(i as int), pat@) == remove_all(s@, pat@),
        decreases s.len() - i,
    {
        let ghost rest = s@.skip(i as int);
        let ghost o = out@;
        if pat.len() <= s.len() - i && occurs_at_exec(s.as_slice(), pat.as_slice(), i) {
            proof {
                assert(rest.subrange(0, pat@.len() as int) =~= s@.subrange(i as int, i + pat@.len()));
                assert(occurs_at(rest, pat@, 0));
                assert(rest.skip(pat@.len() as int) =~= s@.skip(i + pat@.len()));
            }
            i = i + pat.len();
        } else {
            proof {
                if occurs_at(rest, pat@, 0) {
                    assert(rest.subrange(0, pat@.len() as int) =~= s@.subrange(i as int, i + pat@.len()));
                }
                assert(!occurs_at(rest, pat@, 0));
                assert(rest.drop_first() =~= s@.skip(i + 1));
                assert(rest[0] == s@[i as int]);
            }
            out.push(s[i]);
            proof {
                assert(out@ + remove_all(s@.skip(i + 1), pat@) =~= o + (seq![rest[0]] + remove_all(rest.drop_first(), pat@)));
            }
            i = i + 1;
        }
    }
    assert(s@.skip(s.len() as int) =~= Seq::<char>::empty());
    assert(out@ + Seq::<char>::empty() =~= out@);
    out
}

fn before_sep_exec(s: &Vec<char>, sep: char) -> (r: Vec<char>)
    ensures
        r@ == before_sep(s@, sep),
{
    let mut out: Vec<char> = Vec::new();
    let mut i: usize = 0;
    assert(s@.skip(0) =~= s@);
    assert(out@ + before_sep(s@, sep) =~= before_sep(s@, sep));
    while i < s.len() && s[i] != sep
        invariant
            i <= s.len(),
            out@ + before_sep(s@.skip(i as int), sep) == before_sep(s@, sep),
        decreases s.len() - i,
    {
        let ghost o = out@;
        assert(s@.skip(i as int).drop_first() =~= s@.skip(i + 1));
        out.push(s[i]);
        assert(out@ + before_sep(s@.skip(i + 1), sep) =~= o + (seq![s@[i as int]] + before_sep(s@.skip(i + 1), sep)));
        i = i + 1;
    }
    assert(out@ + before_sep(s@.skip(i as int), sep) == before_sep(s@, sep));
    assert(before_sep(s@.skip(i as int), sep) =~= Seq::<char>::empty());
    out
}

/// Reads a version off a tool's output, as `version_of` says.
pub fn version_text(output: &str, prefix: &str, sep: char) -> (r: String)
    ensures
        r@ == version_of(output@, prefix@, sep),
{
    let t = trim_seq(chars_of(output).as_slice());
    let p = chars_of(prefix);
    let removed = remove_all_exec(&t, &p);
    let cut = before_sep_exec(&removed, sep);
    string_of(cut.as_slice())
}

/// The list of package managers found, as shown after a version: empty
/// when there are none, else ` (a, b)`.
pub open spec fn managers_text(managers: Seq<Seq<char>>) -> Seq<char> {
    if managers.len() == 0 {
        seq![]
    } else {
        " ("@ + join(managers, ", "@) + ")"@
    }
}

pub fn managers_info(managers: &Vec<String>) -> (r: String)
    ensures
        r@ == managers_text(string_views(managers@)),
{
    if managers.len() == 0 {
        return String::new();
    }
    let mut s = owned(" (");
    push_str(&mut s, join_strings(managers, ", ").as_str());
    push_str(&mut s, ")");
    s
}

/// What is wrong with a unit: its working directory is missing, its port
/// is taken, an install command or its start command is empty.
pub open spec fn unit_issues(u: Unit, cwd_found: bool, port_free: bool) -> Seq<Seq<char>> {
    let a: Seq<Seq<char>> = match u.cwd {
        Some(c) => if !cwd_found {
            seq!["cwd '"@ + c@ + "' not found"@]
        } else {
            seq![]
        },
        None => seq![],
    };
    let b: Seq<Seq<char>> = match u.port {
        Some(p) => if !port_free {
            seq!["port "@ + decimal(p as nat) + " is in use"@]
        } else {
            seq![]
        },
        None => seq![],
    };
    let c = u.install@.filter(|cmd: String| cmd@.len() == 0).map_values(|cmd: String| "empty install command"@);
    let d: Seq<Seq<char>> = if u.start@.len() == 0 {
        seq!["empty start command"@]
    } else {
        seq![]
    };
    a + b + c + d
}

/// The message of a unit that passes: `ok`, its port, whether it starts by
/// itself.
pub open spec fn unit_ok_text(u: Unit) -> Seq<char> {
    "ok"@ + (match u.port {
        Some(p) => " :"@ + decimal(p as nat),
        None => seq![],
    }) + (if u.autostart {
        " [autostart]"@
    } else {
        seq![]
    })
}

fn push_issue(v: &mut Vec<String>, s: String)
    ensures
        string_views(final(v)@) == string_views(old(v)@).push(s@),
{
    v.push(s);
    assert(string_views(v@) =~= string_views(old(v)@).push(s@));
}

/// The check of a unit; `cwd_found` says whether its working directory
/// exists (next to the configuration) and `port_free` whether its port can
/// be bound.  A unit passes when nothing is wrong with it; otherwise the
/// issues are listed, separated by commas.
pub fn unit_check(unit: &Unit, cwd_found: bool, port_free: bool) -> (r: Check)
    ensures
        r.name@ == unit.id@,
        r.passed == (unit_issues(*unit, cwd_found, port_free).len() == 0),
        r.passed ==> r.message@ == unit_ok_text(*unit),
        !r.passed ==> r.message@ == join(unit_issues(*unit, cwd_found, port_free), ", "@),
        r.hint is None,
{
    let ghost u = *unit;
    let mut issues: Vec<String> = Vec::new();
    match &unit.cwd {
        Some(c) => {
            if !cwd_found {
                let mut m = owned("cwd '");
                push_str(&mut m, c.as_str());
                push_str(&mut m, "' not found");
                push_issue(&mut issues, m);
            }
        },
        None => {},
    }
    match unit.port {
        Some(p) => {
            if !port_free {
                let mut m = owned("port ");
                push_str(&mut m, u64_to_string(p as u64).as_str());
                push_str(&mut m, " is in use");
                push_issue(&mut issues, m);
            }
        },
        None => {},
    }
    let ghost head = string_views(issues@);
    let ghost pe = |cmd: String| cmd@.len() == 0;
    let ghost msg = |cmd: String| "empty install command"@;
    let mut i: usize = 0;
    while i < unit.install.len()
        invariant
            i <= unit.install.len(),
            pe == (|cmd: String| cmd@.len() == 0),
            msg == (|cmd: String| "empty install command"@),
            string_views(issues@) == head + unit.install@.take(i as int).filter(pe).map_values(msg),
        decreases unit.install.len() - i,
    {
        proof {
            crate::command::lemma_filter_step(unit.install@, pe, i as int);
        }
        if chars_of(unit.install[i].as_str()).len() == 0 {
            let ghost before = string_views(issues@);
            push_issue(&mut issues, owned("empty install command"));
            assert(unit.install@.take(i + 1).filter(pe).map_values(msg) =~= unit.install@.take(i as int).filter(
                pe,
            ).map_values(msg).push("empty install command"@));
        }
        i = i + 1;
    }
    assert(unit.install@.take(unit.install.len() as int) =~= unit.install@);
    if chars_of(unit.start.as_str()).len() == 0 {
        push_issue(&mut issues, owned("empty start command"));
    }
    assert(string_views(issues@) =~= unit_issues(u, cwd_found, port_free));
    if issues.len() == 0 {
        let mut m = owned("ok");
        match unit.port {
            Some(p) => {
                push_str(&mut m, " :");
                push_str(&mut m, u64_to_string(p as u64).as_str());
            },
            None => {},
        }
        if unit.autostart {
            push_str(&mut m, " [autostart]");
        }
        assert(m@ =~= unit_ok_text(u));
        Check { name: unit.id.clone(), passed: true, message: m, hint: None }
    } else {
        Check { name: unit.id.clone(), passed: false, message: join_strings(&issues, ", "), hint: None }
    }
}

} // verus!
