//! Rewriting a legacy configuration in the canonical `units:` schema.
use vstd::prelude::*;

use crate::command::str_eq;
use crate::text::{
    ascii_lower, chars_of, decimal, is_digit, owned, push_char, push_str, string_of, to_lower,
    u64_to_string, unicode_lower,
};
use crate::unit::{EdgeKind, Unit, UnitEdge, UnitKind};

verus! {

pub open spec fn kind_label_text(k: UnitKind) -> Seq<char> {
    match k {
        UnitKind::Process => "process"@,
        UnitKind::Docker => "docker"@,
        UnitKind::Generic => "generic"@,
    }
}

pub fn kind_label(k: &UnitKind) -> (r: &'static str)
    ensures
        r@ == kind_label_text(*k),
{
    match k {
        UnitKind::Process => "process",
        UnitKind::Docker => "docker",
        UnitKind::Generic => "generic",
    }
}

pub open spec fn edge_kind_label_text(k: EdgeKind) -> Seq<char> {
    match k {
        EdgeKind::DependsOn => "depends_on"@,
        EdgeKind::TalksTo => "talks_to"@,
        EdgeKind::Produces => "produces"@,
        EdgeKind::Consumes => "consumes"@,
    }
}

pub fn edge_kind_label(k: &EdgeKind) -> (r: &'static str)
    ensures
        r@ == edge_kind_label_text(*k),
{
    match k {
        EdgeKind::DependsOn => "depends_on",
        EdgeKind::TalksTo => "talks_to",
        EdgeKind::Produces => "produces",
        EdgeKind::Consumes => "consumes",
    }
}

// ---------------------------------------------------------------------------
// What `str::parse::<f64>` accepts: an optional sign, then `inf`,
// `infinity` or `nan` in any case, or a decimal number with an optional
// exponent.
// ---------------------------------------------------------------------------

pub open spec fn digits_only(s: Seq<char>) -> bool {
    forall|i: int| 0 <= i < s.len() ==> is_digit(#[trigger] s[i])
}

/// Digits with at most one `.`, and at least one digit.
pub open spec fn is_mantissa(m: Seq<char>) -> bool {
    ||| (m.len() > 0 && digits_only(m))
    ||| exists|i: int|
        0 <= i < m.len() && #[trigger] m[i] == '.' && m.len() > 1 && digits_only(m.take(i))
            && digits_only(m.skip(i + 1))
}

/// An optional sign and at least one digit.
pub open spec fn is_exponent(e: Seq<char>) -> bool {
    let b = if e.len() > 0 && (e[0] == '+' || e[0] == '-') {
        e.drop_first()
    } else {
        e
    };
    b.len() > 0 && digits_only(b)
}

pub open spec fn is_number(t: Seq<char>) -> bool {
    ||| is_mantissa(t)
    ||| exists|k: int|
        0 <= k < t.len() && (#[trigger] t[k] == 'e' || t[k] == 'E') && is_mantissa(t.take(k))
            && is_exponent(t.skip(k + 1))
}

pub open spec fn float_body(t: Seq<char>) -> bool {
    let l = ascii_lower(t);
    l == "inf"@ || l == "infinity"@ || l == "nan"@ || is_number(t)
}

/// Whether `s.parse::<f64>()` succeeds.
pub open spec fn parses_float(s: Seq<char>) -> bool {
    if s.len() > 0 && (s[0] == '+' || s[0] == '-') {
        float_body(s.drop_first())
    } else {
        float_body(s)
    }
}

fn digits_only_exec(s: &[char]) -> (r: bool)
    ensures
        r == digits_only(s@),
{
    let mut i: usize = 0;
    while i < s.len()
        invariant
            i <= s.len(),
            forall|j: int| 0 <= j < i ==> is_digit(#[trigger] s@[j]),
        decreases s.len() - i,
    {
        if !('0' <= s[i] && s[i] <= '9') {
            return false;
        }
        i = i + 1;
    }
    true
}

fn mantissa_exec(m: &[char]) -> (r: bool)
    ensures
        r == is_mantissa(m@),
{
    if m.len() == 0 {
        return false;
    }
    let mut i: usize = 0;
    while i < m.len() && m[i] != '.'
        invariant
            i <= m.len(),
            forall|j: int| 0 <= j < i ==> m@[j] != '.',
        decreases m.len() - i,
    {
        i = i + 1;
    }
    let dot = i;
    if dot == m.len() {
        let r = digits_only_exec(m);
        proof {
            if !r {
                assert forall|k: int| 0 <= k < m@.len() && m@[k] == '.' implies false by {}
            }
        }
        return r;
    }
    let a = digits_only_exec(&m[0..dot]);
    let b = digits_only_exec(&m[dot + 1..m.len()]);
    proof {
        assert(m@.subrange(0, dot as int) =~= m@.take(dot as int));
        assert(m@.subrange(dot + 1, m@.len() as int) =~= m@.skip(dot + 1));
        if m@.len() > 0 && digits_only(m@) {
            assert(!is_digit(m@[dot as int]));
        }
        assert forall|k: int|
            0 <= k < m@.len() && #[trigger] m@[k] == '.' && m@.len() > 1 && digits_only(m@.take(k))
                && digits_only(m@.skip(k + 1)) implies k == dot by {
            if k < dot {
            } else if k > dot {
                assert(m@.take(k)[dot as int] == '.');
            }
        }
    }
    a && b && m.len() > 1
}

fn exponent_exec(e: &[char]) -> (r: bool)
    ensures
        r == is_exponent(e@),
{
    if e.len() > 0 && (e[0] == '+' || e[0] == '-') {
        proof {
            assert(e@.subrange(1, e@.len() as int) =~= e@.drop_first());
        }
        e.len() > 1 && digits_only_exec(&e[1..e.len()])
    } else {
        e.len() > 0 && digits_only_exec(e)
    }
}

fn number_exec(t: &[char]) -> (r: bool)
    ensures
        r == is_number(t@),
{
    let mut k: usize = 0;
    while k < t.len() && t[k] != 'e' && t[k] != 'E'
        invariant
            k <= t.len(),
            forall|j: int| 0 <= j < k ==> t@[j] != 'e' && t@[j] != 'E',
        decreases t.len() - k,
    {
        k = k + 1;
    }
    if k == t.len() {
        let r = mantissa_exec(t);
        return r;
    }
    let ma = mantissa_exec(&t[0..k]);
    let ex = exponent_exec(&t[k + 1..t.len()]);
    let whole = mantissa_exec(t);
    proof {
        assert(t@.subrange(0, k as int) =~= t@.take(k as int));
        assert(t@.subrange(k + 1, t@.len() as int) =~= t@.skip(k + 1));
        assert forall|j: int|
            0 <= j < t@.len() && (#[trigger] t@[j] == 'e' || t@[j] == 'E') && is_mantissa(t@.take(j))
                && is_exponent(t@.skip(j + 1)) implies j == k by {
            if j > k {
                let m = t@.take(j);
                assert(m[k as int] == t@[k as int]);
                if m.len() > 0 && digits_only(m) {
                    assert(!is_digit(m[k as int]));
                }
                if exists|i: int|
                    0 <= i < m.len() && #[trigger] m[i] == '.' && m.len() > 1 && digits_only(m.take(i))
                        && digits_only(m.skip(i + 1)) {
                    let i = choose|i: int|
                        0 <= i < m.len() && #[trigger] m[i] == '.' && m.len() > 1 && digits_only(
                            m.take(i),
                        ) && digits_only(m.skip(i + 1));
                    if k < i {
                        assert(m.take(i)[k as int] == m[k as int]);
                    } else if k > i {
                        assert(m.skip(i + 1)[k - i - 1] == m[k as int]);
                    }
                }
            }
        }
        if is_mantissa(t@) {
            if t@.len() > 0 && digits_only(t@) {
                assert(!is_digit(t@[k as int]));
            }
            let i = choose|i: int|
                0 <= i < t@.len() && #[trigger] t@[i] == '.' && t@.len() > 1 && digits_only(t@.take(i))
                    && digits_only(t@.skip(i + 1));
            if k < i {
                assert(t@.take(i)[k as int] == t@[k as int]);
            } else if k > i {
                assert(t@.skip(i + 1)[k - i - 1] == t@[k as int]);
            }
        }
    }
    ma && ex
}

fn ascii_lower_exec(s: &[char]) -> (r: Vec<char>)
    ensures
        r@ == ascii_lower(s@),
{
    let mut out: Vec<char> = Vec::new();
    let mut i: usize = 0;
    while i < s.len()
        invariant
            i <= s.len(),
            out@ == ascii_lower(s@.take(i as int)),
        decreases s.len() - i,
    {
        let c = s[i];
        let l = if 'A' <= c && c <= 'Z' {
            ((c as u8) + 32) as char
        } else {
            c
        };
        proof {
            assert(s@.take(i + 1) =~= s@.take(i as int).push(c));
            assert(ascii_lower(s@.take(i + 1)) =~= ascii_lower(s@.take(i as int)).push(
                crate::text::lower_char(c),
            ));
            assert(l == crate::text::lower_char(c));
        }
        out.push(l);
        i = i + 1;
    }
    assert(s@.take(s@.len() as int) =~= s@);
    out
}

fn float_body_exec(t: &[char]) -> (r: bool)
    ensures
        r == float_body(t@),
{
    let l = ascii_lower_exec(t);
    let ls = string_of(l.as_slice());
    str_eq(ls.as_str(), "inf") || str_eq(ls.as_str(), "infinity") || str_eq(ls.as_str(), "nan")
        || number_exec(t)
}

/// Whether `s.parse::<f64>()` succeeds.
pub fn parses_float_exec(s: &str) -> (r: bool)
    ensures
        r == parses_float(s@),
{
    let cs = chars_of(s);
    if cs.len() > 0 && (cs[0] == '+' || cs[0] == '-') {
        proof {
            assert(cs@.subrange(1, cs@.len() as int) =~= s@.drop_first());
        }
        float_body_exec(&cs.as_slice()[1..cs.len()])
    } else {
        float_body_exec(cs.as_slice())
    }
}

// ---------------------------------------------------------------------------
// Quoting.
// ---------------------------------------------------------------------------

/// Characters that force quoting anywhere in a value.
pub open spec fn special_char(c: char) -> bool {
    c == '"' || c == '\'' || c == ':' || c == '#' || c == '\n' || c == '\\'
}

/// Characters that force quoting at the start of a value.
pub open spec fn special_start(c: char) -> bool {
    c == ' ' || c == '-' || c == '?' || c == '!' || c == '&' || c == '*'
}

/// Whether a value must be quoted to read back as the same string: empty,
/// holding a special character, starting with a sigil, reading as a
/// number, or a YAML keyword in any case.
pub open spec fn needs_quotes(s: Seq<char>) -> bool {
    let l = unicode_lower(s);
    ||| s.len() == 0
    ||| (exists|i: int| 0 <= i < s.len() && special_char(#[trigger] s[i]))
    ||| special_start(s[0])
    ||| parses_float(s)
    ||| l == "true"@ || l == "false"@ || l == "null"@ || l == "yes"@ || l == "no"@
}

/// Backslashes and double quotes escaped with a backslash.
pub open spec fn escaped(s: Seq<char>) -> Seq<char>
    decreases s.len(),
{
    if s.len() == 0 {
        Seq::empty()
    } else {
        let c = s.last();
        escaped(s.drop_last()) + if c == '\\' {
            seq!['\\', '\\']
        } else if c == '"' {
            seq!['\\', '"']
        } else {
            seq![c]
        }
    }
}

/// A value as written in the generated YAML.
pub open spec fn yaml_text(s: Seq<char>) -> Seq<char> {
    if needs_quotes(s) {
        seq!['"'] + escaped(s) + seq!['"']
    } else {
        s
    }
}

/// Quotes a string that could otherwise be misread as another YAML scalar.
pub fn yaml_string(s: &str) -> (r: String)
    ensures
        r@ == yaml_text(s@),
{
    let cs = chars_of(s);
    let mut special = false;
    let mut i: usize = 0;
    while i < cs.len()
        invariant
            i <= cs.len(),
            cs@ == s@,
            special == exists|j: int| 0 <= j < i && special_char(#[trigger] s@[j]),
        decreases cs.len() - i,
    {
        let c = cs[i];
        if c == '"' || c == '\'' || c == ':' || c == '#' || c == '\n' || c == '\\' {
            special = true;
        }
        i = i + 1;
    }
    let lower = to_lower(s);
    let ls = lower.as_str();
    let quote = cs.len() == 0 || special || (cs[0] == ' ' || cs[0] == '-' || cs[0] == '?' || cs[0] == '!'
        || cs[0] == '&' || cs[0] == '*') || parses_float_exec(s) || str_eq(ls, "true") || str_eq(
        ls,
        "false",
    ) || str_eq(ls, "null") || str_eq(ls, "yes") || str_eq(ls, "no");
    if !quote {
        return owned(s);
    }
    let mut out = String::new();
    push_char(&mut out, '"');
    let mut k: usize = 0;
    while k < cs.len()
        invariant
            k <= cs.len(),
            cs@ == s@,
            out@ == seq!['"'] + escaped(s@.take(k as int)),
        decreases cs.len() - k,
    {
        let c = cs[k];
        proof {
            assert(s@.take(k + 1).drop_last() =~= s@.take(k as int));
            assert(s@.take(k + 1).last() == c);
        }
        if c == '\\' {
            push_char(&mut out, '\\');
            push_char(&mut out, '\\');
        } else if c == '"' {
            push_char(&mut out, '\\');
            push_char(&mut out, '"');
        } else {
            push_char(&mut out, c);
        }
        proof {
            assert(out@ =~= seq!['"'] + escaped(s@.take(k + 1)));
        }
        k = k + 1;
    }
    push_char(&mut out, '"');
    proof {
        assert(s@.take(s@.len() as int) =~= s@);
    }
    out
}


// ---------------------------------------------------------------------------
// The generated file.
// ---------------------------------------------------------------------------

pub open spec fn bool_text(b: bool) -> Seq<char> {
    if b {
        "true"@
    } else {
        "false"@
    }
}

/// The `env` lines of a unit, one per variable in key order.
pub open spec fn env_lines(ks: Seq<Seq<char>>, vs: Seq<String>) -> Seq<char>
    decreases ks.len(),
{
    if ks.len() == 0 || vs.len() == 0 {
        Seq::empty()
    } else {
        env_lines(ks.drop_last(), vs.drop_last()) + "      "@ + ks.last() + ": "@ + yaml_text(
            vs.last()@,
        ) + "\n"@
    }
}

/// The first lines of a unit's block: id, kind, directory, start command,
/// port.
pub open spec fn unit_head(u: Unit) -> Seq<char> {
    "  "@ + u.id@ + ":\n"@ + "    kind: "@ + kind_label_text(u.kind) + "\n"@ + (match u.cwd {
        Some(c) => "    cwd: "@ + c@ + "\n"@,
        None => Seq::empty(),
    }) + "    start: "@ + yaml_text(u.start@) + "\n"@ + (match u.port {
        Some(p) => "    port: "@ + decimal(p as nat) + "\n"@,
        None => Seq::empty(),
    })
}

/// The `env` part of a unit's block, absent when it has no variables.
pub open spec fn unit_env(u: Unit) -> Seq<char> {
    if u.env.keys().len() == 0 {
        Seq::empty()
    } else {
        "    env:\n"@ + env_lines(u.env.keys(), u.env.vals())
    }
}

/// The last lines of a unit's block, and the blank line after it.
pub open spec fn unit_tail(u: Unit) -> Seq<char> {
    "    autostart: "@ + bool_text(u.autostart) + "\n"@ + (match u.description {
        Some(d) => "    description: "@ + yaml_text(d@) + "\n"@,
        None => Seq::empty(),
    }) + "\n"@
}

/// The block of lines describing one unit.
pub open spec fn unit_block(u: Unit) -> Seq<char> {
    unit_head(u) + unit_env(u) + unit_tail(u)
}

pub open spec fn units_text(us: Seq<Unit>) -> Seq<char>
    decreases us.len(),
{
    if us.len() == 0 {
        Seq::empty()
    } else {
        units_text(us.drop_last()) + unit_block(us.last())
    }
}

pub open spec fn edge_line(e: UnitEdge) -> Seq<char> {
    "  - { from: "@ + e.from@ + ", to: "@ + e.to@ + ", kind: "@ + edge_kind_label_text(e.kind)
        + " }\n"@
}

pub open spec fn edges_text(es: Seq<UnitEdge>) -> Seq<char>
    decreases es.len(),
{
    if es.len() == 0 {
        Seq::empty()
    } else {
        edges_text(es.drop_last()) + edge_line(es.last())
    }
}

/// The canonical file for a project's units and edges.
pub open spec fn units_yaml(project: Option<Seq<char>>, us: Seq<Unit>, es: Seq<UnitEdge>) -> Seq<char> {
    "# Orkesy configuration (migrated from legacy `services:` schema)\n"@ + "version: 1\n\n"@ + (
    match project {
        Some(name) => "project:\n"@ + "  name: "@ + name + "\n\n"@,
        None => Seq::empty(),
    }) + "units:\n"@ + units_text(us) + (if es.len() == 0 {
        "edges: []\n"@
    } else {
        "edges:\n"@ + edges_text(es)
    })
}

fn push_unit_head(out: &mut String, u: &Unit)
    ensures
        final(out)@ == old(out)@ + unit_head(*u),
{
    let ghost start = out@;
    push_str(out, "  ");
    push_str(out, u.id.as_str());
    push_str(out, ":\n");
    push_str(out, "    kind: ");
    push_str(out, kind_label(&u.kind));
    push_str(out, "\n");
    let ghost mid = out@;
    match &u.cwd {
        Some(c) => {
            push_str(out, "    cwd: ");
            push_str(out, c.as_str());
            push_str(out, "\n");
        },
        None => {},
    }
    push_str(out, "    start: ");
    push_str(out, yaml_string(u.start.as_str()).as_str());
    push_str(out, "\n");
    match u.port {
        Some(p) => {
            push_str(out, "    port: ");
            push_str(out, u64_to_string(p as u64).as_str());
            push_str(out, "\n");
        },
        None => {},
    }
    proof {
        assert(mid =~= start + "  "@ + u.id@ + ":\n"@ + "    kind: "@ + kind_label_text(u.kind) + "\n"@);
        assert(out@ =~= start + unit_head(*u));
    }
}

fn push_unit_env(out: &mut String, u: &Unit)
    ensures
        final(out)@ == old(out)@ + unit_env(*u),
{
    let ghost start = out@;
    let n = u.env.len();
    if n > 0 {
        push_str(out, "    env:\n");
        let ghost before_env = out@;
        let mut i: usize = 0;
        proof {
            assert(env_lines(u.env.keys().take(0), u.env.vals().take(0)) =~= Seq::<char>::empty());
        }
        while i < n
            invariant
                i <= n,
                n == u.env.keys().len(),
                n == u.env.vals().len(),
                out@ == before_env + env_lines(u.env.keys().take(i as int), u.env.vals().take(i as int)),
            decreases n - i,
        {
            proof {
                assert(u.env.keys().take(i + 1).drop_last() =~= u.env.keys().take(i as int));
                assert(u.env.vals().take(i + 1).drop_last() =~= u.env.vals().take(i as int));
            }
            let ghost prev = out@;
            push_str(out, "      ");
            push_str(out, u.env.key_at(i).as_str());
            push_str(out, ": ");
            push_str(out, yaml_string(u.env.value_at(i).as_str()).as_str());
            push_str(out, "\n");
            proof {
                assert(out@ =~= before_env + env_lines(u.env.keys().take(i + 1), u.env.vals().take(i + 1)));
            }
            i = i + 1;
        }
        proof {
            assert(u.env.keys().take(n as int) =~= u.env.keys());
            assert(u.env.vals().take(n as int) =~= u.env.vals());
            assert(out@ =~= start + unit_env(*u));
        }
    } else {
        proof {
            assert(out@ =~= start + unit_env(*u));
        }
    }
}

fn push_unit_tail(out: &mut String, u: &Unit)
    ensures
        final(out)@ == old(out)@ + unit_tail(*u),
{
    let ghost start = out@;
    push_str(out, "    autostart: ");
    push_str(out, if u.autostart {
        "true"
    } else {
        "false"
    });
    push_str(out, "\n");
    match &u.description {
        Some(d) => {
            push_str(out, "    description: ");
            push_str(out, yaml_string(d.as_str()).as_str());
            push_str(out, "\n");
        },
        None => {},
    }
    push_str(out, "\n");
    proof {
        assert(out@ =~= start + unit_tail(*u));
    }
}

fn push_unit_block(out: &mut String, u: &Unit)
    ensures
        final(out)@ == old(out)@ + unit_block(*u),
{
    let ghost start = out@;
    push_unit_head(out, u);
    push_unit_env(out, u);
    push_unit_tail(out, u);
    proof {
        assert(out@ =~= start + unit_block(*u));
    }
}

/// The canonical `units:` file for a migrated configuration.
pub fn generate_units_yaml(project: Option<&str>, units: &[Unit], edges: &[UnitEdge]) -> (r: String)
    ensures
        r@ == units_yaml(
            match project {
                Some(p) => Some(p@),
                None => None,
            },
            units@,
            edges@,
        ),
{
    let mut out = String::new();
    push_str(&mut out, "# Orkesy configuration (migrated from legacy `services:` schema)\n");
    push_str(&mut out, "version: 1\n\n");
    match project {
        Some(name) => {
            push_str(&mut out, "project:\n");
            push_str(&mut out, "  name: ");
            push_str(&mut out, name);
            push_str(&mut out, "\n\n");
        },
        None => {},
    }
    push_str(&mut out, "units:\n");
    let ghost before_units = out@;
    let mut i: usize = 0;
    while i < units.len()
        invariant
            i <= units.len(),
            out@ == before_units + units_text(units@.take(i as int)),
        decreases units.len() - i,
    {
        proof {
            assert(units@.take(i + 1).drop_last() =~= units@.take(i as int));
        }
        push_unit_block(&mut out, &units[i]);
        i = i + 1;
    }
    proof {
        assert(units@.take(units@.len() as int) =~= units@);
    }
    if edges.len() == 0 {
        push_str(&mut out, "edges: []\n");
    } else {
        push_str(&mut out, "edges:\n");
        let ghost before_edges = out@;
        let mut j: usize = 0;
        while j < edges.len()
            invariant
                j <= edges.len(),
                out@ == before_edges + edges_text(edges@.take(j as int)),
            decreases edges.len() - j,
        {
            proof {
                assert(edges@.take(j + 1).drop_last() =~= edges@.take(j as int));
            }
            let e = &edges[j];
            push_str(&mut out, "  - { from: ");
            push_str(&mut out, e.from.as_str());
            push_str(&mut out, ", to: ");
            push_str(&mut out, e.to.as_str());
            push_str(&mut out, ", kind: ");
            push_str(&mut out, edge_kind_label(&e.kind));
            push_str(&mut out, " }\n");
            j = j + 1;
        }
        proof {
            assert(edges@.take(edges@.len() as int) =~= edges@);
        }
    }
    out
}

proof fn lemma_edges_text_append(a: Seq<UnitEdge>, b: Seq<UnitEdge>)
    ensures
        edges_text(a + b) == edges_text(a) + edges_text(b),
    decreases b.len(),
{
    if b.len() == 0 {
        assert(a + b =~= a);
        assert(edges_text(a) + edges_text(b) =~= edges_text(a));
    } else {
        lemma_edges_text_append(a, b.drop_last());
        assert((a + b).drop_last() =~= a + b.drop_last());
        assert((a + b).last() == b.last());
        assert(edges_text(a + b) =~= edges_text(a) + edges_text(b));
    }
}

/// Migration writes the edges in their order, one line each: the line of
/// edge `k` comes after those of the edges before it and names the edge's
/// source after `from:`, its target after `to:`, and its kind by the name
/// that the units-file reader takes back to that same kind.
pub proof fn law_edge_lines(project: Option<Seq<char>>, us: Seq<Unit>, es: Seq<UnitEdge>, k: int)
    requires
        0 <= k < es.len(),
    ensures
        exists|head: Seq<char>| units_yaml(project, us, es) == head + "edges:\n"@ + edges_text(es),
        edges_text(es) == edges_text(es.take(k)) + ("  - { from: "@ + es[k].from@ + ", to: "@ + es[k].to@
            + ", kind: "@ + edge_kind_label_text(es[k].kind) + " }\n"@) + edges_text(es.skip(k + 1)),
        crate::config::edge_kind_named(edge_kind_label_text(es[k].kind)) == Some(es[k].kind),
{
    let head = "# Orkesy configuration (migrated from legacy `services:` schema)\n"@ + "version: 1\n\n"@ + (
    match project {
        Some(name) => "project:\n"@ + "  name: "@ + name + "\n\n"@,
        None => Seq::empty(),
    }) + "units:\n"@ + units_text(us);
    assert(units_yaml(project, us, es) =~= head + "edges:\n"@ + edges_text(es));
    let one = seq![es[k]];
    assert(es =~= es.take(k) + one + es.skip(k + 1));
    lemma_edges_text_append(es.take(k) + one, es.skip(k + 1));
    lemma_edges_text_append(es.take(k), one);
    assert(one.drop_last() =~= Seq::<UnitEdge>::empty());
    assert(edges_text(one.drop_last()) =~= Seq::<char>::empty());
    assert(one.last() == es[k]);
    assert(edges_text(one) =~= edge_line(es[k]));
    assert(edges_text(es) == edges_text(es.take(k)) + edge_line(es[k]) + edges_text(es.skip(k + 1)));
    reveal_strlit("depends_on");
    reveal_strlit("talks_to");
    reveal_strlit("produces");
    reveal_strlit("consumes");
    assert("talks_to"@[0] != "produces"@[0]);
    assert("talks_to"@[0] != "consumes"@[0]);
    assert("produces"@[0] != "consumes"@[0]);
    assert("depends_on"@.len() != "talks_to"@.len());
}

} // verus!
