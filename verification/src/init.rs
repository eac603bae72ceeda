//! Scanning a project for things to run, and writing the first
//! configuration for it.
//!
//! The scan reads manifests (package.json, pyproject.toml, Cargo.toml,
//! go.mod, compose files) as text; what it concludes from them is here.
use vstd::prelude::*;

use crate::command::str_eq;
use crate::text::{
    chars_of, concat2, concat3, decimal, find_seq, lead_ws_bytes, lead_ws_bytes_is,
    lines_of, occurs_at, owned, push_str, seq_contains, seq_starts_with,
    split_lines, str_contains, str_starts_with, str_trim, string_of, string_views,
    strip_trailing, strip_trailing_exec, to_lower, trim, trim_start, unicode_lower,
};

verus! {

/// A unit found by scanning a project.
#[derive(Debug)]
pub struct DetectedUnit {
    pub id: String,
    pub name: Option<String>,
    pub kind: String,
    pub cwd: Option<String>,
    pub start: String,
    pub stop: Option<String>,
    pub port: Option<u16>,
    pub install: Vec<String>,
    pub description: Option<String>,
    pub autostart: bool,
    pub depends_on: Vec<String>,
}

/// What a scan found.
#[derive(Debug)]
pub struct ScanResult {
    pub project_name: Option<String>,
    pub units: Vec<DetectedUnit>,
}

impl Default for ScanResult {
    fn default() -> (r: Self)
        ensures
            r.project_name is None,
            r.units@.len() == 0,
    {
        ScanResult { project_name: None, units: Vec::new() }
    }
}

/// `seq_contains` with a literal.
fn has(content: &str, needle: &str) -> (r: bool)
    ensures
        r == seq_contains(content@, needle@),
{
    str_contains(content, needle)
}

// ---------------------------------------------------------------------------
// Reading manifest fields.
// ---------------------------------------------------------------------------

/// Position of the first occurrence of `needle` in `hay`.
pub open spec fn first_at(hay: Seq<char>, needle: Seq<char>, i: int) -> bool {
    occurs_at(hay, needle, i) && forall|k: int| 0 <= k < i ==> !occurs_at(hay, needle, k)
}

/// The string value of `"key": "value"` at the first occurrence of `"key"`:
/// after it come optional whitespace, `:`, optional whitespace and `"`, and
/// the value runs to the next `"`.
pub open spec fn json_string_value(content: Seq<char>, key: Seq<char>) -> Option<Seq<char>> {
    let pat = seq!['"'] + key + seq!['"'];
    if !seq_contains(content, pat) {
        None
    } else {
        let idx = choose|i: int| first_at(content, pat, i);
        let rest = trim_start(content.skip(idx + pat.len()));
        if !(rest.len() > 0 && rest[0] == ':') {
            None
        } else {
            let rest2 = trim_start(rest.drop_first());
            if !(rest2.len() > 0 && rest2[0] == '"') {
                None
            } else {
                let rest3 = rest2.drop_first();
                if !rest3.contains('"') {
                    None
                } else {
                    let end = choose|e: int| 0 <= e < rest3.len() && rest3[e] == '"' && forall|k: int|
                        0 <= k < e ==> rest3[k] != '"';
                    Some(rest3.take(end))
                }
            }
        }
    }
}

/// Position of the first `c` in `s`.
fn find_char(s: &[char], c: char) -> (r: Option<usize>)
    ensures
        match r {
            Some(e) => e < s@.len() && s@[e as int] == c && forall|k: int| 0 <= k < e ==> s@[k] != c,
            None => !s@.contains(c),
        },
{
    let mut i: usize = 0;
    while i < s.len()
        invariant
            i <= s.len(),
            forall|k: int| 0 <= k < i ==> s@[k] != c,
        decreases s.len() - i,
    {
        if s[i] == c {
            return Some(i);
        }
        i = i + 1;
    }
    None
}

/// The string value of `"key"` in a JSON text, read the simple way.
pub fn extract_json_string(content: &str, key: &str) -> (r: Option<String>)
    ensures
        match r {
            Some(v) => json_string_value(content@, key@) == Some(v@),
            None => json_string_value(content@, key@) is None,
        },
{
    let pattern = concat3("\"", key, "\"");
    let cs = chars_of(content);
    let ps = chars_of(pattern.as_str());
    let ghost pat = seq!['"'] + key@ + seq!['"'];
    proof {
        reveal_strlit("\"");
        assert(ps@ =~= pat);
    }
    let idx = match find_seq(cs.as_slice(), ps.as_slice()) {
        Some(i) => i,
        None => {
            return None;
        },
    };
    proof {
        assert(first_at(content@, pat, idx as int));
        assert(seq_contains(content@, pat));
        let j = choose|i: int| first_at(content@, pat, i);
        if j < idx {
        } else if j > idx {
            assert(!occurs_at(content@, pat, idx as int));
        }
        assert(j == idx);
    }
    assert(idx + ps.len() <= cs.len());
    let rest = string_of(&cs.as_slice()[idx + ps.len()..cs.len()]);
    let r1 = crate::text::trim_start_str(rest.as_str());
    let c1 = chars_of(r1.as_str());
    if !(c1.len() > 0 && c1[0] == ':') {
        return None;
    }
    let r2 = crate::text::trim_start_str(string_of(&c1.as_slice()[1..c1.len()]).as_str());
    let c2 = chars_of(r2.as_str());
    proof {
        assert(content@.skip(idx + pat.len()) =~= cs@.subrange(idx + ps.len(), cs@.len() as int));
        assert(c1@.subrange(1, c1@.len() as int) =~= c1@.drop_first());
    }
    if !(c2.len() > 0 && c2[0] == '"') {
        return None;
    }
    let rest3 = &c2.as_slice()[1..c2.len()];
    proof {
        assert(rest3@ =~= c2@.drop_first());
    }
    match find_char(rest3, '"') {
        Some(end) => {
            proof {
                let e = choose|e: int| 0 <= e < rest3@.len() && rest3@[e] == '"' && forall|k: int|
                    0 <= k < e ==> rest3@[k] != '"';
                if e < end {
                } else if e > end {
                }
                assert(e == end);
                assert(rest3@.subrange(0, end as int) =~= rest3@.take(end as int));
            }
            Some(string_of(&rest3[0..end]))
        },
        None => None,
    }
}

/// All copies of `c` removed from both ends (`trim_matches`).
pub open spec fn strip_both(s: Seq<char>, c: char) -> Seq<char> {
    strip_trailing(strip_leading(s, c), c)
}

pub open spec fn strip_leading(s: Seq<char>, c: char) -> Seq<char>
    decreases s.len(),
{
    if s.len() > 0 && s[0] == c {
        strip_leading(s.drop_first(), c)
    } else {
        s
    }
}

fn strip_both_exec(s: &[char], c: char) -> (r: Vec<char>)
    ensures
        r@ == strip_both(s@, c),
{
    let mut i: usize = 0;
    assert(s@.skip(0) =~= s@);
    while i < s.len() && s[i] == c
        invariant
            i <= s.len(),
            strip_leading(s@, c) == strip_leading(s@.skip(i as int), c),
        decreases s.len() - i,
    {
        proof {
            assert(s@.skip(i as int).drop_first() =~= s@.skip(i + 1));
        }
        i = i + 1;
    }
    let tail = &s[i..s.len()];
    proof {
        assert(tail@ =~= s@.skip(i as int));
    }
    strip_trailing_exec(tail, c)
}

/// The text between the first and second `=` of a line (or to its end).
pub open spec fn second_field(t: Seq<char>) -> Seq<char> {
    let i = choose|i: int| 0 <= i < t.len() && t[i] == '=' && forall|k: int| 0 <= k < i ==> t[k] != '=';
    let rest = t.skip(i + 1);
    if rest.contains('=') {
        let j = choose|j: int| 0 <= j < rest.len() && rest[j] == '=' && forall|k: int|
            0 <= k < j ==> rest[k] != '=';
        rest.take(j)
    } else {
        rest
    }
}

/// The value of a `name = "..."` line: the field after `=`, trimmed, with
/// double and then single quotes stripped from both ends.
pub open spec fn toml_value(t: Seq<char>) -> Seq<char> {
    strip_both(strip_both(trim(second_field(t)), '"'), '\'')
}

fn toml_value_exec(t: &[char]) -> (r: String)
    requires
        t@.contains('='),
    ensures
        r@ == toml_value(t@),
{
    let i = match find_char(t, '=') {
        Some(i) => i,
        None => {
            return String::new();
        },
    };
    proof {
        let j = choose|j: int| 0 <= j < t@.len() && t@[j] == '=' && forall|k: int| 0 <= k < j ==> t@[k] != '=';
        if j < i {
        } else if j > i {
        }
        assert(j == i);
    }
    let tl = t.len();
    assert(i < tl);
    let rest = &t[i + 1..tl];
    proof {
        assert(rest@ =~= t@.skip(i + 1));
    }
    let field: &[char] = match find_char(rest, '=') {
        Some(j) => {
            proof {
                let jj = choose|jj: int| 0 <= jj < rest@.len() && rest@[jj] == '=' && forall|k: int|
                    0 <= k < jj ==> rest@[k] != '=';
                if jj < j {
                } else if jj > j {
                }
                assert(jj == j);
                assert(rest@.subrange(0, j as int) =~= rest@.take(j as int));
            }
            &rest[0..j]
        },
        None => rest,
    };
    let trimmed = crate::text::trim_seq(field);
    let a = strip_both_exec(trimmed.as_slice(), '"');
    let b = strip_both_exec(a.as_slice(), '\'');
    string_of(b.as_slice())
}

/// The first line that, trimmed, starts with `name` and holds `=`.
pub open spec fn project_name_in(lines: Seq<Seq<char>>) -> Option<Seq<char>>
    decreases lines.len(),
{
    if lines.len() == 0 {
        None
    } else {
        let t = trim(lines[0]);
        if seq_starts_with(t, "name"@) && t.contains('=') {
            Some(toml_value(t))
        } else {
            project_name_in(lines.drop_first())
        }
    }
}

/// The name of a Python project: the value of the first `name = ...` line.
pub fn extract_toml_project_name(content: &str) -> (r: Option<String>)
    ensures
        match r {
            Some(v) => project_name_in(lines_of(content@)) == Some(v@),
            None => project_name_in(lines_of(content@)) is None,
        },
{
    let lines = split_lines(content);
    let ghost ls = lines_of(content@);
    let mut i: usize = 0;
    assert(ls.skip(0) =~= ls);
    while i < lines.len()
        invariant
            i <= lines.len(),
            ls == lines_of(content@),
            string_views(lines@) == ls,
            project_name_in(ls) == project_name_in(ls.skip(i as int)),
        decreases lines.len() - i,
    {
        proof {
            assert(ls.skip(i as int).drop_first() =~= ls.skip(i + 1));
            assert(ls.skip(i as int)[0] == lines@[i as int]@);
        }
        let t = str_trim(lines[i].as_str());
        let tc = chars_of(t.as_str());
        if str_starts_with(t.as_str(), "name") && find_char(tc.as_slice(), '=').is_some() {
            proof {
                assert(tc@.contains('='));
                assert(project_name_in(ls.skip(i as int)) == Some(toml_value(t@)));
            }
            return Some(toml_value_exec(tc.as_slice()));
        }
        i = i + 1;
    }
    None
}

/// The `name` of the `[package]` section: the first line in it that,
/// trimmed, starts with `name`, before the next section header.
pub open spec fn package_name_in(lines: Seq<Seq<char>>, in_package: bool) -> Option<Seq<char>>
    decreases lines.len(),
{
    if lines.len() == 0 {
        None
    } else {
        let t = trim(lines[0]);
        if t == "[package]"@ {
            package_name_in(lines.drop_first(), true)
        } else if seq_starts_with(t, "["@) && in_package {
            None
        } else if in_package && seq_starts_with(t, "name"@) {
            if t.contains('=') {
                Some(toml_value(t))
            } else {
                None
            }
        } else {
            package_name_in(lines.drop_first(), in_package)
        }
    }
}

/// The package name in a Cargo manifest.
pub fn extract_toml_package_name(content: &str) -> (r: Option<String>)
    ensures
        match r {
            Some(v) => package_name_in(lines_of(content@), false) == Some(v@),
            None => package_name_in(lines_of(content@), false) is None,
        },
{
    let lines = split_lines(content);
    let ghost ls = lines_of(content@);
    let mut in_package = false;
    let mut i: usize = 0;
    assert(ls.skip(0) =~= ls);
    while i < lines.len()
        invariant
            i <= lines.len(),
            ls == lines_of(content@),
            string_views(lines@) == ls,
            package_name_in(ls, false) == package_name_in(ls.skip(i as int), in_package),
        decreases lines.len() - i,
    {
        proof {
            assert(ls.skip(i as int).drop_first() =~= ls.skip(i + 1));
            assert(ls.skip(i as int)[0] == lines@[i as int]@);
        }
        let t = str_trim(lines[i].as_str());
        if str_eq(t.as_str(), "[package]") {
            in_package = true;
        } else if str_starts_with(t.as_str(), "[") && in_package {
            proof {
                assert(t@ != "[package]"@);
                assert(package_name_in(ls.skip(i as int), in_package) is None);
            }
            return None;
        } else if in_package && str_starts_with(t.as_str(), "name") {
            let tc = chars_of(t.as_str());
            if find_char(tc.as_slice(), '=').is_some() {
                proof {
                    assert(tc@.contains('='));
                    assert(package_name_in(ls.skip(i as int), in_package) == Some(toml_value(t@)));
                }
                return Some(toml_value_exec(tc.as_slice()));
            }
            proof {
                assert(package_name_in(ls.skip(i as int), in_package) is None);
            }
            return None;
        }
        i = i + 1;
    }
    None
}

// ---------------------------------------------------------------------------
// Docker Compose.
// ---------------------------------------------------------------------------

/// What a compose service's name suggests: its role and usual port.
pub open spec fn docker_service_hint(lower: Seq<char>) -> (Seq<char>, Option<u16>) {
    if seq_contains(lower, "postgres"@) || seq_contains(lower, "pg"@) {
        ("infrastructure"@, Some(5432u16))
    } else if seq_contains(lower, "mysql"@) || seq_contains(lower, "mariadb"@) {
        ("infrastructure"@, Some(3306u16))
    } else if seq_contains(lower, "redis"@) {
        ("infrastructure"@, Some(6379u16))
    } else if seq_contains(lower, "mongo"@) {
        ("infrastructure"@, Some(27017u16))
    } else if seq_contains(lower, "rabbit"@) {
        ("infrastructure"@, Some(5672u16))
    } else if seq_contains(lower, "kafka"@) {
        ("infrastructure"@, Some(9092u16))
    } else if seq_contains(lower, "elastic"@) {
        ("infrastructure"@, Some(9200u16))
    } else if seq_contains(lower, "nginx"@) {
        ("web"@, Some(80u16))
    } else {
        ("service"@, None)
    }
}

/// Infers a compose service's role and port from its name (in any case).
pub fn infer_docker_service(name: &str) -> (r: (&'static str, Option<u16>))
    ensures
        (r.0@, r.1) == docker_service_hint(unicode_lower(name@)),
{
    let lower = to_lower(name);
    let l = lower.as_str();
    if has(l, "postgres") || has(l, "pg") {
        ("infrastructure", Some(5432))
    } else if has(l, "mysql") || has(l, "mariadb") {
        ("infrastructure", Some(3306))
    } else if has(l, "redis") {
        ("infrastructure", Some(6379))
    } else if has(l, "mongo") {
        ("infrastructure", Some(27017))
    } else if has(l, "rabbit") {
        ("infrastructure", Some(5672))
    } else if has(l, "kafka") {
        ("infrastructure", Some(9092))
    } else if has(l, "elastic") {
        ("infrastructure", Some(9200))
    } else if has(l, "nginx") {
        ("web", Some(80))
    } else {
        ("service", None)
    }
}

/// The service names of a compose file: under the `services:` line, each
/// line indented by exactly two bytes that ends in `:` and is not a
/// comment, until a line that starts at the left margin.
pub open spec fn compose_names(lines: Seq<Seq<char>>, in_services: bool) -> Seq<Seq<char>>
    decreases lines.len(),
{
    if lines.len() == 0 {
        Seq::empty()
    } else {
        let line = lines[0];
        let t = trim(line);
        if t == "services:"@ {
            compose_names(lines.drop_first(), true)
        } else if !in_services {
            compose_names(lines.drop_first(), false)
        } else if !seq_starts_with(line, " "@) && !seq_starts_with(line, "\t"@) && t.len() > 0 {
            Seq::empty()
        } else if lead_ws_bytes(line) == 2 && t.len() > 0 && t.last() == ':' && !seq_starts_with(t, "#"@) {
            seq![strip_trailing(t, ':')] + compose_names(lines.drop_first(), true)
        } else {
            compose_names(lines.drop_first(), true)
        }
    }
}

/// Whether `u` is the unit made for compose service `name` of `file`.
pub open spec fn compose_unit(u: DetectedUnit, name: Seq<char>, file: Seq<char>) -> bool {
    let (hint, port) = docker_service_hint(unicode_lower(name));
    &&& u.id@ == name
    &&& u.name is None
    &&& u.kind@ == "docker"@
    &&& u.cwd is None
    &&& u.start@ == "docker compose -f "@ + file + " up -d "@ + name
    &&& u.stop matches Some(s) && s@ == "docker compose -f "@ + file + " stop "@ + name
    &&& u.port == port
    &&& u.install@.len() == 0
    &&& u.description matches Some(d) && d@ == "Docker Compose service: "@ + name
    &&& u.autostart == (hint == "infrastructure"@)
    &&& u.depends_on@.len() == 0
}

fn compose_unit_exec(name: String, filename: &str) -> (u: DetectedUnit)
    ensures
        compose_unit(u, name@, filename@),
{
    let (hint, port) = infer_docker_service(name.as_str());
    let mut start = concat3("docker compose -f ", filename, " up -d ");
    push_str(&mut start, name.as_str());
    let mut stop = concat3("docker compose -f ", filename, " stop ");
    push_str(&mut stop, name.as_str());
    let description = concat2("Docker Compose service: ", name.as_str());
    DetectedUnit {
        id: name,
        name: None,
        kind: owned("docker"),
        cwd: None,
        start,
        stop: Some(stop),
        port,
        install: Vec::new(),
        description: Some(description),
        autostart: str_eq(hint, "infrastructure"),
        depends_on: Vec::new(),
    }
}

/// The services of a compose file as units, `None` when there are none.
pub fn parse_docker_compose(content: &str, filename: &str) -> (r: Option<Vec<DetectedUnit>>)
    ensures
        match r {
            Some(us) => us@.len() > 0 && us@.len() == compose_names(lines_of(content@), false).len()
                && forall|i: int|
                0 <= i < us@.len() ==> compose_unit(
                    #[trigger] us@[i],
                    compose_names(lines_of(content@), false)[i],
                    filename@,
                ),
            None => compose_names(lines_of(content@), false).len() == 0,
        },
{
    let lines = split_lines(content);
    let ghost ls = lines_of(content@);
    let mut units: Vec<DetectedUnit> = Vec::new();
    let ghost mut names: Seq<Seq<char>> = Seq::empty();
    let mut in_services = false;
    let mut stop = false;
    let mut i: usize = 0;
    assert(ls.skip(0) =~= ls);
    assert(names + compose_names(ls, false) =~= compose_names(ls, false));
    while i < lines.len() && !stop
        invariant
            i <= lines.len(),
            ls == lines_of(content@),
            string_views(lines@) == ls,
            !stop ==> compose_names(ls, false) == names + compose_names(ls.skip(i as int), in_services),
            stop ==> compose_names(ls, false) == names,
            units@.len() == names.len(),
            forall|k: int| 0 <= k < units@.len() ==> compose_unit(#[trigger] units@[k], names[k], filename@),
        decreases lines.len() - i + (if stop { 0int } else { 1int }),
    {
        let line = lines[i].as_str();
        let t = str_trim(line);
        let ghost sk = ls.skip(i as int);
        let ghost sk1 = ls.skip(i + 1);
        let ghost was_in = in_services;
        proof {
            assert(sk[0] == line@);
            assert(sk.drop_first() =~= sk1);
        }
        if str_eq(t.as_str(), "services:") {
            in_services = true;
            proof {
                assert(compose_names(sk, was_in) == compose_names(sk1, true));
            }
        } else if in_services {
            if !str_starts_with(line, " ") && !str_starts_with(line, "\t") && chars_of(t.as_str()).len() > 0 {
                proof {
                    assert(compose_names(sk, was_in) =~= Seq::<Seq<char>>::empty());
                    assert(names + Seq::<Seq<char>>::empty() =~= names);
                }
                stop = true;
            } else {
                let lc = chars_of(line);
                let tc = chars_of(t.as_str());
                if lead_ws_bytes_is(lc.as_slice(), 2) && tc.len() > 0 && tc[tc.len() - 1] == ':'
                    && !str_starts_with(t.as_str(), "#") {
                    let name_chars = strip_trailing_exec(tc.as_slice(), ':');
                    let name = string_of(name_chars.as_slice());
                    units.push(compose_unit_exec(name, filename));
                    proof {
                        let nm = strip_trailing(t@, ':');
                        assert(compose_names(sk, was_in) == seq![nm] + compose_names(sk1, true));
                        assert(names.push(nm) + compose_names(sk1, true) =~= names + (seq![nm]
                            + compose_names(sk1, true)));
                        names = names.push(nm);
                    }
                } else {
                    proof {
                        assert(compose_names(sk, was_in) == compose_names(sk1, true));
                    }
                }
            }
        } else {
            proof {
                assert(compose_names(sk, was_in) == compose_names(sk1, false));
            }
        }
        if !stop {
            i = i + 1;
        }
    }
    proof {
        if !stop {
            assert(ls.skip(i as int) =~= Seq::<Seq<char>>::empty());
            assert(names + Seq::<Seq<char>>::empty() =~= names);
        }
    }
    if units.len() == 0 {
        None
    } else {
        Some(units)
    }
}


// ---------------------------------------------------------------------------
// Node, Python, Rust and Go projects.
// ---------------------------------------------------------------------------

/// The port a package.json suggests.
pub open spec fn node_port(c: Seq<char>) -> Option<u16> {
    if seq_contains(c, "vite"@) || seq_contains(c, "5173"@) {
        Some(5173u16)
    } else if seq_contains(c, "next"@) || seq_contains(c, "3000"@) {
        Some(3000u16)
    } else if seq_contains(c, "\"port\": 8080"@) || seq_contains(c, "8080"@) {
        Some(8080u16)
    } else if seq_contains(c, "\"port\": 3000"@) {
        Some(3000u16)
    } else {
        None
    }
}

pub fn detect_node_port(content: &str) -> (r: Option<u16>)
    ensures
        r == node_port(content@),
{
    if has(content, "vite") || has(content, "5173") {
        Some(5173)
    } else if has(content, "next") || has(content, "3000") {
        Some(3000)
    } else if has(content, "\"port\": 8080") || has(content, "8080") {
        Some(8080)
    } else if has(content, "\"port\": 3000") {
        Some(3000)
    } else {
        None
    }
}

/// What kind of app a package.json describes.
pub open spec fn node_type(c: Seq<char>) -> Seq<char> {
    if seq_contains(c, "\"next\""@) {
        "Next.js app"@
    } else if seq_contains(c, "\"vite\""@) || seq_contains(c, "\"@vitejs"@) {
        "Vite app"@
    } else if seq_contains(c, "\"react\""@) {
        "React app"@
    } else if seq_contains(c, "\"vue\""@) {
        "Vue app"@
    } else if seq_contains(c, "\"express\""@) {
        "Express server"@
    } else if seq_contains(c, "\"fastify\""@) {
        "Fastify server"@
    } else if seq_contains(c, "\"nest\""@) || seq_contains(c, "\"@nestjs"@) {
        "NestJS server"@
    } else {
        "Node.js app"@
    }
}

pub fn detect_node_type(content: &str) -> (r: &'static str)
    ensures
        r@ == node_type(content@),
{
    if has(content, "\"next\"") {
        "Next.js app"
    } else if has(content, "\"vite\"") || has(content, "\"@vitejs") {
        "Vite app"
    } else if has(content, "\"react\"") {
        "React app"
    } else if has(content, "\"vue\"") {
        "Vue app"
    } else if has(content, "\"express\"") {
        "Express server"
    } else if has(content, "\"fastify\"") {
        "Fastify server"
    } else if has(content, "\"nest\"") || has(content, "\"@nestjs") {
        "NestJS server"
    } else {
        "Node.js app"
    }
}

pub open spec fn opt_view_str(o: Option<&str>) -> Option<Seq<char>> {
    match o {
        Some(s) => Some(s@),
        None => None,
    }
}

/// Whether `u` is the unit of a package.json with a `dev` or `start`
/// script: it runs `dev` when there is one, through the package manager.
pub open spec fn node_unit(
    u: DetectedUnit,
    content: Seq<char>,
    rel_name: Option<Seq<char>>,
    rel_path: Option<Seq<char>>,
    pm: Seq<char>,
) -> bool {
    let name = match json_string_value(content, "name"@) {
        Some(n) => n,
        None => "app"@,
    };
    let script = if seq_contains(content, "\"dev\""@) {
        "dev"@
    } else {
        "start"@
    };
    &&& u.id@ == (match rel_name {
        Some(r) => r,
        None => name,
    })
    &&& u.name matches Some(n) && n@ == name
    &&& u.kind@ == "process"@
    &&& crate::yaml::opt_text(u.cwd) == rel_path
    &&& u.start@ == pm + " run "@ + script
    &&& u.stop matches Some(s) && s@ == "SIGINT"@
    &&& u.port == node_port(content)
    &&& string_views(u.install@) == seq![pm + " install"@]
    &&& u.description matches Some(d) && d@ == node_type(content) + " ("@ + pm + ")"@
    &&& u.autostart
    &&& u.depends_on@.len() == 0
}

/// The unit of a package.json, if it has a `dev` or `start` script.  A
/// package in a monorepo is named by its directory (`rel_name`) and runs
/// there (`rel_path`); `pm` is the package manager found beside it.
pub fn parse_node_package(
    content: &str,
    rel_name: Option<&str>,
    rel_path: Option<&str>,
    pm: &str,
) -> (r: Option<Vec<DetectedUnit>>)
    ensures
        match r {
            Some(us) => (seq_contains(content@, "\"dev\""@) || seq_contains(content@, "\"start\""@))
                && us@.len() == 1 && node_unit(us@[0], content@, opt_view_str(rel_name), opt_view_str(rel_path), pm@),
            None => !seq_contains(content@, "\"dev\""@) && !seq_contains(content@, "\"start\""@),
        },
{
    let name = match extract_json_string(content, "name") {
        Some(n) => n,
        None => owned("app"),
    };
    let id = match rel_name {
        Some(r) => owned(r),
        None => name.clone(),
    };
    let has_dev = has(content, "\"dev\"");
    let has_start = has(content, "\"start\"");
    if !(has_dev || has_start) {
        return None;
    }
    let script = if has_dev {
        "dev"
    } else {
        "start"
    };
    let start = concat3(pm, " run ", script);
    let port = detect_node_port(content);
    let unit_type = detect_node_type(content);
    let mut install: Vec<String> = Vec::new();
    install.push(concat2(pm, " install"));
    proof {
        assert(string_views(install@) =~= seq![pm@ + " install"@]);
    }
    let mut description = concat3(unit_type, " (", pm);
    push_str(&mut description, ")");
    let cwd = match rel_path {
        Some(p) => Some(owned(p)),
        None => None,
    };
    let mut units: Vec<DetectedUnit> = Vec::new();
    units.push(
        DetectedUnit {
            id,
            name: Some(name),
            kind: owned("process"),
            cwd,
            start,
            stop: Some(owned("SIGINT")),
            port,
            install,
            description: Some(description),
            autostart: true,
            depends_on: Vec::new(),
        },
    );
    Some(units)
}

/// Framework, start command and port of a Python project, given its
/// package manager.
pub open spec fn python_framework(c: Seq<char>, pm: Seq<char>) -> (Seq<char>, Seq<char>, Option<u16>) {
    if seq_contains(c, "fastapi"@) || seq_contains(c, "FastAPI"@) {
        ("FastAPI"@, pm + " run uvicorn main:app --reload"@, Some(8000u16))
    } else if seq_contains(c, "django"@) || seq_contains(c, "Django"@) {
        ("Django"@, pm + " run python manage.py runserver"@, Some(8000u16))
    } else if seq_contains(c, "flask"@) || seq_contains(c, "Flask"@) {
        ("Flask"@, pm + " run flask run"@, Some(5000u16))
    } else if seq_contains(c, "uvicorn"@) {
        ("ASGI app"@, pm + " run uvicorn main:app --reload"@, Some(8000u16))
    } else {
        ("Python app"@, pm + " run python main.py"@, None)
    }
}

/// The package manager of a Python project: uv with a lock file, poetry
/// when configured, else pip.
pub open spec fn python_pm(c: Seq<char>, has_uv_lock: bool) -> Seq<char> {
    if has_uv_lock {
        "uv"@
    } else if seq_contains(c, "[tool.poetry]"@) {
        "poetry"@
    } else {
        "pip"@
    }
}

pub open spec fn python_install(pm: Seq<char>) -> Seq<char> {
    if pm == "uv"@ {
        "uv sync"@
    } else if pm == "poetry"@ {
        "poetry install"@
    } else {
        "pip install -r requirements.txt"@
    }
}

/// Whether `u` is the unit of a pyproject.toml.
pub open spec fn python_project_unit(u: DetectedUnit, c: Seq<char>, has_uv_lock: bool) -> bool {
    let name = match project_name_in(lines_of(c)) {
        Some(n) => n,
        None => "api"@,
    };
    let pm = python_pm(c, has_uv_lock);
    let (framework, start, port) = python_framework(c, pm);
    &&& u.id@ == name
    &&& u.name matches Some(n) && n@ == name
    &&& u.kind@ == "process"@
    &&& u.cwd is None
    &&& u.start@ == start
    &&& u.stop matches Some(s) && s@ == "SIGINT"@
    &&& u.port == port
    &&& string_views(u.install@) == seq![python_install(pm)]
    &&& u.description matches Some(d) && d@ == framework + " ("@ + pm + ")"@
    &&& u.autostart
    &&& u.depends_on@.len() == 0
}

/// The unit of a pyproject.toml; `has_uv_lock` tells whether `uv.lock` is
/// beside it.
pub fn parse_python_project(content: &str, has_uv_lock: bool) -> (r: Option<DetectedUnit>)
    ensures
        r matches Some(u) && python_project_unit(u, content@, has_uv_lock),
{
    let name = match extract_toml_project_name(content) {
        Some(n) => n,
        None => owned("api"),
    };
    let pm = if has_uv_lock {
        "uv"
    } else if has(content, "[tool.poetry]") {
        "poetry"
    } else {
        "pip"
    };
    let (framework, start, port) = if has(content, "fastapi") || has(content, "FastAPI") {
        ("FastAPI", concat2(pm, " run uvicorn main:app --reload"), Some(8000u16))
    } else if has(content, "django") || has(content, "Django") {
        ("Django", concat2(pm, " run python manage.py runserver"), Some(8000u16))
    } else if has(content, "flask") || has(content, "Flask") {
        ("Flask", concat2(pm, " run flask run"), Some(5000u16))
    } else if has(content, "uvicorn") {
        ("ASGI app", concat2(pm, " run uvicorn main:app --reload"), Some(8000u16))
    } else {
        ("Python app", concat2(pm, " run python main.py"), None)
    };
    let install_cmd = if str_eq(pm, "uv") {
        owned("uv sync")
    } else if str_eq(pm, "poetry") {
        owned("poetry install")
    } else {
        owned("pip install -r requirements.txt")
    };
    let mut install: Vec<String> = Vec::new();
    install.push(install_cmd);
    proof {
        assert(string_views(install@) =~= seq![python_install(pm@)]);
    }
    let mut description = concat3(framework, " (", pm);
    push_str(&mut description, ")");
    Some(
        DetectedUnit {
            id: name.clone(),
            name: Some(name),
            kind: owned("process"),
            cwd: None,
            start,
            stop: Some(owned("SIGINT")),
            port,
            install,
            description: Some(description),
            autostart: true,
            depends_on: Vec::new(),
        },
    )
}

/// Framework, start command and port of a requirements.txt, if it names a
/// known web framework.
pub open spec fn requirements_framework(c: Seq<char>) -> Option<(Seq<char>, Seq<char>, u16)> {
    if seq_contains(c, "fastapi"@) || seq_contains(c, "uvicorn"@) {
        Some(("FastAPI"@, "uvicorn main:app --reload"@, 8000u16))
    } else if seq_contains(c, "django"@) {
        Some(("Django"@, "python manage.py runserver"@, 8000u16))
    } else if seq_contains(c, "flask"@) {
        Some(("Flask"@, "flask run"@, 5000u16))
    } else {
        None
    }
}

/// The unit of a requirements.txt that names a known web framework.
pub fn parse_python_requirements(content: &str) -> (r: Option<DetectedUnit>)
    ensures
        match (r, requirements_framework(content@)) {
            (Some(u), Some((framework, start, port))) => {
                &&& u.id@ == "api"@
                &&& u.name matches Some(n) && n@ == framework
                &&& u.kind@ == "process"@
                &&& u.cwd is None
                &&& u.start@ == start
                &&& u.stop matches Some(s) && s@ == "SIGINT"@
                &&& u.port == Some(port)
                &&& string_views(u.install@) == seq!["pip install -r requirements.txt"@]
                &&& u.description matches Some(d) && d@ == framework + " server"@
                &&& u.autostart
                &&& u.depends_on@.len() == 0
            },
            (None, None) => true,
            _ => false,
        },
{
    let (framework, start, port) = if has(content, "fastapi") || has(content, "uvicorn") {
        ("FastAPI", "uvicorn main:app --reload", 8000u16)
    } else if has(content, "django") {
        ("Django", "python manage.py runserver", 8000u16)
    } else if has(content, "flask") {
        ("Flask", "flask run", 5000u16)
    } else {
        return None;
    };
    let mut install: Vec<String> = Vec::new();
    install.push(owned("pip install -r requirements.txt"));
    proof {
        assert(string_views(install@) =~= seq!["pip install -r requirements.txt"@]);
    }
    Some(
        DetectedUnit {
            id: owned("api"),
            name: Some(owned(framework)),
            kind: owned("process"),
            cwd: None,
            start: owned(start),
            stop: Some(owned("SIGINT")),
            port: Some(port),
            install,
            description: Some(concat2(framework, " server")),
            autostart: true,
            depends_on: Vec::new(),
        },
    )
}

/// The web framework a Cargo manifest names, and its usual port.
pub open spec fn rust_framework(c: Seq<char>) -> (Seq<char>, Option<u16>) {
    if seq_contains(c, "actix"@) {
        ("Actix Web"@, Some(8080u16))
    } else if seq_contains(c, "axum"@) {
        ("Axum"@, Some(3000u16))
    } else if seq_contains(c, "rocket"@) {
        ("Rocket"@, Some(8000u16))
    } else if seq_contains(c, "warp"@) {
        ("Warp"@, Some(3030u16))
    } else {
        ("Rust binary"@, None)
    }
}

/// The unit of a Rust project: only a binary (a `[[bin]]` target, a
/// `src/main.rs`, or no `src/lib.rs`) gives one; it starts automatically
/// when it is a known server.
pub fn rust_project_units(content: &str, has_main_rs: bool, has_lib_rs: bool) -> (r: Option<Vec<DetectedUnit>>)
    ensures
        ({
            let is_bin = seq_contains(content@, "[[bin]]"@) || has_main_rs || !has_lib_rs;
            let name = match package_name_in(lines_of(content@), false) {
                Some(n) => n,
                None => "app"@,
            };
            let (framework, port) = rust_framework(content@);
            match r {
                Some(us) => is_bin && us@.len() == 1 && {
                    let u = us@[0];
                    &&& u.id@ == name
                    &&& u.name matches Some(n) && n@ == name
                    &&& u.kind@ == "process"@
                    &&& u.cwd is None
                    &&& u.start@ == "cargo run --release"@
                    &&& u.stop matches Some(s) && s@ == "SIGINT"@
                    &&& u.port == port
                    &&& string_views(u.install@) == seq!["cargo build --release"@]
                    &&& u.description matches Some(d) && d@ == framework
                    &&& u.autostart == port is Some
                    &&& u.depends_on@.len() == 0
                },
                None => !is_bin,
            }
        }),
{
    let name = match extract_toml_package_name(content) {
        Some(n) => n,
        None => owned("app"),
    };
    let is_bin = has(content, "[[bin]]") || has_main_rs || !has_lib_rs;
    if !is_bin {
        return None;
    }
    let (framework, port) = if has(content, "actix") {
        ("Actix Web", Some(8080u16))
    } else if has(content, "axum") {
        ("Axum", Some(3000u16))
    } else if has(content, "rocket") {
        ("Rocket", Some(8000u16))
    } else if has(content, "warp") {
        ("Warp", Some(3030u16))
    } else {
        ("Rust binary", None)
    };
    let mut install: Vec<String> = Vec::new();
    install.push(owned("cargo build --release"));
    proof {
        assert(string_views(install@) =~= seq!["cargo build --release"@]);
    }
    let mut units: Vec<DetectedUnit> = Vec::new();
    units.push(
        DetectedUnit {
            id: name.clone(),
            name: Some(name),
            kind: owned("process"),
            cwd: None,
            start: owned("cargo run --release"),
            stop: Some(owned("SIGINT")),
            port,
            install,
            description: Some(owned(framework)),
            autostart: port.is_some(),
            depends_on: Vec::new(),
        },
    );
    Some(units)
}

/// The module name of a go.mod: the last `/`-separated segment of the
/// first line starting with `module `.
pub open spec fn go_module_in(lines: Seq<Seq<char>>) -> Option<Seq<char>>
    decreases lines.len(),
{
    if lines.len() == 0 {
        None
    } else if seq_starts_with(lines[0], "module "@) {
        Some(last_segment(lines[0].skip(7)))
    } else {
        go_module_in(lines.drop_first())
    }
}

/// What follows the last `/` (all of it when there is none).
pub open spec fn last_segment(s: Seq<char>) -> Seq<char>
    decreases s.len(),
{
    if s.len() == 0 {
        s
    } else if s.last() == '/' {
        Seq::empty()
    } else {
        last_segment(s.drop_last()).push(s.last())
    }
}

fn last_segment_exec(s: &[char]) -> (r: Vec<char>)
    ensures
        r@ == last_segment(s@),
{
    let mut k = s.len();
    while k > 0 && s[k - 1] != '/'
        invariant
            k <= s.len(),
            forall|j: int| k <= j < s.len() ==> s@[j] != '/',
        decreases k,
    {
        k = k - 1;
    }
    let tail = &s[k..s.len()];
    proof {
        assert forall|n: int| k <= n <= s@.len() implies #[trigger] last_segment(s@.take(n)) =~= s@.subrange(k as int, n) by {
            lemma_last_segment_take(s@, k as int, n);
        }
        assert(s@.take(s@.len() as int) =~= s@);
        assert(tail@ =~= s@.subrange(k as int, s@.len() as int));
    }
    let mut out: Vec<char> = Vec::new();
    let mut i: usize = 0;
    while i < tail.len()
        invariant
            i <= tail.len(),
            out@ == tail@.take(i as int),
        decreases tail.len() - i,
    {
        out.push(tail[i]);
        proof {
            assert(out@ =~= tail@.take(i + 1));
        }
        i = i + 1;
    }
    assert(tail@.take(tail@.len() as int) =~= tail@);
    out
}

proof fn lemma_last_segment_take(s: Seq<char>, k: int, n: int)
    requires
        0 <= k <= n <= s.len(),
        k == 0 || s[k - 1] == '/',
        forall|j: int| k <= j < s.len() ==> s[j] != '/',
    ensures
        last_segment(s.take(n)) =~= s.subrange(k, n),
    decreases n,
{
    if n == k {
        if k > 0 {
            assert(s.take(n).last() == s[k - 1]);
        } else {
            assert(s.take(n) =~= Seq::<char>::empty());
        }
    } else {
        lemma_last_segment_take(s, k, n - 1);
        assert(s.take(n).drop_last() =~= s.take(n - 1));
        assert(s.take(n).last() == s[n - 1]);
    }
}

/// The web framework go.sum names, and its usual port.
pub open spec fn go_framework(deps: Seq<char>) -> (Seq<char>, Option<u16>) {
    if seq_contains(deps, "gin-gonic"@) {
        ("Gin"@, Some(8080u16))
    } else if seq_contains(deps, "labstack/echo"@) {
        ("Echo"@, Some(8080u16))
    } else if seq_contains(deps, "gofiber/fiber"@) {
        ("Fiber"@, Some(3000u16))
    } else if seq_contains(deps, "go-chi/chi"@) {
        ("Chi"@, Some(8080u16))
    } else {
        ("Go app"@, None)
    }
}

/// The unit of a Go project with a `main.go` or a `cmd` directory
/// (`has_main`); `go_sum` is the text of its go.sum (empty when absent).
pub fn go_project_units(go_mod: &str, has_main: bool, go_sum: &str) -> (r: Option<Vec<DetectedUnit>>)
    ensures
        ({
            let name = match go_module_in(lines_of(go_mod@)) {
                Some(n) => n,
                None => "app"@,
            };
            let (framework, port) = go_framework(go_sum@);
            match r {
                Some(us) => has_main && us@.len() == 1 && {
                    let u = us@[0];
                    &&& u.id@ == name
                    &&& u.name matches Some(n) && n@ == name
                    &&& u.kind@ == "process"@
                    &&& u.cwd is None
                    &&& u.start@ == "go run ."@
                    &&& u.stop matches Some(s) && s@ == "SIGINT"@
                    &&& u.port == port
                    &&& string_views(u.install@) == seq!["go mod download"@]
                    &&& u.description matches Some(d) && d@ == framework
                    &&& u.autostart == port is Some
                    &&& u.depends_on@.len() == 0
                },
                None => !has_main,
            }
        }),
{
    let lines = split_lines(go_mod);
    let ghost ls = lines_of(go_mod@);
    let mut name = owned("app");
    let mut found = false;
    let mut i: usize = 0;
    assert(ls.skip(0) =~= ls);
    while i < lines.len() && !found
        invariant
            i <= lines.len(),
            string_views(lines@) == ls,
            !found ==> go_module_in(ls) == go_module_in(ls.skip(i as int)),
            found ==> go_module_in(ls) == Some(name@),
            !found ==> name@ == "app"@,
        decreases lines.len() - i + (if found { 0int } else { 1int }),
    {
        proof {
            assert(ls.skip(i as int).drop_first() =~= ls.skip(i + 1));
            assert(ls.skip(i as int)[0] == lines@[i as int]@);
        }
        if str_starts_with(lines[i].as_str(), "module ") {
            let lc = chars_of(lines[i].as_str());
            proof {
                reveal_strlit("module ");
            }
            let seg = last_segment_exec(&lc.as_slice()[7..lc.len()]);
            proof {
                assert(lc@.subrange(7, lc@.len() as int) =~= lines@[i as int]@.skip(7));
            }
            name = string_of(seg.as_slice());
            found = true;
        } else {
            i = i + 1;
        }
    }
    proof {
        if !found {
            assert(ls.skip(i as int) =~= Seq::<Seq<char>>::empty());
        }
    }
    if !has_main {
        return None;
    }
    let (framework, port) = if has(go_sum, "gin-gonic") {
        ("Gin", Some(8080u16))
    } else if has(go_sum, "labstack/echo") {
        ("Echo", Some(8080u16))
    } else if has(go_sum, "gofiber/fiber") {
        ("Fiber", Some(3000u16))
    } else if has(go_sum, "go-chi/chi") {
        ("Chi", Some(8080u16))
    } else {
        ("Go app", None)
    };
    let mut install: Vec<String> = Vec::new();
    install.push(owned("go mod download"));
    proof {
        assert(string_views(install@) =~= seq!["go mod download"@]);
    }
    let mut units: Vec<DetectedUnit> = Vec::new();
    units.push(
        DetectedUnit {
            id: name.clone(),
            name: Some(name),
            kind: owned("process"),
            cwd: None,
            start: owned("go run ."),
            stop: Some(owned("SIGINT")),
            port,
            install,
            description: Some(owned(framework)),
            autostart: port.is_some(),
            depends_on: Vec::new(),
        },
    );
    Some(units)
}


// ---------------------------------------------------------------------------
// The generated configuration.
// ---------------------------------------------------------------------------

pub open spec fn install_lines(cmds: Seq<Seq<char>>) -> Seq<char>
    decreases cmds.len(),
{
    if cmds.len() == 0 {
        Seq::empty()
    } else {
        install_lines(cmds.drop_last()) + "      - \""@ + cmds.last() + "\"\n"@
    }
}

/// The lines of a detected unit up to its install commands.
pub open spec fn detected_head(u: DetectedUnit) -> Seq<char> {
    "  "@ + u.id@ + ":\n"@ + "    kind: "@ + u.kind@ + "\n"@ + (match u.cwd {
        Some(c) => "    cwd: ./"@ + c@ + "\n"@,
        None => Seq::empty(),
    }) + (if u.install@.len() == 0 {
        Seq::empty()
    } else {
        "    install:\n"@ + install_lines(string_views(u.install@))
    })
}

/// The start, stop and port lines of a detected unit.
pub open spec fn detected_run(u: DetectedUnit) -> Seq<char> {
    "    start: \""@ + u.start@ + "\"\n"@ + (match u.stop {
        Some(s) => "    stop: "@ + s@ + "\n"@,
        None => Seq::empty(),
    }) + (match u.port {
        Some(p) => "    port: "@ + decimal(p as nat) + "\n"@,
        None => Seq::empty(),
    })
}

/// The autostart and description lines, and the blank line after.
pub open spec fn detected_end(u: DetectedUnit) -> Seq<char> {
    "    autostart: "@ + crate::migrate::bool_text(u.autostart) + "\n"@ + (match u.description {
        Some(d) => "    description: \""@ + d@ + "\"\n"@,
        None => Seq::empty(),
    }) + "\n"@
}

pub open spec fn detected_tail(u: DetectedUnit) -> Seq<char> {
    detected_run(u) + detected_end(u)
}

/// The block of lines describing one detected unit.
pub open spec fn detected_block(u: DetectedUnit) -> Seq<char> {
    detected_head(u) + detected_tail(u)
}

pub open spec fn detected_blocks(us: Seq<DetectedUnit>) -> Seq<char>
    decreases us.len(),
{
    if us.len() == 0 {
        Seq::empty()
    } else {
        detected_blocks(us.drop_last()) + detected_block(us.last())
    }
}

/// The first configuration for a scanned project.
pub open spec fn init_yaml(r: ScanResult) -> Seq<char> {
    "# Orkesy Configuration\n"@ + "# Generated by `orkesy init`\n\n"@ + "version: 1\n\n"@ + "project:\n"@
        + "  name: "@ + (match r.project_name {
        Some(n) => n@,
        None => "my-app"@,
    }) + "\n\n"@ + "units:\n"@ + (if r.units@.len() == 0 {
        "  # Add your units here\n"@ + "  # example:\n"@ + "  #   kind: process\n"@
            + "  #   start: \"npm run dev\"\n"@ + "  #   port: 3000\n"@
    } else {
        detected_blocks(r.units@)
    }) + "# Dependencies between units\n"@ + "edges: []\n"@ + "  # - from: api\n"@
        + "  #   to: db\n"@ + "  #   kind: depends_on\n"@
}

fn push_detected_head(out: &mut String, u: &DetectedUnit)
    ensures
        final(out)@ == old(out)@ + detected_head(*u),
{
    let ghost start = out@;
    push_str(out, "  ");
    push_str(out, u.id.as_str());
    push_str(out, ":\n");
    push_str(out, "    kind: ");
    push_str(out, u.kind.as_str());
    push_str(out, "\n");
    let ghost a = out@;
    match &u.cwd {
        Some(c) => {
            push_str(out, "    cwd: ./");
            push_str(out, c.as_str());
            push_str(out, "\n");
        },
        None => {},
    }
    let ghost b = out@;
    if u.install.len() > 0 {
        push_str(out, "    install:\n");
        let ghost base = out@;
        let mut i: usize = 0;
        while i < u.install.len()
            invariant
                i <= u.install.len(),
                out@ == base + install_lines(string_views(u.install@).take(i as int)),
            decreases u.install.len() - i,
        {
            proof {
                assert(string_views(u.install@).take(i + 1).drop_last() =~= string_views(
                    u.install@,
                ).take(i as int));
                assert(string_views(u.install@).take(i + 1).last() == u.install@[i as int]@);
            }
            push_str(out, "      - \"");
            push_str(out, u.install[i].as_str());
            push_str(out, "\"\n");
            i = i + 1;
        }
        proof {
            assert(string_views(u.install@).take(u.install@.len() as int) =~= string_views(u.install@));
        }
    }
    proof {
        assert(out@ =~= start + detected_head(*u));
    }
}

fn push_detected_run(out: &mut String, u: &DetectedUnit)
    ensures
        final(out)@ == old(out)@ + detected_run(*u),
{
    let ghost start = out@;
    push_str(out, "    start: \"");
    push_str(out, u.start.as_str());
    push_str(out, "\"\n");
    let ghost a = out@;
    match &u.stop {
        Some(s) => {
            push_str(out, "    stop: ");
            push_str(out, s.as_str());
            push_str(out, "\n");
        },
        None => {},
    }
    let ghost b = out@;
    match u.port {
        Some(p) => {
            push_str(out, "    port: ");
            push_str(out, crate::text::u64_to_string(p as u64).as_str());
            push_str(out, "\n");
        },
        None => {},
    }
    proof {
        assert(out@ =~= start + detected_run(*u));
    }
}

fn push_detected_end(out: &mut String, u: &DetectedUnit)
    ensures
        final(out)@ == old(out)@ + detected_end(*u),
{
    let ghost start = out@;
    push_str(out, "    autostart: ");
    push_str(out, if u.autostart {
        "true"
    } else {
        "false"
    });
    push_str(out, "\n");
    match &u.description {
        Some(d) => {
            push_str(out, "    description: \"");
            push_str(out, d.as_str());
            push_str(out, "\"\n");
        },
        None => {},
    }
    push_str(out, "\n");
    proof {
        assert(out@ =~= start + detected_end(*u));
    }
}

fn push_detected_tail(out: &mut String, u: &DetectedUnit)
    ensures
        final(out)@ == old(out)@ + detected_tail(*u),
{
    let ghost start = out@;
    push_detected_run(out, u);
    push_detected_end(out, u);
    proof {
        assert(out@ =~= start + detected_tail(*u));
    }
}

fn push_detected_block(out: &mut String, u: &DetectedUnit)
    ensures
        final(out)@ == old(out)@ + detected_block(*u),
{
    let ghost start = out@;
    push_detected_head(out, u);
    push_detected_tail(out, u);
    proof {
        assert(out@ =~= start + detected_block(*u));
    }
}

/// The first configuration for a scanned project.
pub fn generate_yaml(result: &ScanResult) -> (r: String)
    ensures
        r@ == init_yaml(*result),
{
    let mut yaml = String::new();
    push_str(&mut yaml, "# Orkesy Configuration\n");
    push_str(&mut yaml, "# Generated by `orkesy init`\n\n");
    push_str(&mut yaml, "version: 1\n\n");
    push_str(&mut yaml, "project:\n");
    push_str(&mut yaml, "  name: ");
    match &result.project_name {
        Some(n) => push_str(&mut yaml, n.as_str()),
        None => push_str(&mut yaml, "my-app"),
    }
    push_str(&mut yaml, "\n\n");
    push_str(&mut yaml, "units:\n");
    if result.units.len() == 0 {
        push_str(&mut yaml, "  # Add your units here\n");
        push_str(&mut yaml, "  # example:\n");
        push_str(&mut yaml, "  #   kind: process\n");
        push_str(&mut yaml, "  #   start: \"npm run dev\"\n");
        push_str(&mut yaml, "  #   port: 3000\n");
    } else {
        let ghost base = yaml@;
        let mut i: usize = 0;
        while i < result.units.len()
            invariant
                i <= result.units.len(),
                yaml@ == base + detected_blocks(result.units@.take(i as int)),
            decreases result.units.len() - i,
        {
            proof {
                assert(result.units@.take(i + 1).drop_last() =~= result.units@.take(i as int));
            }
            push_detected_block(&mut yaml, &result.units[i]);
            i = i + 1;
        }
        proof {
            assert(result.units@.take(result.units@.len() as int) =~= result.units@);
        }
    }
    push_str(&mut yaml, "# Dependencies between units\n");
    push_str(&mut yaml, "edges: []\n");
    push_str(&mut yaml, "  # - from: api\n");
    push_str(&mut yaml, "  #   to: db\n");
    push_str(&mut yaml, "  #   kind: depends_on\n");
    yaml
}

pub open spec fn opt_text_of(o: Option<&str>) -> Option<Seq<char>> {
    match o {
        Some(t) => Some(t@),
        None => None,
    }
}

/// The project's name: the `name` of `package.json`, else the project name
/// of `pyproject.toml`, else the package name of `Cargo.toml`, else the
/// directory's name.  Each text is the file's content when it could be
/// read.
pub open spec fn project_name_choice(
    package_json: Option<Seq<char>>,
    pyproject: Option<Seq<char>>,
    cargo_toml: Option<Seq<char>>,
    dir_name: Option<Seq<char>>,
) -> Option<Seq<char>> {
    let a = match package_json {
        Some(c) => json_string_value(c, "name"@),
        None => None,
    };
    let b = match pyproject {
        Some(c) => project_name_in(lines_of(c)),
        None => None,
    };
    let c = match cargo_toml {
        Some(t) => package_name_in(lines_of(t), false),
        None => None,
    };
    if a is Some {
        a
    } else if b is Some {
        b
    } else if c is Some {
        c
    } else {
        dir_name
    }
}

/// Finds the project's name, as `project_name_choice` says.
pub fn detect_project_name(
    package_json: Option<&str>,
    pyproject: Option<&str>,
    cargo_toml: Option<&str>,
    dir_name: Option<&str>,
) -> (r: Option<String>)
    ensures
        crate::log_filter::opt_view(r) == project_name_choice(
            opt_text_of(package_json),
            opt_text_of(pyproject),
            opt_text_of(cargo_toml),
            opt_text_of(dir_name),
        ),
{
    if let Some(c) = package_json {
        if let Some(n) = extract_json_string(c, "name") {
            return Some(n);
        }
    }
    if let Some(c) = pyproject {
        if let Some(n) = extract_toml_project_name(c) {
            return Some(n);
        }
    }
    if let Some(c) = cargo_toml {
        if let Some(n) = extract_toml_package_name(c) {
            return Some(n);
        }
    }
    match dir_name {
        Some(d) => Some(owned(d)),
        None => None,
    }
}

} // verus!
