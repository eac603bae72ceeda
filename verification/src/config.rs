//! Workspace configuration.
//!
//! `units:` is the canonical schema; `OrkesyConfig` is the legacy
//! `services:` form, kept for backwards compatibility.  Both converge on a
//! `Workspace`.  A configuration is refused when a unit has no start
//! command, when an edge or dependency names an unknown unit, or when the
//! dependencies form a cycle.
use vstd::prelude::*;

use crate::graph::{acyclic, adj_view, find_cycle, is_cycle, postorder, root_or_dep, succs};
use crate::model::{
    DesiredState, Edge, EdgeKind, EdgeSet, EdgeView, HealthStatus, ObservedState, RuntimeGraph,
    ServiceKind, ServiceNode, ServiceStatus,
};
use crate::command::str_eq;
use crate::strmap::StrMap;
use crate::text::{clone_opt_string, clone_strings, join_path, owned, string_views, to_lower, unicode_lower};
use crate::yaml::{
    bool_field_or, field, opt_str_field, opt_text, opt_uint_field, read_bool_or, read_opt_str,
    read_opt_uint, read_req_str, read_req_strs, read_str_map, read_str_or, read_strs,
    read_uint_or, req_str_field, req_strs_field, str_field_or, str_map_field, strs_field,
    text_map, uint_field_or, YamlNode,
};

verus! {

/// How a legacy service's health is checked.
#[derive(Clone, Debug)]
pub enum HealthCheck {
    Http { path: String, interval_ms: u64, timeout_ms: u64 },
    Tcp { interval_ms: u64 },
    Exec { command: Vec<String>, interval_ms: u64 },
}

#[derive(Clone, Copy, Debug, PartialEq, Eq, Structural)]
pub enum RestartPolicy {
    Never,
    OnFailure,
    Always,
}

impl Default for RestartPolicy {
    fn default() -> (r: Self)
        ensures
            r == RestartPolicy::OnFailure,
    {
        RestartPolicy::OnFailure
    }
}

/// A service of the legacy schema.
#[derive(Debug)]
pub struct ServiceConfig {
    pub name: Option<String>,
    pub command: Vec<String>,
    pub cwd: Option<String>,
    pub env: StrMap<String>,
    pub port: Option<u16>,
    pub kind: String,
    pub autostart: bool,
    pub health_check: Option<HealthCheck>,
    pub depends_on: Vec<String>,
    pub description: Option<String>,
    pub restart: RestartPolicy,
    pub restart_delay_ms: Option<u64>,
}

/// The legacy `services:` configuration.
#[derive(Debug)]
pub struct OrkesyConfig {
    pub name: Option<String>,
    pub services: StrMap<ServiceConfig>,
}

/// Why a configuration was refused.
#[derive(Debug)]
pub enum ConfigError {
    Io(String),
    Yaml(String),
    UnknownUnit { referrer: String, referenced: String },
    InvalidDependency { service: String, dependency: String },
    MissingCommand { service: String },
    CyclicDependency { cycle: Vec<String> },
    NotFound { searched: Vec<String> },
    UnknownSchema { hint: String },
}

// ---------------------------------------------------------------------------
// The legacy schema, field by field.
// ---------------------------------------------------------------------------

/// A number as an optional plain value.
pub open spec fn opt_u16(o: Option<u16>) -> Option<nat> {
    match o {
        Some(x) => Some(x as nat),
        None => None,
    }
}

pub open spec fn opt_u64(o: Option<u64>) -> Option<nat> {
    match o {
        Some(x) => Some(x as nat),
        None => None,
    }
}

/// Whether `h` is what the health-check node `n` describes: a mapping with
/// a `type` of `http`, `tcp` or `exec`.
pub open spec fn health_decodes(n: YamlNode, h: HealthCheck) -> bool {
    match h {
        HealthCheck::Http { path, interval_ms, timeout_ms } => {
            &&& req_str_field(n, "type"@) == Some("http"@)
            &&& req_str_field(n, "path"@) == Some(path@)
            &&& uint_field_or(n, "interval_ms"@, u64::MAX as nat, 5000) == Some(interval_ms as nat)
            &&& uint_field_or(n, "timeout_ms"@, u64::MAX as nat, 2000) == Some(timeout_ms as nat)
        },
        HealthCheck::Tcp { interval_ms } => {
            &&& req_str_field(n, "type"@) == Some("tcp"@)
            &&& uint_field_or(n, "interval_ms"@, u64::MAX as nat, 5000) == Some(interval_ms as nat)
        },
        HealthCheck::Exec { command, interval_ms } => {
            &&& req_str_field(n, "type"@) == Some("exec"@)
            &&& req_strs_field(n, "command"@) == Some(string_views(command@))
            &&& uint_field_or(n, "interval_ms"@, u64::MAX as nat, 5000) == Some(interval_ms as nat)
        },
    }
}

/// Whether the health-check node `n` can be read.
pub open spec fn health_ok(n: YamlNode) -> bool {
    &&& n is Mapping
    &&& match req_str_field(n, "type"@) {
        Some(t) => if t == "http"@ {
            &&& req_str_field(n, "path"@) is Some
            &&& uint_field_or(n, "interval_ms"@, u64::MAX as nat, 5000) is Some
            &&& uint_field_or(n, "timeout_ms"@, u64::MAX as nat, 2000) is Some
        } else if t == "tcp"@ {
            uint_field_or(n, "interval_ms"@, u64::MAX as nat, 5000) is Some
        } else if t == "exec"@ {
            &&& req_strs_field(n, "command"@) is Some
            &&& uint_field_or(n, "interval_ms"@, u64::MAX as nat, 5000) is Some
        } else {
            false
        },
        None => false,
    }
}

/// The restart policy a text names (kebab-case).
pub open spec fn restart_named(t: Seq<char>) -> Option<RestartPolicy> {
    if t == "never"@ {
        Some(RestartPolicy::Never)
    } else if t == "on-failure"@ {
        Some(RestartPolicy::OnFailure)
    } else if t == "always"@ {
        Some(RestartPolicy::Always)
    } else {
        None
    }
}

/// The `restart` field: `on-failure` when absent.
pub open spec fn restart_field(n: YamlNode) -> Option<RestartPolicy> {
    match field(n, "restart"@) {
        None => Some(RestartPolicy::OnFailure),
        Some(v) => match crate::yaml::str_of(v) {
            Some(t) => restart_named(t),
            None => None,
        },
    }
}

/// The `health_check` field, absent or null for none.
pub open spec fn health_field_ok(n: YamlNode) -> bool {
    match field(n, "health_check"@) {
        None => true,
        Some(YamlNode::Null) => true,
        Some(v) => health_ok(v),
    }
}

/// Whether the service node `n` can be read.
pub open spec fn service_ok(n: YamlNode) -> bool {
    &&& n is Mapping
    &&& opt_str_field(n, "name"@) is Some
    &&& req_strs_field(n, "command"@) is Some
    &&& opt_str_field(n, "cwd"@) is Some
    &&& str_map_field(n, "env"@) is Some
    &&& opt_uint_field(n, "port"@, u16::MAX as nat) is Some
    &&& str_field_or(n, "kind"@, "generic"@) is Some
    &&& bool_field_or(n, "autostart"@, true) is Some
    &&& health_field_ok(n)
    &&& strs_field(n, "depends_on"@) is Some
    &&& opt_str_field(n, "description"@) is Some
    &&& restart_field(n) is Some
    &&& opt_uint_field(n, "restart_delay_ms"@, u64::MAX as nat) is Some
}

/// Whether `s` is what the service node `n` describes, each field taking
/// its default when absent (`kind` generic, `autostart` on, `restart`
/// on failure).
pub open spec fn service_decodes(n: YamlNode, s: ServiceConfig) -> bool {
    &&& opt_str_field(n, "name"@) == Some(opt_text(s.name))
    &&& req_strs_field(n, "command"@) == Some(string_views(s.command@))
    &&& opt_str_field(n, "cwd"@) == Some(opt_text(s.cwd))
    &&& str_map_field(n, "env"@) == Some(text_map(s.env@))
    &&& opt_uint_field(n, "port"@, u16::MAX as nat) == Some(opt_u16(s.port))
    &&& str_field_or(n, "kind"@, "generic"@) == Some(s.kind@)
    &&& bool_field_or(n, "autostart"@, true) == Some(s.autostart)
    &&& match s.health_check {
        None => field(n, "health_check"@) is None || field(n, "health_check"@) == Some(
            YamlNode::Null,
        ),
        Some(h) => field(n, "health_check"@) matches Some(v) && v !is Null && health_decodes(v, h),
    }
    &&& strs_field(n, "depends_on"@) == Some(string_views(s.depends_on@))
    &&& opt_str_field(n, "description"@) == Some(opt_text(s.description))
    &&& restart_field(n) == Some(s.restart)
    &&& opt_uint_field(n, "restart_delay_ms"@, u64::MAX as nat) == Some(opt_u64(s.restart_delay_ms))
}

fn decode_health(n: &YamlNode) -> (r: Result<HealthCheck, ()>)
    ensures
        match r {
            Ok(h) => health_ok(*n) && health_decodes(*n, h),
            Err(_) => !health_ok(*n),
        },
{
    match n {
        YamlNode::Mapping(_) => {},
        _ => {
            return Err(());
        },
    }
    let t = match read_req_str(n, "type") {
        Ok(t) => t,
        Err(_) => {
            return Err(());
        },
    };
    if crate::command::str_eq(t.as_str(), "http") {
        let path = match read_req_str(n, "path") {
            Ok(p) => p,
            Err(_) => {
                return Err(());
            },
        };
        let interval_ms = match read_uint_or(n, "interval_ms", u64::MAX, 5000) {
            Ok(x) => x,
            Err(_) => {
                return Err(());
            },
        };
        let timeout_ms = match read_uint_or(n, "timeout_ms", u64::MAX, 2000) {
            Ok(x) => x,
            Err(_) => {
                return Err(());
            },
        };
        Ok(HealthCheck::Http { path, interval_ms, timeout_ms })
    } else if crate::command::str_eq(t.as_str(), "tcp") {
        let interval_ms = match read_uint_or(n, "interval_ms", u64::MAX, 5000) {
            Ok(x) => x,
            Err(_) => {
                return Err(());
            },
        };
        Ok(HealthCheck::Tcp { interval_ms })
    } else if crate::command::str_eq(t.as_str(), "exec") {
        let command = match read_req_strs(n, "command") {
            Ok(c) => c,
            Err(_) => {
                return Err(());
            },
        };
        let interval_ms = match read_uint_or(n, "interval_ms", u64::MAX, 5000) {
            Ok(x) => x,
            Err(_) => {
                return Err(());
            },
        };
        Ok(HealthCheck::Exec { command, interval_ms })
    } else {
        Err(())
    }
}

fn decode_restart(n: &YamlNode) -> (r: Result<RestartPolicy, ()>)
    ensures
        match r {
            Ok(p) => restart_field(*n) == Some(p),
            Err(_) => restart_field(*n) is None,
        },
{
    match crate::yaml::get_field(n, "restart") {
        None => Ok(RestartPolicy::OnFailure),
        Some(v) => match crate::yaml::as_string(v) {
            Some(t) => {
                if crate::command::str_eq(t.as_str(), "never") {
                    Ok(RestartPolicy::Never)
                } else if crate::command::str_eq(t.as_str(), "on-failure") {
                    Ok(RestartPolicy::OnFailure)
                } else if crate::command::str_eq(t.as_str(), "always") {
                    Ok(RestartPolicy::Always)
                } else {
                    Err(())
                }
            },
            None => Err(()),
        },
    }
}

/// Reads a service of the legacy schema.
pub fn decode_service(n: &YamlNode) -> (r: Result<ServiceConfig, ()>)
    ensures
        match r {
            Ok(s) => service_ok(*n) && service_decodes(*n, s),
            Err(_) => !service_ok(*n),
        },
{
    match n {
        YamlNode::Mapping(_) => {},
        _ => {
            return Err(());
        },
    }
    let name = match read_opt_str(n, "name") {
        Ok(x) => x,
        Err(_) => {
            return Err(());
        },
    };
    let command = match read_req_strs(n, "command") {
        Ok(x) => x,
        Err(_) => {
            return Err(());
        },
    };
    let cwd = match read_opt_str(n, "cwd") {
        Ok(x) => x,
        Err(_) => {
            return Err(());
        },
    };
    let env = match read_str_map(n, "env") {
        Ok(x) => x,
        Err(_) => {
            return Err(());
        },
    };
    let port: Option<u16> = match read_opt_uint(n, "port", 65535) {
        Ok(Some(x)) => Some(x as u16),
        Ok(None) => None,
        Err(_) => {
            return Err(());
        },
    };
    let kind = match read_str_or(n, "kind", "generic") {
        Ok(x) => x,
        Err(_) => {
            return Err(());
        },
    };
    let autostart = match read_bool_or(n, "autostart", true) {
        Ok(x) => x,
        Err(_) => {
            return Err(());
        },
    };
    let health_check = match crate::yaml::get_field(n, "health_check") {
        None => None,
        Some(YamlNode::Null) => None,
        Some(v) => match decode_health(v) {
            Ok(h) => Some(h),
            Err(_) => {
                return Err(());
            },
        },
    };
    let depends_on = match read_strs(n, "depends_on") {
        Ok(x) => x,
        Err(_) => {
            return Err(());
        },
    };
    let description = match read_opt_str(n, "description") {
        Ok(x) => x,
        Err(_) => {
            return Err(());
        },
    };
    let restart = match decode_restart(n) {
        Ok(x) => x,
        Err(_) => {
            return Err(());
        },
    };
    let restart_delay_ms = match read_opt_uint(n, "restart_delay_ms", u64::MAX) {
        Ok(x) => x,
        Err(_) => {
            return Err(());
        },
    };
    Ok(
        ServiceConfig {
            name,
            command,
            cwd,
            env,
            port,
            kind,
            autostart,
            health_check,
            depends_on,
            description,
            restart,
            restart_delay_ms,
        },
    )
}


/// The keys of a mapping's entries that are strings.
pub open spec fn entry_keys(es: Seq<(YamlNode, YamlNode)>) -> Set<Seq<char>> {
    Set::new(|k: Seq<char>| exists|i: int| 0 <= i < es.len() && crate::yaml::key_is(#[trigger] es[i].0, k))
}

/// The value of the last entry whose key is the string `k`.
pub open spec fn last_value(es: Seq<(YamlNode, YamlNode)>, k: Seq<char>) -> YamlNode
    decreases es.len(),
{
    if es.len() == 0 {
        YamlNode::Null
    } else if crate::yaml::key_is(es.last().0, k) {
        es.last().1
    } else {
        last_value(es.drop_last(), k)
    }
}

/// Every entry has a string key and a readable service.
pub open spec fn service_entries_ok(es: Seq<(YamlNode, YamlNode)>) -> bool {
    forall|i: int| 0 <= i < es.len() ==> crate::yaml::str_of((#[trigger] es[i]).0) is Some && service_ok(es[i].1)
}

/// Whether the document `n` is a readable legacy configuration.
pub open spec fn orkesy_ok(n: YamlNode) -> bool {
    &&& n is Mapping
    &&& opt_str_field(n, "name"@) is Some
    &&& field(n, "services"@) matches Some(YamlNode::Mapping(es)) && service_entries_ok(es@)
}

/// Whether `c` is what the document `n` describes: its name, and one
/// service per key of `services` (the last entry for a key wins).
pub open spec fn orkesy_decodes(n: YamlNode, c: OrkesyConfig) -> bool {
    &&& opt_str_field(n, "name"@) == Some(opt_text(c.name))
    &&& field(n, "services"@) matches Some(YamlNode::Mapping(es)) && {
        &&& c.services@.dom() == entry_keys(es@)
        &&& forall|k: Seq<char>|
            #[trigger] c.services@.dom().contains(k) ==> service_decodes(
                last_value(es@, k),
                c.services@[k],
            )
    }
}

/// Reads a legacy configuration document.
pub fn decode_orkesy(n: &YamlNode) -> (r: Result<OrkesyConfig, ()>)
    ensures
        match r {
            Ok(c) => orkesy_ok(*n) && orkesy_decodes(*n, c),
            Err(_) => !orkesy_ok(*n),
        },
{
    match n {
        YamlNode::Mapping(_) => {},
        _ => {
            return Err(());
        },
    }
    let name = match read_opt_str(n, "name") {
        Ok(x) => x,
        Err(_) => {
            return Err(());
        },
    };
    let es = match crate::yaml::get_field(n, "services") {
        Some(YamlNode::Mapping(es)) => es,
        _ => {
            return Err(());
        },
    };
    let mut services: StrMap<ServiceConfig> = StrMap::new();
    let mut i: usize = 0;
    proof {
        assert(entry_keys(es@.take(0)) =~= Set::<Seq<char>>::empty());
    }
    while i < es.len()
        invariant
            i <= es.len(),
            field(*n, "services"@) == Some(YamlNode::Mapping(*es)),
            forall|j: int| 0 <= j < i ==> crate::yaml::str_of((#[trigger] es@[j]).0) is Some && service_ok(es@[j].1),
            services@.dom() == entry_keys(es@.take(i as int)),
            forall|k: Seq<char>|
                #[trigger] services@.dom().contains(k) ==> service_decodes(
                    last_value(es@.take(i as int), k),
                    services@[k],
                ),
        decreases es.len() - i,
    {
        let ghost t0 = es@.take(i as int);
        let ghost t1 = es@.take(i + 1);
        proof {
            assert(t1.drop_last() =~= t0);
            assert(t1.last() == es@[i as int]);
        }
        let key = match crate::yaml::as_string(&es[i].0) {
            Some(s) => s,
            None => {
                proof {
                    assert(!service_entries_ok(es@));
                }
                return Err(());
            },
        };
        let svc = match decode_service(&es[i].1) {
            Ok(s) => s,
            Err(_) => {
                proof {
                    assert(!service_entries_ok(es@));
                }
                return Err(());
            },
        };
        let ghost before = services@;
        let ghost kv = key@;
        let _ = services.insert(key, svc);
        proof {
            assert forall|k: Seq<char>| services@.dom().contains(k) <==> entry_keys(t1).contains(k) by {
                if entry_keys(t0).contains(k) {
                    let w = choose|w: int| 0 <= w < t0.len() && crate::yaml::key_is(#[trigger] t0[w].0, k);
                    assert(t1[w] == t0[w]);
                }
                if entry_keys(t1).contains(k) {
                    let w = choose|w: int| 0 <= w < t1.len() && crate::yaml::key_is(#[trigger] t1[w].0, k);
                    if w < i {
                        assert(t0[w] == t1[w]);
                    }
                }
                assert(crate::yaml::key_is(t1[i as int].0, kv));
            }
            assert(services@.dom() =~= entry_keys(t1));
            assert forall|k: Seq<char>| #[trigger] services@.dom().contains(k) implies service_decodes(
                last_value(t1, k),
                services@[k],
            ) by {
                if k != kv {
                    assert(!crate::yaml::key_is(t1.last().0, k));
                    assert(last_value(t1, k) == last_value(t0, k));
                }
            }
        }
        i = i + 1;
    }
    proof {
        assert(es@.take(es.len() as int) =~= es@);
    }
    Ok(OrkesyConfig { name, services })
}

// ---------------------------------------------------------------------------
// Validation of the legacy schema.
// ---------------------------------------------------------------------------

/// The dependency graph of a legacy configuration: each service with the
/// services it depends on.
pub open spec fn dep_graph(c: OrkesyConfig) -> Map<Seq<char>, Seq<Seq<char>>> {
    c.services@.map_values(|s: ServiceConfig| string_views(s.depends_on@))
}

/// A dependency of service `s` that is not a service of `c`.
pub open spec fn missing_dep(c: OrkesyConfig, s: ServiceConfig, j: int) -> bool {
    0 <= j < s.depends_on@.len() && !c.services@.dom().contains(s.depends_on@[j]@)
}

/// The service at position `i` (in key order) is at fault: a dependency is
/// unknown, or its command is empty.
pub open spec fn service_fault(c: OrkesyConfig, i: int) -> bool {
    let s = c.services.vals()[i];
    (exists|j: int| missing_dep(c, s, j)) || s.command@.len() == 0
}

pub open spec fn no_fault_before(c: OrkesyConfig, i: int) -> bool {
    forall|k: int| 0 <= k < i ==> !service_fault(c, k)
}

/// What `validate` finds for a legacy configuration: the first service in
/// key order with an unknown dependency (its first such) or an empty
/// command, else a dependency cycle, else nothing.
pub open spec fn validate_result(c: OrkesyConfig, r: Result<(), ConfigError>) -> bool {
    let ks = c.services.keys();
    let vs = c.services.vals();
    match r {
        Ok(_) => no_fault_before(c, ks.len() as int) && acyclic(dep_graph(c)),
        Err(ConfigError::InvalidDependency { service, dependency }) => exists|i: int, j: int|
            0 <= i < ks.len() && no_fault_before(c, i) && ks[i] == service@ && missing_dep(c, vs[i], j)
                && (forall|jj: int| 0 <= jj < j ==> !missing_dep(c, vs[i], jj))
                && vs[i].depends_on@[j]@ == dependency@,
        Err(ConfigError::MissingCommand { service }) => exists|i: int|
            0 <= i < ks.len() && no_fault_before(c, i) && ks[i] == service@ && !(exists|j: int|
                missing_dep(c, vs[i], j)) && vs[i].command@.len() == 0,
        Err(ConfigError::CyclicDependency { cycle }) => no_fault_before(c, ks.len() as int)
            && is_cycle(dep_graph(c), string_views(cycle@)),
        _ => false,
    }
}

impl OrkesyConfig {
    /// The project name, if the configuration has one.
    pub fn project_name(&self) -> (r: Option<&str>)
        ensures
            match r {
                Some(s) => self.name matches Some(n) && s@ == n@,
                None => self.name is None,
            },
    {
        match &self.name {
            Some(n) => Some(n.as_str()),
            None => None,
        }
    }

    /// The dependency lists, keyed by service, and the service ids in order.
    fn adjacency(&self) -> (r: (StrMap<Vec<String>>, Vec<String>))
        ensures
            adj_view(r.0@) == dep_graph(*self),
            string_views(r.1@) == self.services.keys(),
    {
        let n = self.services.len();
        let mut adj: StrMap<Vec<String>> = StrMap::new();
        let mut ids: Vec<String> = Vec::new();
        let mut i: usize = 0;
        proof {
            crate::strmap::lemma_sorted_distinct(self.services.keys());
        }
        while i < n
            invariant
                i <= n,
                n == self.services.keys().len(),
                n == self.services.vals().len(),
                crate::strmap::distinct_keys(self.services.keys()),
                string_views(ids@) == self.services.keys().take(i as int),
                adj@.dom() == self.services.keys().take(i as int).to_set(),
                forall|k: int|
                    0 <= k < i ==> adj_view(adj@)[#[trigger] self.services.keys()[k]]
                        == string_views(self.services.vals()[k].depends_on@),
            decreases n - i,
        {
            let id = self.services.key_at(i);
            let svc = self.services.value_at(i);
            let ghost before = adj@;
            let ghost ids0 = string_views(ids@);
            let _ = adj.insert(id.clone(), clone_strings(&svc.depends_on));
            ids.push(id.clone());
            proof {
                let ks = self.services.keys();
                assert(string_views(ids@) =~= ids0.push(id@));
                assert(ks.take(i + 1) =~= ks.take(i as int).push(ks[i as int]));
                let t0 = ks.take(i as int);
                let t1 = ks.take(i + 1);
                assert forall|x: Seq<char>| adj@.dom().contains(x) <==> t1.to_set().contains(x) by {
                    if t0.contains(x) {
                        let w = choose|w: int| 0 <= w < t0.len() && t0[w] == x;
                        assert(t1[w] == x);
                    }
                    if t1.contains(x) {
                        let w = choose|w: int| 0 <= w < t1.len() && t1[w] == x;
                        if w < i {
                            assert(t0[w] == x);
                        }
                    }
                    assert(t1[i as int] == ks[i as int]);
                }
                assert(adj@.dom() =~= ks.take(i + 1).to_set());
                assert forall|k: int| 0 <= k <= i implies adj_view(adj@)[#[trigger] ks[k]]
                    == string_views(self.services.vals()[k].depends_on@) by {
                    if k < i {
                        assert(ks[k] != ks[i as int]);
                        assert(ks.take(i as int)[k] == ks[k]);
                    }
                }
            }
            i = i + 1;
        }
        proof {
            let ks = self.services.keys();
            assert(ks.take(n as int) =~= ks);
            let g = dep_graph(*self);
            assert forall|x: Seq<char>| adj@.dom().contains(x) <==> g.dom().contains(x) by {}
            assert forall|x: Seq<char>| #[trigger] adj_view(adj@).dom().contains(x) implies adj_view(adj@)[x] == g[x] by {
                let w = choose|w: int| 0 <= w < ks.len() && ks[w] == x;
                crate::strmap::lemma_pairs_at(ks, self.services.vals(), w);
            }
            assert(adj_view(adj@) =~= g);
        }
        (adj, ids)
    }

    /// Whether the dependencies form a cycle.
    fn check_cycles(&self) -> (r: Result<(), ConfigError>)
        ensures
            match r {
                Ok(_) => acyclic(dep_graph(*self)),
                Err(ConfigError::CyclicDependency { cycle }) => is_cycle(dep_graph(*self), string_views(cycle@)),
                _ => false,
            },
    {
        let (adj, ids) = self.adjacency();
        proof {
            assert forall|k: Seq<char>| #[trigger] adj@.dom().contains(k) implies string_views(ids@).contains(k) by {
                assert(adj_view(adj@).dom().contains(k));
            }
        }
        match find_cycle(&adj, &ids) {
            None => Ok(()),
            Some(cycle) => Err(ConfigError::CyclicDependency { cycle }),
        }
    }

    /// Checks that every dependency names a service, that every service
    /// has a command, and that the dependencies form no cycle.
    pub fn validate(&self) -> (r: Result<(), ConfigError>)
        ensures
            validate_result(*self, r),
    {
        let n = self.services.len();
        let mut i: usize = 0;
        while i < n
            invariant
                i <= n,
                n == self.services.keys().len(),
                n == self.services.vals().len(),
                no_fault_before(*self, i as int),
            decreases n - i,
        {
            let svc = self.services.value_at(i);
            let mut j: usize = 0;
            while j < svc.depends_on.len()
                invariant
                    j <= svc.depends_on.len(),
                    i < n,
                    n == self.services.vals().len(),
                    n == self.services.keys().len(),
                    no_fault_before(*self, i as int),
                    *svc == self.services.vals()[i as int],
                    forall|jj: int| 0 <= jj < j ==> !missing_dep(*self, *svc, jj),
                decreases svc.depends_on.len() - j,
            {
                if !self.services.contains_key(svc.depends_on[j].as_str()) {
                    let service = self.services.key_at(i).clone();
                    let dependency = svc.depends_on[j].clone();
                    proof {
                        assert(missing_dep(*self, *svc, j as int));
                    }
                    return Err(ConfigError::InvalidDependency { service, dependency });
                }
                j = j + 1;
            }
            if svc.command.len() == 0 {
                let service = self.services.key_at(i).clone();
                return Err(ConfigError::MissingCommand { service });
            }
            proof {
                assert(!service_fault(*self, i as int));
            }
            i = i + 1;
        }
        self.check_cycles()
    }

    /// Service ids so that, when the dependencies form no cycle, every
    /// service comes after the services it depends on.  Each id appears
    /// once; dependencies that are not services appear too, and nothing
    /// else does.
    pub fn start_order(&self) -> (r: Vec<String>)
        ensures
            forall|k: Seq<char>| #[trigger] self.services@.dom().contains(k) ==> string_views(r@).contains(k),
            forall|i: int| 0 <= i < r@.len() ==> #[trigger] self.services@.dom().contains(string_views(r@)[i])
                || exists|k: Seq<char>| self.services@.dom().contains(k)
                    && string_views(#[trigger] self.services@[k].depends_on@).contains(string_views(r@)[i]),
            string_views(r@).no_duplicates(),
            acyclic(dep_graph(*self)) ==> forall|i: int, k: int|
                #![trigger succs(dep_graph(*self), string_views(r@)[i])[k]]
                0 <= i < r@.len() && 0 <= k < succs(dep_graph(*self), string_views(r@)[i]).len()
                    ==> string_views(r@).take(i).contains(succs(dep_graph(*self), string_views(r@)[i])[k]),
    {
        let (adj, ids) = self.adjacency();
        let r = postorder(&adj, &ids);
        proof {
            assert forall|k: Seq<char>| #[trigger] self.services@.dom().contains(k) implies string_views(r@).contains(k) by {
                let w = choose|w: int| 0 <= w < self.services.keys().len() && self.services.keys()[w] == k;
                assert(string_views(ids@)[w] == k);
                assert(ids@[w]@ == k);
            }
            assert forall|i: int| 0 <= i < r@.len() implies #[trigger] self.services@.dom().contains(string_views(r@)[i])
                || exists|k: Seq<char>| self.services@.dom().contains(k)
                    && string_views(#[trigger] self.services@[k].depends_on@).contains(string_views(r@)[i]) by {
                let x = string_views(r@)[i];
                assert(root_or_dep(adj_view(adj@), string_views(ids@), x));
                if string_views(ids@).contains(x) {
                    let w = choose|w: int| 0 <= w < string_views(ids@).len() && string_views(ids@)[w] == x;
                    assert(self.services.keys()[w] == x);
                    assert(self.services.keys().contains(x));
                } else {
                    let n = choose|n: Seq<char>| adj_view(adj@).dom().contains(n) && #[trigger] adj_view(adj@)[n].contains(x);
                    assert(dep_graph(*self)[n] == string_views(self.services@[n].depends_on@));
                }
            }
        }
        r
    }
}

/// Reads and validates a legacy configuration.
pub open spec fn parse_outcome(text: Seq<char>, r: Result<OrkesyConfig, ConfigError>) -> bool {
    match crate::yaml::yaml_document(text) {
        None => r matches Err(ConfigError::Yaml(_)),
        Some(doc) => if !orkesy_ok(doc) {
            r matches Err(ConfigError::Yaml(_))
        } else {
            match r {
                Ok(c) => orkesy_decodes(doc, c) && validate_result(c, Ok(())),
                Err(ConfigError::Yaml(_)) => false,
                Err(e) => exists|c: OrkesyConfig| orkesy_decodes(doc, c) && validate_result(c, Err(e)),
            }
        },
    }
}


/// The kind a (lowercased) service kind names; anything else is generic.
pub open spec fn service_kind_named(k: Seq<char>) -> ServiceKind {
    if k == "http"@ || k == "api"@ || k == "httpapi"@ {
        ServiceKind::HttpApi
    } else if k == "worker"@ {
        ServiceKind::Worker
    } else if k == "database"@ || k == "db"@ {
        ServiceKind::Database
    } else if k == "cache"@ {
        ServiceKind::Cache
    } else if k == "queue"@ {
        ServiceKind::Queue
    } else if k == "frontend"@ {
        ServiceKind::Frontend
    } else {
        ServiceKind::Generic
    }
}

fn service_kind_exec(k: &str) -> (r: ServiceKind)
    ensures
        r == service_kind_named(k@),
{
    if str_eq(k, "http") || str_eq(k, "api") || str_eq(k, "httpapi") {
        ServiceKind::HttpApi
    } else if str_eq(k, "worker") {
        ServiceKind::Worker
    } else if str_eq(k, "database") || str_eq(k, "db") {
        ServiceKind::Database
    } else if str_eq(k, "cache") {
        ServiceKind::Cache
    } else if str_eq(k, "queue") {
        ServiceKind::Queue
    } else if str_eq(k, "frontend") {
        ServiceKind::Frontend
    } else {
        ServiceKind::Generic
    }
}

/// Whether `n` is the graph node of service `s` with id `id`: shown by its
/// name (else its id), desired running when it starts automatically,
/// observed stopped with unknown health.
pub open spec fn node_of_service(id: Seq<char>, s: ServiceConfig, n: ServiceNode) -> bool {
    &&& n.id@ == id
    &&& n.display_name@ == (match s.name {
        Some(x) => x@,
        None => id,
    })
    &&& n.kind == service_kind_named(unicode_lower(s.kind@))
    &&& n.desired == (if s.autostart {
        DesiredState::Running
    } else {
        DesiredState::Stopped
    })
    &&& n.observed.instance_id is None
    &&& n.observed.status is Stopped
    &&& n.observed.health is Unknown
    &&& n.port == s.port
    &&& opt_text(n.description) == opt_text(s.description)
}

/// The edges of a legacy configuration: one `DependsOn` edge from each
/// service to each of its dependencies.
pub open spec fn config_edges(c: OrkesyConfig) -> Set<EdgeView> {
    Set::new(
        |e: EdgeView|
            e.2 == EdgeKind::DependsOn && c.services@.dom().contains(e.0) && string_views(
                c.services@[e.0].depends_on@,
            ).contains(e.1),
    )
}

impl OrkesyConfig {
    /// Reads a legacy configuration from YAML text and validates it.
    ///
    /// Text that is not YAML gives `serde_yaml`'s own message.  A document
    /// that is YAML but does not have the configuration's shape gives one
    /// fixed message, which names neither the field nor the type at fault.
    pub fn parse(content: &str) -> (r: Result<Self, ConfigError>)
        ensures
            parse_outcome(content@, r),
    {
        let doc = match crate::yaml::parse_yaml(content) {
            Ok(d) => d,
            Err(e) => {
                return Err(ConfigError::Yaml(crate::yaml::yaml_error_text(&e)));
            },
        };
        let config = match decode_orkesy(&doc) {
            Ok(c) => c,
            Err(_) => {
                return Err(
                    ConfigError::Yaml(owned("the document does not follow the `services:` schema")),
                );
            },
        };
        match config.validate() {
            Ok(_) => Ok(config),
            Err(e) => Err(e),
        }
    }

    /// The runtime graph of the configuration: one node per service, one
    /// `DependsOn` edge per dependency.
    pub fn to_graph(&self) -> (r: RuntimeGraph)
        ensures
            r.nodes@.dom() == self.services@.dom(),
            forall|k: Seq<char>|
                #[trigger] r.nodes@.dom().contains(k) ==> node_of_service(
                    k,
                    self.services@[k],
                    r.nodes@[k],
                ),
            r.edges@ == config_edges(*self),
    {
        let n = self.services.len();
        let ghost ks = self.services.keys();
        let ghost vs = self.services.vals();
        proof {
            crate::strmap::lemma_sorted_distinct(ks);
        }
        let mut nodes: StrMap<ServiceNode> = StrMap::new();
        let mut edges = EdgeSet::new();
        let mut i: usize = 0;
        while i < n
            invariant
                i <= n,
                n == ks.len(),
                n == vs.len(),
                ks == self.services.keys(),
                vs == self.services.vals(),
                crate::strmap::distinct_keys(ks),
                nodes@.dom() == ks.take(i as int).to_set(),
                forall|k: Seq<char>|
                    #[trigger] nodes@.dom().contains(k) ==> node_of_service(
                        k,
                        self.services@[k],
                        nodes@[k],
                    ),
                forall|e: EdgeView|
                    edges@.contains(e) <==> (e.2 == EdgeKind::DependsOn && ks.take(i as int).contains(e.0)
                        && string_views(self.services@[e.0].depends_on@).contains(e.1)),
            decreases n - i,
        {
            let id = self.services.key_at(i);
            let svc = self.services.value_at(i);
            proof {
                crate::strmap::lemma_pairs_at(ks, vs, i as int);
            }
            let lowered = to_lower(svc.kind.as_str());
            let kind = service_kind_exec(lowered.as_str());
            let display_name = match &svc.name {
                Some(x) => x.clone(),
                None => id.clone(),
            };
            let node = ServiceNode {
                id: id.clone(),
                display_name,
                kind,
                desired: if svc.autostart {
                    DesiredState::Running
                } else {
                    DesiredState::Stopped
                },
                observed: ObservedState {
                    instance_id: None,
                    status: ServiceStatus::Stopped,
                    health: HealthStatus::Unknown,
                },
                port: svc.port,
                description: clone_opt_string(&svc.description),
            };
            let ghost before = nodes@;
            let _ = nodes.insert(id.clone(), node);
            let ghost t0 = ks.take(i as int);
            let ghost t1 = ks.take(i + 1);
            proof {
                assert(t1 =~= t0.push(ks[i as int]));
                assert forall|x: Seq<char>| nodes@.dom().contains(x) <==> t1.to_set().contains(x) by {
                    if t0.contains(x) {
                        let w = choose|w: int| 0 <= w < t0.len() && t0[w] == x;
                        assert(t1[w] == x);
                    }
                    if t1.contains(x) {
                        let w = choose|w: int| 0 <= w < t1.len() && t1[w] == x;
                        if w < i {
                            assert(t0[w] == x);
                        }
                    }
                    assert(t1[i as int] == ks[i as int]);
                }
                assert(nodes@.dom() =~= t1.to_set());
            }
            let mut j: usize = 0;
            while j < svc.depends_on.len()
                invariant
                    j <= svc.depends_on.len(),
                    i < n,
                    n == ks.len(),
                    ks == self.services.keys(),
                    vs == self.services.vals(),
                    *svc == vs[i as int],
                    *svc == self.services@[ks[i as int]],
                    id@ == ks[i as int],
                    t0 == ks.take(i as int),
                    t1 == t0.push(ks[i as int]),
                    crate::strmap::distinct_keys(ks),
                    forall|e: EdgeView|
                        edges@.contains(e) <==> (e.2 == EdgeKind::DependsOn && ((t0.contains(e.0)
                            && string_views(self.services@[e.0].depends_on@).contains(e.1)) || (e.0
                            == ks[i as int] && string_views(svc.depends_on@).take(j as int).contains(e.1)))),
                decreases svc.depends_on.len() - j,
            {
                let ghost before_e = edges@;
                let _ = edges.insert(
                    Edge { from: id.clone(), to: svc.depends_on[j].clone(), kind: EdgeKind::DependsOn },
                );
                proof {
                    let dv = string_views(svc.depends_on@);
                    let a = dv.take(j as int);
                    let b = dv.take(j + 1);
                    assert(b =~= a.push(dv[j as int]));
                    assert forall|x: Seq<char>| b.contains(x) <==> a.contains(x) || x == dv[j as int] by {
                        if a.contains(x) {
                            let w = choose|w: int| 0 <= w < a.len() && a[w] == x;
                            assert(b[w] == x);
                        }
                        if b.contains(x) {
                            let w = choose|w: int| 0 <= w < b.len() && b[w] == x;
                            if w < j {
                                assert(a[w] == x);
                            }
                        }
                        assert(b[j as int] == dv[j as int]);
                    }
                }
                j = j + 1;
            }
            proof {
                let dv = string_views(svc.depends_on@);
                assert(dv.take(dv.len() as int) =~= dv);
                assert forall|e: EdgeView|
                    edges@.contains(e) <==> (e.2 == EdgeKind::DependsOn && t1.contains(e.0)
                        && string_views(self.services@[e.0].depends_on@).contains(e.1)) by {
                    if t1.contains(e.0) {
                        let w = choose|w: int| 0 <= w < t1.len() && t1[w] == e.0;
                        if w < i {
                            assert(t0[w] == e.0);
                        } else {
                            assert(e.0 == ks[i as int]);
                        }
                    }
                    if t0.contains(e.0) {
                        let w = choose|w: int| 0 <= w < t0.len() && t0[w] == e.0;
                        assert(t1[w] == e.0);
                    }
                    assert(t1[i as int] == ks[i as int]);
                }
            }
            i = i + 1;
        }
        proof {
            assert(ks.take(n as int) =~= ks);
            assert(nodes@.dom() =~= self.services@.dom());
            assert(edges@ =~= config_edges(*self));
        }
        RuntimeGraph { nodes, edges }
    }
}


/// The port a legacy health check probes: the service's port, else 8000.
pub open spec fn port_or_default(p: Option<u16>) -> nat {
    match p {
        Some(x) => x as nat,
        None => 8000,
    }
}

/// Whether `h` is the unit health check made from a legacy one.
pub open spec fn unit_health_of(s: ServiceConfig, h: Option<crate::unit::HealthCheck>) -> bool {
    match s.health_check {
        None => h is None,
        Some(HealthCheck::Tcp { interval_ms }) => h matches Some(
            crate::unit::HealthCheck::Tcp { port, interval_ms: iv },
        ) && port as nat == port_or_default(s.port) && iv == interval_ms,
        Some(HealthCheck::Http { path, interval_ms, timeout_ms }) => h matches Some(
            crate::unit::HealthCheck::Http { url, interval_ms: iv, timeout_ms: tv },
        ) && url@ == "http://localhost:"@ + crate::text::decimal(port_or_default(s.port)) + path@
            && iv == interval_ms && tv == timeout_ms,
        Some(HealthCheck::Exec { command, interval_ms }) => h matches Some(
            crate::unit::HealthCheck::Exec { command: c, interval_ms: iv },
        ) && c@ == crate::text::join(string_views(command@), " "@) && iv == interval_ms,
    }
}

/// Whether `u` is the unit made from legacy service `s` with id `id`: its
/// command joined with spaces starts it, SIGTERM stops it, and a `docker`
/// kind makes it a Docker unit (any other kind a process).
pub open spec fn unit_of_service(id: Seq<char>, s: ServiceConfig, u: crate::unit::Unit) -> bool {
    &&& u.id@ == id
    &&& opt_text(u.name) == opt_text(s.name)
    &&& u.kind == (if unicode_lower(s.kind@) == "docker"@ {
        crate::unit::UnitKind::Docker
    } else {
        crate::unit::UnitKind::Process
    })
    &&& opt_text(u.cwd) == opt_text(s.cwd)
    &&& u.env@ == s.env@
    &&& u.install@.len() == 0
    &&& u.start@ == crate::text::join(string_views(s.command@), " "@)
    &&& u.stop matches crate::unit::StopBehavior::Signal(crate::unit::StopSignal::SigTerm)
    &&& u.logs is None
    &&& unit_health_of(s, u.health)
    &&& opt_text(u.description) == opt_text(s.description)
    &&& u.port == s.port
    &&& u.autostart == s.autostart
}

/// The dependency edges of services, in key order and then in the order
/// each service lists its dependencies.
pub open spec fn dep_edges(ks: Seq<Seq<char>>, vs: Seq<ServiceConfig>) -> Seq<(Seq<char>, Seq<char>)>
    decreases ks.len(),
{
    if ks.len() == 0 || vs.len() == 0 {
        Seq::empty()
    } else {
        dep_edges(ks.drop_last(), vs.drop_last()) + string_views(vs.last().depends_on@).map_values(
            |d: Seq<char>| (ks.last(), d),
        )
    }
}

fn unit_health(s: &ServiceConfig) -> (r: Option<crate::unit::HealthCheck>)
    ensures
        unit_health_of(*s, r),
{
    let port: u16 = match s.port {
        Some(p) => p,
        None => 8000,
    };
    match &s.health_check {
        None => None,
        Some(HealthCheck::Tcp { interval_ms }) => Some(
            crate::unit::HealthCheck::Tcp { port, interval_ms: *interval_ms },
        ),
        Some(HealthCheck::Http { path, interval_ms, timeout_ms }) => {
            let digits = crate::text::u64_to_string(port as u64);
            let mut url = owned("http://localhost:");
            crate::text::push_str(&mut url, digits.as_str());
            crate::text::push_str(&mut url, path.as_str());
            Some(
                crate::unit::HealthCheck::Http {
                    url,
                    interval_ms: *interval_ms,
                    timeout_ms: *timeout_ms,
                },
            )
        },
        Some(HealthCheck::Exec { command, interval_ms }) => Some(
            crate::unit::HealthCheck::Exec {
                command: crate::text::join_strings(command, " "),
                interval_ms: *interval_ms,
            },
        ),
    }
}

impl OrkesyConfig {
    /// One unit per service, in key order.
    pub fn to_units(&self) -> (r: Vec<crate::unit::Unit>)
        ensures
            r@.len() == self.services.keys().len(),
            forall|i: int|
                0 <= i < r@.len() ==> unit_of_service(
                    self.services.keys()[i],
                    self.services.vals()[i],
                    #[trigger] r@[i],
                ),
    {
        let n = self.services.len();
        let mut out: Vec<crate::unit::Unit> = Vec::new();
        let mut i: usize = 0;
        while i < n
            invariant
                i <= n,
                n == self.services.keys().len(),
                n == self.services.vals().len(),
                out@.len() == i,
                forall|k: int|
                    0 <= k < i ==> unit_of_service(
                        self.services.keys()[k],
                        self.services.vals()[k],
                        #[trigger] out@[k],
                    ),
            decreases n - i,
        {
            let id = self.services.key_at(i);
            let svc = self.services.value_at(i);
            let lowered = to_lower(svc.kind.as_str());
            let kind = if str_eq(lowered.as_str(), "docker") {
                crate::unit::UnitKind::Docker
            } else {
                crate::unit::UnitKind::Process
            };
            let env = svc.env.clone();
            proof {
                crate::strmap::lemma_cloned_strings_same(svc.env, env);
            }
            let unit = crate::unit::Unit {
                id: id.clone(),
                name: clone_opt_string(&svc.name),
                kind,
                cwd: clone_opt_string(&svc.cwd),
                env,
                install: Vec::new(),
                start: crate::text::join_strings(&svc.command, " "),
                stop: crate::unit::StopBehavior::Signal(crate::unit::StopSignal::SigTerm),
                logs: None,
                health: unit_health(svc),
                description: clone_opt_string(&svc.description),
                port: svc.port,
                autostart: svc.autostart,
            };
            out.push(unit);
            i = i + 1;
        }
        out
    }

    /// One `DependsOn` edge per dependency, services in key order.
    pub fn to_edges(&self) -> (r: Vec<crate::unit::UnitEdge>)
        ensures
            r@.map_values(|e: crate::unit::UnitEdge| (e.from@, e.to@)) == dep_edges(
                self.services.keys(),
                self.services.vals(),
            ),
            forall|i: int| 0 <= i < r@.len() ==> (#[trigger] r@[i]).kind == crate::unit::EdgeKind::DependsOn,
    {
        let n = self.services.len();
        let ghost ks = self.services.keys();
        let ghost vs = self.services.vals();
        let mut out: Vec<crate::unit::UnitEdge> = Vec::new();
        let mut i: usize = 0;
        proof {
            assert(ks.take(0).len() == 0);
            assert(out@.map_values(|e: crate::unit::UnitEdge| (e.from@, e.to@)) =~= dep_edges(
                ks.take(0),
                vs.take(0),
            ));
        }
        while i < n
            invariant
                i <= n,
                n == ks.len(),
                n == vs.len(),
                ks == self.services.keys(),
                vs == self.services.vals(),
                out@.map_values(|e: crate::unit::UnitEdge| (e.from@, e.to@)) == dep_edges(
                    ks.take(i as int),
                    vs.take(i as int),
                ),
                forall|k: int| 0 <= k < out@.len() ==> (#[trigger] out@[k]).kind == crate::unit::EdgeKind::DependsOn,
            decreases n - i,
        {
            let id = self.services.key_at(i);
            let svc = self.services.value_at(i);
            let ghost base = out@.map_values(|e: crate::unit::UnitEdge| (e.from@, e.to@));
            let ghost dv = string_views(svc.depends_on@);
            let mut j: usize = 0;
            while j < svc.depends_on.len()
                invariant
                    j <= svc.depends_on.len(),
                    dv == string_views(svc.depends_on@),
                    out@.map_values(|e: crate::unit::UnitEdge| (e.from@, e.to@)) == base
                        + dv.take(j as int).map_values(|d: Seq<char>| (id@, d)),
                    forall|k: int| 0 <= k < out@.len() ==> (#[trigger] out@[k]).kind == crate::unit::EdgeKind::DependsOn,
                decreases svc.depends_on.len() - j,
            {
                let ghost prev = out@.map_values(|e: crate::unit::UnitEdge| (e.from@, e.to@));
                out.push(
                    crate::unit::UnitEdge {
                        from: id.clone(),
                        to: svc.depends_on[j].clone(),
                        kind: crate::unit::EdgeKind::DependsOn,
                    },
                );
                proof {
                    assert(out@.map_values(|e: crate::unit::UnitEdge| (e.from@, e.to@)) =~= prev.push(
                        (id@, dv[j as int]),
                    ));
                    assert(dv.take(j + 1).map_values(|d: Seq<char>| (id@, d)) =~= dv.take(
                        j as int,
                    ).map_values(|d: Seq<char>| (id@, d)).push((id@, dv[j as int])));
                }
                j = j + 1;
            }
            proof {
                assert(dv.take(dv.len() as int) =~= dv);
                assert(ks.take(i + 1).drop_last() =~= ks.take(i as int));
                assert(vs.take(i + 1).drop_last() =~= vs.take(i as int));
                assert(ks.take(i + 1).last() == id@);
                assert(vs.take(i + 1).last() == *svc);
            }
            i = i + 1;
        }
        proof {
            assert(ks.take(n as int) =~= ks);
            assert(vs.take(n as int) =~= vs);
        }
        out
    }
}


// ---------------------------------------------------------------------------
// The canonical `units:` schema.
// ---------------------------------------------------------------------------

#[derive(Debug)]
pub struct ProjectMeta {
    pub name: Option<String>,
}

/// Persistent log history; off unless configured.
#[derive(Clone, Debug)]
pub struct LogHistoryConfig {
    pub enabled: bool,
    pub retention_days: u32,
    pub max_size_mb: Option<u64>,
}

impl Default for LogHistoryConfig {
    /// Off, kept seven days, no size limit.
    fn default() -> (r: Self)
        ensures
            !r.enabled,
            r.retention_days == 7,
            r.max_size_mb is None,
    {
        LogHistoryConfig { enabled: false, retention_days: 7, max_size_mb: None }
    }
}

#[derive(Debug)]
pub struct UnitsFile {
    pub version: Option<u32>,
    pub project: Option<ProjectMeta>,
    pub units: StrMap<crate::unit::Unit>,
    pub edges: Vec<crate::unit::UnitEdge>,
    pub log_history: LogHistoryConfig,
}

/// What the runtime works from, whichever schema it came from.
#[derive(Debug)]
pub struct Workspace {
    pub project_name: Option<String>,
    pub units: Vec<crate::unit::Unit>,
    pub edges: Vec<crate::unit::UnitEdge>,
    pub legacy: bool,
    pub log_history: LogHistoryConfig,
}

impl Default for Workspace {
    fn default() -> (r: Self)
        ensures
            r.project_name is None,
            r.units@.len() == 0,
            r.edges@.len() == 0,
            !r.legacy,
            !r.log_history.enabled && r.log_history.retention_days == 7 && r.log_history.max_size_mb is None,
    {
        Workspace {
            project_name: None,
            units: Vec::new(),
            edges: Vec::new(),
            legacy: false,
            log_history: LogHistoryConfig::default(),
        }
    }
}

/// The signal a text names, by its name or one of its aliases.
pub open spec fn signal_named(t: Seq<char>) -> Option<crate::unit::StopSignal> {
    if t == "SIGINT"@ || t == "sigint"@ || t == "INT"@ {
        Some(crate::unit::StopSignal::SigInt)
    } else if t == "SIGTERM"@ || t == "sigterm"@ || t == "TERM"@ {
        Some(crate::unit::StopSignal::SigTerm)
    } else if t == "SIGKILL"@ || t == "sigkill"@ || t == "KILL"@ {
        Some(crate::unit::StopSignal::SigKill)
    } else {
        None
    }
}

fn signal_exec(t: &str) -> (r: Option<crate::unit::StopSignal>)
    ensures
        r == signal_named(t@),
{
    if str_eq(t, "SIGINT") || str_eq(t, "sigint") || str_eq(t, "INT") {
        Some(crate::unit::StopSignal::SigInt)
    } else if str_eq(t, "SIGTERM") || str_eq(t, "sigterm") || str_eq(t, "TERM") {
        Some(crate::unit::StopSignal::SigTerm)
    } else if str_eq(t, "SIGKILL") || str_eq(t, "sigkill") || str_eq(t, "KILL") {
        Some(crate::unit::StopSignal::SigKill)
    } else {
        None
    }
}

/// The `stop` field: SIGINT when absent, a signal when the text names one,
/// else a command.
pub open spec fn stop_decodes(n: YamlNode, s: crate::unit::StopBehavior) -> bool {
    match field(n, "stop"@) {
        None => s matches crate::unit::StopBehavior::Signal(crate::unit::StopSignal::SigInt),
        Some(v) => match crate::yaml::str_of(v) {
            Some(t) => match signal_named(t) {
                Some(sig) => s == crate::unit::StopBehavior::Signal(sig),
                None => s matches crate::unit::StopBehavior::Command(c) && c@ == t,
            },
            None => false,
        },
    }
}

pub open spec fn stop_ok(n: YamlNode) -> bool {
    match field(n, "stop"@) {
        None => true,
        Some(v) => crate::yaml::str_of(v) is Some,
    }
}

/// The unit kind a text names (lowercase).
pub open spec fn unit_kind_named(t: Seq<char>) -> Option<crate::unit::UnitKind> {
    if t == "process"@ {
        Some(crate::unit::UnitKind::Process)
    } else if t == "docker"@ {
        Some(crate::unit::UnitKind::Docker)
    } else if t == "generic"@ {
        Some(crate::unit::UnitKind::Generic)
    } else {
        None
    }
}

/// The `kind` field: a process when absent.
pub open spec fn unit_kind_field(n: YamlNode) -> Option<crate::unit::UnitKind> {
    match field(n, "kind"@) {
        None => Some(crate::unit::UnitKind::Process),
        Some(v) => match crate::yaml::str_of(v) {
            Some(t) => unit_kind_named(t),
            None => None,
        },
    }
}

/// Whether `h` is what the unit health-check node `n` describes.
pub open spec fn unit_health_decodes(n: YamlNode, h: crate::unit::HealthCheck) -> bool {
    match h {
        crate::unit::HealthCheck::Tcp { port, interval_ms } => {
            &&& req_str_field(n, "type"@) == Some("tcp"@)
            &&& uint_field_or(n, "port"@, u16::MAX as nat, 8000) == Some(port as nat)
            &&& uint_field_or(n, "interval_ms"@, u64::MAX as nat, 5000) == Some(interval_ms as nat)
        },
        crate::unit::HealthCheck::Http { url, interval_ms, timeout_ms } => {
            &&& req_str_field(n, "type"@) == Some("http"@)
            &&& req_str_field(n, "url"@) == Some(url@)
            &&& uint_field_or(n, "interval_ms"@, u64::MAX as nat, 5000) == Some(interval_ms as nat)
            &&& uint_field_or(n, "timeout_ms"@, u64::MAX as nat, 2000) == Some(timeout_ms as nat)
        },
        crate::unit::HealthCheck::Exec { command, interval_ms } => {
            &&& req_str_field(n, "type"@) == Some("exec"@)
            &&& req_str_field(n, "command"@) == Some(command@)
            &&& uint_field_or(n, "interval_ms"@, u64::MAX as nat, 5000) == Some(interval_ms as nat)
        },
    }
}

pub open spec fn unit_health_ok(n: YamlNode) -> bool {
    &&& n is Mapping
    &&& match req_str_field(n, "type"@) {
        Some(t) => if t == "tcp"@ {
            &&& uint_field_or(n, "port"@, u16::MAX as nat, 8000) is Some
            &&& uint_field_or(n, "interval_ms"@, u64::MAX as nat, 5000) is Some
        } else if t == "http"@ {
            &&& req_str_field(n, "url"@) is Some
            &&& uint_field_or(n, "interval_ms"@, u64::MAX as nat, 5000) is Some
            &&& uint_field_or(n, "timeout_ms"@, u64::MAX as nat, 2000) is Some
        } else if t == "exec"@ {
            &&& req_str_field(n, "command"@) is Some
            &&& uint_field_or(n, "interval_ms"@, u64::MAX as nat, 5000) is Some
        } else {
            false
        },
        None => false,
    }
}

pub open spec fn unit_health_field_ok(n: YamlNode) -> bool {
    match field(n, "health"@) {
        None => true,
        Some(YamlNode::Null) => true,
        Some(v) => unit_health_ok(v),
    }
}

/// Whether the unit node `n` can be read.
pub open spec fn unit_ok(n: YamlNode) -> bool {
    &&& n is Mapping
    &&& opt_str_field(n, "name"@) is Some
    &&& unit_kind_field(n) is Some
    &&& opt_str_field(n, "cwd"@) is Some
    &&& str_map_field(n, "env"@) is Some
    &&& strs_field(n, "install"@) is Some
    &&& req_str_field(n, "start"@) is Some
    &&& stop_ok(n)
    &&& opt_str_field(n, "logs"@) is Some
    &&& unit_health_field_ok(n)
    &&& opt_str_field(n, "description"@) is Some
    &&& opt_uint_field(n, "port"@, u16::MAX as nat) is Some
    &&& bool_field_or(n, "autostart"@, false) is Some
}

/// Whether `u` is what the unit node `n` describes, with id `id`.
pub open spec fn unit_decodes(n: YamlNode, id: Seq<char>, u: crate::unit::Unit) -> bool {
    &&& u.id@ == id
    &&& opt_str_field(n, "name"@) == Some(opt_text(u.name))
    &&& unit_kind_field(n) == Some(u.kind)
    &&& opt_str_field(n, "cwd"@) == Some(opt_text(u.cwd))
    &&& str_map_field(n, "env"@) == Some(text_map(u.env@))
    &&& strs_field(n, "install"@) == Some(string_views(u.install@))
    &&& req_str_field(n, "start"@) == Some(u.start@)
    &&& stop_decodes(n, u.stop)
    &&& opt_str_field(n, "logs"@) == Some(opt_text(u.logs))
    &&& match u.health {
        None => field(n, "health"@) is None || field(n, "health"@) == Some(YamlNode::Null),
        Some(h) => field(n, "health"@) matches Some(v) && v !is Null && unit_health_decodes(v, h),
    }
    &&& opt_str_field(n, "description"@) == Some(opt_text(u.description))
    &&& opt_uint_field(n, "port"@, u16::MAX as nat) == Some(opt_u16(u.port))
    &&& bool_field_or(n, "autostart"@, false) == Some(u.autostart)
}

fn decode_unit_health(n: &YamlNode) -> (r: Result<crate::unit::HealthCheck, ()>)
    ensures
        match r {
            Ok(h) => unit_health_ok(*n) && unit_health_decodes(*n, h),
            Err(_) => !unit_health_ok(*n),
        },
{
    match n {
        YamlNode::Mapping(_) => {},
        _ => {
            return Err(());
        },
    }
    let t = match read_req_str(n, "type") {
        Ok(t) => t,
        Err(_) => {
            return Err(());
        },
    };
    if str_eq(t.as_str(), "tcp") {
        let port = match read_uint_or(n, "port", 65535, 8000) {
            Ok(x) => x as u16,
            Err(_) => {
                return Err(());
            },
        };
        let interval_ms = match read_uint_or(n, "interval_ms", u64::MAX, 5000) {
            Ok(x) => x,
            Err(_) => {
                return Err(());
            },
        };
        Ok(crate::unit::HealthCheck::Tcp { port, interval_ms })
    } else if str_eq(t.as_str(), "http") {
        let url = match read_req_str(n, "url") {
            Ok(x) => x,
            Err(_) => {
                return Err(());
            },
        };
        let interval_ms = match read_uint_or(n, "interval_ms", u64::MAX, 5000) {
            Ok(x) => x,
            Err(_) => {
                return Err(());
            },
        };
        let timeout_ms = match read_uint_or(n, "timeout_ms", u64::MAX, 2000) {
            Ok(x) => x,
            Err(_) => {
                return Err(());
            },
        };
        Ok(crate::unit::HealthCheck::Http { url, interval_ms, timeout_ms })
    } else if str_eq(t.as_str(), "exec") {
        let command = match read_req_str(n, "command") {
            Ok(x) => x,
            Err(_) => {
                return Err(());
            },
        };
        let interval_ms = match read_uint_or(n, "interval_ms", u64::MAX, 5000) {
            Ok(x) => x,
            Err(_) => {
                return Err(());
            },
        };
        Ok(crate::unit::HealthCheck::Exec { command, interval_ms })
    } else {
        Err(())
    }
}

fn decode_stop(n: &YamlNode) -> (r: Result<crate::unit::StopBehavior, ()>)
    ensures
        match r {
            Ok(s) => stop_ok(*n) && stop_decodes(*n, s),
            Err(_) => !stop_ok(*n),
        },
{
    match crate::yaml::get_field(n, "stop") {
        None => Ok(crate::unit::StopBehavior::Signal(crate::unit::StopSignal::SigInt)),
        Some(v) => match crate::yaml::as_string(v) {
            Some(t) => match signal_exec(t.as_str()) {
                Some(sig) => Ok(crate::unit::StopBehavior::Signal(sig)),
                None => Ok(crate::unit::StopBehavior::Command(t)),
            },
            None => Err(()),
        },
    }
}

fn decode_unit_kind(n: &YamlNode) -> (r: Result<crate::unit::UnitKind, ()>)
    ensures
        match r {
            Ok(k) => unit_kind_field(*n) == Some(k),
            Err(_) => unit_kind_field(*n) is None,
        },
{
    match crate::yaml::get_field(n, "kind") {
        None => Ok(crate::unit::UnitKind::Process),
        Some(v) => match crate::yaml::as_string(v) {
            Some(t) => {
                if str_eq(t.as_str(), "process") {
                    Ok(crate::unit::UnitKind::Process)
                } else if str_eq(t.as_str(), "docker") {
                    Ok(crate::unit::UnitKind::Docker)
                } else if str_eq(t.as_str(), "generic") {
                    Ok(crate::unit::UnitKind::Generic)
                } else {
                    Err(())
                }
            },
            None => Err(()),
        },
    }
}

/// Reads a unit; its id is the key it is declared under.
pub fn decode_unit(n: &YamlNode, id: &String) -> (r: Result<crate::unit::Unit, ()>)
    ensures
        match r {
            Ok(u) => unit_ok(*n) && unit_decodes(*n, id@, u),
            Err(_) => !unit_ok(*n),
        },
{
    match n {
        YamlNode::Mapping(_) => {},
        _ => {
            return Err(());
        },
    }
    let name = match read_opt_str(n, "name") {
        Ok(x) => x,
        Err(_) => {
            return Err(());
        },
    };
    let kind = match decode_unit_kind(n) {
        Ok(x) => x,
        Err(_) => {
            return Err(());
        },
    };
    let cwd = match read_opt_str(n, "cwd") {
        Ok(x) => x,
        Err(_) => {
            return Err(());
        },
    };
    let env = match read_str_map(n, "env") {
        Ok(x) => x,
        Err(_) => {
            return Err(());
        },
    };
    let install = match read_strs(n, "install") {
        Ok(x) => x,
        Err(_) => {
            return Err(());
        },
    };
    let start = match read_req_str(n, "start") {
        Ok(x) => x,
        Err(_) => {
            return Err(());
        },
    };
    let stop = match decode_stop(n) {
        Ok(x) => x,
        Err(_) => {
            return Err(());
        },
    };
    let logs = match read_opt_str(n, "logs") {
        Ok(x) => x,
        Err(_) => {
            return Err(());
        },
    };
    let health = match crate::yaml::get_field(n, "health") {
        None => None,
        Some(YamlNode::Null) => None,
        Some(v) => match decode_unit_health(v) {
            Ok(h) => Some(h),
            Err(_) => {
                return Err(());
            },
        },
    };
    let description = match read_opt_str(n, "description") {
        Ok(x) => x,
        Err(_) => {
            return Err(());
        },
    };
    let port: Option<u16> = match read_opt_uint(n, "port", 65535) {
        Ok(Some(x)) => Some(x as u16),
        Ok(None) => None,
        Err(_) => {
            return Err(());
        },
    };
    let autostart = match read_bool_or(n, "autostart", false) {
        Ok(x) => x,
        Err(_) => {
            return Err(());
        },
    };
    Ok(
        crate::unit::Unit {
            id: id.clone(),
            name,
            kind,
            cwd,
            env,
            install,
            start,
            stop,
            logs,
            health,
            description,
            port,
            autostart,
        },
    )
}


/// The edge kind a text names (snake_case).
pub open spec fn edge_kind_named(t: Seq<char>) -> Option<crate::unit::EdgeKind> {
    if t == "depends_on"@ {
        Some(crate::unit::EdgeKind::DependsOn)
    } else if t == "talks_to"@ {
        Some(crate::unit::EdgeKind::TalksTo)
    } else if t == "produces"@ {
        Some(crate::unit::EdgeKind::Produces)
    } else if t == "consumes"@ {
        Some(crate::unit::EdgeKind::Consumes)
    } else {
        None
    }
}

/// The `kind` of an edge: `depends_on` when absent.
pub open spec fn edge_kind_field(n: YamlNode) -> Option<crate::unit::EdgeKind> {
    match field(n, "kind"@) {
        None => Some(crate::unit::EdgeKind::DependsOn),
        Some(v) => match crate::yaml::str_of(v) {
            Some(t) => edge_kind_named(t),
            None => None,
        },
    }
}

pub open spec fn edge_ok(n: YamlNode) -> bool {
    &&& n is Mapping
    &&& req_str_field(n, "from"@) is Some
    &&& req_str_field(n, "to"@) is Some
    &&& edge_kind_field(n) is Some
}

pub open spec fn edge_decodes(n: YamlNode, e: crate::unit::UnitEdge) -> bool {
    &&& req_str_field(n, "from"@) == Some(e.from@)
    &&& req_str_field(n, "to"@) == Some(e.to@)
    &&& edge_kind_field(n) == Some(e.kind)
}

fn decode_edge(n: &YamlNode) -> (r: Result<crate::unit::UnitEdge, ()>)
    ensures
        match r {
            Ok(e) => edge_ok(*n) && edge_decodes(*n, e),
            Err(_) => !edge_ok(*n),
        },
{
    match n {
        YamlNode::Mapping(_) => {},
        _ => {
            return Err(());
        },
    }
    let from = match read_req_str(n, "from") {
        Ok(x) => x,
        Err(_) => {
            return Err(());
        },
    };
    let to = match read_req_str(n, "to") {
        Ok(x) => x,
        Err(_) => {
            return Err(());
        },
    };
    let kind = match crate::yaml::get_field(n, "kind") {
        None => crate::unit::EdgeKind::DependsOn,
        Some(v) => match crate::yaml::as_string(v) {
            Some(t) => {
                if str_eq(t.as_str(), "depends_on") {
                    crate::unit::EdgeKind::DependsOn
                } else if str_eq(t.as_str(), "talks_to") {
                    crate::unit::EdgeKind::TalksTo
                } else if str_eq(t.as_str(), "produces") {
                    crate::unit::EdgeKind::Produces
                } else if str_eq(t.as_str(), "consumes") {
                    crate::unit::EdgeKind::Consumes
                } else {
                    return Err(());
                }
            },
            None => {
                return Err(());
            },
        },
    };
    Ok(crate::unit::UnitEdge { from, to, kind })
}

/// The `project` field: absent or null for none, else a mapping with an
/// optional `name`.
pub open spec fn project_field(n: YamlNode) -> Option<Option<Option<Seq<char>>>> {
    match field(n, "project"@) {
        None => Some(None),
        Some(YamlNode::Null) => Some(None),
        Some(v) => if v is Mapping {
            match opt_str_field(v, "name"@) {
                Some(name) => Some(Some(name)),
                None => None,
            }
        } else {
            None
        },
    }
}

/// The `log_history` field: the defaults when absent.
pub open spec fn log_history_ok(n: YamlNode) -> bool {
    match field(n, "log_history"@) {
        None => true,
        Some(v) => {
            &&& v is Mapping
            &&& bool_field_or(v, "enabled"@, false) is Some
            &&& uint_field_or(v, "retention_days"@, u32::MAX as nat, 7) is Some
            &&& opt_uint_field(v, "max_size_mb"@, u64::MAX as nat) is Some
        },
    }
}

pub open spec fn log_history_decodes(n: YamlNode, l: LogHistoryConfig) -> bool {
    match field(n, "log_history"@) {
        None => !l.enabled && l.retention_days == 7 && l.max_size_mb is None,
        Some(v) => {
            &&& bool_field_or(v, "enabled"@, false) == Some(l.enabled)
            &&& uint_field_or(v, "retention_days"@, u32::MAX as nat, 7) == Some(l.retention_days as nat)
            &&& opt_uint_field(v, "max_size_mb"@, u64::MAX as nat) == Some(opt_u64(l.max_size_mb))
        },
    }
}

/// Every entry has a string key and a readable unit.
pub open spec fn unit_entries_ok(es: Seq<(YamlNode, YamlNode)>) -> bool {
    forall|i: int| 0 <= i < es.len() ==> crate::yaml::str_of((#[trigger] es[i]).0) is Some && unit_ok(es[i].1)
}

pub open spec fn units_field_ok(n: YamlNode) -> bool {
    match field(n, "units"@) {
        None => true,
        Some(YamlNode::Mapping(es)) => unit_entries_ok(es@),
        _ => false,
    }
}

pub open spec fn edges_field_ok(n: YamlNode) -> bool {
    match field(n, "edges"@) {
        None => true,
        Some(YamlNode::Sequence(items)) => forall|i: int| 0 <= i < items@.len() ==> edge_ok(#[trigger] items@[i]),
        _ => false,
    }
}

/// Whether the document `n` is a readable units file.
pub open spec fn units_file_ok(n: YamlNode) -> bool {
    &&& n is Mapping
    &&& opt_uint_field(n, "version"@, u32::MAX as nat) is Some
    &&& project_field(n) is Some
    &&& units_field_ok(n)
    &&& edges_field_ok(n)
    &&& log_history_ok(n)
}

/// Whether `f` is what the document `n` describes: one unit per key of
/// `units` (the last entry for a key wins), the edges in order.
pub open spec fn units_file_decodes(n: YamlNode, f: UnitsFile) -> bool {
    &&& opt_uint_field(n, "version"@, u32::MAX as nat) == Some(match f.version {
        Some(v) => Some(v as nat),
        None => None::<nat>,
    })
    &&& project_field(n) == Some(match f.project {
        Some(p) => Some(opt_text(p.name)),
        None => None::<Option<Seq<char>>>,
    })
    &&& match field(n, "units"@) {
        Some(YamlNode::Mapping(es)) => {
            &&& f.units@.dom() == entry_keys(es@)
            &&& forall|k: Seq<char>|
                #[trigger] f.units@.dom().contains(k) ==> unit_decodes(last_value(es@, k), k, f.units@[k])
        },
        _ => f.units@.dom() == Set::<Seq<char>>::empty(),
    }
    &&& match field(n, "edges"@) {
        Some(YamlNode::Sequence(items)) => f.edges@.len() == items@.len() && forall|i: int|
            0 <= i < items@.len() ==> edge_decodes(items@[i], #[trigger] f.edges@[i]),
        _ => f.edges@.len() == 0,
    }
    &&& log_history_decodes(n, f.log_history)
}

fn decode_units(es: &Vec<(YamlNode, YamlNode)>) -> (r: Result<StrMap<crate::unit::Unit>, ()>)
    ensures
        match r {
            Ok(m) => unit_entries_ok(es@) && m@.dom() == entry_keys(es@) && forall|k: Seq<char>|
                #[trigger] m@.dom().contains(k) ==> unit_decodes(last_value(es@, k), k, m@[k]),
            Err(_) => !unit_entries_ok(es@),
        },
{
    let mut units: StrMap<crate::unit::Unit> = StrMap::new();
    let mut i: usize = 0;
    proof {
        assert(entry_keys(es@.take(0)) =~= Set::<Seq<char>>::empty());
    }
    while i < es.len()
        invariant
            i <= es.len(),
            forall|j: int| 0 <= j < i ==> crate::yaml::str_of((#[trigger] es@[j]).0) is Some && unit_ok(es@[j].1),
            units@.dom() == entry_keys(es@.take(i as int)),
            forall|k: Seq<char>|
                #[trigger] units@.dom().contains(k) ==> unit_decodes(
                    last_value(es@.take(i as int), k),
                    k,
                    units@[k],
                ),
        decreases es.len() - i,
    {
        let ghost t0 = es@.take(i as int);
        let ghost t1 = es@.take(i + 1);
        proof {
            assert(t1.drop_last() =~= t0);
            assert(t1.last() == es@[i as int]);
        }
        let key = match crate::yaml::as_string(&es[i].0) {
            Some(s) => s,
            None => {
                return Err(());
            },
        };
        let unit = match decode_unit(&es[i].1, &key) {
            Ok(u) => u,
            Err(_) => {
                return Err(());
            },
        };
        let ghost kv = key@;
        let _ = units.insert(key, unit);
        proof {
            assert forall|k: Seq<char>| units@.dom().contains(k) <==> entry_keys(t1).contains(k) by {
                if entry_keys(t0).contains(k) {
                    let w = choose|w: int| 0 <= w < t0.len() && crate::yaml::key_is(#[trigger] t0[w].0, k);
                    assert(t1[w] == t0[w]);
                }
                if entry_keys(t1).contains(k) {
                    let w = choose|w: int| 0 <= w < t1.len() && crate::yaml::key_is(#[trigger] t1[w].0, k);
                    if w < i {
                        assert(t0[w] == t1[w]);
                    }
                }
                assert(crate::yaml::key_is(t1[i as int].0, kv));
            }
            assert(units@.dom() =~= entry_keys(t1));
            assert forall|k: Seq<char>| #[trigger] units@.dom().contains(k) implies unit_decodes(
                last_value(t1, k),
                k,
                units@[k],
            ) by {
                if k != kv {
                    assert(!crate::yaml::key_is(t1.last().0, k));
                    assert(last_value(t1, k) == last_value(t0, k));
                }
            }
        }
        i = i + 1;
    }
    proof {
        assert(es@.take(es.len() as int) =~= es@);
    }
    Ok(units)
}

fn decode_edges(items: &Vec<YamlNode>) -> (r: Result<Vec<crate::unit::UnitEdge>, ()>)
    ensures
        match r {
            Ok(v) => (forall|i: int| 0 <= i < items@.len() ==> edge_ok(#[trigger] items@[i]))
                && v@.len() == items@.len() && forall|i: int|
                0 <= i < items@.len() ==> edge_decodes(items@[i], #[trigger] v@[i]),
            Err(_) => !(forall|i: int| 0 <= i < items@.len() ==> edge_ok(#[trigger] items@[i])),
        },
{
    let mut out: Vec<crate::unit::UnitEdge> = Vec::new();
    let mut i: usize = 0;
    while i < items.len()
        invariant
            i <= items.len(),
            out@.len() == i,
            forall|k: int| 0 <= k < i ==> edge_ok(#[trigger] items@[k]),
            forall|k: int| 0 <= k < i ==> edge_decodes(items@[k], #[trigger] out@[k]),
        decreases items.len() - i,
    {
        match decode_edge(&items[i]) {
            Ok(e) => out.push(e),
            Err(_) => {
                return Err(());
            },
        }
        i = i + 1;
    }
    Ok(out)
}

fn decode_log_history(n: &YamlNode) -> (r: Result<LogHistoryConfig, ()>)
    ensures
        match r {
            Ok(l) => log_history_ok(*n) && log_history_decodes(*n, l),
            Err(_) => !log_history_ok(*n),
        },
{
    match crate::yaml::get_field(n, "log_history") {
        None => Ok(LogHistoryConfig::default()),
        Some(v) => {
            match v {
                YamlNode::Mapping(_) => {},
                _ => {
                    return Err(());
                },
            }
            let enabled = match read_bool_or(v, "enabled", false) {
                Ok(x) => x,
                Err(_) => {
                    return Err(());
                },
            };
            let retention_days = match read_uint_or(v, "retention_days", 4294967295, 7) {
                Ok(x) => x as u32,
                Err(_) => {
                    return Err(());
                },
            };
            let max_size_mb = match read_opt_uint(v, "max_size_mb", u64::MAX) {
                Ok(x) => x,
                Err(_) => {
                    return Err(());
                },
            };
            Ok(LogHistoryConfig { enabled, retention_days, max_size_mb })
        },
    }
}

/// Reads a units file.
pub fn decode_units_file(n: &YamlNode) -> (r: Result<UnitsFile, ()>)
    ensures
        match r {
            Ok(f) => units_file_ok(*n) && units_file_decodes(*n, f),
            Err(_) => !units_file_ok(*n),
        },
{
    match n {
        YamlNode::Mapping(_) => {},
        _ => {
            return Err(());
        },
    }
    let version: Option<u32> = match read_opt_uint(n, "version", 4294967295) {
        Ok(Some(x)) => Some(x as u32),
        Ok(None) => None,
        Err(_) => {
            return Err(());
        },
    };
    let project = match crate::yaml::get_field(n, "project") {
        None => None,
        Some(YamlNode::Null) => None,
        Some(v) => {
            match v {
                YamlNode::Mapping(_) => {},
                _ => {
                    return Err(());
                },
            }
            match read_opt_str(v, "name") {
                Ok(name) => Some(ProjectMeta { name }),
                Err(_) => {
                    return Err(());
                },
            }
        },
    };
    let units = match crate::yaml::get_field(n, "units") {
        None => {
            let m: StrMap<crate::unit::Unit> = StrMap::new();
            m
        },
        Some(YamlNode::Mapping(es)) => match decode_units(es) {
            Ok(m) => m,
            Err(_) => {
                return Err(());
            },
        },
        Some(_) => {
            return Err(());
        },
    };
    let edges = match crate::yaml::get_field(n, "edges") {
        None => Vec::new(),
        Some(YamlNode::Sequence(items)) => match decode_edges(items) {
            Ok(v) => v,
            Err(_) => {
                return Err(());
            },
        },
        Some(_) => {
            return Err(());
        },
    };
    let log_history = match decode_log_history(n) {
        Ok(l) => l,
        Err(_) => {
            return Err(());
        },
    };
    Ok(UnitsFile { version, project, units, edges, log_history })
}


/// The dependency graph of a units file: every unit, with the targets of
/// its `depends_on` edges in edge order.
pub open spec fn edges_adj(
    base: Map<Seq<char>, Seq<Seq<char>>>,
    es: Seq<crate::unit::UnitEdge>,
) -> Map<Seq<char>, Seq<Seq<char>>>
    decreases es.len(),
{
    if es.len() == 0 {
        base
    } else {
        let m = edges_adj(base, es.drop_last());
        let e = es.last();
        if e.kind == crate::unit::EdgeKind::DependsOn {
            m.insert(e.from@, succs(m, e.from@).push(e.to@))
        } else {
            m
        }
    }
}

pub open spec fn units_graph(f: UnitsFile) -> Map<Seq<char>, Seq<Seq<char>>> {
    edges_adj(
        Map::new(|k: Seq<char>| f.units@.dom().contains(k), |k: Seq<char>| Seq::<Seq<char>>::empty()),
        f.edges@,
    )
}

/// The unit at position `i` (in key order) has a blank start command.
pub open spec fn unit_fault(f: UnitsFile, i: int) -> bool {
    crate::text::trim(f.units.vals()[i].start@).len() == 0
}

/// Edge `j` names a unit that is not declared.
pub open spec fn edge_fault(f: UnitsFile, j: int) -> bool {
    !f.units@.dom().contains(f.edges@[j].from@) || !f.units@.dom().contains(f.edges@[j].to@)
}

/// What validating a units file finds: the first unit in key order with a
/// blank start command, else the first edge naming an undeclared unit
/// (its source if that is undeclared, else its target), else a dependency
/// cycle, else nothing.
pub open spec fn units_validate_result(f: UnitsFile, r: Result<(), ConfigError>) -> bool {
    let ks = f.units.keys();
    let units_ok = forall|i: int| 0 <= i < ks.len() ==> !unit_fault(f, i);
    let edges_ok = forall|j: int| 0 <= j < f.edges@.len() ==> !edge_fault(f, j);
    match r {
        Ok(_) => units_ok && edges_ok && acyclic(units_graph(f)),
        Err(ConfigError::MissingCommand { service }) => exists|i: int|
            0 <= i < ks.len() && unit_fault(f, i) && ks[i] == service@ && forall|k: int|
                0 <= k < i ==> !unit_fault(f, k),
        Err(ConfigError::UnknownUnit { referrer, referenced }) => units_ok && exists|j: int|
            0 <= j < f.edges@.len() && edge_fault(f, j) && (forall|k: int| 0 <= k < j ==> !edge_fault(f, k))
                && referrer@ == f.edges@[j].from@ && referenced@ == (if !f.units@.dom().contains(
                f.edges@[j].from@,
            ) {
                f.edges@[j].from@
            } else {
                f.edges@[j].to@
            }),
        Err(ConfigError::CyclicDependency { cycle }) => units_ok && edges_ok && is_cycle(
            units_graph(f),
            string_views(cycle@),
        ),
        _ => false,
    }
}

impl UnitsFile {
    /// Whether the `depends_on` edges form a cycle.  Every edge's source
    /// must be a unit.
    fn check_cycles(&self) -> (r: Result<(), ConfigError>)
        requires
            forall|j: int| 0 <= j < self.edges@.len() ==> self.units@.dom().contains(#[trigger] self.edges@[j].from@),
        ensures
            match r {
                Ok(_) => acyclic(units_graph(*self)),
                Err(ConfigError::CyclicDependency { cycle }) => is_cycle(
                    units_graph(*self),
                    string_views(cycle@),
                ),
                _ => false,
            },
    {
        let n = self.units.len();
        let ghost ks = self.units.keys();
        let ghost base = Map::new(
            |k: Seq<char>| self.units@.dom().contains(k),
            |k: Seq<char>| Seq::<Seq<char>>::empty(),
        );
        let mut adj: StrMap<Vec<String>> = StrMap::new();
        let mut ids: Vec<String> = Vec::new();
        let mut i: usize = 0;
        while i < n
            invariant
                i <= n,
                n == ks.len(),
                ks == self.units.keys(),
                string_views(ids@) == ks.take(i as int),
                adj@.dom() == ks.take(i as int).to_set(),
                forall|k: Seq<char>| #[trigger] adj@.dom().contains(k) ==> adj@[k]@.len() == 0,
            decreases n - i,
        {
            let id = self.units.key_at(i);
            let ghost ids0 = string_views(ids@);
            let _ = adj.insert(id.clone(), Vec::new());
            ids.push(id.clone());
            proof {
                let t0 = ks.take(i as int);
                let t1 = ks.take(i + 1);
                assert(string_views(ids@) =~= ids0.push(id@));
                assert(t1 =~= t0.push(ks[i as int]));
                assert forall|x: Seq<char>| adj@.dom().contains(x) <==> t1.to_set().contains(x) by {
                    if t0.contains(x) {
                        let w = choose|w: int| 0 <= w < t0.len() && t0[w] == x;
                        assert(t1[w] == x);
                    }
                    if t1.contains(x) {
                        let w = choose|w: int| 0 <= w < t1.len() && t1[w] == x;
                        if w < i {
                            assert(t0[w] == x);
                        }
                    }
                    assert(t1[i as int] == ks[i as int]);
                }
                assert(adj@.dom() =~= t1.to_set());
            }
            i = i + 1;
        }
        proof {
            assert(ks.take(n as int) =~= ks);
            assert forall|x: Seq<char>| adj@.dom().contains(x) <==> self.units@.dom().contains(x) by {
                if self.units@.dom().contains(x) {
                    let w = choose|w: int| 0 <= w < ks.len() && ks[w] == x;
                    assert(ks.contains(x));
                }
            }
            assert forall|k: Seq<char>| #[trigger] adj_view(adj@).dom().contains(k) implies adj_view(adj@)[k] == base[k] by {
                assert(adj@[k]@.len() == 0);
                assert(string_views(adj@[k]@) =~= Seq::<Seq<char>>::empty());
            }
            assert(adj_view(adj@) =~= base);
            assert(self.edges@.take(0) =~= Seq::<crate::unit::UnitEdge>::empty());
        }
        let mut j: usize = 0;
        while j < self.edges.len()
            invariant
                j <= self.edges.len(),
                adj_view(adj@) == edges_adj(base, self.edges@.take(j as int)),
                adj@.dom() == self.units@.dom(),
                forall|w: int| 0 <= w < self.edges@.len() ==> self.units@.dom().contains(#[trigger] self.edges@[w].from@),
            decreases self.edges.len() - j,
        {
            let e = &self.edges[j];
            proof {
                assert(self.edges@.take(j + 1).drop_last() =~= self.edges@.take(j as int));
                assert(self.edges@.take(j + 1).last() == *e);
            }
            if e.kind == crate::unit::EdgeKind::DependsOn {
                let ghost before = adj@;
                let mut targets = match adj.remove(e.from.as_str()) {
                    Some(v) => v,
                    None => Vec::new(),
                };
                let ghost t0 = string_views(targets@);
                targets.push(e.to.clone());
                proof {
                    assert(string_views(targets@) =~= t0.push(e.to@));
                }
                let _ = adj.insert(e.from.clone(), targets);
                proof {
                    assert(adj@ =~= before.insert(e.from@, targets));
                    assert(adj_view(adj@) =~= adj_view(before).insert(e.from@, string_views(targets@)));
                }
            }
            j = j + 1;
        }
        proof {
            assert(self.edges@.take(self.edges@.len() as int) =~= self.edges@);
            assert forall|k: Seq<char>| #[trigger] adj@.dom().contains(k) implies string_views(ids@).contains(k) by {
                let w = choose|w: int| 0 <= w < ks.len() && ks[w] == k;
                assert(string_views(ids@)[w] == k);
            }
        }
        match find_cycle(&adj, &ids) {
            None => Ok(()),
            Some(cycle) => Err(ConfigError::CyclicDependency { cycle }),
        }
    }

    /// Checks that every unit has a start command, that every edge names
    /// declared units, and that the dependencies form no cycle.
    pub fn validate(&self) -> (r: Result<(), ConfigError>)
        ensures
            units_validate_result(*self, r),
    {
        let n = self.units.len();
        let mut i: usize = 0;
        while i < n
            invariant
                i <= n,
                n == self.units.keys().len(),
                n == self.units.vals().len(),
                forall|k: int| 0 <= k < i ==> !unit_fault(*self, k),
            decreases n - i,
        {
            let unit = self.units.value_at(i);
            let trimmed = crate::text::str_trim(unit.start.as_str());
            if crate::text::chars_of(trimmed.as_str()).len() == 0 {
                return Err(ConfigError::MissingCommand { service: self.units.key_at(i).clone() });
            }
            i = i + 1;
        }
        let mut j: usize = 0;
        while j < self.edges.len()
            invariant
                j <= self.edges.len(),
                n == self.units.keys().len(),
                forall|k: int| 0 <= k < n ==> !unit_fault(*self, k),
                forall|k: int| 0 <= k < j ==> !edge_fault(*self, k),
            decreases self.edges.len() - j,
        {
            let e = &self.edges[j];
            if !self.units.contains_key(e.from.as_str()) {
                proof {
                    assert(edge_fault(*self, j as int));
                }
                return Err(ConfigError::UnknownUnit { referrer: e.from.clone(), referenced: e.from.clone() });
            }
            if !self.units.contains_key(e.to.as_str()) {
                proof {
                    assert(edge_fault(*self, j as int));
                    assert(self.units@.dom().contains(self.edges@[j as int].from@));
                }
                return Err(ConfigError::UnknownUnit { referrer: e.from.clone(), referenced: e.to.clone() });
            }
            j = j + 1;
        }
        proof {
            assert forall|w: int| 0 <= w < self.edges@.len() implies self.units@.dom().contains(
                #[trigger] self.edges@[w].from@,
            ) by {
                assert(!edge_fault(*self, w));
            }
        }
        self.check_cycles()
    }

    /// Reads a units file from YAML text and validates it.
    ///
    /// Text that is not YAML gives `serde_yaml`'s own message.  A document
    /// that is YAML but does not have a units file's shape gives one fixed
    /// message, which names neither the field nor the type at fault.
    pub fn parse(content: &str) -> (r: Result<Self, ConfigError>)
        ensures
            units_parse_outcome(content@, r),
    {
        let doc = match crate::yaml::parse_yaml(content) {
            Ok(d) => d,
            Err(e) => {
                return Err(ConfigError::Yaml(crate::yaml::yaml_error_text(&e)));
            },
        };
        let file = match decode_units_file(&doc) {
            Ok(f) => f,
            Err(_) => {
                return Err(ConfigError::Yaml(owned("the document does not follow the `units:` schema")));
            },
        };
        match file.validate() {
            Ok(_) => Ok(file),
            Err(e) => Err(e),
        }
    }

    /// The workspace a units file describes: its project's name, its units
    /// in key order, its edges and log history.
    pub fn into_workspace(self) -> (r: Workspace)
        ensures
            opt_text(r.project_name) == (match self.project {
                Some(p) => opt_text(p.name),
                None => None,
            }),
            r.units@ == self.units.vals(),
            r.edges@ == self.edges@,
            !r.legacy,
            r.log_history == self.log_history,
    {
        let UnitsFile { version, project, units, edges, log_history } = self;
        let project_name = match project {
            Some(p) => p.name,
            None => None,
        };
        Workspace { project_name, units: units.into_values(), edges, legacy: false, log_history }
    }
}

/// What reading and validating a units file gives.
pub open spec fn units_parse_outcome(text: Seq<char>, r: Result<UnitsFile, ConfigError>) -> bool {
    match crate::yaml::yaml_document(text) {
        None => r matches Err(ConfigError::Yaml(_)),
        Some(doc) => if !units_file_ok(doc) {
            r matches Err(ConfigError::Yaml(_))
        } else {
            match r {
                Ok(f) => units_file_decodes(doc, f) && units_validate_result(f, Ok(())),
                Err(ConfigError::Yaml(_)) => false,
                Err(e) => exists|f: UnitsFile| units_file_decodes(doc, f) && units_validate_result(f, Err(e)),
            }
        },
    }
}

/// What `parse_workspace` gives for a document: the units schema when the
/// top-level mapping has `units`, else the legacy schema when it has
/// `services`, else an unknown-schema error.
pub open spec fn workspace_outcome(text: Seq<char>, r: Result<Workspace, ConfigError>) -> bool {
    match crate::yaml::yaml_document(text) {
        None => r matches Err(ConfigError::Yaml(_)),
        Some(doc) => if !(doc is Mapping) {
            r matches Err(ConfigError::UnknownSchema { hint }) && hint@ == "expected a top-level mapping"@
        } else if field(doc, "units"@) is Some {
            match r {
                Ok(ws) => exists|f: UnitsFile|
                    units_parse_outcome(text, Ok(f)) && !ws.legacy && ws.units@ == f.units.vals()
                        && ws.edges@ == f.edges@ && opt_text(ws.project_name) == (match f.project {
                        Some(p) => opt_text(p.name),
                        None => None,
                    }) && ws.log_history == f.log_history,
                Err(e) => units_parse_outcome(text, Err(e)),
            }
        } else if field(doc, "services"@) is Some {
            match r {
                Ok(ws) => exists|c: OrkesyConfig|
                    parse_outcome(text, Ok(c)) && ws.legacy && opt_text(ws.project_name) == opt_text(
                        c.name,
                    ) && ws.units@.len() == c.services.keys().len() && (forall|i: int|
                        0 <= i < ws.units@.len() ==> unit_of_service(
                            c.services.keys()[i],
                            c.services.vals()[i],
                            #[trigger] ws.units@[i],
                        )) && ws.edges@.map_values(|e: crate::unit::UnitEdge| (e.from@, e.to@))
                        == dep_edges(c.services.keys(), c.services.vals()) && (forall|i: int|
                        0 <= i < ws.edges@.len() ==> (#[trigger] ws.edges@[i]).kind
                            == crate::unit::EdgeKind::DependsOn) && !ws.log_history.enabled
                        && ws.log_history.retention_days == 7 && ws.log_history.max_size_mb is None,
                Err(e) => parse_outcome(text, Err(e)),
            }
        } else {
            r matches Err(ConfigError::UnknownSchema { hint }) && hint@
                == "expected a top-level `units:` map (run `orkesy init` to generate one)"@
        },
    }
}

/// Reads a workspace from YAML text in either schema.
pub fn parse_workspace(content: &str) -> (r: Result<Workspace, ConfigError>)
    ensures
        workspace_outcome(content@, r),
{
    let top = match crate::yaml::parse_yaml(content) {
        Ok(d) => d,
        Err(e) => {
            return Err(ConfigError::Yaml(crate::yaml::yaml_error_text(&e)));
        },
    };
    match &top {
        YamlNode::Mapping(_) => {},
        _ => {
            return Err(ConfigError::UnknownSchema { hint: owned("expected a top-level mapping") });
        },
    }
    let has_units = crate::yaml::get_field(&top, "units").is_some();
    let has_services = crate::yaml::get_field(&top, "services").is_some();
    if has_units {
        return match UnitsFile::parse(content) {
            Ok(file) => Ok(file.into_workspace()),
            Err(e) => Err(e),
        };
    }
    if has_services {
        return match OrkesyConfig::parse(content) {
            Ok(legacy) => Ok(
                Workspace {
                    project_name: clone_opt_string(&legacy.name),
                    units: legacy.to_units(),
                    edges: legacy.to_edges(),
                    legacy: true,
                    log_history: LogHistoryConfig::default(),
                },
            ),
            Err(e) => Err(e),
        };
    }
    Err(
        ConfigError::UnknownSchema {
            hint: owned("expected a top-level `units:` map (run `orkesy init` to generate one)"),
        },
    )
}


/// The message shown for a configuration error.
pub open spec fn error_text(e: ConfigError) -> Seq<char> {
    match e {
        ConfigError::Io(m) => "I/O error reading config: "@ + m@,
        ConfigError::Yaml(m) => "YAML parse error: "@ + m@,
        ConfigError::UnknownUnit { referrer, referenced } => "edge from '"@ + referrer@
            + "' references undeclared unit '"@ + referenced@
            + "' (add it under `units:` or remove the edge)"@,
        ConfigError::InvalidDependency { service, dependency } => "unit '"@ + service@
            + "' depends on undeclared unit '"@ + dependency@
            + "' (add it under `units:` or remove the dependency)"@,
        ConfigError::MissingCommand { service } => "unit '"@ + service@
            + "' has no `start` command — every unit must declare how to start"@,
        ConfigError::CyclicDependency { cycle } => "cyclic dependency: "@ + crate::text::join(
            string_views(cycle@),
            " → "@,
        ) + " (edges form a loop; break one of them)"@,
        ConfigError::NotFound { searched } => "no orkesy.yml found. Searched:\n"@ + crate::text::join(
            string_views(searched@).map_values(|p: Seq<char>| "  - "@ + p),
            "\n"@,
        ) + "\n(run `orkesy init` to generate one)"@,
        ConfigError::UnknownSchema { hint } =>
            "config file has neither `units:` nor `services:` at the top level: "@ + hint@,
    }
}

impl ConfigError {
    /// The message shown for the error.
    pub fn message(&self) -> (r: String)
        ensures
            r@ == error_text(*self),
    {
        match self {
            ConfigError::Io(m) => crate::text::concat2("I/O error reading config: ", m.as_str()),
            ConfigError::Yaml(m) => crate::text::concat2("YAML parse error: ", m.as_str()),
            ConfigError::UnknownUnit { referrer, referenced } => {
                let mut s = crate::text::concat3("edge from '", referrer.as_str(), "' references undeclared unit '");
                crate::text::push_str(&mut s, referenced.as_str());
                crate::text::push_str(&mut s, "' (add it under `units:` or remove the edge)");
                s
            },
            ConfigError::InvalidDependency { service, dependency } => {
                let mut s = crate::text::concat3("unit '", service.as_str(), "' depends on undeclared unit '");
                crate::text::push_str(&mut s, dependency.as_str());
                crate::text::push_str(&mut s, "' (add it under `units:` or remove the dependency)");
                s
            },
            ConfigError::MissingCommand { service } => crate::text::concat3(
                "unit '",
                service.as_str(),
                "' has no `start` command — every unit must declare how to start",
            ),
            ConfigError::CyclicDependency { cycle } => {
                let j = crate::text::join_strings(cycle, " → ");
                crate::text::concat3("cyclic dependency: ", j.as_str(), " (edges form a loop; break one of them)")
            },
            ConfigError::NotFound { searched } => {
                let mut lines: Vec<String> = Vec::new();
                let mut i: usize = 0;
                while i < searched.len()
                    invariant
                        i <= searched.len(),
                        string_views(lines@) == string_views(searched@).take(i as int).map_values(
                            |p: Seq<char>| "  - "@ + p,
                        ),
                    decreases searched.len() - i,
                {
                    let ghost prev = string_views(lines@);
                    lines.push(crate::text::concat2("  - ", searched[i].as_str()));
                    proof {
                        assert(string_views(lines@) =~= prev.push("  - "@ + searched@[i as int]@));
                        assert(string_views(searched@).take(i + 1).map_values(|p: Seq<char>| "  - "@ + p)
                            =~= string_views(searched@).take(i as int).map_values(
                            |p: Seq<char>| "  - "@ + p,
                        ).push("  - "@ + searched@[i as int]@));
                    }
                    i = i + 1;
                }
                proof {
                    assert(string_views(searched@).take(searched.len() as int) =~= string_views(searched@));
                }
                let j = crate::text::join_strings(&lines, "\n");
                crate::text::concat3("no orkesy.yml found. Searched:\n", j.as_str(), "\n(run `orkesy init` to generate one)")
            },
            ConfigError::UnknownSchema { hint } => crate::text::concat2(
                "config file has neither `units:` nor `services:` at the top level: ",
                hint.as_str(),
            ),
        }
    }
}


/// The file names a configuration may have, in the order they are tried.
pub open spec fn config_names(legacy: bool) -> Seq<Seq<char>> {
    if legacy {
        seq!["orkesy.yaml"@, "orkesy.yml"@, ".orkesy.yaml"@, ".orkesy.yml"@]
    } else {
        seq!["orkesy.yml"@, "orkesy.yaml"@, ".orkesy.yml"@, ".orkesy.yaml"@]
    }
}

/// Every name joined to each directory, directory by directory.
pub open spec fn paths_in(dirs: Seq<Seq<char>>, names: Seq<Seq<char>>) -> Seq<Seq<char>>
    decreases dirs.len(),
{
    if dirs.len() == 0 {
        seq![]
    } else {
        paths_in(dirs.drop_last(), names) + names.map_values(|n: Seq<char>| crate::text::path_join(dirs.last(), n))
    }
}

/// Where a configuration is looked for, in order: the file named by the
/// environment, then each name in each directory from the start directory up
/// to the root (`dirs`).  `legacy` selects the name order of the single-file
/// schema's discovery.
pub open spec fn search_order(env_path: Option<Seq<char>>, dirs: Seq<Seq<char>>, legacy: bool) -> Seq<Seq<char>> {
    let first = match env_path {
        Some(p) => seq![p],
        None => Seq::empty(),
    };
    first + paths_in(dirs, config_names(legacy))
}

fn names_list(legacy: bool) -> (r: Vec<&'static str>)
    ensures
        r@.map_values(|n: &str| n@) == config_names(legacy),
{
    let v = if legacy {
        vec!["orkesy.yaml", "orkesy.yml", ".orkesy.yaml", ".orkesy.yml"]
    } else {
        vec!["orkesy.yml", "orkesy.yaml", ".orkesy.yml", ".orkesy.yaml"]
    };
    assert(v@.map_values(|n: &str| n@) =~= config_names(legacy));
    v
}

/// The paths a configuration is looked for at, in the order `search_order`
/// gives.
pub fn search_paths(env_path: Option<&str>, dirs: &[String], legacy: bool) -> (r: Vec<String>)
    ensures
        string_views(r@) == search_order(
            match env_path {
                Some(p) => Some(p@),
                None => None,
            },
            string_views(dirs@),
            legacy,
        ),
{
    let names = names_list(legacy);
    let ghost nv = names@.map_values(|n: &str| n@);
    let mut out: Vec<String> = Vec::new();
    let ghost first: Seq<Seq<char>> = match env_path {
        Some(p) => seq![p@],
        None => Seq::empty(),
    };
    match env_path {
        Some(p) => {
            out.push(owned(p));
        },
        None => {},
    }
    proof {
        assert(string_views(out@) =~= first);
        assert(string_views(dirs@).take(0) =~= Seq::<Seq<char>>::empty());
        assert(first + paths_in(Seq::empty(), nv) =~= first);
        assert(config_names(legacy).len() == 4);
        assert(names@.len() == nv.len());
    }
    let mut d: usize = 0;
    while d < dirs.len()
        invariant
            d <= dirs@.len(),
            names@.len() == 4,
            nv == names@.map_values(|n: &str| n@),
            nv == config_names(legacy),
            string_views(out@) == first + paths_in(string_views(dirs@).take(d as int), nv),
        decreases dirs@.len() - d,
    {
        let ghost base = out@;
        let mut k: usize = 0;
        while k < names.len()
            invariant
                d < dirs@.len(),
                k <= names@.len(),
                names@.len() == 4,
                nv == names@.map_values(|n: &str| n@),
                string_views(out@) == string_views(base) + nv.take(k as int).map_values(
                    |n: Seq<char>| crate::text::path_join(dirs@[d as int]@, n),
                ),
            decreases names@.len() - k,
        {
            let ghost before = out@;
            let p = join_path(dirs[d].as_str(), names[k]);
            out.push(p);
            proof {
                assert(string_views(out@) =~= string_views(before).push(p@));
                assert(nv.take(k + 1).map_values(|n: Seq<char>| crate::text::path_join(dirs@[d as int]@, n))
                    =~= nv.take(k as int).map_values(|n: Seq<char>| crate::text::path_join(dirs@[d as int]@, n)).push(
                    crate::text::path_join(dirs@[d as int]@, nv[k as int]),
                ));
            }
            k = k + 1;
        }
        proof {
            let ds = string_views(dirs@);
            assert(nv.take(4) =~= nv);
            assert(ds.take(d + 1).drop_last() =~= ds.take(d as int));
            assert(ds.take(d + 1).last() == dirs@[d as int]@);
            assert(string_views(out@) =~= first + paths_in(ds.take(d + 1), nv));
        }
        d = d + 1;
    }
    proof {
        assert(string_views(dirs@).take(d as int) =~= string_views(dirs@));
    }
    out
}

} // verus!
