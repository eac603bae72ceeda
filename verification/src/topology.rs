//! The runtime graph the terminal UI shows: built from the units of a
//! workspace, or the demo topology when there is no configuration.
use vstd::prelude::*;

use crate::log_filter::opt_view;
use crate::model::{
    DesiredState, Edge, EdgeKind, EdgeSet, EdgeView, HealthStatus, ObservedState, RuntimeGraph, ServiceKind,
    ServiceNode, ServiceStatus,
};
use crate::strmap::StrMap;
use crate::text::{clone_opt_string, owned, seq_contains, str_contains, to_lower, unicode_lower};
use crate::unit::{unit_display_name, Unit, UnitEdge, UnitHealth, UnitKind, UnitStatus};

verus! {

/// The kind of service a unit is shown as, guessed from its lowercased id:
/// a process by words like `api`, `worker`, `db`, a Docker unit by the
/// usual images' names.
pub open spec fn guessed_kind(kind: UnitKind, l: Seq<char>) -> ServiceKind {
    match kind {
        UnitKind::Process => if seq_contains(l, "api"@) || seq_contains(l, "server"@) {
            ServiceKind::HttpApi
        } else if seq_contains(l, "worker"@) || seq_contains(l, "celery"@) {
            ServiceKind::Worker
        } else if seq_contains(l, "db"@) || seq_contains(l, "postgres"@) || seq_contains(l, "mysql"@) {
            ServiceKind::Database
        } else if seq_contains(l, "redis"@) || seq_contains(l, "cache"@) {
            ServiceKind::Cache
        } else if seq_contains(l, "web"@) || seq_contains(l, "frontend"@) {
            ServiceKind::Frontend
        } else {
            ServiceKind::Generic
        },
        UnitKind::Docker => if seq_contains(l, "db"@) || seq_contains(l, "postgres"@) || seq_contains(l, "mysql"@) {
            ServiceKind::Database
        } else if seq_contains(l, "redis"@) {
            ServiceKind::Cache
        } else if seq_contains(l, "rabbit"@) || seq_contains(l, "kafka"@) {
            ServiceKind::Queue
        } else {
            ServiceKind::Generic
        },
        UnitKind::Generic => ServiceKind::Generic,
    }
}

/// The kind of service a unit is shown as.
pub fn unit_service_kind(unit: &Unit) -> (r: ServiceKind)
    ensures
        r == guessed_kind(unit.kind, unicode_lower(unit.id@)),
{
    let lower = to_lower(unit.id.as_str());
    let l = lower.as_str();
    match unit.kind {
        UnitKind::Process => {
            if str_contains(l, "api") || str_contains(l, "server") {
                ServiceKind::HttpApi
            } else if str_contains(l, "worker") || str_contains(l, "celery") {
                ServiceKind::Worker
            } else if str_contains(l, "db") || str_contains(l, "postgres") || str_contains(l, "mysql") {
                ServiceKind::Database
            } else if str_contains(l, "redis") || str_contains(l, "cache") {
                ServiceKind::Cache
            } else if str_contains(l, "web") || str_contains(l, "frontend") {
                ServiceKind::Frontend
            } else {
                ServiceKind::Generic
            }
        },
        UnitKind::Docker => {
            if str_contains(l, "db") || str_contains(l, "postgres") || str_contains(l, "mysql") {
                ServiceKind::Database
            } else if str_contains(l, "redis") {
                ServiceKind::Cache
            } else if str_contains(l, "rabbit") || str_contains(l, "kafka") {
                ServiceKind::Queue
            } else {
                ServiceKind::Generic
            }
        },
        UnitKind::Generic => ServiceKind::Generic,
    }
}

/// `n` is the node a unit is shown as: stopped, of unknown health, wanted
/// stopped until the runtime reports otherwise.
pub open spec fn unit_node(u: Unit, n: ServiceNode) -> bool {
    &&& n.id@ == u.id@
    &&& n.display_name@ == unit_display_name(u)
    &&& n.kind == guessed_kind(u.kind, unicode_lower(u.id@))
    &&& n.desired == DesiredState::Stopped
    &&& n.observed.instance_id is None
    &&& n.observed.status is Stopped
    &&& n.observed.health is Unknown
    &&& n.port == u.port
    &&& opt_view(n.description) == opt_view(u.description)
}

/// The last of the units with id `k` (when a unit id repeats, the last
/// one wins).
pub open spec fn last_unit_with(us: Seq<Unit>, k: Seq<char>) -> Unit
    decreases us.len(),
{
    if us.len() == 0 {
        arbitrary()
    } else if us.last().id@ == k {
        us.last()
    } else {
        last_unit_with(us.drop_last(), k)
    }
}

pub open spec fn unit_ids(us: Seq<Unit>) -> Set<Seq<char>> {
    us.map_values(|u: Unit| u.id@).to_set()
}

pub open spec fn model_edge_kind(k: crate::unit::EdgeKind) -> EdgeKind {
    match k {
        crate::unit::EdgeKind::DependsOn => EdgeKind::DependsOn,
        crate::unit::EdgeKind::TalksTo => EdgeKind::TalksTo,
        crate::unit::EdgeKind::Produces => EdgeKind::Produces,
        crate::unit::EdgeKind::Consumes => EdgeKind::Consumes,
    }
}

/// The graph's edges for the units' edges.
pub open spec fn unit_edge_views(es: Seq<UnitEdge>) -> Set<EdgeView> {
    es.map_values(|e: UnitEdge| (e.from@, e.to@, model_edge_kind(e.kind))).to_set()
}

fn node_for(unit: &Unit) -> (n: ServiceNode)
    ensures
        unit_node(*unit, n),
{
    ServiceNode {
        id: unit.id.clone(),
        display_name: owned(unit.display_name()),
        kind: unit_service_kind(unit),
        desired: DesiredState::Stopped,
        observed: ObservedState { instance_id: None, status: ServiceStatus::Stopped, health: HealthStatus::Unknown },
        port: unit.port,
        description: clone_opt_string(&unit.description),
    }
}

fn edge_for(e: &UnitEdge) -> (r: Edge)
    ensures
        (r.from@, r.to@, r.kind) == (e.from@, e.to@, model_edge_kind(e.kind)),
{
    Edge {
        from: e.from.clone(),
        to: e.to.clone(),
        kind: match e.kind {
            crate::unit::EdgeKind::DependsOn => EdgeKind::DependsOn,
            crate::unit::EdgeKind::TalksTo => EdgeKind::TalksTo,
            crate::unit::EdgeKind::Produces => EdgeKind::Produces,
            crate::unit::EdgeKind::Consumes => EdgeKind::Consumes,
        },
    }
}

/// The runtime graph of a workspace's units: one node per unit id, as
/// `unit_node` says, and one edge per unit edge.
pub fn units_to_graph(units: &[Unit], edges: &[UnitEdge]) -> (r: RuntimeGraph)
    ensures
        r.nodes@.dom() == unit_ids(units@),
        forall|k: Seq<char>| #[trigger] r.nodes@.dom().contains(k) ==> unit_node(last_unit_with(units@, k), r.nodes@[k]),
        r.edges@ == unit_edge_views(edges@),
{
    let mut nodes: StrMap<ServiceNode> = StrMap::new();
    let mut i: usize = 0;
    while i < units.len()
        invariant
            i <= units.len(),
            nodes@.dom() == unit_ids(units@.take(i as int)),
            forall|k: Seq<char>| #[trigger] nodes@.dom().contains(k) ==> unit_node(last_unit_with(units@.take(i as int), k), nodes@[k]),
        decreases units.len() - i,
    {
        let u = &units[i];
        let node = node_for(u);
        let _ = nodes.insert(u.id.clone(), node);
        let ghost t0 = units@.take(i as int);
        let ghost t1 = units@.take(i + 1);
        proof {
            assert(t1.drop_last() =~= t0);
            assert(t1.last() == units@[i as int]);
            assert(t1.map_values(|u: Unit| u.id@) =~= t0.map_values(|u: Unit| u.id@).push(units@[i as int].id@));
            assert(unit_ids(t1) =~= unit_ids(t0).insert(units@[i as int].id@)) by {
                let a = t0.map_values(|u: Unit| u.id@);
                let x = units@[i as int].id@;
                assert forall|y: Seq<char>| a.push(x).to_set().contains(y) <==> a.to_set().insert(x).contains(y) by {
                    if a.push(x).contains(y) {
                        let w = choose|w: int| 0 <= w < a.push(x).len() && a.push(x)[w] == y;
                        if w < a.len() {
                            assert(a[w] == y);
                        }
                    }
                    if a.contains(y) {
                        let w = choose|w: int| 0 <= w < a.len() && a[w] == y;
                        assert(a.push(x)[w] == y);
                    }
                    if y == x {
                        assert(a.push(x)[a.len() as int] == x);
                    }
                }
            }
        }
        i = i + 1;
    }
    assert(units@.take(units.len() as int) =~= units@);
    let mut set = EdgeSet::new();
    let mut j: usize = 0;
    while j < edges.len()
        invariant
            j <= edges.len(),
            set@ == unit_edge_views(edges@.take(j as int)),
        decreases edges.len() - j,
    {
        let e = edge_for(&edges[j]);
        let _ = set.insert(e);
        let ghost f = |x: UnitEdge| (x.from@, x.to@, model_edge_kind(x.kind));
        proof {
            let a = edges@.take(j as int).map_values(f);
            let x = f(edges@[j as int]);
            assert(edges@.take(j + 1).map_values(f) =~= a.push(x));
            assert forall|y: EdgeView| a.push(x).to_set().contains(y) <==> a.to_set().insert(x).contains(y) by {
                if a.push(x).contains(y) {
                    let w = choose|w: int| 0 <= w < a.push(x).len() && a.push(x)[w] == y;
                    if w < a.len() {
                        assert(a[w] == y);
                    }
                }
                if a.contains(y) {
                    let w = choose|w: int| 0 <= w < a.len() && a[w] == y;
                    assert(a.push(x)[w] == y);
                }
                if y == x {
                    assert(a.push(x)[a.len() as int] == x);
                }
            }
            assert(a.push(x).to_set() =~= a.to_set().insert(x));
        }
        j = j + 1;
    }
    assert(edges@.take(edges.len() as int) =~= edges@);
    RuntimeGraph { nodes, edges: set }
}

/// `n` is a demo node: named by its id, wanted running, stopped for now.
pub open spec fn demo_node(n: ServiceNode, id: Seq<char>, kind: ServiceKind, port: Option<u16>) -> bool {
    &&& n.id@ == id
    &&& n.display_name@ == id
    &&& n.kind == kind
    &&& n.desired == DesiredState::Running
    &&& n.observed.instance_id is None
    &&& n.observed.status is Stopped
    &&& n.observed.health is Unknown
    &&& n.port == port
    &&& n.description is None
}

fn demo_node_for(id: &str, kind: ServiceKind, port: Option<u16>) -> (n: ServiceNode)
    ensures
        demo_node(n, id@, kind, port),
{
    ServiceNode {
        id: owned(id),
        display_name: owned(id),
        kind,
        desired: DesiredState::Running,
        observed: ObservedState { instance_id: None, status: ServiceStatus::Stopped, health: HealthStatus::Unknown },
        port,
        description: None,
    }
}

/// The demo topology: an API on port 8000 and a worker, both depending on
/// a Postgres database on port 5432; all wanted running.
pub fn demo_graph() -> (r: RuntimeGraph)
    ensures
        r.nodes@.dom() == set!["api"@, "worker"@, "postgres"@],
        demo_node(r.nodes@["api"@], "api"@, ServiceKind::HttpApi, Some(8000u16)),
        demo_node(r.nodes@["worker"@], "worker"@, ServiceKind::Worker, None),
        demo_node(r.nodes@["postgres"@], "postgres"@, ServiceKind::Database, Some(5432u16)),
        r.edges@ == set![
            ("api"@, "postgres"@, EdgeKind::DependsOn),
            ("worker"@, "postgres"@, EdgeKind::DependsOn),
        ],
{
    proof {
        reveal_strlit("api");
        reveal_strlit("worker");
        reveal_strlit("postgres");
        assert("api"@.len() == 3 && "worker"@.len() == 6 && "postgres"@.len() == 8);
    }
    let mut nodes: StrMap<ServiceNode> = StrMap::new();
    let api = demo_node_for("api", ServiceKind::HttpApi, Some(8000));
    let worker = demo_node_for("worker", ServiceKind::Worker, None);
    let postgres = demo_node_for("postgres", ServiceKind::Database, Some(5432));
    let ghost (a, w, p) = (api, worker, postgres);
    let _ = nodes.insert(owned("api"), api);
    let _ = nodes.insert(owned("worker"), worker);
    let _ = nodes.insert(owned("postgres"), postgres);
    assert(nodes@["api"@] == a && nodes@["worker"@] == w && nodes@["postgres"@] == p);
    let mut edges = EdgeSet::new();
    let _ = edges.insert(Edge { from: owned("api"), to: owned("postgres"), kind: EdgeKind::DependsOn });
    let _ = edges.insert(Edge { from: owned("worker"), to: owned("postgres"), kind: EdgeKind::DependsOn });
    assert(nodes@.dom() =~= set!["api"@, "worker"@, "postgres"@]);
    assert(edges@ =~= set![("api"@, "postgres"@, EdgeKind::DependsOn), ("worker"@, "postgres"@, EdgeKind::DependsOn)]);
    RuntimeGraph { nodes, edges }
}

/// The status the graph shows for a unit status an adapter reports; a unit
/// being stopped shows as stopped.
pub open spec fn shown_status(s: UnitStatus) -> ServiceStatus {
    match s {
        UnitStatus::Unknown => ServiceStatus::Unknown,
        UnitStatus::Starting => ServiceStatus::Starting,
        UnitStatus::Running => ServiceStatus::Running,
        UnitStatus::Stopping => ServiceStatus::Stopped,
        UnitStatus::Stopped => ServiceStatus::Stopped,
        UnitStatus::Exited { code } => ServiceStatus::Exited { code },
        UnitStatus::Errored { message } => ServiceStatus::Errored { message },
    }
}

/// Converts an adapter's unit status to the graph's service status.
pub fn service_status_of(s: UnitStatus) -> (r: ServiceStatus)
    ensures
        r == shown_status(s),
{
    match s {
        UnitStatus::Unknown => ServiceStatus::Unknown,
        UnitStatus::Starting => ServiceStatus::Starting,
        UnitStatus::Running => ServiceStatus::Running,
        UnitStatus::Stopping => ServiceStatus::Stopped,
        UnitStatus::Stopped => ServiceStatus::Stopped,
        UnitStatus::Exited { code } => ServiceStatus::Exited { code },
        UnitStatus::Errored { message } => ServiceStatus::Errored { message },
    }
}

pub open spec fn shown_health(h: UnitHealth) -> HealthStatus {
    match h {
        UnitHealth::Unknown => HealthStatus::Unknown,
        UnitHealth::Healthy => HealthStatus::Healthy,
        UnitHealth::Degraded { reason } => HealthStatus::Degraded { reason },
        UnitHealth::Unhealthy { reason } => HealthStatus::Unhealthy { reason },
    }
}

/// Converts an adapter's unit health to the graph's health status.
pub fn health_status_of(h: UnitHealth) -> (r: HealthStatus)
    ensures
        r == shown_health(h),
{
    match h {
        UnitHealth::Unknown => HealthStatus::Unknown,
        UnitHealth::Healthy => HealthStatus::Healthy,
        UnitHealth::Degraded { reason } => HealthStatus::Degraded { reason },
        UnitHealth::Unhealthy { reason } => HealthStatus::Unhealthy { reason },
    }
}

} // verus!
