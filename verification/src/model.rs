//! The runtime graph: services with their desired and observed state, and
//! the edges between them.
use vstd::prelude::*;

use crate::strmap::{
    lemma_seq_lt_irreflexive, lemma_seq_lt_transitive, lemma_seq_lt_trichotomy, seq_lt, str_lt,
    StrMap,
};

verus! {

#[derive(Clone, Debug)]
pub enum ServiceStatus {
    Unknown,
    Starting,
    Running,
    Stopped,
    Exited { code: Option<i32> },
    Restarting,
    Errored { message: String },
}

#[derive(Clone, Debug)]
pub enum HealthStatus {
    Unknown,
    Healthy,
    Degraded { reason: String },
    Unhealthy { reason: String },
}

#[derive(Clone, Copy, Debug, PartialEq, Eq, Structural)]
pub enum ServiceKind {
    HttpApi,
    Worker,
    Database,
    Cache,
    Queue,
    Frontend,
    Generic,
}

#[derive(Clone, Copy, Debug, PartialEq, Eq, Structural)]
pub enum DesiredState {
    Running,
    Stopped,
}

#[derive(Clone, Debug)]
pub struct ObservedState {
    pub instance_id: Option<String>,
    pub status: ServiceStatus,
    pub health: HealthStatus,
}

#[derive(Clone, Debug)]
pub struct ServiceNode {
    pub id: String,
    pub display_name: String,
    pub kind: ServiceKind,
    pub desired: DesiredState,
    pub observed: ObservedState,
    /// Port the service listens on (informational).
    pub port: Option<u16>,
    /// Description for display in the UI.
    pub description: Option<String>,
}

#[derive(Clone, Copy, Debug, PartialEq, Eq, Structural, PartialOrd, Ord)]
pub enum EdgeKind {
    DependsOn,
    TalksTo,
    Produces,
    Consumes,
}

/// Position of an edge kind in declaration order (the order `Ord` gives).
pub open spec fn kind_rank(k: EdgeKind) -> int {
    match k {
        EdgeKind::DependsOn => 0,
        EdgeKind::TalksTo => 1,
        EdgeKind::Produces => 2,
        EdgeKind::Consumes => 3,
    }
}

fn kind_rank_exec(k: EdgeKind) -> (r: u8)
    ensures
        r as int == kind_rank(k),
{
    match k {
        EdgeKind::DependsOn => 0,
        EdgeKind::TalksTo => 1,
        EdgeKind::Produces => 2,
        EdgeKind::Consumes => 3,
    }
}

#[derive(Clone, Debug)]
pub struct Edge {
    pub from: String,
    pub to: String,
    pub kind: EdgeKind,
}

/// An edge as plain values.
pub type EdgeView = (Seq<char>, Seq<char>, EdgeKind);

pub open spec fn edge_view(e: Edge) -> EdgeView {
    (e.from@, e.to@, e.kind)
}

/// Edges ordered by source, then target, then kind.
pub open spec fn edge_lt(a: EdgeView, b: EdgeView) -> bool {
    ||| seq_lt(a.0, b.0)
    ||| (a.0 == b.0 && seq_lt(a.1, b.1))
    ||| (a.0 == b.0 && a.1 == b.1 && kind_rank(a.2) < kind_rank(b.2))
}

proof fn lemma_edge_lt_total(a: EdgeView, b: EdgeView)
    ensures
        edge_lt(a, b) || edge_lt(b, a) || a == b,
        !(edge_lt(a, b) && edge_lt(b, a)),
        !edge_lt(a, a),
{
    lemma_seq_lt_trichotomy(a.0, b.0);
    lemma_seq_lt_trichotomy(a.1, b.1);
    lemma_seq_lt_irreflexive(a.0);
    lemma_seq_lt_irreflexive(a.1);
    if a.0 == b.0 && a.1 == b.1 && kind_rank(a.2) == kind_rank(b.2) {
        assert(a.2 == b.2);
    }
}

proof fn lemma_edge_lt_transitive(a: EdgeView, b: EdgeView, c: EdgeView)
    requires
        edge_lt(a, b),
        edge_lt(b, c),
    ensures
        edge_lt(a, c),
{
    lemma_seq_lt_trichotomy(a.0, b.0);
    lemma_seq_lt_trichotomy(b.0, c.0);
    lemma_seq_lt_trichotomy(a.0, c.0);
    if seq_lt(a.0, b.0) && seq_lt(b.0, c.0) {
        lemma_seq_lt_transitive(a.0, b.0, c.0);
    }
    if a.0 == b.0 && b.0 == c.0 && seq_lt(a.1, b.1) && seq_lt(b.1, c.1) {
        lemma_seq_lt_transitive(a.1, b.1, c.1);
    }
}

/// Whether edge `a` comes strictly before edge `b`.
fn edge_less(a: &Edge, b: &Edge) -> (r: bool)
    ensures
        r == edge_lt(edge_view(*a), edge_view(*b)),
{
    if str_lt(a.from.as_str(), b.from.as_str()) {
        return true;
    }
    if str_lt(b.from.as_str(), a.from.as_str()) {
        proof {
            lemma_seq_lt_trichotomy(a.from@, b.from@);
        }
        return false;
    }
    proof {
        lemma_seq_lt_trichotomy(a.from@, b.from@);
    }
    if str_lt(a.to.as_str(), b.to.as_str()) {
        return true;
    }
    if str_lt(b.to.as_str(), a.to.as_str()) {
        proof {
            lemma_seq_lt_trichotomy(a.to@, b.to@);
        }
        return false;
    }
    proof {
        lemma_seq_lt_trichotomy(a.to@, b.to@);
        lemma_seq_lt_irreflexive(a.from@);
        lemma_seq_lt_irreflexive(a.to@);
    }
    kind_rank_exec(a.kind) < kind_rank_exec(b.kind)
}

/// Edges strictly ascending.
pub open spec fn edges_sorted(s: Seq<EdgeView>) -> bool {
    forall|i: int, j: int| 0 <= i < j < s.len() ==> edge_lt(#[trigger] s[i], #[trigger] s[j])
}

/// A set of edges, walked in ascending order.
#[derive(Debug)]
pub struct EdgeSet {
    items: Vec<Edge>,
}

impl View for EdgeSet {
    type V = Set<EdgeView>;

    /// The edges as plain values.
    open spec fn view(&self) -> Set<EdgeView> {
        self.seq().to_set()
    }
}

impl EdgeSet {
    /// The edges in ascending order.
    pub closed spec fn seq(&self) -> Seq<EdgeView> {
        self.items@.map_values(|e: Edge| edge_view(e))
    }

    #[verifier::type_invariant]
    closed spec fn inv(&self) -> bool {
        edges_sorted(self.seq())
    }

    pub fn new() -> (r: Self)
        ensures
            r.seq() == Seq::<EdgeView>::empty(),
            r@ == Set::<EdgeView>::empty(),
    {
        let r = EdgeSet { items: Vec::new() };
        assert(r.seq() =~= Seq::<EdgeView>::empty());
        assert(r@ =~= Set::<EdgeView>::empty());
        r
    }

    pub fn len(&self) -> (r: usize)
        ensures
            r == self.seq().len(),
    {
        self.items.len()
    }

    /// The `i`-th edge in ascending order.
    pub fn get(&self, i: usize) -> (r: &Edge)
        requires
            i < self.seq().len(),
        ensures
            edge_view(*r) == self.seq()[i as int],
    {
        &self.items[i]
    }

    /// Adds an edge; `false` when it was already there.
    pub fn insert(&mut self, e: Edge) -> (r: bool)
        ensures
            final(self)@ == old(self)@.insert(edge_view(e)),
            r == !old(self)@.contains(edge_view(e)),
            edges_sorted(final(self).seq()),
    {
        proof {
            use_type_invariant(&*self);
        }
        let ghost ev = edge_view(e);
        let ghost s = self.seq();
        let mut p: usize = 0;
        while p < self.items.len() && edge_less(&self.items[p], &e)
            invariant
                p <= self.items.len(),
                s == self.seq(),
                s.len() == self.items.len(),
                ev == edge_view(e),
                forall|i: int| 0 <= i < p ==> edge_lt(#[trigger] s[i], ev),
            decreases self.items.len() - p,
        {
            p = p + 1;
        }
        if p < self.items.len() && !edge_less(&e, &self.items[p]) {
            proof {
                lemma_edge_lt_total(s[p as int], ev);
                assert(s[p as int] == ev);
                assert(s.to_set().insert(ev) =~= s.to_set());
            }
            return false;
        }
        proof {
            assert forall|i: int| 0 <= i < s.len() implies s[i] != ev by {
                if i < p {
                    lemma_edge_lt_total(ev, ev);
                } else {
                    lemma_edge_lt_total(s[p as int], ev);
                    if i > p {
                        lemma_edge_lt_transitive(ev, s[p as int], s[i]);
                    }
                    lemma_edge_lt_total(ev, ev);
                }
            }
        }
        let mut tmp: Vec<Edge> = Vec::new();
        std::mem::swap(&mut tmp, &mut self.items);
        tmp.insert(p, e);
        proof {
            let ns = tmp@.map_values(|x: Edge| edge_view(x));
            assert(ns =~= s.insert(p as int, ev));
            assert forall|i: int, j: int| 0 <= i < j < ns.len() implies edge_lt(
                #[trigger] ns[i],
                #[trigger] ns[j],
            ) by {
                if j < p {
                    assert(ns[i] == s[i] && ns[j] == s[j]);
                } else if j == p {
                    assert(ns[i] == s[i]);
                } else if i == p {
                    assert(ns[j] == s[j - 1]);
                    lemma_edge_lt_total(s[p as int], ev);
                    if j - 1 > p {
                        lemma_edge_lt_transitive(ev, s[p as int], s[j - 1]);
                    }
                } else if i < p {
                    assert(ns[i] == s[i] && ns[j] == s[j - 1]);
                } else {
                    assert(ns[i] == s[i - 1] && ns[j] == s[j - 1]);
                }
            }
            assert forall|x: EdgeView| ns.to_set().contains(x) <==> s.to_set().insert(ev).contains(x) by {
                if ns.contains(x) {
                    let w = choose|w: int| 0 <= w < ns.len() && ns[w] == x;
                    if w < p {
                        assert(s[w] == x);
                    } else if w > p {
                        assert(s[w - 1] == x);
                    }
                }
                if s.contains(x) {
                    let w = choose|w: int| 0 <= w < s.len() && s[w] == x;
                    if w < p {
                        assert(ns[w] == x);
                    } else {
                        assert(ns[w + 1] == x);
                    }
                }
                assert(ns[p as int] == ev);
            }
            assert(ns.to_set() =~= s.to_set().insert(ev));
        }
        self.items = tmp;
        true
    }
}

/// The services and the edges between them.
#[derive(Debug)]
pub struct RuntimeGraph {
    pub nodes: StrMap<ServiceNode>,
    pub edges: EdgeSet,
}

} // verus!
