//! Dependency graphs between named nodes: finding a cycle, and ordering
//! nodes so that dependencies come first.
//!
//! A graph is an adjacency map from a node to the nodes it depends on, in
//! order; a node with no entry depends on nothing.  Both searches walk the
//! roots in order and, from each node, its dependencies in order, depth
//! first.
use vstd::prelude::*;

use crate::strmap::{lemma_sorted_distinct, StrMap};
use crate::text::string_views;

verus! {

/// The adjacency map as plain values.
pub open spec fn adj_view(adj: Map<Seq<char>, Vec<String>>) -> Map<Seq<char>, Seq<Seq<char>>> {
    adj.map_values(|v: Vec<String>| string_views(v@))
}

/// What `n` depends on.
pub open spec fn succs(adj: Map<Seq<char>, Seq<Seq<char>>>, n: Seq<char>) -> Seq<Seq<char>> {
    if adj.dom().contains(n) {
        adj[n]
    } else {
        Seq::empty()
    }
}

pub open spec fn has_edge(adj: Map<Seq<char>, Seq<Seq<char>>>, a: Seq<char>, b: Seq<char>) -> bool {
    succs(adj, a).contains(b)
}

/// A walk along dependency edges.
pub open spec fn is_path(adj: Map<Seq<char>, Seq<Seq<char>>>, p: Seq<Seq<char>>) -> bool {
    &&& p.len() >= 1
    &&& forall|i: int| 0 <= i < p.len() - 1 ==> has_edge(adj, #[trigger] p[i], p[i + 1])
}

/// A walk of at least one edge that comes back to where it started.
pub open spec fn is_cycle(adj: Map<Seq<char>, Seq<Seq<char>>>, c: Seq<Seq<char>>) -> bool {
    &&& is_path(adj, c)
    &&& c.len() >= 2
    &&& c[0] == c[c.len() - 1]
}

pub open spec fn acyclic(adj: Map<Seq<char>, Seq<Seq<char>>>) -> bool {
    forall|c: Seq<Seq<char>>| !is_cycle(adj, c)
}

/// Every node that appears in the graph.
spec fn closed_under(adj: Map<Seq<char>, Seq<Seq<char>>>, u: Set<Seq<char>>) -> bool {
    forall|x: Seq<char>, k: int|
        #![trigger u.contains(x), succs(adj, x)[k]]
        u.contains(x) && 0 <= k < succs(adj, x).len() ==> u.contains(succs(adj, x)[k])
}

/// State of the cycle search: nodes on the current path are marked 0;
/// finished nodes carry a rank above that of everything they depend on.
spec fn search_inv(
    adj: Map<Seq<char>, Seq<Seq<char>>>,
    m: Map<Seq<char>, usize>,
    p: Seq<Seq<char>>,
    u: Set<Seq<char>>,
    counter: usize,
) -> bool {
    &&& forall|x: Seq<char>| #[trigger] m.dom().contains(x) ==> u.contains(x)
    &&& forall|x: Seq<char>| #[trigger] m.dom().contains(x) ==> (m[x] == 0 <==> p.contains(x))
    &&& forall|x: Seq<char>| #[trigger] m.dom().contains(x) ==> m[x] <= counter
    &&& forall|i: int| 0 <= i < p.len() ==> m.dom().contains(#[trigger] p[i])
    &&& p.no_duplicates()
    &&& forall|i: int| 0 <= i < p.len() - 1 ==> has_edge(adj, #[trigger] p[i], p[i + 1])
    &&& forall|x: Seq<char>, k: int|
        #![trigger m.dom().contains(x), succs(adj, x)[k]]
        m.dom().contains(x) && m[x] > 0 && 0 <= k < succs(adj, x).len() ==> m.dom().contains(
            succs(adj, x)[k],
        ) && 0 < m[succs(adj, x)[k]] < m[x]
}

/// Along a path of finished nodes the ranks fall.
proof fn lemma_ranks_fall(
    adj: Map<Seq<char>, Seq<Seq<char>>>,
    m: Map<Seq<char>, usize>,
    p: Seq<Seq<char>>,
    u: Set<Seq<char>>,
    counter: usize,
    j: int,
)
    requires
        search_inv(adj, m, Seq::empty(), u, counter),
        is_path(adj, p),
        m.dom().contains(p[0]),
        m[p[0]] > 0,
        0 < j < p.len(),
    ensures
        m.dom().contains(p[j]),
        0 < m[p[j]] < m[p[0]],
    decreases j,
{
    assert(has_edge(adj, p[j - 1], p[j]));
    let k = choose|k: int| 0 <= k < succs(adj, p[j - 1]).len() && #[trigger] succs(adj, p[j - 1])[k] == p[j];
    if j == 1 {
        assert(m.dom().contains(p[0]));
    } else {
        lemma_ranks_fall(adj, m, p, u, counter, j - 1);
    }
    assert(m.dom().contains(p[j - 1]));
}


/// `x` is one of the roots or something a node of `adj` depends on.
pub open spec fn root_or_dep(adj: Map<Seq<char>, Seq<Seq<char>>>, roots: Seq<Seq<char>>, x: Seq<char>) -> bool {
    roots.contains(x) || exists|n: Seq<char>| adj.dom().contains(n) && #[trigger] adj[n].contains(x)
}

/// `x` is one of the roots or sits in one of the dependency lists.
spec fn listed_or_root(adj: StrMap<Vec<String>>, roots: Seq<Seq<char>>, x: Seq<char>) -> bool {
    roots.contains(x) || exists|a: int, b: int|
        #![trigger adj.vals()[a]@[b]]
        0 <= a < adj.vals().len() && 0 <= b < adj.vals()[a]@.len() && adj.vals()[a]@[b]@ == x
}

/// Every root and every node some node depends on.
fn all_nodes(adj: &StrMap<Vec<String>>, roots: &Vec<String>) -> (r: Vec<String>)
    ensures
        forall|i: int| 0 <= i < roots@.len() ==> string_views(r@).contains(#[trigger] roots@[i]@),
        closed_under(adj_view(adj@), string_views(r@).to_set()),
        forall|i: int| 0 <= i < r@.len() ==> root_or_dep(adj_view(adj@), string_views(roots@), #[trigger] string_views(r@)[i]),
{
    let mut out: Vec<String> = Vec::new();
    let mut i: usize = 0;
    while i < roots.len()
        invariant
            i <= roots.len(),
            forall|k: int| 0 <= k < i ==> string_views(out@).contains(#[trigger] roots@[k]@),
            forall|t: int| 0 <= t < out@.len() ==> listed_or_root(*adj, string_views(roots@), #[trigger] string_views(out@)[t]),
        decreases roots.len() - i,
    {
        let ghost prev = string_views(out@);
        out.push(roots[i].clone());
        proof {
            assert(string_views(out@) =~= prev.push(roots@[i as int]@));
            assert(string_views(roots@)[i as int] == roots@[i as int]@);
            assert(string_views(roots@).contains(roots@[i as int]@));
            assert forall|k: int| 0 <= k <= i implies string_views(out@).contains(#[trigger] roots@[k]@) by {
                if k < i {
                    let w = choose|w: int| 0 <= w < prev.len() && prev[w] == roots@[k]@;
                    assert(string_views(out@)[w] == roots@[k]@);
                } else {
                    assert(string_views(out@)[prev.len() as int] == roots@[k]@);
                }
            }
        }
        i = i + 1;
    }
    let n = adj.len();
    let mut e: usize = 0;
    while e < n
        invariant
            e <= n,
            n == adj.keys().len(),
            n == adj.vals().len(),
            forall|k: int| 0 <= k < roots@.len() ==> string_views(out@).contains(#[trigger] roots@[k]@),
            forall|t: int| 0 <= t < out@.len() ==> listed_or_root(*adj, string_views(roots@), #[trigger] string_views(out@)[t]),
            forall|a: int, b: int|
                #![trigger adj.vals()[a]@[b]]
                0 <= a < e && 0 <= b < adj.vals()[a]@.len() ==> string_views(out@).contains(
                    adj.vals()[a]@[b]@,
                ),
        decreases n - e,
    {
        let deps = adj.value_at(e);
        let mut j: usize = 0;
        while j < deps.len()
            invariant
                j <= deps.len(),
                e < n,
                n == adj.vals().len(),
                *deps == adj.vals()[e as int],
                forall|k: int| 0 <= k < roots@.len() ==> string_views(out@).contains(#[trigger] roots@[k]@),
                forall|t: int| 0 <= t < out@.len() ==> listed_or_root(*adj, string_views(roots@), #[trigger] string_views(out@)[t]),
                forall|a: int, b: int|
                    #![trigger adj.vals()[a]@[b]]
                    (0 <= a < e && 0 <= b < adj.vals()[a]@.len()) || (a == e && 0 <= b < j)
                        ==> string_views(out@).contains(adj.vals()[a]@[b]@),
            decreases deps.len() - j,
        {
            let ghost prev = string_views(out@);
            out.push(deps[j].clone());
            proof {
                let now = string_views(out@);
                assert(now =~= prev.push(deps@[j as int]@));
                assert forall|x: Seq<char>| prev.contains(x) implies now.contains(x) by {
                    let w = choose|w: int| 0 <= w < prev.len() && prev[w] == x;
                    assert(now[w] == x);
                }
                assert(now[prev.len() as int] == deps@[j as int]@);
                assert(adj.vals()[e as int]@[j as int]@ == deps@[j as int]@);
                assert(listed_or_root(*adj, string_views(roots@), deps@[j as int]@));
            }
            j = j + 1;
        }
        e = e + 1;
    }
    proof {
        let u = string_views(out@).to_set();
        let av = adj_view(adj@);
        lemma_sorted_distinct(adj.keys());
        assert forall|x: Seq<char>, k: int| u.contains(x) && 0 <= k < succs(av, x).len() implies u.contains(
            #[trigger] succs(av, x)[k],
        ) by {
            if av.dom().contains(x) {
                let a = choose|a: int| 0 <= a < adj.keys().len() && adj.keys()[a] == x;
                crate::strmap::lemma_pairs_at(adj.keys(), adj.vals(), a);
                assert(adj@[x] == adj.vals()[a]);
                assert(succs(av, x) == string_views(adj.vals()[a]@));
                assert(succs(av, x)[k] == adj.vals()[a]@[k]@);
            }
        }
        assert forall|t: int| 0 <= t < out@.len() implies root_or_dep(av, string_views(roots@), #[trigger] string_views(out@)[t]) by {
            let x = string_views(out@)[t];
            if !string_views(roots@).contains(x) {
                let (a, b) = choose|a: int, b: int|
                    #![trigger adj.vals()[a]@[b]]
                    0 <= a < adj.vals().len() && 0 <= b < adj.vals()[a]@.len() && adj.vals()[a]@[b]@ == x;
                crate::strmap::lemma_pairs_at(adj.keys(), adj.vals(), a);
                let key = adj.keys()[a];
                assert(av.dom().contains(key));
                assert(av[key] == string_views(adj.vals()[a]@));
                assert(av[key][b] == x);
                assert(av[key].contains(x));
            }
        }
    }
    out
}

/// The keys of a map are at most as many as a finite set holding them.
proof fn lemma_keys_fit<V>(m: StrMap<V>, u: Set<Seq<char>>)
    requires
        u.finite(),
        m.wf(),
        forall|x: Seq<char>| #[trigger] m@.dom().contains(x) ==> u.contains(x),
    ensures
        m.keys().len() <= u.len(),
{
    lemma_sorted_distinct(m.keys());
    m.keys().unique_seq_to_set();
    assert(m.keys().to_set() =~= m@.dom());
    assert(m.keys().to_set().subset_of(u));
    vstd::set_lib::lemma_len_subset(m.keys().to_set(), u);
}

/// Depth-first search from `node`, which is not marked yet.  Returns a
/// cycle when it meets a node on the current path; otherwise `node` and
/// everything reachable from it end up finished.
#[verifier::spinoff_prover]
fn visit(
    node: &String,
    adj: &StrMap<Vec<String>>,
    marks: &mut StrMap<usize>,
    path: &mut Vec<String>,
    counter: &mut usize,
    Ghost(u): Ghost<Set<Seq<char>>>,
) -> (r: Option<Vec<String>>)
    requires
        u.finite(),
        closed_under(adj_view(adj@), u),
        u.contains(node@),
        !old(marks)@.dom().contains(node@),
        old(marks).wf(),
        search_inv(adj_view(adj@), old(marks)@, string_views(old(path)@), u, *old(counter)),
        old(path)@.len() > 0 ==> has_edge(
            adj_view(adj@),
            string_views(old(path)@)[old(path)@.len() - 1],
            node@,
        ),
        *old(counter) + old(path)@.len() == old(marks).keys().len(),
    ensures
        match r {
            None => {
                &&& final(marks).wf()
                &&& search_inv(
                    adj_view(adj@),
                    final(marks)@,
                    string_views(final(path)@),
                    u,
                    *final(counter),
                )
                &&& string_views(final(path)@) == string_views(old(path)@)
                &&& final(marks)@.dom().contains(node@)
                &&& final(marks)@[node@] > 0
                &&& forall|x: Seq<char>|
                    #[trigger] old(marks)@.dom().contains(x) ==> final(marks)@.dom().contains(x)
                        && final(marks)@[x] == old(marks)@[x]
                &&& *final(counter) + final(path)@.len() == final(marks).keys().len()
                &&& *old(counter) <= *final(counter)
            },
            Some(c) => is_cycle(adj_view(adj@), string_views(c@)),
        },
    decreases u.len() - old(marks).keys().len(),
{
    let ghost av = adj_view(adj@);
    let ghost m0 = marks@;
    let ghost p0 = string_views(path@);
    let ghost c0 = *counter;
    proof {
        lemma_keys_fit(*marks, u);
    }
    let _ = marks.insert(node.clone(), 0);
    path.push(node.clone());
    proof {
        let p1 = string_views(path@);
        assert(p1 =~= p0.push(node@));
        assert(p1.no_duplicates()) by {
            assert forall|i: int, j: int| 0 <= i < p1.len() && 0 <= j < p1.len() && i != j implies p1[i]
                != p1[j] by {
                if i < p0.len() && j < p0.len() {
                    assert(p1[i] == p0[i] && p1[j] == p0[j]);
                } else if i < p0.len() {
                    assert(m0.dom().contains(p0[i]));
                } else if j < p0.len() {
                    assert(m0.dom().contains(p0[j]));
                }
            }
        }
        assert forall|x: Seq<char>| #[trigger] marks@.dom().contains(x) implies (marks@[x] == 0 <==> p1.contains(x)) by {
            if x == node@ {
                assert(p1[p0.len() as int] == x);
            } else {
                if p1.contains(x) {
                    let w = choose|w: int| 0 <= w < p1.len() && p1[w] == x;
                    assert(p0[w] == x);
                }
                if p0.contains(x) {
                    let w = choose|w: int| 0 <= w < p0.len() && p0[w] == x;
                    assert(p1[w] == x);
                }
            }
        }
        assert forall|i: int| 0 <= i < p1.len() - 1 implies has_edge(av, #[trigger] p1[i], p1[i + 1]) by {
            if i < p0.len() - 1 {
                assert(p1[i] == p0[i] && p1[i + 1] == p0[i + 1]);
            } else {
                assert(p1[i] == p0[p0.len() - 1]);
            }
        }
        assert(search_inv(av, marks@, p1, u, *counter));
    }
    let ghost m1 = marks@;
    let ghost p1 = string_views(path@);
    match adj.get(node.as_str()) {
        Some(deps) => {
            proof {
                assert(succs(av, node@) == string_views(deps@));
            }
            let mut j: usize = 0;
            while j < deps.len()
                invariant
                    j <= deps.len(),
                    av == adj_view(adj@),
                    succs(av, node@) == string_views(deps@),
                    u.finite(),
                    closed_under(av, u),
                    u.contains(node@),
                    search_inv(av, marks@, string_views(path@), u, *counter),
                    string_views(path@) == p1,
                    p1 == p0.push(node@),
                    marks@.dom().contains(node@),
                    marks@[node@] == 0,
                    forall|x: Seq<char>|
                        #[trigger] m0.dom().contains(x) ==> marks@.dom().contains(x) && marks@[x]
                            == m0[x],
                    forall|k: int|
                        0 <= k < j ==> marks@.dom().contains(#[trigger] string_views(deps@)[k])
                            && marks@[string_views(deps@)[k]] > 0,
                    *counter + path@.len() == marks.keys().len(),
                    marks.wf(),
                    marks.keys().len() >= old(marks).keys().len() + 1,
                    c0 <= *counter,
                decreases deps.len() - j,
            {
                let dep = &deps[j];
                proof {
                    assert(string_views(deps@)[j as int] == dep@);
                    assert(u.contains(dep@));
                }
                match marks.get(dep.as_str()) {
                    Some(v) => {
                        if *v == 0 {
                            // `dep` is on the current path: that closes a cycle.
                            let mut k: usize = 0;
                            while k < path.len() && !crate::command::str_eq(path[k].as_str(), dep.as_str())
                                invariant
                                    k <= path.len(),
                                    string_views(path@) == p1,
                                    p1.contains(dep@),
                                    forall|w: int| 0 <= w < k ==> p1[w] != dep@,
                                decreases path.len() - k,
                            {
                                k = k + 1;
                            }
                            let mut cycle: Vec<String> = Vec::new();
                            let mut w: usize = k;
                            while w < path.len()
                                invariant
                                    k <= w <= path.len(),
                                    string_views(path@) == p1,
                                    string_views(cycle@) == p1.subrange(k as int, w as int),
                                decreases path.len() - w,
                            {
                                let ghost prev = string_views(cycle@);
                                cycle.push(path[w].clone());
                                proof {
                                    assert(string_views(cycle@) =~= prev.push(p1[w as int]));
                                    assert(p1.subrange(k as int, w + 1) =~= p1.subrange(k as int, w as int).push(p1[w as int]));
                                }
                                w = w + 1;
                            }
                            let ghost body = string_views(cycle@);
                            cycle.push(dep.clone());
                            proof {
                                let c = string_views(cycle@);
                                assert(c =~= body.push(dep@));
                                assert(k < p1.len());
                                assert(p1[k as int] == dep@);
                                assert(c[0] == dep@);
                                assert forall|i: int| 0 <= i < c.len() - 1 implies has_edge(av, #[trigger] c[i], c[i + 1]) by {
                                    if i < c.len() - 2 {
                                        assert(c[i] == p1[k + i] && c[i + 1] == p1[k + i + 1]);
                                    } else {
                                        assert(c[i] == p1[p1.len() - 1]);
                                        assert(p1[p1.len() - 1] == node@);
                                        assert(string_views(deps@)[j as int] == dep@);
                                    }
                                }
                            }
                            return Some(cycle);
                        }
                    },
                    None => {
                        proof {
                            assert(has_edge(av, string_views(path@)[path@.len() - 1], dep@));
                            lemma_keys_fit(*marks, u);
                        }
                        match visit(dep, adj, marks, path, counter, Ghost(u)) {
                            Some(c) => {
                                return Some(c);
                            },
                            None => {},
                        }
                    },
                }
                j = j + 1;
            }
            proof {
                assert forall|k: int| 0 <= k < succs(av, node@).len() implies marks@.dom().contains(
                    #[trigger] succs(av, node@)[k],
                ) && marks@[succs(av, node@)[k]] > 0 by {
                    assert(succs(av, node@)[k] == string_views(deps@)[k]);
                }
            }
        },
        None => {
            proof {
                assert(succs(av, node@) =~= Seq::<Seq<char>>::empty());
            }
        },
    }
    proof {
        lemma_keys_fit(*marks, u);
    }
    let _ = path.pop();
    let ghost before = marks@;
    let marked = marks.len();
    assert(*counter < marked);
    *counter = *counter + 1;
    let _ = marks.insert(node.clone(), *counter);
    proof {
        let pf = string_views(path@);
        assert(pf =~= p0);
        assert(marks@.dom() =~= before.dom());
        assert forall|x: Seq<char>| #[trigger] marks@.dom().contains(x) implies (marks@[x] == 0 <==> pf.contains(x)) by {
            if x == node@ {
                if pf.contains(x) {
                    let w = choose|w: int| 0 <= w < pf.len() && pf[w] == x;
                    assert(p1[w] == x);
                    assert(p1[p0.len() as int] == x);
                }
            } else {
                if pf.contains(x) {
                    let w = choose|w: int| 0 <= w < pf.len() && pf[w] == x;
                    assert(p1[w] == x);
                }
                if p1.contains(x) {
                    let w = choose|w: int| 0 <= w < p1.len() && p1[w] == x;
                    if w < p0.len() {
                        assert(pf[w] == x);
                    }
                }
            }
        }
        assert forall|i: int| 0 <= i < pf.len() implies marks@.dom().contains(#[trigger] pf[i]) by {
            assert(p1[i] == pf[i]);
        }
        assert forall|i: int| 0 <= i < pf.len() - 1 implies has_edge(av, #[trigger] pf[i], pf[i + 1]) by {
            assert(p1[i] == pf[i] && p1[i + 1] == pf[i + 1]);
        }
        assert forall|x: Seq<char>, k: int|
            #![trigger marks@.dom().contains(x), succs(av, x)[k]]
            marks@.dom().contains(x) && marks@[x] > 0 && 0 <= k < succs(av, x).len() implies marks@.dom().contains(
                succs(av, x)[k],
            ) && 0 < marks@[succs(av, x)[k]] < marks@[x] by {
            if x == node@ {
                assert(before.dom().contains(succs(av, x)[k]));
            }
        }
    }
    None
}


/// Depth-first visit from `node`, which is not visited yet: its
/// dependencies are visited first, then `node` is appended to `out`.  A
/// dependency already under way is skipped.
fn post_visit(
    node: &String,
    adj: &StrMap<Vec<String>>,
    marks: &mut StrMap<usize>,
    path: &mut Vec<String>,
    counter: &mut usize,
    out: &mut Vec<String>,
    Ghost(u): Ghost<Set<Seq<char>>>,
)
    requires
        u.finite(),
        closed_under(adj_view(adj@), u),
        u.contains(node@),
        !old(marks)@.dom().contains(node@),
        old(marks).wf(),
        post_inv(adj_view(adj@), old(marks)@, string_views(old(path)@), u, *old(counter), string_views(old(out)@)),
        old(path)@.len() > 0 ==> has_edge(
            adj_view(adj@),
            string_views(old(path)@)[old(path)@.len() - 1],
            node@,
        ),
        *old(counter) + old(path)@.len() == old(marks).keys().len(),
    ensures
        final(marks).wf(),
        post_inv(
            adj_view(adj@),
            final(marks)@,
            string_views(final(path)@),
            u,
            *final(counter),
            string_views(final(out)@),
        ),
        string_views(final(path)@) == string_views(old(path)@),
        final(marks)@.dom().contains(node@),
        final(marks)@[node@] > 0,
        forall|x: Seq<char>|
            #[trigger] old(marks)@.dom().contains(x) ==> final(marks)@.dom().contains(x)
                && final(marks)@[x] == old(marks)@[x],
        *final(counter) + final(path)@.len() == final(marks).keys().len(),
        *old(counter) <= *final(counter),
    decreases u.len() - old(marks).keys().len(),
{
    let ghost av = adj_view(adj@);
    let ghost m0 = marks@;
    let ghost p0 = string_views(path@);
    let ghost c0 = *counter;
    proof {
        lemma_keys_fit(*marks, u);
    }
    let _ = marks.insert(node.clone(), 0);
    path.push(node.clone());
    proof {
        let p1 = string_views(path@);
        assert(p1 =~= p0.push(node@));
        assert(p1.no_duplicates()) by {
            assert forall|i: int, j: int| 0 <= i < p1.len() && 0 <= j < p1.len() && i != j implies p1[i]
                != p1[j] by {
                if i < p0.len() && j < p0.len() {
                    assert(p1[i] == p0[i] && p1[j] == p0[j]);
                } else if i < p0.len() {
                    assert(m0.dom().contains(p0[i]));
                } else if j < p0.len() {
                    assert(m0.dom().contains(p0[j]));
                }
            }
        }
        assert forall|x: Seq<char>| #[trigger] marks@.dom().contains(x) implies (marks@[x] == 0 <==> p1.contains(x)) by {
            if x == node@ {
                assert(p1[p0.len() as int] == x);
            } else {
                if p1.contains(x) {
                    let w = choose|w: int| 0 <= w < p1.len() && p1[w] == x;
                    assert(p0[w] == x);
                }
                if p0.contains(x) {
                    let w = choose|w: int| 0 <= w < p0.len() && p0[w] == x;
                    assert(p1[w] == x);
                }
            }
        }
        assert forall|i: int| 0 <= i < p1.len() - 1 implies has_edge(av, #[trigger] p1[i], p1[i + 1]) by {
            if i < p0.len() - 1 {
                assert(p1[i] == p0[i] && p1[i + 1] == p0[i + 1]);
            } else {
                assert(p1[i] == p0[p0.len() - 1]);
            }
        }
        assert(post_inv(av, marks@, p1, u, *counter, string_views(out@)));
    }
    let ghost m1 = marks@;
    let ghost p1 = string_views(path@);
    match adj.get(node.as_str()) {
        Some(deps) => {
            proof {
                assert(succs(av, node@) == string_views(deps@));
            }
            let mut j: usize = 0;
            while j < deps.len()
                invariant
                    j <= deps.len(),
                    av == adj_view(adj@),
                    succs(av, node@) == string_views(deps@),
                    u.finite(),
                    closed_under(av, u),
                    u.contains(node@),
                    post_inv(av, marks@, string_views(path@), u, *counter, string_views(out@)),
                    string_views(path@) == p1,
                    p1 == p0.push(node@),
                    marks@.dom().contains(node@),
                    marks@[node@] == 0,
                    forall|x: Seq<char>|
                        #[trigger] m0.dom().contains(x) ==> marks@.dom().contains(x) && marks@[x]
                            == m0[x],
                    forall|k: int|
                        0 <= k < j ==> marks@.dom().contains(#[trigger] string_views(deps@)[k])
                            && (acyclic(av) ==> marks@[string_views(deps@)[k]] > 0),
                    *counter + path@.len() == marks.keys().len(),
                    marks.wf(),
                    marks.keys().len() >= old(marks).keys().len() + 1,
                    c0 <= *counter,
                decreases deps.len() - j,
            {
                let dep = &deps[j];
                proof {
                    assert(string_views(deps@)[j as int] == dep@);
                    assert(u.contains(dep@));
                }
                match marks.get(dep.as_str()) {
                    Some(v) => {
                        proof {
                            if *v == 0 && acyclic(av) {
                                lemma_gray_closes_cycle(av, p1, node@, dep@);
                            }
                        }
                    },
                    None => {
                        proof {
                            assert(has_edge(av, string_views(path@)[path@.len() - 1], dep@));
                            lemma_keys_fit(*marks, u);
                        }
                        post_visit(dep, adj, marks, path, counter, out, Ghost(u));
                    },
                }
                j = j + 1;
            }
            proof {
                assert forall|k: int| 0 <= k < succs(av, node@).len() implies marks@.dom().contains(
                    #[trigger] succs(av, node@)[k],
                ) && (acyclic(av) ==> marks@[succs(av, node@)[k]] > 0) by {
                    assert(succs(av, node@)[k] == string_views(deps@)[k]);
                }
            }
        },
        None => {
            proof {
                assert(succs(av, node@) =~= Seq::<Seq<char>>::empty());
            }
        },
    }
    proof {
        lemma_keys_fit(*marks, u);
    }
    let _ = path.pop();
    let ghost before = marks@;
    let marked = marks.len();
    assert(*counter < marked);
    *counter = *counter + 1;
    let _ = marks.insert(node.clone(), *counter);
    let ghost out0 = string_views(out@);
    out.push(node.clone());
    proof {
        assert(string_views(out@) =~= out0.push(node@));
        let pf = string_views(path@);
        assert(pf =~= p0);
        assert(marks@.dom() =~= before.dom());
        assert forall|x: Seq<char>| #[trigger] marks@.dom().contains(x) implies (marks@[x] == 0 <==> pf.contains(x)) by {
            if x == node@ {
                if pf.contains(x) {
                    let w = choose|w: int| 0 <= w < pf.len() && pf[w] == x;
                    assert(p1[w] == x);
                    assert(p1[p0.len() as int] == x);
                }
            } else {
                if pf.contains(x) {
                    let w = choose|w: int| 0 <= w < pf.len() && pf[w] == x;
                    assert(p1[w] == x);
                }
                if p1.contains(x) {
                    let w = choose|w: int| 0 <= w < p1.len() && p1[w] == x;
                    if w < p0.len() {
                        assert(pf[w] == x);
                    }
                }
            }
        }
        assert forall|i: int| 0 <= i < pf.len() implies marks@.dom().contains(#[trigger] pf[i]) by {
            assert(p1[i] == pf[i]);
        }
        assert forall|i: int| 0 <= i < pf.len() - 1 implies has_edge(av, #[trigger] pf[i], pf[i + 1]) by {
            assert(p1[i] == pf[i] && p1[i + 1] == pf[i + 1]);
        }
        assert forall|x: Seq<char>, k: int|
            #![trigger marks@.dom().contains(x), succs(av, x)[k]]
            acyclic(av) && marks@.dom().contains(x) && marks@[x] > 0 && 0 <= k < succs(av, x).len() implies marks@.dom().contains(
                succs(av, x)[k],
            ) && 0 < marks@[succs(av, x)[k]] < marks@[x] by {
            if x == node@ {
                assert(before.dom().contains(succs(av, x)[k]));
            }
        }
        let o = string_views(out@);
        assert forall|x: Seq<char>| #[trigger] marks@.dom().contains(x) && marks@[x] > 0 implies o[marks@[x] - 1] == x by {
            if x != node@ {
                assert(o[marks@[x] - 1] == out0[marks@[x] - 1]);
            }
        }
        assert forall|i: int| 0 <= i < o.len() implies marks@.dom().contains(#[trigger] o[i]) && marks@[o[i]] == i + 1 by {
            if i < out0.len() {
                assert(o[i] == out0[i]);
                if o[i] == node@ {
                    assert(before.dom().contains(o[i]));
                    assert(before[o[i]] == i + 1);
                    assert(p1.contains(node@)) by {
                        assert(p1[p0.len() as int] == node@);
                    }
                }
            }
        }
    }
}



/// State of the ordering walk: like `search_inv`, with the ranks telling
/// where each finished node stands in `out`; the ranks only fall along
/// edges when the graph has no cycle.
spec fn post_inv(
    adj: Map<Seq<char>, Seq<Seq<char>>>,
    m: Map<Seq<char>, usize>,
    p: Seq<Seq<char>>,
    u: Set<Seq<char>>,
    counter: usize,
    out: Seq<Seq<char>>,
) -> bool {
    &&& forall|x: Seq<char>| #[trigger] m.dom().contains(x) ==> u.contains(x)
    &&& forall|x: Seq<char>| #[trigger] m.dom().contains(x) ==> (m[x] == 0 <==> p.contains(x))
    &&& forall|x: Seq<char>| #[trigger] m.dom().contains(x) ==> m[x] <= counter
    &&& forall|i: int| 0 <= i < p.len() ==> m.dom().contains(#[trigger] p[i])
    &&& p.no_duplicates()
    &&& forall|i: int| 0 <= i < p.len() - 1 ==> has_edge(adj, #[trigger] p[i], p[i + 1])
    &&& acyclic(adj) ==> forall|x: Seq<char>, k: int|
        #![trigger m.dom().contains(x), succs(adj, x)[k]]
        m.dom().contains(x) && m[x] > 0 && 0 <= k < succs(adj, x).len() ==> m.dom().contains(
            succs(adj, x)[k],
        ) && 0 < m[succs(adj, x)[k]] < m[x]
    &&& out.len() == counter
    &&& forall|x: Seq<char>| #[trigger] m.dom().contains(x) && m[x] > 0 ==> out[m[x] - 1] == x
    &&& forall|i: int| 0 <= i < out.len() ==> m.dom().contains(#[trigger] out[i]) && m[out[i]] == i + 1
}

/// A dependency that is still on the path closes a cycle.
#[verifier::spinoff_prover]
proof fn lemma_gray_closes_cycle(
    adj: Map<Seq<char>, Seq<Seq<char>>>,
    p: Seq<Seq<char>>,
    node: Seq<char>,
    dep: Seq<char>,
)
    requires
        p.len() > 0,
        p[p.len() - 1] == node,
        forall|i: int| 0 <= i < p.len() - 1 ==> has_edge(adj, #[trigger] p[i], p[i + 1]),
        has_edge(adj, node, dep),
        p.contains(dep),
    ensures
        !acyclic(adj),
{
    let k = choose|k: int| 0 <= k < p.len() && p[k] == dep;
    let c = p.subrange(k, p.len() as int).push(dep);
    assert forall|i: int| 0 <= i < c.len() - 1 implies has_edge(adj, #[trigger] c[i], c[i + 1]) by {
        if i < c.len() - 2 {
            assert(c[i] == p[k + i] && c[i + 1] == p[k + i + 1]);
        } else {
            assert(c[i] == p[p.len() - 1]);
        }
    }
    assert(c[0] == dep);
    assert(is_cycle(adj, c));
}
/// Looks for a cycle, searching depth first from each root in order.  Every
/// node with dependencies must be a root.
pub fn find_cycle(adj: &StrMap<Vec<String>>, roots: &Vec<String>) -> (r: Option<Vec<String>>)
    requires
        forall|k: Seq<char>| #[trigger] adj@.dom().contains(k) ==> string_views(roots@).contains(k),
    ensures
        match r {
            None => acyclic(adj_view(adj@)),
            Some(c) => is_cycle(adj_view(adj@), string_views(c@)),
        },
{
    let ghost av = adj_view(adj@);
    let all = all_nodes(adj, roots);
    let ghost u = string_views(all@).to_set();
    proof {
        string_views(all@).lemma_cardinality_of_set();
    }
    let mut marks: StrMap<usize> = StrMap::new();
    let mut path: Vec<String> = Vec::new();
    let mut counter: usize = 0;
    proof {
        assert(string_views(path@) =~= Seq::<Seq<char>>::empty());
    }
    let mut i: usize = 0;
    while i < roots.len()
        invariant
            i <= roots.len(),
            av == adj_view(adj@),
            u == string_views(all@).to_set(),
            u.finite(),
            closed_under(av, u),
            forall|k: int| 0 <= k < roots@.len() ==> u.contains(#[trigger] roots@[k]@),
            marks.wf(),
            search_inv(av, marks@, string_views(path@), u, counter),
            string_views(path@) == Seq::<Seq<char>>::empty(),
            counter + path@.len() == marks.keys().len(),
            forall|k: int| 0 <= k < i ==> marks@.dom().contains(#[trigger] roots@[k]@),
        decreases roots.len() - i,
    {
        proof {
            assert(string_views(all@).contains(roots@[i as int]@));
        }
        if !marks.contains_key(roots[i].as_str()) {
            match visit(&roots[i], adj, &mut marks, &mut path, &mut counter, Ghost(u)) {
                Some(c) => {
                    return Some(c);
                },
                None => {},
            }
        }
        i = i + 1;
    }
    proof {
        assert forall|c: Seq<Seq<char>>| !is_cycle(av, c) by {
            if is_cycle(av, c) {
                assert(has_edge(av, c[0], c[1]));
                assert(av.dom().contains(c[0]));
                assert(adj@.dom().contains(c[0]));
                assert(string_views(roots@).contains(c[0]));
                let w = choose|w: int| 0 <= w < roots@.len() && string_views(roots@)[w] == c[0];
                assert(roots@[w]@ == c[0]);
                assert(marks@.dom().contains(c[0]));
                assert(!Seq::<Seq<char>>::empty().contains(c[0]));
                lemma_ranks_fall(av, marks@, c, u, counter, c.len() - 1);
            }
        }
    }
    None
}


/// Every root and the nodes it depends on, each once, in depth-first
/// post-order from the roots in order: a node comes after what it depends
/// on whenever the graph has no cycle.
pub fn postorder(adj: &StrMap<Vec<String>>, roots: &Vec<String>) -> (r: Vec<String>)
    ensures
        forall|i: int| 0 <= i < roots@.len() ==> string_views(r@).contains(#[trigger] roots@[i]@),
        forall|i: int| 0 <= i < r@.len() ==> root_or_dep(adj_view(adj@), string_views(roots@), #[trigger] string_views(r@)[i]),
        string_views(r@).no_duplicates(),
        acyclic(adj_view(adj@)) ==> forall|i: int, k: int|
            #![trigger succs(adj_view(adj@), string_views(r@)[i])[k]]
            0 <= i < r@.len() && 0 <= k < succs(adj_view(adj@), string_views(r@)[i]).len()
                ==> string_views(r@).take(i).contains(succs(adj_view(adj@), string_views(r@)[i])[k]),
{
    let ghost av = adj_view(adj@);
    let all = all_nodes(adj, roots);
    let ghost u = string_views(all@).to_set();
    proof {
        string_views(all@).lemma_cardinality_of_set();
    }
    let mut marks: StrMap<usize> = StrMap::new();
    let mut path: Vec<String> = Vec::new();
    let mut counter: usize = 0;
    let mut out: Vec<String> = Vec::new();
    proof {
        assert(string_views(path@) =~= Seq::<Seq<char>>::empty());
        assert(string_views(out@) =~= Seq::<Seq<char>>::empty());
    }
    let mut i: usize = 0;
    while i < roots.len()
        invariant
            i <= roots.len(),
            av == adj_view(adj@),
            u == string_views(all@).to_set(),
            u.finite(),
            closed_under(av, u),
            forall|k: int| 0 <= k < roots@.len() ==> u.contains(#[trigger] roots@[k]@),
            marks.wf(),
            post_inv(av, marks@, string_views(path@), u, counter, string_views(out@)),
            string_views(path@) == Seq::<Seq<char>>::empty(),
            counter + path@.len() == marks.keys().len(),
            forall|k: int| 0 <= k < i ==> marks@.dom().contains(#[trigger] roots@[k]@),
        decreases roots.len() - i,
    {
        proof {
            assert(string_views(all@).contains(roots@[i as int]@));
        }
        if !marks.contains_key(roots[i].as_str()) {
            post_visit(&roots[i], adj, &mut marks, &mut path, &mut counter, &mut out, Ghost(u));
        }
        i = i + 1;
    }
    proof {
        let o = string_views(out@);
        assert forall|k: int| 0 <= k < roots@.len() implies o.contains(#[trigger] roots@[k]@) by {
            let x = roots@[k]@;
            assert(marks@.dom().contains(x));
            assert(!Seq::<Seq<char>>::empty().contains(x));
            assert(o[marks@[x] - 1] == x);
        }
        assert forall|a: int, b: int| 0 <= a < o.len() && 0 <= b < o.len() && a != b implies o[a] != o[b] by {
            assert(marks@[o[a]] == a + 1);
            assert(marks@[o[b]] == b + 1);
        }
        assert forall|t: int| 0 <= t < o.len() implies root_or_dep(av, string_views(roots@), #[trigger] o[t]) by {
            assert(marks@.dom().contains(o[t]));
            assert(u.contains(o[t]));
            let w = choose|w: int| 0 <= w < string_views(all@).len() && string_views(all@)[w] == o[t];
            assert(root_or_dep(av, string_views(roots@), string_views(all@)[w]));
        }
        if acyclic(av) {
            assert forall|a: int, k: int|
                0 <= a < o.len() && 0 <= k < succs(av, o[a]).len() implies o.take(a).contains(
                #[trigger] succs(av, o[a])[k],
            ) by {
                let x = o[a];
                let s = succs(av, x)[k];
                assert(marks@.dom().contains(x));
                assert(!Seq::<Seq<char>>::empty().contains(x));
                assert(marks@.dom().contains(s) && 0 < marks@[s] < marks@[x]);
                assert(!Seq::<Seq<char>>::empty().contains(s));
                assert(o[marks@[s] - 1] == s);
                assert(o.take(a)[marks@[s] - 1] == s);
            }
        }
    }
    out
}

} // verus!
