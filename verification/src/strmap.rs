//! Text ordering and a map from texts to values kept in key order.
//!
//! Texts are ordered lexicographically by character code, which is the order
//! `String`'s `Ord` gives (UTF-8 preserves code point order).  `StrMap` keeps
//! its entries sorted by key with no key twice, so walking it gives the keys in
//! ascending order.
use vstd::prelude::*;

use crate::text::chars_of;

verus! {

/// Lexicographic order on character sequences.
pub open spec fn seq_lt(a: Seq<char>, b: Seq<char>) -> bool
    decreases a.len(),
{
    if a.len() == 0 {
        b.len() > 0
    } else if b.len() == 0 {
        false
    } else if a[0] != b[0] {
        (a[0] as int) < (b[0] as int)
    } else {
        seq_lt(a.drop_first(), b.drop_first())
    }
}

pub open spec fn seq_le(a: Seq<char>, b: Seq<char>) -> bool {
    seq_lt(a, b) || a == b
}

pub proof fn lemma_seq_lt_irreflexive(a: Seq<char>)
    ensures
        !seq_lt(a, a),
    decreases a.len(),
{
    if a.len() > 0 {
        lemma_seq_lt_irreflexive(a.drop_first());
    }
}

pub proof fn lemma_seq_lt_trichotomy(a: Seq<char>, b: Seq<char>)
    ensures
        seq_lt(a, b) || seq_lt(b, a) || a == b,
        !(seq_lt(a, b) && seq_lt(b, a)),
        a == b ==> !seq_lt(a, b),
    decreases a.len(),
{
    if a.len() == 0 {
        if b.len() == 0 {
            assert(a =~= b);
        }
    } else if b.len() == 0 {
    } else if a[0] != b[0] {
    } else {
        lemma_seq_lt_trichotomy(a.drop_first(), b.drop_first());
        if a.drop_first() == b.drop_first() {
            assert forall|i: int| 0 <= i < a.len() implies a[i] == b[i] by {
                if i > 0 {
                    assert(a[i] == a.drop_first()[i - 1]);
                    assert(b[i] == b.drop_first()[i - 1]);
                }
            }
            assert(a =~= b);
        }
        if a == b {
            lemma_seq_lt_irreflexive(a);
        }
    }
}

pub proof fn lemma_seq_lt_transitive(a: Seq<char>, b: Seq<char>, c: Seq<char>)
    requires
        seq_lt(a, b),
        seq_lt(b, c),
    ensures
        seq_lt(a, c),
    decreases a.len(),
{
    if a.len() == 0 {
    } else if a[0] != b[0] {
        if b[0] != c[0] {
        } else {
        }
    } else {
        if b[0] != c[0] {
        } else {
            lemma_seq_lt_transitive(a.drop_first(), b.drop_first(), c.drop_first());
        }
    }
}

/// Whether `a` comes strictly before `b`.
pub fn chars_lt(a: &[char], b: &[char]) -> (r: bool)
    ensures
        r == seq_lt(a@, b@),
{
    let mut i: usize = 0;
    assert(a@.skip(0) =~= a@);
    assert(b@.skip(0) =~= b@);
    while i < a.len() && i < b.len() && a[i] == b[i]
        invariant
            i <= a.len(),
            i <= b.len(),
            seq_lt(a@, b@) == seq_lt(a@.skip(i as int), b@.skip(i as int)),
        decreases a.len() - i,
    {
        proof {
            let sa = a@.skip(i as int);
            let sb = b@.skip(i as int);
            assert(sa.drop_first() =~= a@.skip(i + 1));
            assert(sb.drop_first() =~= b@.skip(i + 1));
        }
        i = i + 1;
    }
    let sa = Ghost(a@.skip(i as int));
    let sb = Ghost(b@.skip(i as int));
    if i == a.len() {
        assert(sa@.len() == 0);
        i < b.len()
    } else if i == b.len() {
        false
    } else {
        assert(sa@[0] == a@[i as int]);
        assert(sb@[0] == b@[i as int]);
        a[i] < b[i]
    }
}

/// Whether text `a` comes strictly before text `b`.
pub fn str_lt(a: &str, b: &str) -> (r: bool)
    ensures
        r == seq_lt(a@, b@),
{
    let x = chars_of(a);
    let y = chars_of(b);
    chars_lt(x.as_slice(), y.as_slice())
}

/// Keys strictly ascending.
pub open spec fn keys_sorted(ks: Seq<Seq<char>>) -> bool {
    forall|i: int, j: int| 0 <= i < j < ks.len() ==> seq_lt(#[trigger] ks[i], #[trigger] ks[j])
}

/// Sorted keys hold no key twice.
pub proof fn lemma_sorted_distinct(ks: Seq<Seq<char>>)
    requires
        keys_sorted(ks),
    ensures
        forall|i: int, j: int| 0 <= i < ks.len() && 0 <= j < ks.len() && i != j ==> ks[i] != ks[j],
{
    assert forall|i: int, j: int| 0 <= i < ks.len() && 0 <= j < ks.len() && i != j implies ks[i]
        != ks[j] by {
        if i < j {
            lemma_seq_lt_irreflexive(ks[i]);
        } else {
            lemma_seq_lt_irreflexive(ks[j]);
        }
    }
}

/// No key occurs twice.
pub open spec fn distinct_keys(ks: Seq<Seq<char>>) -> bool {
    forall|i: int, j: int| 0 <= i < ks.len() && 0 <= j < ks.len() && i != j ==> ks[i] != ks[j]
}

/// The map that pairs each key with the value at the same position.
pub open spec fn pairs_map<V>(ks: Seq<Seq<char>>, vs: Seq<V>) -> Map<Seq<char>, V> {
    Map::new(
        |k: Seq<char>| ks.contains(k),
        |k: Seq<char>| vs[choose|i: int| 0 <= i < ks.len() && ks[i] == k],
    )
}

pub proof fn lemma_pairs_at<V>(ks: Seq<Seq<char>>, vs: Seq<V>, i: int)
    requires
        distinct_keys(ks),
        0 <= i < ks.len(),
    ensures
        pairs_map(ks, vs).dom().contains(ks[i]),
        pairs_map(ks, vs)[ks[i]] == vs[i],
{
    let k = ks[i];
    assert(ks[i] == k);
    let j = choose|j: int| 0 <= j < ks.len() && ks[j] == k;
    assert(j == i);
}

pub proof fn lemma_pairs_insert<V>(ks: Seq<Seq<char>>, vs: Seq<V>, p: int, k: Seq<char>, v: V)
    requires
        distinct_keys(ks.insert(p, k)),
        ks.len() == vs.len(),
        0 <= p <= ks.len(),
    ensures
        pairs_map(ks.insert(p, k), vs.insert(p, v)) == pairs_map(ks, vs).insert(k, v),
{
    let nk = ks.insert(p, k);
    let nv = vs.insert(p, v);
    assert(distinct_keys(ks)) by {
        assert forall|i: int, j: int| 0 <= i < ks.len() && 0 <= j < ks.len() && i != j implies ks[i] != ks[j] by {
            let a = if i < p { i } else { i + 1 };
            let b = if j < p { j } else { j + 1 };
            assert(nk[a] == ks[i] && nk[b] == ks[j]);
        }
    }
    let lhs = pairs_map(nk, nv);
    let rhs = pairs_map(ks, vs).insert(k, v);
    assert forall|x: Seq<char>| lhs.dom().contains(x) <==> rhs.dom().contains(x) by {
        if nk.contains(x) {
            let i = choose|i: int| 0 <= i < nk.len() && nk[i] == x;
            if i < p {
                assert(ks[i] == x);
            } else if i > p {
                assert(ks[i - 1] == x);
            }
        }
        if ks.contains(x) {
            let i = choose|i: int| 0 <= i < ks.len() && ks[i] == x;
            let a = if i < p { i } else { i + 1 };
            assert(nk[a] == x);
        }
        assert(nk[p] == k);
    }
    assert forall|x: Seq<char>| #[trigger] lhs.dom().contains(x) implies lhs[x] == rhs[x] by {
        if x == k {
            assert(nk[p] == k);
            lemma_pairs_at(nk, nv, p);
        } else {
            let i = choose|i: int| 0 <= i < ks.len() && ks[i] == x;
            let a = if i < p { i } else { i + 1 };
            assert(nk[a] == x);
            lemma_pairs_at(nk, nv, a);
            lemma_pairs_at(ks, vs, i);
        }
    }
    assert(lhs =~= rhs);
}

pub proof fn lemma_pairs_update<V>(ks: Seq<Seq<char>>, vs: Seq<V>, p: int, v: V)
    requires
        distinct_keys(ks),
        ks.len() == vs.len(),
        0 <= p < ks.len(),
    ensures
        pairs_map(ks, vs.update(p, v)) == pairs_map(ks, vs).insert(ks[p], v),
{
    let nv = vs.update(p, v);
    let lhs = pairs_map(ks, nv);
    let rhs = pairs_map(ks, vs).insert(ks[p], v);
    assert(ks[p] == ks[p]);
    assert forall|x: Seq<char>| lhs.dom().contains(x) <==> rhs.dom().contains(x) by {}
    assert forall|x: Seq<char>| #[trigger] lhs.dom().contains(x) implies lhs[x] == rhs[x] by {
        let i = choose|i: int| 0 <= i < ks.len() && ks[i] == x;
        lemma_pairs_at(ks, nv, i);
        lemma_pairs_at(ks, vs, i);
    }
    assert(lhs =~= rhs);
}

pub proof fn lemma_pairs_remove<V>(ks: Seq<Seq<char>>, vs: Seq<V>, p: int)
    requires
        distinct_keys(ks),
        ks.len() == vs.len(),
        0 <= p < ks.len(),
    ensures
        pairs_map(ks.remove(p), vs.remove(p)) == pairs_map(ks, vs).remove(ks[p]),
{
    let nk = ks.remove(p);
    let nv = vs.remove(p);
    assert(distinct_keys(nk)) by {
        assert forall|i: int, j: int| 0 <= i < nk.len() && 0 <= j < nk.len() && i != j implies nk[i] != nk[j] by {
            let a = if i < p { i } else { i + 1 };
            let b = if j < p { j } else { j + 1 };
            assert(nk[i] == ks[a] && nk[j] == ks[b]);
        }
    }
    let lhs = pairs_map(nk, nv);
    let rhs = pairs_map(ks, vs).remove(ks[p]);
    assert forall|x: Seq<char>| lhs.dom().contains(x) <==> rhs.dom().contains(x) by {
        if nk.contains(x) {
            let i = choose|i: int| 0 <= i < nk.len() && nk[i] == x;
            let a = if i < p { i } else { i + 1 };
            assert(ks[a] == x);
        }
        if ks.contains(x) && x != ks[p] {
            let i = choose|i: int| 0 <= i < ks.len() && ks[i] == x;
            if i < p {
                assert(nk[i] == x);
            } else {
                assert(nk[i - 1] == x);
            }
        }
    }
    assert forall|x: Seq<char>| #[trigger] lhs.dom().contains(x) implies lhs[x] == rhs[x] by {
        let i = choose|i: int| 0 <= i < nk.len() && nk[i] == x;
        let a = if i < p { i } else { i + 1 };
        assert(ks[a] == x);
        lemma_pairs_at(nk, nv, i);
        lemma_pairs_at(ks, vs, a);
    }
    assert(lhs =~= rhs);
}


/// The values satisfying `p` are as many as the keys whose value satisfies
/// it.
pub proof fn lemma_pairs_count<V>(ks: Seq<Seq<char>>, vs: Seq<V>, p: spec_fn(V) -> bool)
    requires
        distinct_keys(ks),
        ks.len() == vs.len(),
    ensures
        pairs_map(ks, vs).dom().finite(),
        vs.filter(p).len() == pairs_map(ks, vs).dom().filter(
            |k: Seq<char>| p(pairs_map(ks, vs)[k]),
        ).len(),
    decreases ks.len(),
{
    let m = pairs_map(ks, vs);
    assert(m.dom() =~= ks.to_set());
    ks.lemma_cardinality_of_set();
    let s = m.dom().filter(|k: Seq<char>| p(m[k]));
    m.dom().lemma_len_filter(|k: Seq<char>| p(m[k]));
    reveal(Seq::filter);
    if ks.len() == 0 {
        assert(s =~= Set::<Seq<char>>::empty());
    } else {
        let n = ks.len() - 1;
        let ks0 = ks.drop_last();
        let vs0 = vs.drop_last();
        assert(distinct_keys(ks0)) by {
            assert forall|i: int, j: int|
                0 <= i < ks0.len() && 0 <= j < ks0.len() && i != j implies ks0[i] != ks0[j] by {
                assert(ks0[i] == ks[i] && ks0[j] == ks[j]);
            }
        }
        lemma_pairs_count(ks0, vs0, p);
        assert(ks0.insert(n, ks[n]) =~= ks);
        assert(vs0.insert(n, vs[n]) =~= vs);
        lemma_pairs_insert(ks0, vs0, n, ks[n], vs[n]);
        let m0 = pairs_map(ks0, vs0);
        assert(!m0.dom().contains(ks[n])) by {
            if ks0.contains(ks[n]) {
                let w = choose|w: int| 0 <= w < ks0.len() && ks0[w] == ks[n];
                assert(ks[w] == ks[n]);
            }
        }
        let s0 = m0.dom().filter(|k: Seq<char>| p(m0[k]));
        m0.dom().lemma_len_filter(|k: Seq<char>| p(m0[k]));
        assert(vs.last() == vs[n]);
        if p(vs[n]) {
            assert(s =~= s0.insert(ks[n]));
        } else {
            assert(s =~= s0);
        }
    }
}

/// A map from texts to values whose entries stay in ascending key order.
#[derive(Debug)]
pub struct StrMap<V> {
    entries: Vec<(String, V)>,
}

impl<V> View for StrMap<V> {
    type V = Map<Seq<char>, V>;

    /// Each key with its value.
    open spec fn view(&self) -> Map<Seq<char>, V> {
        pairs_map(self.keys(), self.vals())
    }
}

impl<V> StrMap<V> {
    /// The keys, in ascending order.
    pub closed spec fn keys(&self) -> Seq<Seq<char>> {
        self.entries@.map_values(|e: (String, V)| e.0@)
    }

    /// The values, in the order of their keys.
    pub closed spec fn vals(&self) -> Seq<V> {
        self.entries@.map_values(|e: (String, V)| e.1)
    }

    #[verifier::type_invariant]
    closed spec fn inv(&self) -> bool {
        keys_sorted(self.keys())
    }

    /// The keys are in ascending order and there are as many values as keys.
    pub open spec fn wf(&self) -> bool {
        keys_sorted(self.keys()) && self.keys().len() == self.vals().len()
    }

    /// Position of `key` among the keys, if present.
    pub open spec fn index_of(&self, key: Seq<char>) -> int {
        choose|i: int| 0 <= i < self.keys().len() && self.keys()[i] == key
    }

    pub open spec fn has(&self, key: Seq<char>) -> bool {
        self.keys().contains(key)
    }

    /// The value stored at `key` (meaningful when `has(key)`).
    pub open spec fn at(&self, key: Seq<char>) -> V {
        self.vals()[self.index_of(key)]
    }

    pub fn new() -> (r: Self)
        ensures
            r.keys() == Seq::<Seq<char>>::empty(),
            r.vals() == Seq::<V>::empty(),
            r.wf(),
            r@ == Map::<Seq<char>, V>::empty(),
    {
        let r = StrMap { entries: Vec::new() };
        proof {
            assert(r.keys() =~= Seq::<Seq<char>>::empty());
            assert(r.vals() =~= Seq::<V>::empty());
            assert(r@ =~= Map::<Seq<char>, V>::empty());
        }
        r
    }

    pub fn len(&self) -> (r: usize)
        ensures
            r == self.keys().len(),
            r == self.vals().len(),
            self.wf(),
    {
        proof {
            use_type_invariant(self);
        }
        self.entries.len()
    }

    pub fn is_empty(&self) -> (r: bool)
        ensures
            r == (self.keys().len() == 0),
    {
        self.entries.len() == 0
    }

    pub fn key_at(&self, i: usize) -> (r: &String)
        requires
            i < self.keys().len(),
        ensures
            r@ == self.keys()[i as int],
    {
        &self.entries[i].0
    }

    pub fn value_at(&self, i: usize) -> (r: &V)
        requires
            i < self.vals().len(),
        ensures
            *r == self.vals()[i as int],
    {
        &self.entries[i].1
    }

    /// Position where `key` is or would be inserted: every key before it is
    /// smaller, and the key there (if any) is not smaller.
    fn search(&self, key: &str) -> (r: usize)
        ensures
            r <= self.keys().len(),
            forall|i: int| 0 <= i < r ==> seq_lt(#[trigger] self.keys()[i], key@),
            r < self.keys().len() ==> !seq_lt(self.keys()[r as int], key@),
    {
        let mut i: usize = 0;
        while i < self.entries.len()
            invariant
                i <= self.entries.len(),
                self.keys().len() == self.entries.len(),
                forall|k: int| 0 <= k < i ==> seq_lt(#[trigger] self.keys()[k], key@),
            decreases self.entries.len() - i,
        {
            if !str_lt(self.entries[i].0.as_str(), key) {
                return i;
            }
            i = i + 1;
        }
        i
    }

    /// Position of `key`, if it is a key of the map.
    pub fn find(&self, key: &str) -> (r: Option<usize>)
        ensures
            match r {
                Some(i) => i < self.keys().len() && self.keys()[i as int] == key@,
                None => !self.keys().contains(key@),
            },
    {
        proof {
            use_type_invariant(self);
        }
        let p = self.search(key);
        if p < self.entries.len() && !str_lt(key, self.entries[p].0.as_str()) {
            proof {
                lemma_seq_lt_trichotomy(self.keys()[p as int], key@);
            }
            return Some(p);
        }
        proof {
            assert forall|i: int| 0 <= i < self.keys().len() implies self.keys()[i] != key@ by {
                if i < p {
                    lemma_seq_lt_irreflexive(key@);
                } else {
                    if i > p {
                        lemma_seq_lt_trichotomy(self.keys()[p as int], key@);
                        if self.keys()[i] == key@ {
                            lemma_seq_lt_irreflexive(key@);
                        }
                    } else {
                        lemma_seq_lt_irreflexive(key@);
                    }
                }
            }
        }
        None
    }

    pub fn contains_key(&self, key: &str) -> (r: bool)
        ensures
            r == self.has(key@),
    {
        match self.find(key) {
            Some(_) => true,
            None => false,
        }
    }

    pub fn get(&self, key: &str) -> (r: Option<&V>)
        ensures
            match r {
                Some(v) => self.has(key@) && *v == self.at(key@) && *v == self@[key@],
                None => !self.has(key@),
            },
            self@.dom().contains(key@) == self.has(key@),
    {
        proof {
            use_type_invariant(self);
            lemma_sorted_distinct(self.keys());
        }
        match self.find(key) {
            Some(i) => {
                proof {
                    assert(self.keys()[i as int] == key@);
                    let j = self.index_of(key@);
                    assert(0 <= j < self.keys().len() && self.keys()[j] == key@);
                }
                Some(&self.entries[i].1)
            },
            None => None,
        }
    }

    /// Inserts `value` at `key`, replacing and returning the value that was
    /// there.
    pub fn insert(&mut self, key: String, value: V) -> (r: Option<V>)
        ensures
            match r {
                Some(v) => old(self).has(key@) && v == old(self).at(key@) && final(self).keys()
                    == old(self).keys() && final(self).vals() == old(self).vals().update(
                    old(self).index_of(key@),
                    value,
                ),
                None => !old(self).has(key@) && exists|p: int|
                    0 <= p <= old(self).keys().len() && final(self).keys() == old(
                        self,
                    ).keys().insert(p, key@) && final(self).vals() == old(self).vals().insert(
                        p,
                        value,
                    ),
            },
            final(self)@ == old(self)@.insert(key@, value),
            r == (if old(self)@.dom().contains(key@) { Some(old(self)@[key@]) } else { None::<V> }),
            final(self).wf(),
    {
        proof {
            use_type_invariant(&*self);
            lemma_sorted_distinct(self.keys());
        }
        let p = self.search(key.as_str());
        if p < self.entries.len() && !str_lt(key.as_str(), self.entries[p].0.as_str()) {
            proof {
                lemma_seq_lt_trichotomy(self.keys()[p as int], key@);
                assert(self.keys()[p as int] == key@);
                assert(self.keys().contains(key@));
                let j = self.index_of(key@);
                assert(0 <= j < self.keys().len() && self.keys()[j] == key@);
                assert(j == p);
            }
            let ghost old_entries = self.entries@;
            let mut tmp: Vec<(String, V)> = Vec::new();
            std::mem::swap(&mut tmp, &mut self.entries);
            let (k, old_v) = tmp.remove(p);
            tmp.insert(p, (k, value));
            proof {
                let nk = tmp@.map_values(|e: (String, V)| e.0@);
                assert(nk =~= old_entries.map_values(|e: (String, V)| e.0@));
            }
            self.entries = tmp;
            proof {
                assert(self.vals() =~= old(self).vals().update(p as int, value));
                lemma_sorted_distinct(old(self).keys());
                lemma_pairs_update(old(self).keys(), old(self).vals(), p as int, value);
            }
            return Some(old_v);
        }
        proof {
            assert forall|i: int| 0 <= i < self.keys().len() implies self.keys()[i] != key@ by {
                if i < p {
                    lemma_seq_lt_irreflexive(key@);
                } else if i > p {
                    lemma_seq_lt_trichotomy(self.keys()[p as int], key@);
                    if self.keys()[i] == key@ {
                        lemma_seq_lt_irreflexive(key@);
                    }
                } else {
                    lemma_seq_lt_irreflexive(key@);
                }
            }
        }
        let ghost kv = key@;
        let mut tmp: Vec<(String, V)> = Vec::new();
        std::mem::swap(&mut tmp, &mut self.entries);
        let ghost old_keys = tmp@.map_values(|e: (String, V)| e.0@);
        tmp.insert(p, (key, value));
        proof {
            let nk = tmp@.map_values(|e: (String, V)| e.0@);
            assert(nk =~= old_keys.insert(p as int, kv));
            assert forall|i: int, j: int| 0 <= i < j < nk.len() implies seq_lt(
                #[trigger] nk[i],
                #[trigger] nk[j],
            ) by {
                if j < p {
                    assert(nk[i] == old_keys[i] && nk[j] == old_keys[j]);
                } else if j == p {
                    assert(nk[i] == old_keys[i]);
                } else if i == p {
                    assert(nk[j] == old_keys[j - 1]);
                    if j - 1 > p {
                        lemma_seq_lt_trichotomy(old_keys[p as int], kv);
                        lemma_seq_lt_transitive(kv, old_keys[p as int], old_keys[j - 1]);
                    } else {
                        lemma_seq_lt_trichotomy(old_keys[p as int], kv);
                    }
                } else if i < p {
                    assert(nk[i] == old_keys[i] && nk[j] == old_keys[j - 1]);
                } else {
                    assert(nk[i] == old_keys[i - 1] && nk[j] == old_keys[j - 1]);
                }
            }
        }
        self.entries = tmp;
        proof {
            assert(self.vals() =~= old(self).vals().insert(p as int, value));
            lemma_sorted_distinct(self.keys());
            lemma_pairs_insert(old(self).keys(), old(self).vals(), p as int, kv, value);
        }
        None
    }

    /// Removes `key`, returning its value.
    pub fn remove(&mut self, key: &str) -> (r: Option<V>)
        ensures
            match r {
                Some(v) => old(self).has(key@) && v == old(self).at(key@) && final(self).keys()
                    == old(self).keys().remove(old(self).index_of(key@)) && final(self).vals()
                    == old(self).vals().remove(old(self).index_of(key@)),
                None => !old(self).has(key@) && final(self).keys() == old(self).keys()
                    && final(self).vals() == old(self).vals(),
            },
            final(self)@ == old(self)@.remove(key@),
            r == (if old(self)@.dom().contains(key@) { Some(old(self)@[key@]) } else { None::<V> }),
            final(self).wf(),
    {
        proof {
            use_type_invariant(&*self);
            lemma_sorted_distinct(self.keys());
        }
        match self.find(key) {
            None => {
                proof {
                    assert(old(self)@ =~= old(self)@.remove(key@));
                }
                None
            },
            Some(p) => {
                proof {
                    let j = self.index_of(key@);
                    assert(0 <= j < self.keys().len() && self.keys()[j] == key@);
                    assert(j == p);
                }
                let mut tmp: Vec<(String, V)> = Vec::new();
                std::mem::swap(&mut tmp, &mut self.entries);
                let ghost old_keys = tmp@.map_values(|e: (String, V)| e.0@);
                let (_k, v) = tmp.remove(p);
                proof {
                    let nk = tmp@.map_values(|e: (String, V)| e.0@);
                    assert(nk =~= old_keys.remove(p as int));
                    assert forall|i: int, j: int| 0 <= i < j < nk.len() implies seq_lt(
                        #[trigger] nk[i],
                        #[trigger] nk[j],
                    ) by {
                        if i < p && j < p {
                            assert(nk[i] == old_keys[i] && nk[j] == old_keys[j]);
                        } else if i < p {
                            assert(nk[i] == old_keys[i] && nk[j] == old_keys[j + 1]);
                        } else {
                            assert(nk[i] == old_keys[i + 1] && nk[j] == old_keys[j + 1]);
                        }
                    }
                }
                self.entries = tmp;
                proof {
                    assert(self.vals() =~= old(self).vals().remove(p as int));
                    lemma_pairs_remove(old(self).keys(), old(self).vals(), p as int);
                }
                Some(v)
            },
        }
    }
}


impl<V: Clone> Clone for StrMap<V> {
    /// Same keys, each value cloned.
    fn clone(&self) -> (r: Self)
        ensures
            r.keys() == self.keys(),
            r.vals().len() == self.vals().len(),
            forall|i: int|
                0 <= i < self.vals().len() ==> cloned::<V>(self.vals()[i], #[trigger] r.vals()[i]),
    {
        proof {
            use_type_invariant(self);
        }
        let mut entries: Vec<(String, V)> = Vec::new();
        let mut i: usize = 0;
        while i < self.entries.len()
            invariant
                i <= self.entries.len(),
                entries@.len() == i,
                forall|k: int| 0 <= k < i ==> (#[trigger] entries@[k]).0@ == self.entries@[k].0@,
                forall|k: int|
                    0 <= k < i ==> cloned::<V>(self.entries@[k].1, (#[trigger] entries@[k]).1),
            decreases self.entries.len() - i,
        {
            let k = self.entries[i].0.clone();
            let v = self.entries[i].1.clone();
            entries.push((k, v));
            i = i + 1;
        }
        proof {
            assert(entries@.map_values(|e: (String, V)| e.0@) =~= self.keys());
        }
        let r = StrMap { entries };
        r
    }
}

/// Two string maps whose keys agree and whose values are clones agree as maps.
pub proof fn lemma_cloned_strings_same(a: StrMap<String>, b: StrMap<String>)
    requires
        b.keys() == a.keys(),
        b.vals().len() == a.vals().len(),
        forall|i: int| 0 <= i < a.vals().len() ==> cloned::<String>(a.vals()[i], #[trigger] b.vals()[i]),
    ensures
        b@ == a@,
{
    assert(b.vals() =~= a.vals());
}


impl<V> StrMap<V> {
    /// The values, in the order of their keys.
    pub fn into_values(self) -> (r: Vec<V>)
        ensures
            r@ == self.vals(),
    {
        let StrMap { entries } = self;
        let ghost all = entries@.map_values(|e: (String, V)| e.1);
        let mut es = entries;
        let mut out: Vec<V> = Vec::new();
        while es.len() > 0
            invariant
                out@ + es@.map_values(|e: (String, V)| e.1) == all,
            decreases es.len(),
        {
            let ghost before = es@;
            let (_k, v) = es.remove(0);
            proof {
                assert(before.map_values(|e: (String, V)| e.1) =~= seq![v] + es@.map_values(
                    |e: (String, V)| e.1,
                ));
            }
            out.push(v);
            proof {
                assert(out@ + es@.map_values(|e: (String, V)| e.1) =~= all);
            }
        }
        proof {
            assert(es@.map_values(|e: (String, V)| e.1) =~= Seq::<V>::empty());
            assert(out@ =~= all);
        }
        out
    }
}

} // verus!
