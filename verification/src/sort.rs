//! Stable ordering of items by a (rank, text) key.
//!
//! The key is compared by rank first and then by text in lexicographic order;
//! items with equal keys keep their original order.  The result is the
//! permutation of item positions that puts the items in that order.
use vstd::prelude::*;

use crate::strmap::{lemma_seq_lt_transitive, lemma_seq_lt_trichotomy, seq_lt, chars_lt};
use crate::text::chars_of;

verus! {

/// Key `(ra, ta)` comes strictly before key `(rb, tb)`.
pub open spec fn key_lt(ra: int, ta: Seq<char>, rb: int, tb: Seq<char>) -> bool {
    ra < rb || (ra == rb && seq_lt(ta, tb))
}

/// Item `a` comes before item `b` in the stable order.
pub open spec fn stable_before(ranks: Seq<i64>, texts: Seq<Seq<char>>, a: int, b: int) -> bool {
    key_lt(ranks[a] as int, texts[a], ranks[b] as int, texts[b]) || (ranks[a] == ranks[b]
        && texts[a] == texts[b] && a < b)
}

/// `out` lists every position below `n` exactly once.
pub open spec fn is_permutation(out: Seq<usize>, n: nat) -> bool {
    &&& out.len() == n
    &&& forall|i: int| 0 <= i < out.len() ==> (#[trigger] out[i]) < n
    &&& forall|i: int, j: int| 0 <= i < j < out.len() ==> out[i] != out[j]
}

/// `out` is the stable sort of the items with the given keys.
pub open spec fn is_stable_sort(ranks: Seq<i64>, texts: Seq<Seq<char>>, out: Seq<usize>) -> bool {
    &&& is_permutation(out, ranks.len())
    &&& forall|i: int, j: int|
        0 <= i < j < out.len() ==> stable_before(ranks, texts, #[trigger] out[i] as int, #[trigger] out[j] as int)
}

proof fn lemma_key_trichotomy(ra: int, ta: Seq<char>, rb: int, tb: Seq<char>)
    ensures
        key_lt(ra, ta, rb, tb) || key_lt(rb, tb, ra, ta) || (ra == rb && ta == tb),
        !(key_lt(ra, ta, rb, tb) && key_lt(rb, tb, ra, ta)),
{
    lemma_seq_lt_trichotomy(ta, tb);
}

proof fn lemma_key_transitive(ra: int, ta: Seq<char>, rb: int, tb: Seq<char>, rc: int, tc: Seq<char>)
    requires
        key_lt(ra, ta, rb, tb),
        key_lt(rb, tb, rc, tc) || (rb == rc && tb == tc),
    ensures
        key_lt(ra, ta, rc, tc),
{
    if ra == rb && rb == rc && seq_lt(tb, tc) {
        lemma_seq_lt_transitive(ta, tb, tc);
    }
}

/// Whether key `(ra, ta)` comes strictly before key `(rb, tb)`.
fn key_lt_exec(ra: i64, ta: &[char], rb: i64, tb: &[char]) -> (r: bool)
    ensures
        r == key_lt(ra as int, ta@, rb as int, tb@),
{
    if ra < rb {
        true
    } else if ra > rb {
        false
    } else {
        chars_lt(ta, tb)
    }
}

/// The positions `0..ranks.len()` in stable order of the keys
/// `(ranks[i], texts[i])`.
pub fn stable_sort_indices(ranks: &Vec<i64>, texts: &Vec<String>) -> (out: Vec<usize>)
    requires
        ranks.len() == texts.len(),
    ensures
        is_stable_sort(ranks@, texts@.map_values(|s: String| s@), out@),
{
    let ghost tv = texts@.map_values(|s: String| s@);
    let n = ranks.len();
    let mut chars: Vec<Vec<char>> = Vec::new();
    let mut c: usize = 0;
    while c < n
        invariant
            c <= n,
            n == ranks.len(),
            n == texts.len(),
            tv == texts@.map_values(|s: String| s@),
            chars.len() == c,
            forall|i: int| 0 <= i < c ==> (#[trigger] chars@[i])@ == tv[i],
        decreases n - c,
    {
        chars.push(chars_of(texts[c].as_str()));
        c = c + 1;
    }
    let mut out: Vec<usize> = Vec::new();
    let mut k: usize = 0;
    while k < n
        invariant
            k <= n,
            n == ranks.len(),
            n == texts.len(),
            tv.len() == n,
            chars.len() == n,
            forall|i: int| 0 <= i < n ==> (#[trigger] chars@[i])@ == tv[i],
            is_permutation(out@, k as nat),
            forall|i: int, j: int|
                0 <= i < j < out.len() ==> stable_before(ranks@, tv, #[trigger] out@[i] as int, #[trigger] out@[j] as int),
        decreases n - k,
    {
        // first position whose key is strictly greater than key k
        let mut p: usize = 0;
        while p < out.len() && !key_lt_exec(
            ranks[k],
            chars[k].as_slice(),
            ranks[out[p]],
            chars[out[p]].as_slice(),
        )
            invariant
                p <= out.len(),
                k < n,
                n == ranks.len(),
                chars.len() == n,
                tv.len() == n,
                forall|i: int| 0 <= i < n ==> (#[trigger] chars@[i])@ == tv[i],
                is_permutation(out@, k as nat),
                forall|i: int|
                    0 <= i < p ==> !key_lt(
                        ranks@[k as int] as int,
                        tv[k as int],
                        ranks@[#[trigger] out@[i] as int] as int,
                        tv[out@[i] as int],
                    ),
            decreases out.len() - p,
        {
            p = p + 1;
        }
        let ghost old_out = out@;
        out.insert(p, k);
        proof {
            let kk = k as int;
            assert(out@ =~= old_out.insert(p as int, k));
            assert forall|i: int, j: int| 0 <= i < j < out.len() implies stable_before(
                ranks@,
                tv,
                #[trigger] out@[i] as int,
                #[trigger] out@[j] as int,
            ) by {
                if j < p {
                    assert(out@[i] == old_out[i] && out@[j] == old_out[j]);
                } else if j == p {
                    // element i sorts no later than k, and comes first
                    assert(out@[i] == old_out[i]);
                    let a = old_out[i] as int;
                    lemma_key_trichotomy(ranks@[a] as int, tv[a], ranks@[kk] as int, tv[kk]);
                } else if i == p {
                    assert(out@[j] == old_out[j - 1]);
                    let b = old_out[j - 1] as int;
                    let q = old_out[p as int] as int;
                    if j - 1 > p {
                        assert(stable_before(ranks@, tv, q, b));
                        lemma_key_trichotomy(ranks@[q] as int, tv[q], ranks@[b] as int, tv[b]);
                        lemma_key_transitive(
                            ranks@[kk] as int,
                            tv[kk],
                            ranks@[q] as int,
                            tv[q],
                            ranks@[b] as int,
                            tv[b],
                        );
                    }
                } else if i < p {
                    assert(out@[i] == old_out[i] && out@[j] == old_out[j - 1]);
                } else {
                    assert(out@[i] == old_out[i - 1] && out@[j] == old_out[j - 1]);
                }
            }
            assert forall|i: int, j: int| 0 <= i < j < out.len() implies out@[i] != out@[j] by {
                if i == p {
                    assert(old_out[j - 1] < k);
                } else if j == p {
                    assert(old_out[i] < k);
                } else if i < p && j > p {
                    assert(out@[i] == old_out[i] && out@[j] == old_out[j - 1]);
                } else if j < p {
                    assert(out@[i] == old_out[i] && out@[j] == old_out[j]);
                } else {
                    assert(out@[i] == old_out[i - 1] && out@[j] == old_out[j - 1]);
                }
            }
            assert forall|i: int| 0 <= i < out.len() implies (#[trigger] out@[i]) < k + 1 by {
                if i < p {
                    assert(out@[i] == old_out[i]);
                } else if i > p {
                    assert(out@[i] == old_out[i - 1]);
                }
            }
        }
        k = k + 1;
    }
    out
}

} // verus!
