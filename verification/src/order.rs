//! Arranging things in the order of a text that each of them has.

use crate::text::{lemma_lex_total, lemma_lex_transitive, lex_le, str_le, views};
use vstd::prelude::*;

verus! {

/// `order` names each of the first `n` places of `keys` once, by ascending
/// key; of two places whose keys are equal the earlier one comes first.
pub open spec fn arranges(order: Seq<usize>, keys: Seq<Seq<char>>, n: int) -> bool {
    &&& order.len() == n
    &&& n <= keys.len()
    &&& forall|i: int| 0 <= i < order.len() ==> (#[trigger] order[i]) < n
    &&& forall|i: int, j: int|
        0 <= i < j < order.len() ==> {
            &&& lex_le(keys[(#[trigger] order[i]) as int], keys[(#[trigger] order[j]) as int])
            &&& lex_le(keys[order[j] as int], keys[order[i] as int]) ==> order[i] < order[j]
        }
}

/// `order` names every place of `keys` once, by ascending key; of two places
/// whose keys are equal the earlier one comes first.
pub open spec fn is_stable_order(order: Seq<usize>, keys: Seq<Seq<char>>) -> bool {
    arranges(order, keys, keys.len() as int)
}

/// The places of the keys in the order of a stable sort.
pub fn stable_order(keys: &Vec<String>) -> (r: Vec<usize>)
    ensures
        is_stable_order(r@, views(keys@)),
{
    let ghost ks = views(keys@);
    let mut out: Vec<usize> = Vec::new();
    let mut i: usize = 0;
    while i < keys.len()
        invariant
            i <= keys.len(),
            ks == views(keys@),
            arranges(out@, ks, i as int),
        decreases keys.len() - i,
    {
        let mut p: usize = 0;
        while p < out.len() && str_le(keys[out[p]].as_str(), keys[i].as_str())
            invariant
                p <= out.len(),
                i < keys.len(),
                ks == views(keys@),
                arranges(out@, ks, i as int),
                forall|k: int| 0 <= k < p ==> lex_le(ks[(#[trigger] out@[k]) as int], ks[i as int]),
            decreases out.len() - p,
        {
            p = p + 1;
        }
        proof {
            let before = out@;
            let after = before.insert(p as int, i);
            assert forall|a: int| 0 <= a < after.len() implies (#[trigger] after[a]) < i + 1 by {
                if a < p {
                    assert(after[a] == before[a]);
                } else if a > p {
                    assert(after[a] == before[a - 1]);
                }
            }
            assert forall|a: int, b: int| 0 <= a < b < after.len() implies {
                &&& lex_le(ks[(#[trigger] after[a]) as int], ks[(#[trigger] after[b]) as int])
                &&& lex_le(ks[after[b] as int], ks[after[a] as int]) ==> after[a] < after[b]
            } by {
                if b < p {
                    assert(after[a] == before[a] && after[b] == before[b]);
                } else if b == p {
                    assert(after[a] == before[a] && after[b] == i);
                } else if a == p {
                    assert(after[a] == i && after[b] == before[b - 1]);
                    let first = ks[before[p as int] as int];
                    let other = ks[before[b - 1] as int];
                    assert(!lex_le(first, ks[i as int]));
                    lemma_lex_total(first, ks[i as int]);
                    if b - 1 > p {
                        assert(lex_le(first, other));
                        lemma_lex_transitive(ks[i as int], first, other);
                        if lex_le(other, ks[i as int]) {
                            lemma_lex_transitive(first, other, ks[i as int]);
                        }
                    }
                } else if a < p {
                    assert(after[a] == before[a] && after[b] == before[b - 1]);
                } else {
                    assert(after[a] == before[a - 1] && after[b] == before[b - 1]);
                }
            }
        }
        out.insert(p, i);
        i = i + 1;
    }
    out
}

} // verus!
