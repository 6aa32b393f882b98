//! A stable insertion sort over any ranking, proved once for every item
//! type that the library orders (notes, topics).

use vstd::prelude::*;
use vstd::multiset::Multiset;

verus! {

broadcast use vstd::seq_lib::group_to_multiset_ensures, vstd::multiset::group_multiset_axioms;

/// A strict order on `T` that sorting goes by: `precedes(a, b)` says that
/// `a` comes strictly before `b`.
pub trait Ranking<T> {
    spec fn precedes(&self, a: T, b: T) -> bool;

    /// Whether `a` comes strictly before `b`.
    fn is_before(&self, a: &T, b: &T) -> (r: bool)
        ensures
            r == self.precedes(*a, *b),
    ;

    /// The ranking is asymmetric and transitive, and an item that comes
    /// before `b` comes before whatever does not come before `b`.
    proof fn lemma_order(&self, a: T, b: T, c: T)
        ensures
            !(self.precedes(a, b) && self.precedes(b, a)),
            self.precedes(a, b) && self.precedes(b, c) ==> self.precedes(a, c),
            self.precedes(a, b) && !self.precedes(c, b) ==> self.precedes(a, c),
    ;
}

/// No item comes after one that it should precede.
pub open spec fn sorted_by<T, R: Ranking<T>>(rank: R, s: Seq<T>) -> bool {
    forall|i: int, j: int| 0 <= i < j < s.len() ==> !rank.precedes(#[trigger] s[j], #[trigger] s[i])
}

/// `perm` says where each item of `out` came from in `input` (each input
/// position at most once), and items that rank equally keep their input
/// order.
pub open spec fn stable_by<T, R: Ranking<T>>(rank: R, input: Seq<T>, out: Seq<T>, perm: Seq<int>) -> bool {
    &&& perm.len() == out.len()
    &&& forall|i: int| 0 <= i < out.len() ==> 0 <= #[trigger] perm[i] < input.len() && out[i] == input[perm[i]]
    &&& forall|i: int, j: int| 0 <= i < j < out.len() ==> #[trigger] perm[i] != #[trigger] perm[j]
    &&& forall|i: int, j: int|
        0 <= i < j < out.len() && !rank.precedes(out[i], out[j]) ==> #[trigger] perm[i]
            < #[trigger] perm[j]
}

/// Stable insertion sort by `rank`: the result holds the same items,
/// sorted, and items that rank equally keep their input order.
pub fn stable_sort<T, R: Ranking<T>>(items: Vec<T>, rank: &R) -> (out: Vec<T>)
    ensures
        out@.to_multiset() == items@.to_multiset(),
        sorted_by(*rank, out@),
        exists|perm: Seq<int>| stable_by(*rank, items@, out@, perm),
{
    let ghost all = items@;
    let total = items.len();
    let mut input = items;
    let mut out: Vec<T> = Vec::new();
    let ghost mut perm: Seq<int> = Seq::empty();
    let mut k: usize = 0;
    while input.len() > 0
        invariant
            out@.to_multiset().add(input@.to_multiset()) == all.to_multiset(),
            sorted_by(*rank, out@),
            k + input@.len() == all.len(),
            all.len() == total,
            input@ == all.skip(k as int),
            stable_by(*rank, all, out@, perm),
            forall|i: int| 0 <= i < perm.len() ==> #[trigger] perm[i] < k,
        decreases input@.len(),
    {
        let ghost in0 = input@;
        let x = input.remove(0);
        let mut p: usize = 0;
        while p < out.len() && !rank.is_before(&x, &out[p])
            invariant
                p <= out@.len(),
                forall|j: int| 0 <= j < p ==> !rank.precedes(x, #[trigger] out@[j]),
            decreases out@.len() - p,
        {
            p = p + 1;
        }
        let ghost o0 = out@;
        let ghost p0 = perm;
        proof {
            assert forall|j: int| p <= j < o0.len() implies !rank.precedes(#[trigger] o0[j], x) by {
                rank.lemma_order(o0[j], x, o0[p as int]);
                rank.lemma_order(x, o0[p as int], o0[j]);
            }
            assert forall|j: int| p <= j < o0.len() implies rank.precedes(x, #[trigger] o0[j]) by {
                rank.lemma_order(x, o0[p as int], o0[j]);
            }
        }
        out.insert(p, x);
        proof {
            perm = p0.insert(p as int, k as int);
            assert(in0[0] == x);
            assert(all[k as int] == in0[0]);
            assert forall|i: int, j: int| 0 <= i < j < out@.len() implies !rank.precedes(
                #[trigger] out@[j],
                #[trigger] out@[i],
            ) by {
                if j < p {
                    assert(out@[j] == o0[j] && out@[i] == o0[i]);
                } else if j == p {
                    assert(out@[i] == o0[i]);
                } else if i == p {
                    assert(out@[j] == o0[j - 1]);
                } else if i < p {
                    assert(out@[j] == o0[j - 1] && out@[i] == o0[i]);
                } else {
                    assert(out@[j] == o0[j - 1] && out@[i] == o0[i - 1]);
                }
            }
            assert forall|i: int| 0 <= i < out@.len() implies 0 <= #[trigger] perm[i] < all.len()
                && out@[i] == all[perm[i]] by {
                if i < p {
                    assert(perm[i] == p0[i] && out@[i] == o0[i]);
                } else if i > p {
                    assert(perm[i] == p0[i - 1] && out@[i] == o0[i - 1]);
                }
            }
            assert forall|i: int, j: int| 0 <= i < j < out@.len() implies #[trigger] perm[i]
                != #[trigger] perm[j] by {
                if i < p && j < p {
                    assert(perm[i] == p0[i] && perm[j] == p0[j]);
                } else if i < p && j > p {
                    assert(perm[i] == p0[i] && perm[j] == p0[j - 1]);
                } else if i > p && j > p {
                    assert(perm[i] == p0[i - 1] && perm[j] == p0[j - 1]);
                } else if i == p {
                    assert(perm[j] == p0[j - 1]);
                } else {
                    assert(perm[i] == p0[i]);
                }
            }
            assert forall|i: int, j: int|
                0 <= i < j < out@.len() && !rank.precedes(out@[i], out@[j]) implies #[trigger] perm[i]
                    < #[trigger] perm[j] by {
                if i < p && j < p {
                    assert(perm[i] == p0[i] && perm[j] == p0[j]);
                    assert(out@[i] == o0[i] && out@[j] == o0[j]);
                } else if i < p && j > p {
                    assert(perm[i] == p0[i] && perm[j] == p0[j - 1]);
                    assert(out@[i] == o0[i] && out@[j] == o0[j - 1]);
                } else if i > p && j > p {
                    assert(perm[i] == p0[i - 1] && perm[j] == p0[j - 1]);
                    assert(out@[i] == o0[i - 1] && out@[j] == o0[j - 1]);
                } else if i == p {
                    assert(out@[j] == o0[j - 1]);
                    assert(rank.precedes(x, o0[j - 1]));
                } else {
                    assert(perm[i] == p0[i]);
                }
            }
            assert forall|i: int| 0 <= i < perm.len() implies #[trigger] perm[i] < k + 1 by {
                if i < p {
                    assert(perm[i] == p0[i]);
                } else if i > p {
                    assert(perm[i] == p0[i - 1]);
                }
            }
            assert(in0.remove(0) == input@);
            assert(all.skip(k + 1) =~= in0.remove(0));
            assert(out@.to_multiset().add(input@.to_multiset()) =~= o0.to_multiset().add(
                in0.to_multiset(),
            ));
        }
        k = k + 1;
    }
    assert(input@.to_multiset() =~= Multiset::empty());
    assert(out@.to_multiset().add(Multiset::empty()) =~= out@.to_multiset());
    out
}

} // verus!
