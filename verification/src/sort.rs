//! A verified ascending sort of intensity values, used by the normalizer to
//! find its percentile threshold. The result is pinned to `Seq::sort_by`, so
//! callers can speak of "the ascending rearrangement" of a grid's values.

use vstd::prelude::*;
use vstd::relations::{sorted_by, total_ordering};
use vstd::seq_lib::lemma_sorted_unique;

verus! {

broadcast use {vstd::seq_lib::group_to_multiset_ensures, vstd::multiset::group_multiset_axioms};

/// The total order on intensities by which the normalizer sorts.
pub open spec fn u32_le() -> spec_fn(u32, u32) -> bool {
    |a: u32, b: u32| a <= b
}

/// `u32_le` is a total ordering, as `Seq::sort_by` demands.
pub proof fn lemma_u32_le_total_ordering()
    ensures
        total_ordering(u32_le()),
{
    let le = u32_le();
    assert forall|a: u32, b: u32| #[trigger] le(a, b) || #[trigger] le(b, a) by {}
    assert forall|a: u32, b: u32, c: u32| #[trigger] le(a, b) && #[trigger] le(b, c) implies le(a, c) by {}
}

/// The ascending rearrangement of a sequence of intensities.
pub open spec fn sorted_of(s: Seq<u32>) -> Seq<u32> {
    s.sort_by(u32_le())
}

/// Sorts the vector of intensities ascending, in place (insertion sort).
pub fn sort_u32(v: &mut Vec<u32>)
    ensures
        final(v)@ == sorted_of(old(v)@),
        final(v)@.len() == old(v)@.len(),
        final(v)@.to_multiset() == old(v)@.to_multiset(),
        sorted_by(final(v)@, u32_le()),
{
    let ghost orig = v@;
    let n = v.len();
    if n <= 1 {
        proof {
            lemma_u32_le_total_ordering();
            orig.lemma_sort_by_ensures(u32_le());
            assert(orig.to_multiset() =~= sorted_of(orig).to_multiset());
            lemma_sorted_unique(v@, sorted_of(orig), u32_le());
            assert(v@ =~= sorted_of(orig));
        }
        return;
    }
    let mut i: usize = 1;
    while i < n
        invariant
            1 <= i <= n,
            n == v@.len() == orig.len(),
            v@.to_multiset() == orig.to_multiset(),
            forall|a: int, b: int| 0 <= a < b < i ==> v@[a] <= v@[b],
        decreases n - i,
    {
        let mut j: usize = i;
        while j > 0 && v[j - 1] > v[j]
            invariant
                j <= i < n,
                n == v@.len() == orig.len(),
                v@.to_multiset() == orig.to_multiset(),
                forall|a: int, b: int|
                    0 <= a < b <= i && a != j && b != j ==> v@[a] <= v@[b],
                forall|a: int| j < a <= i ==> v@[j as int] <= v@[a],
            decreases j,
        {
            let ghost pre = v@;
            let x = v[j - 1];
            let y = v[j];
            v[j - 1] = y;
            v[j] = x;
            proof {
                assert(pre.to_multiset().count(x) >= 1) by {
                    assert(pre.contains(x));
                }
                assert(v@ == pre.update(j - 1, y).update(j as int, x));
                assert(v@.to_multiset() =~= pre.to_multiset());
            }
            j = j - 1;
        }
        proof {
            assert forall|a: int, b: int| 0 <= a < b < i + 1 implies v@[a] <= v@[b] by {
                if j == 0 {
                    if a == 0 {
                        assert(v@[a] <= v@[b]);
                    }
                } else {
                    if b == j {
                        if a == j - 1 {
                            assert(v@[a] <= v@[b]);
                        } else {
                            assert(v@[a] <= v@[j - 1]);
                        }
                    } else if a == j {
                        assert(v@[j as int] <= v@[b]);
                    }
                }
            }
        }
        i = i + 1;
    }
    proof {
        lemma_u32_le_total_ordering();
        orig.lemma_sort_by_ensures(u32_le());
        assert(sorted_by(v@, u32_le()));
        assert(orig.to_multiset() =~= sorted_of(orig).to_multiset());
        lemma_sorted_unique(v@, sorted_of(orig), u32_le());
        assert(v@ =~= sorted_of(orig));
    }
}

} // verus!
