//! Quicksort, with the first element as the pivot.

use vstd::prelude::*;
use crate::sorting::Sorter;
use crate::sorting::sorted;
use crate::sorting::rearranged;
use crate::sorting::lemma_swap_rearranges;
use crate::sorting::lemma_short_sorted;
use crate::sorting::order::lawful;
use crate::sorting::order::le;
use crate::sorting::order::greater;
use crate::sorting::order::at_most;
use crate::sorting::order::lemma_le_trans;
use crate::sorting::order::lemma_le_total;
use crate::sorting::order::lemma_le_refl;

verus! {

/// `s` is split around position `p`: nothing before it is larger than the
/// element there, and everything after it is.
pub open spec fn split_around<T: Ord>(s: Seq<T>, p: int) -> bool {
    &&& 0 <= p < s.len()
    &&& forall|k: int| 0 <= k < p ==> le(#[trigger] s[k], s[p])
    &&& forall|k: int| p < k < s.len() ==> !le(#[trigger] s[k], s[p])
}

/// Every element of `s` is at most `x`.
pub open spec fn all_at_most<T: Ord>(s: Seq<T>, x: T) -> bool {
    forall|k: int| 0 <= k < s.len() ==> le(#[trigger] s[k], x)
}

/// Every element of `s` is larger than `x`.
pub open spec fn all_above<T: Ord>(s: Seq<T>, x: T) -> bool {
    forall|k: int| 0 <= k < s.len() ==> !le(#[trigger] s[k], x)
}

/// Rearranging a sequence keeps a bound that held of all its elements.
pub proof fn lemma_rearranged_at_most<T: Ord>(before: Seq<T>, after: Seq<T>, x: T)
    requires
        rearranged(before, after),
        all_at_most(before, x),
    ensures
        all_at_most(after, x),
{
    assert forall|k: int| 0 <= k < after.len() implies le(#[trigger] after[k], x) by {
        lemma_rearranged_member(before, after, k);
        let j = choose|j: int| 0 <= j < before.len() && before[j] == after[k];
        assert(le(before[j], x));
    }
}

/// Rearranging a sequence keeps a bound that all its elements exceeded.
pub proof fn lemma_rearranged_above<T: Ord>(before: Seq<T>, after: Seq<T>, x: T)
    requires
        rearranged(before, after),
        all_above(before, x),
    ensures
        all_above(after, x),
{
    assert forall|k: int| 0 <= k < after.len() implies !le(#[trigger] after[k], x) by {
        lemma_rearranged_member(before, after, k);
        let j = choose|j: int| 0 <= j < before.len() && before[j] == after[k];
        assert(!le(before[j], x));
    }
}

/// Each element of a rearranged sequence stood somewhere in the sequence before.
pub proof fn lemma_rearranged_member<T>(before: Seq<T>, after: Seq<T>, k: int)
    requires
        rearranged(before, after),
        0 <= k < after.len(),
    ensures
        exists|j: int| 0 <= j < before.len() && before[j] == after[k],
{
    before.to_multiset_ensures();
    after.to_multiset_ensures();
    assert(after.contains(after[k]));
    assert(after.to_multiset().count(after[k]) > 0);
    assert(before.to_multiset().count(after[k]) > 0);
    assert(before.contains(after[k]));
}

/// Two sorted runs around a pivot that separates them make one sorted run.
pub proof fn lemma_join_sorted<T: Ord>(low: Seq<T>, pivot: T, high: Seq<T>)
    requires
        lawful::<T>(),
        sorted(low),
        sorted(high),
        all_at_most(low, pivot),
        all_above(high, pivot),
    ensures
        sorted(low + seq![pivot] + high),
{
    let s = low + seq![pivot] + high;
    let p = low.len() as int;
    assert forall|i: int, j: int| 0 <= i <= j < s.len() implies le(s[i], s[j]) by {
        if j < p {
            assert(s[i] == low[i] && s[j] == low[j]);
        } else if i > p {
            assert(s[i] == high[i - p - 1] && s[j] == high[j - p - 1]);
        } else {
            // s[i] <= pivot <= s[j]
            if i < p {
                assert(s[i] == low[i]);
            } else {
                lemma_le_refl(pivot);
            }
            if j > p {
                assert(s[j] == high[j - p - 1]);
                lemma_le_total(s[j], pivot);
            } else {
                lemma_le_refl(pivot);
            }
            lemma_le_trans(s[i], pivot, s[j]);
        }
    }
}

/// Rearranging two parts of a sequence, each within itself, rearranges the whole.
pub proof fn lemma_join_rearranged<T>(a0: Seq<T>, b0: Seq<T>, a1: Seq<T>, b1: Seq<T>)
    requires
        rearranged(a0, a1),
        rearranged(b0, b1),
    ensures
        rearranged(a0 + b0, a1 + b1),
{
    vstd::seq_lib::lemma_multiset_commutative(a0, b0);
    vstd::seq_lib::lemma_multiset_commutative(a1, b1);
}

/// Sorts `slice` in place: splits it around its first element, then sorts the
/// part on either side.
pub fn quicksort<T: Ord>(slice: &mut [T])
    requires
        lawful::<T>(),
    ensures
        sorted(final(slice)@),
        rearranged(old(slice)@, final(slice)@),
    decreases old(slice)@.len(),
{
    let n: usize = slice.len();
    if n <= 1 {
        proof {
            lemma_short_sorted(slice@);
        }
        return;
    }
    let ghost before = slice@;
    if n == 2 {
        if greater(&slice[0], &slice[1]) {
            slice.swap(0, 1);
            proof {
                lemma_swap_rearranges(before, 0, 1);
                lemma_le_total(before[0], before[1]);
            }
        }
        proof {
            assert forall|i: int, j: int| 0 <= i <= j < slice@.len() implies le(
                slice@[i],
                slice@[j],
            ) by {
                lemma_le_refl(slice@[i]);
            }
        }
        return;
    }
    // The pivot is the first element; `left_idx` and `right_idx` count within
    // the rest, which starts one position later.
    let mut left_idx: usize = 0;
    let mut right_idx: usize = n - 2;
    while left_idx <= right_idx
        invariant_except_break
            left_idx <= right_idx + 1,
            forall|k: int| 1 <= k < left_idx + 1 ==> le(#[trigger] slice@[k], slice@[0]),
            forall|k: int| right_idx + 2 <= k < n ==> !le(#[trigger] slice@[k], slice@[0]),
        invariant
            lawful::<T>(),
            n == slice@.len(),
            n >= 3,
            right_idx <= n - 2,
            rearranged(before, slice@),
        ensures
            left_idx <= n - 1,
            forall|k: int| 1 <= k < left_idx + 1 ==> le(#[trigger] slice@[k], slice@[0]),
            forall|k: int| left_idx + 1 <= k < n ==> !le(#[trigger] slice@[k], slice@[0]),
        decreases right_idx + 1 - left_idx,
    {
        if at_most(&slice[left_idx + 1], &slice[0]) {
            // already on the correct side
            left_idx += 1;
        } else if greater(&slice[right_idx + 1], &slice[0]) {
            // already on the correct side
            if right_idx == 0 {
                break;
            }
            right_idx -= 1;
        } else {
            // move the large element to the right side, the small one to the left
            let ghost s0 = slice@;
            slice.swap(left_idx + 1, right_idx + 1);
            proof {
                lemma_swap_rearranges(s0, left_idx + 1, right_idx + 1);
            }
            left_idx += 1;
            right_idx -= 1;
        }
    }
    // Place the pivot at its final location.
    let ghost parted = slice@;
    slice.swap(0, left_idx);
    proof {
        lemma_swap_rearranges(parted, 0, left_idx as int);
        assert(split_around(slice@, left_idx as int));
    }
    let ghost placed = slice@;
    let ghost pivot = placed[left_idx as int];
    let (left, right) = slice.split_at_mut(left_idx);
    let ghost left0 = left@;
    let ghost right0 = right@;
    quicksort(left);
    let (mid, tail) = right.split_at_mut(1);
    let ghost tail0 = tail@;
    quicksort(tail);
    proof {
        assert(left0 =~= placed.subrange(0, left_idx as int));
        assert(right0 =~= placed.subrange(left_idx as int, n as int));
        assert(mid@ =~= seq![pivot]);
        assert(tail0 =~= placed.subrange(left_idx + 1, n as int));
        assert(all_at_most(left0, pivot)) by {
            assert forall|k: int| 0 <= k < left0.len() implies le(#[trigger] left0[k], pivot) by {
                assert(left0[k] == placed[k]);
            }
        }
        assert(all_above(tail0, pivot)) by {
            assert forall|k: int| 0 <= k < tail0.len() implies !le(#[trigger] tail0[k], pivot) by {
                assert(tail0[k] == placed[k + left_idx + 1]);
            }
        }
        lemma_rearranged_at_most(left0, left@, pivot);
        lemma_rearranged_above(tail0, tail@, pivot);
        lemma_join_sorted(left@, pivot, tail@);
        lemma_join_rearranged(seq![pivot], tail0, seq![pivot], tail@);
        lemma_join_rearranged(left0, seq![pivot] + tail0, left@, seq![pivot] + tail@);
        assert(placed =~= left0 + (seq![pivot] + tail0));
        assert(left@ + (mid@ + tail@) =~= left@ + seq![pivot] + tail@);
    }
}

pub struct QuickSort;

impl Sorter for QuickSort {
    /// Sorts by quicksort.
    fn sort<T>(&self, slice: &mut [T]) where T: Ord {
        quicksort(slice);
    }
}

} // verus!
