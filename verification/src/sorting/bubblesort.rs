//! Bubble sort.

use vstd::prelude::*;
use crate::sorting::Sorter;
use crate::sorting::sorted;
use crate::sorting::rearranged;
use crate::sorting::lemma_swap_rearranges;
use crate::sorting::lemma_short_sorted;
use crate::sorting::order::lawful;
use crate::sorting::order::le;
use crate::sorting::order::greater;
use crate::sorting::order::lemma_le_trans;
use crate::sorting::order::lemma_le_total;
use crate::sorting::order::lemma_le_refl;

verus! {

pub struct BubbleSort;

/// In `s`, everything from position `from` on is at least everything before it.
pub open spec fn settled_from<T: Ord>(s: Seq<T>, from: int) -> bool {
    forall|a: int, b: int| 0 <= a < b < s.len() && from <= b ==> le(s[a], s[b])
}

/// Neighbours in order make the whole sequence ordered.
pub proof fn lemma_neighbours_sorted<T: Ord>(s: Seq<T>)
    requires
        lawful::<T>(),
        forall|k: int| 0 <= k < s.len() - 1 ==> le(#[trigger] s[k], s[k + 1]),
    ensures
        sorted(s),
{
    assert forall|i: int, j: int| 0 <= i <= j < s.len() implies le(s[i], s[j]) by {
        lemma_neighbours_span(s, i, j);
    }
}

proof fn lemma_neighbours_span<T: Ord>(s: Seq<T>, i: int, j: int)
    requires
        lawful::<T>(),
        forall|k: int| 0 <= k < s.len() - 1 ==> le(#[trigger] s[k], s[k + 1]),
        0 <= i <= j < s.len(),
    ensures
        le(s[i], s[j]),
    decreases j - i,
{
    if i == j {
        lemma_le_refl(s[i]);
    } else {
        lemma_neighbours_span(s, i, j - 1);
        assert(le(s[j - 1], s[j - 1 + 1]));
        lemma_le_trans(s[i], s[j - 1], s[j]);
    }
}

impl Sorter for BubbleSort {
    /// Walks the slice and exchanges neighbours that are out of order, again
    /// and again, until a walk finds nothing to exchange.
    fn sort<T>(&self, slice: &mut [T]) where T: Ord {
        let n: usize = slice.len();
        if n < 2 {
            proof {
                lemma_short_sorted(slice@);
            }
            return;
        }
        let ghost before = slice@;
        let mut swapped: bool = true;
        let mut walks: usize = 0;
        while swapped
            invariant
                lawful::<T>(),
                n == slice@.len(),
                n >= 2,
                rearranged(before, slice@),
                settled_from(slice@, n - walks),
                swapped ==> walks < n,
                !swapped ==> sorted(slice@),
            decreases n - walks,
        {
            swapped = false;
            let mut i: usize = 0;
            while i < n - 1
                invariant
                    lawful::<T>(),
                    n == slice@.len(),
                    n >= 2,
                    i <= n - 1,
                    walks < n,
                    rearranged(before, slice@),
                    settled_from(slice@, n - walks),
                    // the element at `i` is the largest so far
                    forall|a: int| 0 <= a < i ==> le(#[trigger] slice@[a], slice@[i as int]),
                    // once past it, the last unsettled position holds its element
                    i >= n - walks - 1 ==> settled_from(slice@, n - walks - 1),
                    !swapped ==> forall|k: int| 0 <= k < i ==> le(#[trigger] slice@[k], slice@[k + 1]),
                    swapped ==> walks < n - 1,
                decreases n - 1 - i,
            {
                let ghost s0 = slice@;
                if greater(&slice[i], &slice[i + 1]) {
                    slice.swap(i, i + 1);
                    swapped = true;
                    proof {
                        lemma_swap_rearranges(s0, i as int, i + 1);
                        // an exchange only happens among the unsettled
                        assert(i + 1 < n - walks);
                        assert forall|a: int| 0 <= a < i + 1 implies le(#[trigger] slice@[a], slice@[i + 1]) by {
                            if a == i {
                                lemma_le_total(s0[i as int], s0[i + 1]);
                            }
                        }
                    }
                } else {
                    proof {
                        assert forall|a: int| 0 <= a < i + 1 implies le(#[trigger] slice@[a], slice@[i + 1]) by {
                            if a < i {
                                lemma_le_trans(slice@[a], slice@[i as int], slice@[i + 1]);
                            }
                        }
                    }
                }
                i += 1;
            }
            walks += 1;
            proof {
                if !swapped {
                    lemma_neighbours_sorted(slice@);
                }
            }
        }
    }
}

} // verus!
