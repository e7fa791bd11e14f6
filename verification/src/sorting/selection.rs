//! Selection sort.

use vstd::prelude::*;
use crate::sorting::Sorter;
use crate::sorting::sorted;
use crate::sorting::rearranged;
use crate::sorting::lemma_swap_rearranges;
use crate::sorting::order::lawful;
use crate::sorting::order::le;
use crate::sorting::order::less;
use crate::sorting::order::lemma_le_trans;
use crate::sorting::order::lemma_le_total;
use crate::sorting::order::lemma_le_refl;

verus! {

pub struct Selection;

/// The first `done` elements of `s` are in order, and none of them is larger
/// than an element that follows them.
pub open spec fn front_sorted<T: Ord>(s: Seq<T>, done: int) -> bool {
    forall|a: int, b: int| 0 <= a <= b < s.len() && a < done ==> le(s[a], s[b])
}

impl Sorter for Selection {
    /// Finds the smallest element of what is left and puts it in front, then
    /// goes on with the remainder.
    fn sort<T>(&self, slice: &mut [T]) where T: Ord {
        let n: usize = slice.len();
        let ghost before = slice@;
        let mut i: usize = 0;
        while i < n
            invariant
                lawful::<T>(),
                n == slice@.len(),
                i <= n,
                rearranged(before, slice@),
                front_sorted(slice@, i as int),
            decreases n - i,
        {
            let mut smallest_idx: usize = i;
            let mut j: usize = i + 1;
            proof {
                lemma_le_refl(slice@[i as int]);
            }
            while j < n
                invariant
                    lawful::<T>(),
                    n == slice@.len(),
                    i < n,
                    i < j <= n,
                    i <= smallest_idx < j,
                    forall|k: int| i <= k < j ==> le(slice@[smallest_idx as int], #[trigger] slice@[k]),
                decreases n - j,
            {
                if less(&slice[j], &slice[smallest_idx]) {
                    proof {
                        let small = slice@[j as int];
                        let old_small = slice@[smallest_idx as int];
                        lemma_le_total(small, old_small);
                        lemma_le_refl(small);
                        assert forall|k: int| i <= k < j + 1 implies le(small, #[trigger] slice@[k]) by {
                            if k < j {
                                lemma_le_trans(small, old_small, slice@[k]);
                            }
                        }
                    }
                    smallest_idx = j;
                }
                j += 1;
            }
            let ghost s0 = slice@;
            if i != smallest_idx {
                slice.swap(i, smallest_idx);
                proof {
                    lemma_swap_rearranges(s0, i as int, smallest_idx as int);
                }
            }
            proof {
                assert forall|a: int, b: int| 0 <= a <= b < slice@.len() && a < i + 1 implies le(
                    slice@[a],
                    slice@[b],
                ) by {
                    if a < i {
                        // what follows the sorted front is the same elements as before
                        let b0 = if b == i { smallest_idx as int } else if b == smallest_idx { i as int } else { b };
                        assert(slice@[b] == s0[b0]);
                        assert(slice@[a] == s0[a]);
                    } else {
                        let b0 = if b == i { smallest_idx as int } else if b == smallest_idx { i as int } else { b };
                        assert(slice@[b] == s0[b0]);
                        assert(slice@[a] == s0[smallest_idx as int]);
                    }
                }
            }
            i += 1;
        }
    }
}

} // verus!
