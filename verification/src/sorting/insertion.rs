//! Insertion sort, with a linear or a binary search for the place to insert at.

use vstd::prelude::*;
use crate::sorting::Sorter;
use crate::sorting::sorted;
use crate::sorting::rearranged;
use crate::sorting::lemma_swap_rearranges;
use crate::sorting::lemma_short_sorted;
use crate::sorting::order::lawful;
use crate::sorting::order::le;
use crate::sorting::order::greater;
use crate::sorting::order::lemma_le_trans;
use crate::sorting::order::lemma_le_total;
use crate::sorting::order::lemma_le_refl;
use crate::sorting::slices::search_front;
use crate::sorting::slices::rotate_into;
use crate::sorting::slices::moved_forward;

verus! {

pub struct InsertionSort {
    /// Whether the place to insert at is found by binary search.
    pub smart: bool,
}

/// Moving one element forward within a sequence rearranges it.
pub proof fn lemma_moved_forward_rearranges<T>(s: Seq<T>, j: int, i: int)
    requires
        0 <= j <= i < s.len(),
    ensures
        rearranged(s, moved_forward(s, j, i)),
{
    let a = s.subrange(0, j);
    let b = s.subrange(j, i);
    let x = seq![s[i]];
    let c = s.subrange(i + 1, s.len() as int);
    assert(s =~= a + b + x + c);
    vstd::seq_lib::lemma_multiset_commutative(a + b + x, c);
    vstd::seq_lib::lemma_multiset_commutative(a + b, x);
    vstd::seq_lib::lemma_multiset_commutative(a, b);
    vstd::seq_lib::lemma_multiset_commutative(a + x + b, c);
    vstd::seq_lib::lemma_multiset_commutative(a + x, b);
    vstd::seq_lib::lemma_multiset_commutative(a, x);
    assert((a + b + x + c).to_multiset() =~= (a + x + b + c).to_multiset());
}

impl Sorter for InsertionSort {
    /// Grows a sorted front one element at a time: takes the next element and
    /// puts it where it belongs among those before it.
    fn sort<T>(&self, slice: &mut [T]) where T: Ord {
        let n: usize = slice.len();
        let ghost before = slice@;
        if n < 2 {
            proof {
                lemma_short_sorted(slice@);
            }
            return;
        }
        proof {
            lemma_short_sorted(slice@.subrange(0, 1));
        }
        let mut i: usize = 1;
        while i < n
            invariant
                lawful::<T>(),
                n == slice@.len(),
                1 <= i <= n,
                rearranged(before, slice@),
                sorted(slice@.subrange(0, i as int)),
            decreases n - i,
        {
            let ghost start = slice@;
            if !self.smart {
                let mut j: usize = i;
                proof {
                    let front0 = slice@.subrange(0, i as int);
                    assert forall|a: int, b: int| 0 <= a <= b <= i && a != j && b != j implies le(
                        slice@[a],
                        slice@[b],
                    ) by {
                        assert(front0[a] == slice@[a] && front0[b] == slice@[b]);
                    }
                }
                while j > 0 && greater(&slice[j - 1], &slice[j])
                    invariant
                        lawful::<T>(),
                        n == slice@.len(),
                        j <= i < n,
                        rearranged(before, slice@),
                        // leaving out position `j`, the front is in order
                        forall|a: int, b: int|
                            0 <= a <= b <= i && a != j && b != j ==> le(slice@[a], slice@[b]),
                        // and the element at `j` is below all that follow it there
                        forall|b: int| j < b <= i ==> le(slice@[j as int], #[trigger] slice@[b]),
                    decreases j,
                {
                    let ghost s0 = slice@;
                    slice.swap(j - 1, j);
                    proof {
                        lemma_swap_rearranges(s0, j - 1, j as int);
                        lemma_le_total(s0[j - 1], s0[j as int]);
                        assert forall|b: int| j - 1 < b <= i implies le(
                            slice@[j - 1],
                            #[trigger] slice@[b],
                        ) by {
                            if b > j {
                                assert(slice@[b] == s0[b]);
                            }
                        }
                        assert forall|a: int, b: int|
                            0 <= a <= b <= i && a != j - 1 && b != j - 1 implies le(
                            slice@[a],
                            slice@[b],
                        ) by {
                            let a0 = if a == j { j - 1 } else { a };
                            let b0 = if b == j { j - 1 } else { b };
                            assert(slice@[a] == s0[a0] && slice@[b] == s0[b0]);
                            assert(le(s0[a0], s0[b0]));
                        }
                    }
                    j -= 1;
                }
                proof {
                    let front = slice@.subrange(0, i + 1);
                    assert forall|a: int, b: int| 0 <= a <= b < front.len() implies le(
                        front[a],
                        front[b],
                    ) by {
                        if a == j && b == j {
                            lemma_le_refl(front[a]);
                        } else if b == j {
                            // a < j: the element before `j` is not larger than it
                            lemma_le_total(slice@[j - 1], slice@[j as int]);
                            if a < j - 1 {
                                lemma_le_trans(slice@[a], slice@[j - 1], slice@[j as int]);
                            }
                        }
                    }
                }
            } else {
                // Binary search in the ordered part of the slice.
                let found = search_front(slice, i);
                let j: usize = match found {
                    Ok(j) => j,
                    Err(j) => j,
                };
                // Move the element to the place found, shifting those after it.
                rotate_into(slice, j, i);
                proof {
                    lemma_moved_forward_rearranges(start, j as int, i as int);
                    let x = start[i as int];
                    let front0 = start.subrange(0, i as int);
                    let front = slice@.subrange(0, i + 1);
                    // the element fits at `j`: what stood before is at most
                    // it, what stood from there on is at least it
                    assert forall|k: int| 0 <= k < i implies (if k < j {
                        le(#[trigger] start[k], x)
                    } else {
                        le(x, start[k])
                    }) by {
                        assert(front0[k] == start[k]);
                        if found is Ok {
                            assert(front0[j as int] == start[j as int]);
                            if k < j {
                                assert(le(front0[k], front0[j as int]));
                                lemma_le_trans(start[k], start[j as int], x);
                            } else {
                                assert(le(front0[j as int], front0[k]));
                                lemma_le_trans(x, start[j as int], start[k]);
                            }
                        }
                    }
                    assert forall|a: int, b: int| 0 <= a <= b < front.len() implies le(
                        front[a],
                        front[b],
                    ) by {
                        let a0 = if a < j { a } else { a - 1 };
                        let b0 = if b < j { b } else { b - 1 };
                        if a == j && b == j {
                            lemma_le_refl(x);
                        } else if a == j {
                            assert(front[a] == x);
                            assert(front[b] == start[b0]);
                        } else if b == j {
                            assert(front[b] == x);
                            assert(front[a] == start[a0]);
                        } else {
                            assert(front[a] == front0[a0]);
                            assert(front[b] == front0[b0]);
                            assert(le(front0[a0], front0[b0]));
                        }
                    }
                }
            }
            i += 1;
        }
        proof {
            assert(slice@.subrange(0, n as int) =~= slice@);
        }
    }
}

} // verus!
