//! What the sorting routines rely on from the standard slice operations.

use vstd::prelude::*;
use crate::sorting::sorted;
use crate::sorting::order::lawful;
use crate::sorting::order::le;

verus! {

/// `<[_]>::swap` exchanges the elements at the two positions and leaves the
/// others alone. It panics on a position outside the slice, so both must lie
/// inside.
pub assume_specification<Elem>[ <[Elem]>::swap ](slice: &mut [Elem], a: usize, b: usize)
    requires
        a < old(slice)@.len(),
        b < old(slice)@.len(),
    ensures
        final(slice)@ == old(slice)@.update(a as int, old(slice)@[b as int]).update(
            b as int,
            old(slice)@[a as int],
        ),
;

/// `s` with the element at `i` taken out and put back at `j`, in front of the
/// elements that stood at `j` and after.
pub open spec fn moved_forward<T>(s: Seq<T>, j: int, i: int) -> Seq<T> {
    s.subrange(0, j) + seq![s[i]] + s.subrange(j, i) + s.subrange(i + 1, s.len() as int)
}

/// Where the element at `i` belongs among the sorted elements before it.
///
/// Calls `<[_]>::binary_search` on the first `i` elements, looking for the
/// element at `i`. On a sorted slice that function returns `Ok` with the
/// position of an element equal to the one sought, any of them if there are
/// several, or `Err` with a position at which the element could be inserted
/// with the order kept. The contract states exactly that.
#[verifier::external_body]
pub(crate) fn search_front<T: Ord>(slice: &[T], i: usize) -> (r: Result<usize, usize>)
    requires
        lawful::<T>(),
        i < slice@.len(),
        sorted(slice@.subrange(0, i as int)),
    ensures
        match r {
            Ok(j) => j < i && le(slice@[j as int], slice@[i as int]) && le(
                slice@[i as int],
                slice@[j as int],
            ),
            Err(j) => j <= i && (forall|k: int|
                0 <= k < j ==> le(#[trigger] slice@[k], slice@[i as int])) && (forall|k: int|
                j <= k < i ==> le(slice@[i as int], #[trigger] slice@[k])),
        },
{
    slice[..i].binary_search(&slice[i])
}

/// Moves the element at `i` to position `j`, shifting those between one place
/// towards the end.
///
/// Calls `<[_]>::rotate_right` with 1 on the elements from `j` to `i`, both
/// included: the last element of that range moves to its front and the others
/// follow in their order. Elements outside the range stay.
#[verifier::external_body]
pub(crate) fn rotate_into<T>(slice: &mut [T], j: usize, i: usize)
    requires
        j <= i < old(slice)@.len(),
    ensures
        final(slice)@ == moved_forward(old(slice)@, j as int, i as int),
{
    slice[j..=i].rotate_right(1)
}

} // verus!
