//! Sorting routines behind one interface.
//!
//! Every routine promises the same thing: afterwards the slice is in ascending
//! order and holds exactly the elements it held before.

use vstd::prelude::*;

pub mod order;
pub mod slices;
pub mod bubblesort;
pub mod quicksort;
pub mod selection;
pub mod insertion;

use crate::sorting::order::lawful;
use crate::sorting::order::le;

verus! {

/// `s` is in ascending order.
pub open spec fn sorted<T: Ord>(s: Seq<T>) -> bool {
    forall|i: int, j: int| 0 <= i <= j < s.len() ==> le(s[i], s[j])
}

/// `after` holds the elements of `before`, each as often as `before` does.
pub open spec fn rearranged<T>(before: Seq<T>, after: Seq<T>) -> bool {
    before.to_multiset() == after.to_multiset()
}

/// A way to sort a slice in place.
pub trait Sorter {
    fn sort<T>(&self, slice: &mut [T]) where T: Ord
        requires
            lawful::<T>(),
        ensures
            sorted(final(slice)@),
            rearranged(old(slice)@, final(slice)@),
    ;
}

/// Exchanging two elements rearranges a sequence.
pub proof fn lemma_swap_rearranges<T>(s: Seq<T>, a: int, b: int)
    requires
        0 <= a < s.len(),
        0 <= b < s.len(),
    ensures
        rearranged(s, s.update(a, s[b]).update(b, s[a])),
{
    broadcast use vstd::multiset::group_multiset_axioms;
    let mid = s.update(a, s[b]);
    let out = mid.update(b, s[a]);
    if a == b {
        assert(out =~= s);
    } else {
        s.to_multiset_ensures();
        mid.to_multiset_ensures();
        assert(s.contains(s[a]));
        assert(mid[b] == s[b]);
        assert(mid.contains(mid[b]));
        vstd::seq_lib::to_multiset_update(s, a, s[b]);
        vstd::seq_lib::to_multiset_update(mid, b, s[a]);
        assert forall|v: T| out.to_multiset().count(v) == s.to_multiset().count(v) by {}
        assert(out.to_multiset() =~= s.to_multiset());
    }
}

/// A sequence of at most one element is in order.
pub proof fn lemma_short_sorted<T: Ord>(s: Seq<T>)
    requires
        order::lawful::<T>(),
        s.len() <= 1,
    ensures
        sorted(s),
{
    assert forall|i: int, j: int| 0 <= i <= j < s.len() implies le(s[i], s[j]) by {
        order::lemma_le_refl(s[i]);
    }
}

} // verus!
