//! A pointer that shares its value among its clones and counts them.

use vstd::prelude::*;
use std::rc::Rc;
use crate::smart_pointers::cell::MyCell;

verus! {

/// The count of owners after one more joined. It stops at the largest `usize`.
pub fn count_after_clone(count: usize) -> (r: usize)
    ensures
        r == if count < usize::MAX {
            count + 1
        } else {
            count as int
        },
{
    if count < usize::MAX {
        count + 1
    } else {
        count
    }
}

/// The count of owners after one left, and whether it was the last one.
pub fn count_after_drop(count: usize) -> (r: (usize, bool))
    ensures
        r.0 == if count > 0 {
            count - 1
        } else {
            0
        },
        r.1 == (count <= 1),
    opens_invariants none
    no_unwind
{
    if count > 1 {
        (count - 1, false)
    } else {
        (0, true)
    }
}

/// What all clones of one pointer share: the value, and how many they are.
#[verifier::reject_recursive_types(T)]
pub struct RcInner<T> {
    value: T,
    refcount: MyCell<usize>,
}

/// A pointer to a shared value. Cloning it gives a further owner of the same
/// value; the value lives as long as one of them does.
#[verifier::reject_recursive_types(T)]
pub struct MyRc<T> {
    inner: Rc<RcInner<T>>,
}

impl<T> MyRc<T> {
    /// The value pointed to.
    pub closed spec fn target(&self) -> T {
        self.inner.value
    }

    /// A pointer to `v`, its only owner.
    pub fn new(v: T) -> (r: Self)
        ensures
            r.target() == v,
    {
        let inner = RcInner { value: v, refcount: MyCell::new(1) };
        MyRc { inner: Rc::new(inner) }
    }

    /// How many owners the value has at the moment.
    pub fn owners(&self) -> (r: usize) {
        self.inner.refcount.get()
    }
}

impl<T> std::ops::Deref for MyRc<T> {
    type Target = T;

    /// The value pointed to.
    fn deref(&self) -> (r: &T)
        ensures
            *r == self.target(),
    {
        &self.inner.value
    }
}

impl<T> Clone for MyRc<T> {
    /// A further owner of the same value.
    fn clone(&self) -> (r: Self)
        ensures
            r.target() == self.target(),
    {
        let c = self.inner.refcount.get();
        self.inner.refcount.set(count_after_clone(c));
        MyRc { inner: Rc::clone(&self.inner) }
    }
}

impl<T> Drop for MyRc<T> {
    /// Counts this owner out.
    fn drop(&mut self)
        ensures
            final(self).target() == old(self).target(),
        opens_invariants none
        no_unwind
    {
        let c = self.inner.refcount.get();
        let (left, _last) = count_after_drop(c);
        self.inner.refcount.set(left);
    }
}

} // verus!
