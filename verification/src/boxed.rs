//! An owning pointer to one value on the heap.

use vstd::prelude::*;

verus! {

/// The one owner of a value on the heap. Moving the box moves the ownership;
/// dropping it frees the value.
pub struct MyBox<T> {
    p: Box<T>,
}

impl<T> View for MyBox<T> {
    type V = T;

    closed spec fn view(&self) -> T {
        *self.p
    }
}

impl<T> MyBox<T> {
    /// Puts `t` on the heap.
    pub fn new(t: T) -> (r: Self)
        ensures
            r@ == t,
    {
        MyBox { p: Box::new(t) }
    }
}

impl<T> std::ops::Deref for MyBox<T> {
    type Target = T;

    /// The value, to read.
    fn deref(&self) -> (r: &T)
        ensures
            *r == self@,
    {
        &*self.p
    }
}

impl<T> std::ops::DerefMut for MyBox<T> {
    /// The value, to change.
    fn deref_mut(&mut self) -> (r: &mut T)
        ensures
            *r == old(self)@,
            final(self)@ == *final(r),
    {
        &mut *self.p
    }
}

} // verus!
