//! A cell whose value is replaced and copied out through a shared reference.

use vstd::prelude::*;
use std::cell::Cell;

verus! {

/// `std::cell::Cell`.
#[verifier::external_type_specification]
#[verifier::external_body]
#[verifier::reject_recursive_types(V)]
pub struct ExCell<V: ?Sized>(Cell<V>);

/// `Cell::new` makes a cell that holds the value.
pub assume_specification<V>[ Cell::<V>::new ](value: V) -> (cell: Cell<V>);

/// Replaces what the cell holds.
///
/// Calls `Cell::set`, which neither panics nor blocks.
#[verifier::external_body]
fn put<T>(cell: &Cell<T>, value: T)
    opens_invariants none
    no_unwind
{
    cell.set(value)
}

/// Copies out what the cell holds.
///
/// Calls `Cell::get`, which neither panics nor blocks. What it returns is
/// whatever was last set. The cell's own value does not tell what that is,
/// so nothing is promised of it.
#[verifier::external_body]
fn copy_out<T: Copy>(cell: &Cell<T>) -> (value: T)
    opens_invariants none
    no_unwind
{
    cell.get()
}

/// A value that can be replaced through a shared reference. It never hands
/// out a reference to what it holds, only copies, and it cannot be shared
/// between threads.
#[verifier::reject_recursive_types(T)]
pub struct MyCell<T> {
    value: Cell<T>,
}

impl<T> MyCell<T> {
    /// A cell that holds `value`.
    pub fn new(value: T) -> (r: Self) {
        MyCell { value: Cell::new(value) }
    }

    /// Replaces what the cell holds by `value`.
    pub fn set(&self, value: T)
        opens_invariants none
        no_unwind
    {
        put(&self.value, value);
    }

    /// A copy of what the cell holds.
    pub fn get(&self) -> (r: T) where T: Copy
        opens_invariants none
        no_unwind
    {
        copy_out(&self.value)
    }
}

} // verus!
