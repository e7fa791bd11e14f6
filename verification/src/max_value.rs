//! The largest value of an integer type, through one trait.

use vstd::prelude::*;

verus! {

/// A type with a largest value.
pub trait MaxValue: Sized {
    /// Whether `v` is the largest value of the type.
    spec fn is_max(v: Self) -> bool;

    /// The largest value of the type.
    fn max_value() -> (r: Self)
        ensures
            Self::is_max(r),
    ;
}

impl MaxValue for u16 {
    open spec fn is_max(v: u16) -> bool {
        v == u16::MAX
    }

    fn max_value() -> (r: u16) {
        u16::MAX
    }
}

impl MaxValue for u32 {
    open spec fn is_max(v: u32) -> bool {
        v == u32::MAX
    }

    fn max_value() -> (r: u32) {
        u32::MAX
    }
}

impl MaxValue for u64 {
    open spec fn is_max(v: u64) -> bool {
        v == u64::MAX
    }

    fn max_value() -> (r: u64) {
        u64::MAX
    }
}

} // verus!
