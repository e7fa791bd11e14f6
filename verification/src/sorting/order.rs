//! The order that the sorting routines sort by.
//!
//! An element type brings its own comparison. The routines rely on it being a
//! total order that the comparison operators agree with; `lawful` says so, and
//! `le` is the resulting "at most" relation that contracts are stated in.

use vstd::prelude::*;
use vstd::std_specs::cmp::OrdSpec;
use vstd::std_specs::cmp::PartialOrdSpec;
use vstd::std_specs::cmp::PartialEqSpec;
use core::cmp::Ordering;

verus! {

/// The comparison of `T` is a total order, and `<`, `<=`, `>` agree with it.
pub open spec fn lawful<T: Ord>() -> bool {
    vstd::laws_cmp::obeys_cmp::<T>()
}

/// `a` does not come after `b`.
pub open spec fn le<T: Ord>(a: T, b: T) -> bool {
    a.cmp_spec(&b) != Ordering::Greater
}

/// Every element is at most itself.
pub proof fn lemma_le_refl<T: Ord>(a: T)
    requires
        lawful::<T>(),
    ensures
        le(a, a),
{
    reveal(vstd::laws_cmp::obeys_partial_cmp_spec_properties);
    reveal(vstd::laws_cmp::obeys_cmp_partial_ord);
    reveal(vstd::laws_cmp::obeys_cmp_ord);
    reveal(vstd::laws_eq::obeys_eq_spec_properties);
    if a.cmp_spec(&a) == Ordering::Greater {
        assert(a.partial_cmp_spec(&a) == Some(Ordering::Greater));
        assert(a.partial_cmp_spec(&a) == Some(Ordering::Less));
    }
}

/// Of two elements, one is at most the other.
pub proof fn lemma_le_total<T: Ord>(a: T, b: T)
    requires
        lawful::<T>(),
    ensures
        le(a, b) || le(b, a),
{
    reveal(vstd::laws_cmp::obeys_partial_cmp_spec_properties);
    reveal(vstd::laws_cmp::obeys_cmp_partial_ord);
    reveal(vstd::laws_cmp::obeys_cmp_ord);
    if a.cmp_spec(&b) == Ordering::Greater {
        assert(a.partial_cmp_spec(&b) == Some(Ordering::Greater));
        assert(b.partial_cmp_spec(&a) == Some(Ordering::Less));
    }
}

/// "At most" carries over a middle element.
pub proof fn lemma_le_trans<T: Ord>(a: T, b: T, c: T)
    requires
        lawful::<T>(),
        le(a, b),
        le(b, c),
    ensures
        le(a, c),
{
    reveal(vstd::laws_cmp::obeys_partial_cmp_spec_properties);
    reveal(vstd::laws_cmp::obeys_cmp_partial_ord);
    reveal(vstd::laws_cmp::obeys_cmp_ord);
    reveal(vstd::laws_eq::obeys_eq_spec_properties);
    if a.cmp_spec(&c) == Ordering::Greater {
        // Then `c` lies strictly below `a`; each way `a`, `b`, `c` can relate
        // contradicts that.
        assert(a.partial_cmp_spec(&c) == Some(Ordering::Greater));
        assert(c.partial_cmp_spec(&a) == Some(Ordering::Less));
        assert(a.partial_cmp_spec(&b) == Some(a.cmp_spec(&b)));
        assert(b.partial_cmp_spec(&c) == Some(b.cmp_spec(&c)));
        assert(b.partial_cmp_spec(&a) == Some(b.cmp_spec(&a)));
        assert(c.partial_cmp_spec(&b) == Some(c.cmp_spec(&b)));
        if a.cmp_spec(&b) == Ordering::Less {
            // c < a < b, so c < b, yet b <= c
            assert(c.partial_cmp_spec(&b) == Some(Ordering::Less));
            assert(b.partial_cmp_spec(&c) == Some(Ordering::Greater));
        } else {
            // a and b are equal
            assert(a.eq_spec(&b));
            if b.cmp_spec(&c) == Ordering::Less {
                // b < c < a, so b < a, yet a equals b
                assert(b.partial_cmp_spec(&a) == Some(Ordering::Less));
                assert(b.eq_spec(&a));
            } else {
                // a, b and c are all equal
                assert(b.eq_spec(&c));
                assert(a.eq_spec(&c));
            }
        }
    }
}

/// Whether `a` comes strictly after `b`.
pub fn greater<T: Ord>(a: &T, b: &T) -> (r: bool)
    requires
        lawful::<T>(),
    ensures
        r == !le(*a, *b),
{
    proof {
        reveal(vstd::laws_cmp::obeys_cmp_partial_ord);
        reveal(vstd::laws_cmp::obeys_cmp_ord);
        assert(a.partial_cmp_spec(b) == Some(a.cmp_spec(b)));
    }
    *a > *b
}

/// Whether `a` is at most `b`.
pub fn at_most<T: Ord>(a: &T, b: &T) -> (r: bool)
    requires
        lawful::<T>(),
    ensures
        r == le(*a, *b),
{
    proof {
        reveal(vstd::laws_cmp::obeys_cmp_partial_ord);
        reveal(vstd::laws_cmp::obeys_cmp_ord);
        assert(a.partial_cmp_spec(b) == Some(a.cmp_spec(b)));
    }
    *a <= *b
}

/// Whether `a` comes strictly before `b`.
pub fn less<T: Ord>(a: &T, b: &T) -> (r: bool)
    requires
        lawful::<T>(),
    ensures
        r == !le(*b, *a),
{
    proof {
        reveal(vstd::laws_cmp::obeys_partial_cmp_spec_properties);
        reveal(vstd::laws_cmp::obeys_cmp_partial_ord);
        reveal(vstd::laws_cmp::obeys_cmp_ord);
        assert(a.partial_cmp_spec(b) == Some(a.cmp_spec(b)));
        assert(b.partial_cmp_spec(a) == Some(b.cmp_spec(a)));
    }
    *a < *b
}

} // verus!
