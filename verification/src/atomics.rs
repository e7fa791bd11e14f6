//! A spin lock around one value.
//!
//! The lock is a flag: whoever turns it from unlocked to locked holds the
//! value until it turns the flag back. `MyMutex` is that state machine for one
//! owner, and `flag` holds the flag as threads share it. How threads that race
//! for the flag fare, under each of three ways to take it, is worked out in
//! `interleaving`.

use vstd::prelude::*;

pub mod flag;
pub mod interleaving;

verus! {

/// How the flag is taken and given back.
#[derive(Clone, Copy, PartialEq, Eq, Debug, Structural)]
pub enum Policy {
    /// Wait until the flag reads unlocked, then write locked: two steps, with
    /// relaxed ordering. Unsound: two threads can both read unlocked before
    /// either writes.
    Naive,
    /// Take the flag by compare-and-swap, with relaxed ordering throughout.
    /// Only one thread wins the swap, but unsound all the same: nothing keeps
    /// what happens inside the critical section between the swap and the
    /// release.
    RelaxedCas,
    /// Take the flag by compare-and-swap with acquire ordering, and give it
    /// back with release ordering. The only policy that is claimed correct.
    AcquireRelease,
}

/// The memory ordering of one access to the flag.
#[derive(Clone, Copy, PartialEq, Eq, Debug, Structural)]
pub enum MemOrder {
    Relaxed,
    Acquire,
    Release,
}

impl Policy {
    /// Whether the flag is taken in one indivisible step.
    pub open spec fn spec_swaps(self) -> bool {
        self != Policy::Naive
    }

    /// Whether the release is ordered after all that the holder did before it.
    pub open spec fn spec_fenced(self) -> bool {
        self == Policy::AcquireRelease
    }

    /// Whether the policy keeps two threads from holding the value at once and
    /// from seeing each other's writes too late.
    pub open spec fn spec_is_sound(self) -> bool {
        self.spec_swaps() && self.spec_fenced()
    }

    /// Whether the flag is taken in one indivisible step.
    #[verifier::when_used_as_spec(spec_swaps)]
    pub fn swaps(self) -> (r: bool)
        ensures
            r == self.spec_swaps(),
    {
        match self {
            Policy::Naive => false,
            _ => true,
        }
    }

    /// Whether the release is ordered after all that the holder did before it.
    #[verifier::when_used_as_spec(spec_fenced)]
    pub fn fenced(self) -> (r: bool)
        ensures
            r == self.spec_fenced(),
    {
        match self {
            Policy::AcquireRelease => true,
            _ => false,
        }
    }

    /// The ordering of the access that takes the flag: on success, and on a
    /// failed attempt alike.
    pub fn acquire_order(self) -> (r: MemOrder)
        ensures
            r == if self.spec_fenced() {
                MemOrder::Acquire
            } else {
                MemOrder::Relaxed
            },
    {
        match self {
            Policy::AcquireRelease => MemOrder::Acquire,
            _ => MemOrder::Relaxed,
        }
    }

    /// The ordering of the write that gives the flag back.
    pub fn release_order(self) -> (r: MemOrder)
        ensures
            r == if self.spec_fenced() {
                MemOrder::Release
            } else {
                MemOrder::Relaxed
            },
    {
        match self {
            Policy::AcquireRelease => MemOrder::Release,
            _ => MemOrder::Relaxed,
        }
    }

    /// Whether the policy is claimed correct. The other two are kept as
    /// examples of what goes wrong.
    #[verifier::when_used_as_spec(spec_is_sound)]
    pub fn is_sound(self) -> (r: bool)
        ensures
            r == self.spec_is_sound(),
    {
        match self {
            Policy::AcquireRelease => true,
            _ => false,
        }
    }
}

/// What a thread that wants the lock does next.
#[derive(Clone, Copy, PartialEq, Eq, Debug, Structural)]
pub enum Attempt {
    /// The flag was locked, or the swap failed: try again.
    Retry,
    /// The flag read unlocked, but is not taken yet: write locked, then enter.
    Take,
    /// The flag is taken: enter the critical section.
    Enter,
}

/// What follows from one look at the flag: `saw_unlocked` tells what a plain
/// read returned, or whether the compare-and-swap succeeded.
pub fn next_attempt(policy: Policy, saw_unlocked: bool) -> (r: Attempt)
    ensures
        r == if !saw_unlocked {
            Attempt::Retry
        } else if policy.spec_swaps() {
            Attempt::Enter
        } else {
            Attempt::Take
        },
{
    if !saw_unlocked {
        Attempt::Retry
    } else if policy.swaps() {
        Attempt::Enter
    } else {
        Attempt::Take
    }
}

/// A value behind a lock flag, for one owner.
pub struct MyMutex<T> {
    locked: bool,
    v: T,
}

impl<T> MyMutex<T> {
    /// Whether the value is checked out.
    pub closed spec fn is_locked(&self) -> bool {
        self.locked
    }

    /// The guarded value.
    pub closed spec fn value(&self) -> T {
        self.v
    }

    /// An unlocked mutex around `t`.
    pub fn new(t: T) -> (r: Self)
        ensures
            !r.is_locked(),
            r.value() == t,
    {
        Self { locked: false, v: t }
    }

    /// Whether the value is checked out.
    pub fn locked(&self) -> (r: bool)
        ensures
            r == self.is_locked(),
    {
        self.locked
    }

    /// One attempt to take the lock, as a compare-and-swap makes it: it wins
    /// exactly when the lock was free, and the lock is taken afterwards
    /// either way.
    pub fn try_acquire(&mut self) -> (won: bool)
        ensures
            won == !old(self).is_locked(),
            final(self).is_locked(),
            final(self).value() == old(self).value(),
    {
        let won = !self.locked;
        self.locked = true;
        won
    }

    /// Gives the lock back. Only its holder does that, so the lock is taken.
    pub fn release(&mut self)
        requires
            old(self).is_locked(),
        ensures
            !final(self).is_locked(),
            final(self).value() == old(self).value(),
    {
        self.locked = false;
    }

    /// Takes the lock, runs `f` on the guarded value, gives the lock back and
    /// returns what `f` returned. The lock must be free: a thread that took
    /// it and asks again would spin forever.
    pub fn with_lock<R, F: FnOnce(&mut T) -> R>(&mut self, f: F) -> (r: R)
        requires
            !old(self).is_locked(),
            forall|cell: &mut T| *cell == old(self).value() ==> call_requires(f, (cell,)),
        ensures
            !final(self).is_locked(),
            exists|cell: &mut T|
                *cell == old(self).value() && *final(cell) == final(self).value() && call_ensures(
                    f,
                    (cell,),
                    r,
                ),
    {
        let won = self.try_acquire();
        assert(won);
        let r = f(&mut self.v);
        self.release();
        r
    }
}

} // verus!
