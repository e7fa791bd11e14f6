//! The lock flag between threads.
//!
//! What an attempt finds depends on what the other threads do, so nothing is
//! promised of it beyond which answers a policy can give at all. What follows
//! from each answer is decided by `next_attempt`.

use vstd::prelude::*;
use std::sync::atomic::AtomicBool;
use std::sync::atomic::Ordering;
use crate::atomics::next_attempt;
use crate::atomics::Attempt;
use crate::atomics::MemOrder;
use crate::atomics::Policy;

verus! {

/// The standard library's name for `order`.
pub fn ordering(order: MemOrder) -> (r: Ordering)
    ensures
        r == match order {
            MemOrder::Relaxed => Ordering::Relaxed,
            MemOrder::Acquire => Ordering::Acquire,
            MemOrder::Release => Ordering::Release,
        },
{
    match order {
        MemOrder::Relaxed => Ordering::Relaxed,
        MemOrder::Acquire => Ordering::Acquire,
        MemOrder::Release => Ordering::Release,
    }
}

/// A lock flag that threads share, taken and given back as its policy says.
pub struct SpinFlag {
    policy: Policy,
    locked: AtomicBool,
}

impl SpinFlag {
    /// The policy that the flag is taken and given back by.
    pub closed spec fn spec_policy(&self) -> Policy {
        self.policy
    }

    /// An unlocked flag.
    pub fn new(policy: Policy) -> (r: Self)
        ensures
            r.spec_policy() == policy,
    {
        SpinFlag { policy, locked: AtomicBool::new(false) }
    }

    /// The policy that the flag is taken and given back by.
    #[verifier::when_used_as_spec(spec_policy)]
    pub fn policy(&self) -> (r: Policy)
        ensures
            r == self.spec_policy(),
    {
        self.policy
    }

    /// One look at the flag: a compare-and-swap from unlocked to locked where
    /// the policy swaps, a plain read where it does not. The answer is to try
    /// again, or what the policy does once it finds the flag unlocked.
    pub fn attempt(&self) -> (r: Attempt)
        ensures
            r == Attempt::Retry || r == (if self.spec_policy().spec_swaps() {
                Attempt::Enter
            } else {
                Attempt::Take
            }),
    {
        let order = ordering(self.policy.acquire_order());
        let saw_unlocked = if self.policy.swaps() {
            self.locked.compare_exchange_weak(false, true, order, order).is_ok()
        } else {
            !self.locked.load(order)
        };
        next_attempt(self.policy, saw_unlocked)
    }

    /// Writes the flag locked: the second step of a policy that does not swap.
    pub fn take(&self) {
        self.locked.store(true, Ordering::Relaxed);
    }

    /// Looks at the flag up to `tries` times, and tells whether the lock was
    /// won within them.
    pub fn spin(&self, tries: usize) -> (won: bool)
        ensures
            tries == 0 ==> !won,
    {
        let mut left: usize = tries;
        while left > 0
            invariant
                left <= tries,
            decreases left,
        {
            match self.attempt() {
                Attempt::Retry => {},
                Attempt::Take => {
                    self.take();
                    return true;
                },
                Attempt::Enter => {
                    return true;
                },
            }
            left -= 1;
        }
        false
    }

    /// Gives the flag back, with the ordering of the policy.
    pub fn release(&self) {
        self.locked.store(false, ordering(self.policy.release_order()));
    }
}

} // verus!
