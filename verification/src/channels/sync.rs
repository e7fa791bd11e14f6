//! The standard library's lock and condition variable, as the channel uses
//! them. Nothing here is proved: each item says what the standard library
//! documents.

use vstd::prelude::*;
use std::sync::Condvar;
use std::sync::Mutex;
use std::sync::MutexGuard;
use crate::channels::Inner;
use crate::channels::Polled;

verus! {

/// `std::sync::Mutex`.
#[verifier::external_type_specification]
#[verifier::external_body]
#[verifier::reject_recursive_types(V)]
pub struct ExMutex<V: ?Sized>(Mutex<V>);

/// `std::sync::MutexGuard`.
#[verifier::external_type_specification]
#[verifier::external_body]
#[verifier::reject_recursive_types(V)]
pub struct ExMutexGuard<'a, V: ?Sized + 'a>(MutexGuard<'a, V>);

/// `std::sync::Condvar`.
#[verifier::external_type_specification]
#[verifier::external_body]
pub struct ExCondvar(Condvar);

/// `Mutex::new` makes an unlocked mutex around the value.
pub assume_specification<V>[ Mutex::<V>::new ](v: V) -> (m: Mutex<V>);

/// `Condvar::new` makes a condition variable that nothing waits on.
pub assume_specification[ Condvar::new ]() -> (c: Condvar);

/// Takes the lock, waiting for it if another thread holds it.
///
/// Calls `Mutex::lock`. A lock that a panicking thread left behind is taken
/// all the same. What the guard gives access to is whatever the last holder
/// left, so nothing is promised of it.
#[verifier::external_body]
pub(crate) fn lock<'a, T>(m: &'a Mutex<Inner<T>>) -> (guard: MutexGuard<'a, Inner<T>>)
    opens_invariants none
    no_unwind
{
    match m.lock() {
        Ok(guard) => guard,
        Err(poisoned) => poisoned.into_inner(),
    }
}

/// The state that the held lock guards, to read and to change.
///
/// Calls `DerefMut::deref_mut` of the guard.
#[verifier::external_body]
pub(crate) fn state_of<'a, 'b, T>(guard: &'a mut MutexGuard<'b, Inner<T>>) -> (state: &'a mut Inner<T>)
    opens_invariants none
    no_unwind
{
    &mut **guard
}

/// Wakes one thread that waits on the condition variable, if there is one.
///
/// Calls `Condvar::notify_one`.
#[verifier::external_body]
pub(crate) fn wake_one(available: &Condvar)
    opens_invariants none
    no_unwind
{
    available.notify_one()
}

/// Tries to receive under the held lock, and again after each wake-up, until
/// an attempt finds an item or the channel closed; returns what that attempt
/// found, and gives the lock up.
///
/// Calls `Condvar::wait_while` with `Inner::poll_into` as the condition. The
/// standard library evaluates the condition under the lock, waits while it
/// is true, giving the lock up meanwhile, and returns once it is false.
/// `poll_into` is true exactly when what it found is `Wait`, so what is
/// returned is not `Wait`. The call does not return while nothing is pending
/// and a sender stays alive without sending. It panics if a thread panicked
/// while it held the lock, which no function of this module does.
#[verifier::external_body]
pub(crate) fn poll_until_ready<'a, T>(
    available: &Condvar,
    guard: MutexGuard<'a, Inner<T>>,
) -> (found: Polled<T>)
    ensures
        !(found is Wait),
{
    let mut found = Polled::Wait;
    let _guard = available.wait_while(guard, |state| state.poll_into(&mut found)).unwrap();
    found
}

} // verus!
