//! A cell that checks at run time that its value is borrowed either by any
//! number of readers or by one writer.

use vstd::prelude::*;
use crate::smart_pointers::cell::MyCell;

verus! {

/// How a value is borrowed at the moment.
#[derive(Copy, Clone, PartialEq, Eq, Debug, Structural)]
pub enum RefState {
    /// Not at all.
    Unshared,
    /// By this many readers.
    Shared(usize),
    /// By one writer.
    Exclusive,
}

impl RefState {
    /// The state with one more reader; `None` where a reader must be refused:
    /// while a writer is there, and when the count of readers is at its limit.
    pub open spec fn spec_share(self) -> Option<RefState> {
        match self {
            RefState::Unshared => Some(RefState::Shared(1)),
            RefState::Shared(n) => if n < usize::MAX {
                Some(RefState::Shared((n + 1) as usize))
            } else {
                None
            },
            RefState::Exclusive => None,
        }
    }

    /// The state with a writer; `None` where a writer must be refused: while
    /// anyone borrows the value.
    pub open spec fn spec_claim(self) -> Option<RefState> {
        match self {
            RefState::Unshared => Some(RefState::Exclusive),
            _ => None,
        }
    }

    /// The state after a reader left. A state that has no reader is left as
    /// it is.
    pub open spec fn spec_unshare(self) -> RefState {
        match self {
            RefState::Shared(n) => if n <= 1 {
                RefState::Unshared
            } else {
                RefState::Shared((n - 1) as usize)
            },
            other => other,
        }
    }

    /// The state after the writer left. A state that has no writer is left as
    /// it is.
    pub open spec fn spec_unclaim(self) -> RefState {
        match self {
            RefState::Exclusive => RefState::Unshared,
            other => other,
        }
    }

    /// The state with one more reader, or `None` where a reader is refused.
    #[verifier::when_used_as_spec(spec_share)]
    pub fn share(self) -> (r: Option<RefState>)
        ensures
            r == self.spec_share(),
    {
        match self {
            RefState::Unshared => Some(RefState::Shared(1)),
            RefState::Shared(n) => {
                if n < usize::MAX {
                    Some(RefState::Shared(n + 1))
                } else {
                    None
                }
            },
            RefState::Exclusive => None,
        }
    }

    /// The state with a writer, or `None` where a writer is refused.
    #[verifier::when_used_as_spec(spec_claim)]
    pub fn claim(self) -> (r: Option<RefState>)
        ensures
            r == self.spec_claim(),
    {
        match self {
            RefState::Unshared => Some(RefState::Exclusive),
            _ => None,
        }
    }

    /// The state after a reader left.
    #[verifier::when_used_as_spec(spec_unshare)]
    pub fn unshare(self) -> (r: RefState)
        ensures
            r == self.spec_unshare(),
        opens_invariants none
        no_unwind
    {
        match self {
            RefState::Shared(n) => {
                if n <= 1 {
                    RefState::Unshared
                } else {
                    RefState::Shared(n - 1)
                }
            },
            other => other,
        }
    }

    /// The state after the writer left.
    #[verifier::when_used_as_spec(spec_unclaim)]
    pub fn unclaim(self) -> (r: RefState)
        ensures
            r == self.spec_unclaim(),
        opens_invariants none
        no_unwind
    {
        match self {
            RefState::Exclusive => RefState::Unshared,
            other => other,
        }
    }
}

/// A borrow that was granted and is given back leaves the state as it was. (A
/// count of no readers, which no transition produces, comes back as not
/// borrowed.)
pub proof fn lemma_borrow_and_return(s: RefState)
    ensures
        s.spec_share() matches Some(shared) ==> shared.spec_unshare() == (if s == RefState::Shared(
            0,
        ) {
            RefState::Unshared
        } else {
            s
        }),
        s.spec_claim() matches Some(claimed) ==> claimed.spec_unclaim() == s,
{
}

/// Readers and a writer exclude each other: while a writer is there nobody
/// else gets in, and while a reader is there no writer does.
pub proof fn lemma_readers_exclude_writer(s: RefState)
    ensures
        s.spec_claim() matches Some(claimed) ==> claimed.spec_share() is None
            && claimed.spec_claim() is None,
        s.spec_share() matches Some(shared) ==> shared.spec_claim() is None,
        s.spec_claim() is Some <==> s == RefState::Unshared,
{
}

/// A value with its borrow state. `borrow` and `borrow_mut` grant access only
/// as the state allows, and what they return gives the access back when it
/// is dropped.
#[verifier::reject_recursive_types(T)]
pub struct MyRefCell<T> {
    value: T,
    state: MyCell<RefState>,
}

impl<T> MyRefCell<T> {
    /// The value that the cell holds.
    pub closed spec fn held(&self) -> T {
        self.value
    }

    /// A cell that holds `value`, not borrowed.
    pub fn new(value: T) -> (r: Self)
        ensures
            r.held() == value,
    {
        Self { value, state: MyCell::new(RefState::Unshared) }
    }

    /// Access for a reader; `None` while a writer has the value. What comes
    /// back refers to this cell.
    pub fn borrow(&self) -> (r: Option<Ref<'_, T>>)
        ensures
            r matches Some(b) ==> b.source() == *self,
    {
        match self.state.get().share() {
            Some(next) => {
                self.state.set(next);
                Some(Ref { refcell: self })
            },
            None => None,
        }
    }

    /// Access for the writer; `None` while anyone has the value. What comes
    /// back refers to this cell.
    pub fn borrow_mut(&self) -> (r: Option<RefMut<'_, T>>)
        ensures
            r matches Some(b) ==> b.source() == *self,
    {
        match self.state.get().claim() {
            Some(next) => {
                self.state.set(next);
                Some(RefMut { refcell: self })
            },
            None => None,
        }
    }
}

/// A reader's access to the value of a cell.
#[verifier::reject_recursive_types(T)]
pub struct Ref<'refcell, T> {
    refcell: &'refcell MyRefCell<T>,
}

impl<'refcell, T> Ref<'refcell, T> {
    /// The cell that the access is to.
    pub closed spec fn source(&self) -> MyRefCell<T> {
        *self.refcell
    }

}

impl<T> std::ops::Deref for Ref<'_, T> {
    type Target = T;

    /// The value of the cell.
    fn deref(&self) -> (r: &T)
        ensures
            *r == self.source().held(),
    {
        &self.refcell.value
    }
}

impl<T> Drop for Ref<'_, T> {
    /// Counts the reader out.
    fn drop(&mut self)
        ensures
            final(self).source() == old(self).source(),
        opens_invariants none
        no_unwind
    {
        self.refcell.state.set(self.refcell.state.get().unshare());
    }
}

/// The writer's access to the value of a cell.
#[verifier::reject_recursive_types(T)]
pub struct RefMut<'refcell, T> {
    refcell: &'refcell MyRefCell<T>,
}

impl<'refcell, T> RefMut<'refcell, T> {
    /// The cell that the access is to.
    pub closed spec fn source(&self) -> MyRefCell<T> {
        *self.refcell
    }

}

impl<T> std::ops::Deref for RefMut<'_, T> {
    type Target = T;

    /// The value of the cell.
    fn deref(&self) -> (r: &T)
        ensures
            *r == self.source().held(),
    {
        &self.refcell.value
    }
}

impl<T> Drop for RefMut<'_, T> {
    /// Lets the writer go.
    fn drop(&mut self)
        ensures
            final(self).source() == old(self).source(),
        opens_invariants none
        no_unwind
    {
        self.refcell.state.set(self.refcell.state.get().unclaim());
    }
}

} // verus!
