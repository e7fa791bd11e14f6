//! A blocking channel with many senders and one receiver.
//!
//! The channel is a queue and a count of the senders that are alive, kept
//! together behind one lock. `Inner` is that state with its transitions, each
//! with an exact contract over `ChannelState`. `Sender` and `Receiver` are the
//! handles that threads hold; they reach the state through the lock.

use vstd::prelude::*;
use std::collections::VecDeque;
use std::sync::Arc;
use std::sync::Condvar;
use std::sync::Mutex;
use crate::channels::sync::lock;
use crate::channels::sync::state_of;
use crate::channels::sync::wake_one;
use crate::channels::sync::poll_until_ready;

pub mod sync;

verus! {

/// What a channel holds: the items sent and not yet received, oldest first,
/// and the number of senders that are alive.
pub struct ChannelState<T> {
    pub pending: Seq<T>,
    pub senders: nat,
}

/// What one attempt to receive finds.
pub enum Polled<T> {
    /// The oldest pending item.
    Item(T),
    /// Nothing is pending and no sender is left: nothing will ever arrive.
    Closed,
    /// Nothing is pending, but a sender is alive and may still send.
    Wait,
}

impl<T> ChannelState<T> {
    /// A new channel: nothing pending, one sender.
    pub open spec fn fresh() -> Self {
        ChannelState { pending: Seq::empty(), senders: 1 }
    }

    /// After `t` was sent.
    pub open spec fn pushed(self, t: T) -> Self {
        ChannelState { pending: self.pending.push(t), senders: self.senders }
    }

    /// After a sender was cloned. The count stops at the largest `usize`.
    pub open spec fn attached(self) -> Self {
        ChannelState {
            pending: self.pending,
            senders: if self.senders < usize::MAX {
                self.senders + 1
            } else {
                self.senders
            },
        }
    }

    /// After a sender went away.
    pub open spec fn detached(self) -> Self {
        ChannelState {
            pending: self.pending,
            senders: if self.senders > 0 {
                (self.senders - 1) as nat
            } else {
                0
            },
        }
    }

    /// What an attempt to receive finds in this state.
    pub open spec fn outcome(self) -> Polled<T> {
        if self.pending.len() > 0 {
            Polled::Item(self.pending[0])
        } else if self.senders == 0 {
            Polled::Closed
        } else {
            Polled::Wait
        }
    }

    /// After an attempt to receive: the oldest item, if there was one, is gone.
    pub open spec fn polled(self) -> Self {
        if self.pending.len() > 0 {
            ChannelState { pending: self.pending.skip(1), senders: self.senders }
        } else {
            self
        }
    }

    /// After all of `items` were sent, in their order.
    pub open spec fn pushed_all(self, items: Seq<T>) -> Self
        decreases items.len(),
    {
        if items.len() == 0 {
            self
        } else {
            self.pushed(items[0]).pushed_all(items.skip(1))
        }
    }

    /// What the attempt to receive after `k` earlier ones finds.
    pub open spec fn nth_outcome(self, k: nat) -> Polled<T>
        decreases k,
    {
        if k == 0 {
            self.outcome()
        } else {
            self.polled().nth_outcome((k - 1) as nat)
        }
    }
}

/// The state of a channel, as the lock guards it.
pub struct Inner<T> {
    queue: VecDeque<T>,
    senders: usize,
}

impl<T> View for Inner<T> {
    type V = ChannelState<T>;

    closed spec fn view(&self) -> ChannelState<T> {
        ChannelState { pending: self.queue@, senders: self.senders as nat }
    }
}

impl<T> Inner<T> {
    /// The state of a new channel.
    pub fn new() -> (r: Self)
        ensures
            r@ == ChannelState::<T>::fresh(),
    {
        Inner { queue: VecDeque::new(), senders: 1 }
    }

    /// The number of senders that are alive.
    pub fn senders(&self) -> (r: usize)
        ensures
            r == self@.senders,
    {
        self.senders
    }

    /// The number of items waiting to be received.
    pub fn pending(&self) -> (r: usize)
        ensures
            r == self@.pending.len(),
    {
        self.queue.len()
    }

    /// Queues `t` behind what is pending.
    pub fn push(&mut self, t: T)
        ensures
            final(self)@ == old(self)@.pushed(t),
    {
        self.queue.push_back(t);
    }

    /// Counts one more sender.
    pub fn attach(&mut self)
        ensures
            final(self)@ == old(self)@.attached(),
    {
        if self.senders < usize::MAX {
            self.senders = self.senders + 1;
        }
    }

    /// Counts one sender less, and tells whether none is left.
    pub fn detach(&mut self) -> (was_last: bool)
        ensures
            final(self)@ == old(self)@.detached(),
            was_last == (final(self)@.senders == 0),
        opens_invariants none
        no_unwind
    {
        if self.senders > 0 {
            self.senders = self.senders - 1;
        }
        self.senders == 0
    }

    /// Tries to receive: takes the oldest pending item if there is one, and
    /// otherwise tells whether more can still arrive.
    pub fn poll(&mut self) -> (r: Polled<T>)
        ensures
            r == old(self)@.outcome(),
            final(self)@ == old(self)@.polled(),
    {
        match self.queue.pop_front() {
            Some(t) => {
                proof {
                    assert(old(self)@.pending.skip(1) =~= old(self)@.pending.subrange(
                        1,
                        old(self)@.pending.len() as int,
                    ));
                }
                Polled::Item(t)
            },
            None => {
                if self.senders == 0 {
                    Polled::Closed
                } else {
                    Polled::Wait
                }
            },
        }
    }

    /// Tries to receive, leaves what it found in `out`, and tells whether the
    /// receiver has to wait and try again.
    pub fn poll_into(&mut self, out: &mut Polled<T>) -> (wait: bool)
        ensures
            *final(out) == old(self)@.outcome(),
            final(self)@ == old(self)@.polled(),
            wait == (*final(out) is Wait),
    {
        let found = self.poll();
        let wait = match found {
            Polled::Wait => true,
            _ => false,
        };
        *out = found;
        wait
    }
}

/// Sending appends: after a run of sends, what is pending is what was pending
/// followed by the items sent, in the order they were sent.
pub proof fn lemma_pushed_all_appends<T>(s: ChannelState<T>, items: Seq<T>)
    ensures
        s.pushed_all(items).pending == s.pending + items,
        s.pushed_all(items).senders == s.senders,
    decreases items.len(),
{
    if items.len() == 0 {
        assert(s.pending + items =~= s.pending);
    } else {
        lemma_pushed_all_appends(s.pushed(items[0]), items.skip(1));
        assert(s.pending.push(items[0]) + items.skip(1) =~= s.pending + items);
    }
}

/// Receiving takes from the front: the attempt after `k` earlier ones finds
/// the pending item at position `k`, as long as there is one.
pub proof fn lemma_nth_outcome<T>(s: ChannelState<T>, k: nat)
    requires
        k < s.pending.len(),
    ensures
        s.nth_outcome(k) == Polled::Item(s.pending[k as int]),
    decreases k,
{
    if k > 0 {
        lemma_nth_outcome(s.polled(), (k - 1) as nat);
    }
}

/// First in, first out. On a channel with nothing pending, after `items` were
/// sent one after the other, the receive attempts find them in that order.
pub proof fn lemma_fifo<T>(s: ChannelState<T>, items: Seq<T>, k: nat)
    requires
        s.pending.len() == 0,
        k < items.len(),
    ensures
        s.pushed_all(items).nth_outcome(k) == Polled::Item(items[k as int]),
{
    lemma_pushed_all_appends(s, items);
    assert(s.pending + items =~= items);
    lemma_nth_outcome(s.pushed_all(items), k);
}

/// Once every pending item was received and no sender is left, each further
/// attempt finds the channel closed; and it finds it closed only then.
pub proof fn lemma_closed_exactly_when_drained<T>(s: ChannelState<T>)
    ensures
        s.outcome() is Closed <==> (s.pending.len() == 0 && s.senders == 0),
        s.outcome() is Wait <==> (s.pending.len() == 0 && s.senders > 0),
        s.outcome() is Closed ==> s.polled() == s,
{
}

/// When the only sender of a new channel goes away, the channel is closed.
pub proof fn lemma_last_sender_closes<T>()
    ensures
        ChannelState::<T>::fresh().detached().outcome() is Closed,
{
}

/// A clone keeps the channel open: after a sender was cloned and one of the
/// two went away, a sender is still alive and no receive attempt finds the
/// channel closed. It is closed, once drained, only after as many senders went
/// away as there were.
pub proof fn lemma_clone_keeps_open<T>(s: ChannelState<T>)
    requires
        0 < s.senders < usize::MAX,
    ensures
        s.attached().detached() == s,
        !(s.attached().detached().outcome() is Closed),
{
}

/// The shared part of a channel: its state behind a lock, and the means to
/// wake the receiver.
#[verifier::reject_recursive_types(T)]
pub struct Shared<T> {
    inner: Mutex<Inner<T>>,
    available: Condvar,
}

/// A handle to send with. Cloning it gives a further sender of the same
/// channel; the channel closes when the last of them is dropped.
#[verifier::reject_recursive_types(T)]
pub struct Sender<T> {
    shared: Arc<Shared<T>>,
}

/// The handle to receive with.
#[verifier::reject_recursive_types(T)]
pub struct Receiver<T> {
    shared: Arc<Shared<T>>,
}

impl<T> Sender<T> {
    /// The channel that this handle sends into.
    pub closed spec fn link(&self) -> Shared<T> {
        *self.shared
    }

    /// Queues `t` and wakes the receiver if it waits. Never blocks on the
    /// receiver, and succeeds whether or not a receiver is left.
    pub fn send(&mut self, t: T)
        ensures
            final(self).link() == old(self).link(),
    {
        {
            let mut guard = lock(&self.shared.inner);
            state_of(&mut guard).push(t);
        }
        wake_one(&self.shared.available);
    }
}

impl<T> Clone for Sender<T> {
    /// A further sender of the same channel, counted before it exists.
    fn clone(&self) -> (r: Self)
        ensures
            r.link() == self.link(),
    {
        {
            let mut guard = lock(&self.shared.inner);
            state_of(&mut guard).attach();
        }
        Sender { shared: Arc::clone(&self.shared) }
    }
}

impl<T> Drop for Sender<T> {
    /// Counts this sender out; the last one wakes the receiver, so that it
    /// sees the channel closed.
    fn drop(&mut self)
        ensures
            final(self).link() == old(self).link(),
        opens_invariants none
        no_unwind
    {
        let was_last;
        {
            let mut guard = lock(&self.shared.inner);
            was_last = state_of(&mut guard).detach();
        }
        if was_last {
            wake_one(&self.shared.available);
        }
    }
}

/// What `recv` returns for what the last receive attempt found.
pub fn delivered<T>(found: Polled<T>) -> (r: Option<T>)
    requires
        !(found is Wait),
    ensures
        r == match found {
            Polled::Item(t) => Some(t),
            _ => None::<T>,
        },
{
    match found {
        Polled::Item(t) => Some(t),
        Polled::Closed => None,
        Polled::Wait => vstd::pervasive::unreached(),
    }
}

impl<T> Receiver<T> {
    /// The channel that this handle receives from.
    pub closed spec fn link(&self) -> Shared<T> {
        *self.shared
    }

    /// The oldest pending item; `None` once nothing is pending and no sender is
    /// left. While nothing is pending and a sender is alive, it blocks.
    pub fn recv(&mut self) -> (r: Option<T>)
        ensures
            final(self).link() == old(self).link(),
    {
        let guard = lock(&self.shared.inner);
        let found = poll_until_ready(&self.shared.available, guard);
        delivered(found)
    }
}

/// A new channel, with its one sender and its receiver.
pub fn channel<T>() -> (r: (Sender<T>, Receiver<T>))
    ensures
        r.0.link() == r.1.link(),
{
    let inner = Inner::new();
    let shared = Shared { inner: Mutex::new(inner), available: Condvar::new() };
    let shared = Arc::new(shared);
    (Sender { shared: shared.clone() }, Receiver { shared })
}

} // verus!
