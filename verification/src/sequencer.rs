//! The mock spawn sequencer: an ordered queue of programmed spawn outcomes,
//! consumed one at a time and strictly in insertion order, together with a
//! shared, lock-guarded form of it that many threads may hold at once.

use vstd::prelude::*;
use vstd::rwlock::{RwLock, RwLockPredicate};
use std::sync::Arc;
use crate::outcome::SpawnOutcome;

verus! {

/// The ordered queue of outcomes still pending. The head of the sequence is
/// the outcome that the next spawn request receives.
pub struct OutcomeQueue {
    items: Vec<SpawnOutcome>,
}

impl View for OutcomeQueue {
    type V = Seq<SpawnOutcome>;

    closed spec fn view(&self) -> Seq<SpawnOutcome> {
        self.items@
    }
}

impl OutcomeQueue {
    /// A new queue holds nothing.
    pub fn new() -> (r: OutcomeQueue)
        ensures
            r@ == Seq::<SpawnOutcome>::empty(),
    {
        OutcomeQueue { items: Vec::new() }
    }

    /// How many outcomes are still pending.
    pub fn len(&self) -> (r: usize)
        ensures
            r == self@.len(),
    {
        self.items.len()
    }

    /// Appends `outcome` at the tail of the pending queue.
    pub fn enqueue_outcome(&mut self, outcome: SpawnOutcome)
        ensures
            final(self)@ == old(self)@.push(outcome),
    {
        self.items.push(outcome);
    }

    /// Removes and returns the outcome at the head of the queue. Consuming
    /// from an empty queue is a test-logic error, so an empty queue is ruled
    /// out here; a caller that cannot rule it out uses
    /// [`Self::try_consume_next`] and treats `None` as fatal.
    pub fn consume_next(&mut self) -> (r: SpawnOutcome)
        requires
            old(self)@.len() > 0,
        ensures
            r == old(self)@.first(),
            final(self)@ == old(self)@.drop_first(),
    {
        let r = self.items.remove(0);
        proof {
            assert(final(self)@ =~= old(self)@.drop_first());
        }
        r
    }

    /// Removes and returns the head outcome, or reports underflow: `None`
    /// comes back exactly when the queue is already drained, and then the
    /// queue is left unchanged — never a stale or default outcome.
    pub fn try_consume_next(&mut self) -> (r: Option<SpawnOutcome>)
        ensures
            old(self)@.len() == 0 ==> r is None && final(self)@ == old(self)@,
            old(self)@.len() > 0 ==> r == Some(old(self)@.first())
                && final(self)@ == old(self)@.drop_first(),
    {
        if self.items.len() == 0 {
            None
        } else {
            Some(self.consume_next())
        }
    }
}

/// The queue a sequencer holds after consuming `k` outcomes of an original
/// pending sequence `s`.
pub open spec fn remaining_after(s: Seq<SpawnOutcome>, k: int) -> Seq<SpawnOutcome> {
    s.skip(k)
}

/// First-in-first-out law: out of `s.len()` enqueued outcomes, the call that
/// consumes at position `k` — no matter which holder of the queue makes it —
/// finds the queue non-empty, receives exactly `s[k]`, and leaves behind the
/// queue from which the call at position `k + 1` proceeds.
pub proof fn lemma_fifo_order(s: Seq<SpawnOutcome>, k: int)
    requires
        0 <= k < s.len(),
    ensures
        remaining_after(s, k).len() > 0,
        remaining_after(s, k).first() == s[k],
        remaining_after(s, k + 1) == remaining_after(s, k).drop_first(),
{
    assert(remaining_after(s, k + 1) =~= remaining_after(s, k).drop_first());
}

/// Underflow law: once all `s.len()` enqueued outcomes are consumed, nothing
/// remains, so the next consumption attempt reports underflow rather than a
/// stale value ([`OutcomeQueue::try_consume_next`] returns `None` on an empty
/// queue and leaves it empty).
pub proof fn lemma_drained_queue_is_empty(s: Seq<SpawnOutcome>)
    ensures
        remaining_after(s, s.len() as int).len() == 0,
{
}

/// Decides which queues the sequencer's lock may hold: any queue at all. The
/// lock exists purely for mutual exclusion, not to maintain a data invariant.
pub struct AnyQueue {}

impl RwLockPredicate<OutcomeQueue> for AnyQueue {
    open spec fn inv(self, v: OutcomeQueue) -> bool {
        true
    }
}

/// A shared-ownership spawn sequencer: one pending-outcome queue behind a
/// mutual-exclusion lock, handed by reference to the test thread and to any
/// worker threads the system under test creates. Every operation holds the
/// lock for its full duration, so no outcome is ever visible to more than one
/// consumer; the lock is released before the returned outcome is put to any
/// further use.
pub struct SharedSequencer {
    lock: Arc<RwLock<OutcomeQueue, AnyQueue>>,
}

/// Relies on `Arc::clone`: the clone is a handle to the very same allocation,
/// hence to the same shared lock and queue.
#[verifier::external_body]
fn clone_arc(a: &Arc<RwLock<OutcomeQueue, AnyQueue>>) -> (r: Arc<RwLock<OutcomeQueue, AnyQueue>>)
    ensures
        r == *a,
{
    Arc::clone(a)
}

impl SharedSequencer {
    /// A new, empty sequencer, safe to hand to multiple threads at once.
    pub fn create() -> SharedSequencer {
        SharedSequencer { lock: Arc::new(RwLock::new(OutcomeQueue::new(), Ghost(AnyQueue {}))) }
    }

    /// Another handle to the same sequencer, for handing to a further thread.
    pub fn share(&self) -> (r: SharedSequencer)
        ensures
            r == *self,
    {
        SharedSequencer { lock: clone_arc(&self.lock) }
    }

    /// Appends `outcome` at the tail of the shared pending queue. Between the
    /// call and any later observation other holders of the sequencer may act,
    /// so no sequential claim is made here; the order among outcomes is
    /// governed by [`OutcomeQueue::enqueue_outcome`] and [`lemma_fifo_order`].
    pub fn enqueue_outcome(&self, outcome: SpawnOutcome) {
        let (mut queue, handle) = self.lock.acquire_write();
        queue.enqueue_outcome(outcome);
        handle.release_write(queue);
    }

    /// Removes and returns the outcome at the head of the shared queue.
    /// `None` reports underflow — the system under test issued more spawn
    /// calls than the test programmed — and the caller must fail the test
    /// loudly rather than substitute a default.
    pub fn consume_next(&self) -> Option<SpawnOutcome> {
        let (mut queue, handle) = self.lock.acquire_write();
        let r = queue.try_consume_next();
        handle.release_write(queue);
        r
    }

    /// How many programmed outcomes have not been consumed yet.
    pub fn pending(&self) -> usize {
        let (queue, handle) = self.lock.acquire_write();
        let n = queue.len();
        handle.release_write(queue);
        n
    }
}

/// A new, empty, shared-ownership sequencer.
pub fn new_creator() -> SharedSequencer {
    SharedSequencer::create()
}

/// Programs the next unconsumed spawn request on `creator` to receive
/// `outcome`: outcomes are handed out in exactly the order this function
/// enqueues them.
pub fn next_command(creator: &SharedSequencer, outcome: SpawnOutcome) {
    creator.enqueue_outcome(outcome);
}

} // verus!
