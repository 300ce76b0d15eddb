//! The durable mailbox: a bounded FIFO queue carrying records from
//! arbitrarily many producers to the one group-commit worker. A send
//! against a full queue does not fail and drops nothing: the caller is
//! told to suspend until a slot drains (backpressure). A send against
//! a closed queue fails for good.

use vstd::prelude::*;
use crate::record::{OpLog, OpLogModel, views};

verus! {

/// What became of one `send`.
#[derive(Clone, Copy, Debug, PartialEq, Eq, Structural)]
pub enum SendOutcome {
    /// The record was enqueued at the back of the queue.
    Enqueued,
    /// The queue is at capacity: nothing was enqueued and nothing was
    /// dropped; the producer suspends and retries once a slot drains.
    AtCapacity,
    /// The queue is permanently closed: the record cannot be accepted.
    Closed,
}

/// A bounded, ordered, multi-producer/single-consumer queue of
/// records.
pub struct Mailbox {
    entries: Vec<OpLog>,
    capacity: usize,
    closed: bool,
}

impl Mailbox {
    /// The queued records, oldest first.
    pub closed spec fn queue(self) -> Seq<OpLogModel> {
        views(self.entries@)
    }

    /// The fixed bound on how many records may wait at once.
    pub closed spec fn cap(self) -> int {
        self.capacity as int
    }

    /// Whether the queue has been permanently closed.
    pub closed spec fn is_closed(self) -> bool {
        self.closed
    }

    /// A mailbox never holds more than its capacity, and its capacity
    /// is at least one.
    pub open spec fn wf(self) -> bool {
        &&& self.queue().len() <= self.cap()
        &&& self.cap() >= 1
    }

    /// Makes an empty, open mailbox of the given capacity.
    pub fn new(capacity: usize) -> (m: Mailbox)
        requires
            capacity >= 1,
        ensures
            m.wf(),
            m.queue() == Seq::<OpLogModel>::empty(),
            m.cap() == capacity,
            !m.is_closed(),
    {
        Mailbox { entries: Vec::new(), capacity, closed: false }
    }

    /// How many records are waiting.
    pub fn len(&self) -> (n: usize)
        ensures
            n == self.queue().len(),
    {
        self.entries.len()
    }

    /// Offers one record to the queue. Enqueues exactly when the
    /// queue is open and below capacity; a full queue suspends the
    /// producer (nothing enqueued, nothing dropped, nothing reordered),
    /// and a closed queue refuses for good.
    pub fn send(&mut self, log: OpLog) -> (o: SendOutcome)
        requires
            old(self).wf(),
        ensures
            final(self).wf(),
            final(self).cap() == old(self).cap(),
            final(self).is_closed() == old(self).is_closed(),
            o == SendOutcome::Closed <==> old(self).is_closed(),
            o == SendOutcome::AtCapacity <==> !old(self).is_closed() && old(self).queue().len()
                == old(self).cap(),
            o == SendOutcome::Enqueued <==> !old(self).is_closed() && old(self).queue().len()
                < old(self).cap(),
            o == SendOutcome::Enqueued ==> final(self).queue() == old(self).queue().push(log@),
            o != SendOutcome::Enqueued ==> final(self).queue() == old(self).queue(),
    {
        if self.closed {
            SendOutcome::Closed
        } else if self.entries.len() == self.capacity {
            SendOutcome::AtCapacity
        } else {
            self.entries.push(log);
            assert(self.queue() =~= old(self).queue().push(log@));
            SendOutcome::Enqueued
        }
    }

    /// Takes the oldest waiting record, or nothing if the queue is
    /// empty. The worker's blocking receive resolves to exactly this
    /// once a record is available; `None` with the queue closed is the
    /// worker's terminal condition.
    pub fn receive_first(&mut self) -> (r: Option<OpLog>)
        requires
            old(self).wf(),
        ensures
            final(self).wf(),
            final(self).cap() == old(self).cap(),
            final(self).is_closed() == old(self).is_closed(),
            old(self).queue().len() == 0 ==> r is None && final(self).queue() == old(
                self,
            ).queue(),
            old(self).queue().len() > 0 ==> {
                &&& r matches Some(first) && first@ == old(self).queue()[0]
                &&& final(self).queue() == old(self).queue().skip(1)
            },
    {
        if self.entries.len() == 0 {
            None
        } else {
            let first = self.entries.remove(0);
            assert(self.queue() =~= old(self).queue().skip(1));
            Some(first)
        }
    }

    /// The consumer's non-blocking drain: hands over every record
    /// currently queued, in strict enqueue order, and leaves the queue
    /// empty. An empty result means nothing was waiting.
    pub fn try_receive_all_pending(&mut self) -> (drained: Vec<OpLog>)
        requires
            old(self).wf(),
        ensures
            final(self).wf(),
            final(self).cap() == old(self).cap(),
            final(self).is_closed() == old(self).is_closed(),
            views(drained@) == old(self).queue(),
            final(self).queue() == Seq::<OpLogModel>::empty(),
    {
        let mut drained: Vec<OpLog> = Vec::new();
        core::mem::swap(&mut drained, &mut self.entries);
        assert(views(drained@) =~= old(self).queue());
        assert(self.queue() =~= Seq::<OpLogModel>::empty());
        drained
    }

    /// Closes the queue for good: every later `send` fails with
    /// `Closed`; what is already queued stays drainable.
    pub fn close(&mut self)
        requires
            old(self).wf(),
        ensures
            final(self).wf(),
            final(self).cap() == old(self).cap(),
            final(self).is_closed(),
            final(self).queue() == old(self).queue(),
    {
        self.closed = true;
    }
}

} // verus!
