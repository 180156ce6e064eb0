//! The work queue: an ordered channel of job identifiers with a closable
//! producer side.
//!
//! Jobs are delivered strictly in submission order, each to exactly one
//! consumer.  Closing the producer side does not discard buffered jobs: the
//! queue first hands out everything that was submitted before closure and
//! only then reports that no further job will ever arrive.

use vstd::prelude::*;

verus! {

/// What a worker sees when it asks the work queue for its next item.
pub enum PollOutcome {
    /// The oldest pending job, removed from the queue as it is handed out.
    Job(u64),
    /// The producer side is closed and nothing is pending: no job will ever
    /// arrive, so the consumer may terminate.
    Finished,
    /// Nothing is pending yet but the producer side is still open: the
    /// consumer would block and wait.
    Blocked,
}

/// A FIFO queue of job identifiers whose producer side can be closed once.
pub struct WorkQueue {
    /// Pending job identifiers, oldest first.
    pub pending: Vec<u64>,
    /// Whether the producer handle has been relinquished.
    pub closed: bool,
}

impl WorkQueue {
    /// A fresh queue: nothing pending, producer side open.
    pub fn new() -> (q: WorkQueue)
        ensures
            q.pending@ == Seq::<u64>::empty(),
            !q.closed,
    {
        WorkQueue { pending: Vec::new(), closed: false }
    }

    /// Enqueue a job behind everything already pending.
    pub fn send(&mut self, id: u64)
        requires
            !old(self).closed,
        ensures
            final(self).pending@ == old(self).pending@.push(id),
            !final(self).closed,
    {
        self.pending.push(id);
    }

    /// Relinquish the producer side.  Buffered jobs are kept.
    pub fn close(&mut self)
        ensures
            final(self).closed,
            final(self).pending@ == old(self).pending@,
    {
        self.closed = true;
    }

    /// One consumer's attempt to take the next item: the oldest pending job
    /// if there is one, the end-of-stream signal if the queue is closed and
    /// drained, and otherwise the advice to wait.
    pub fn poll(&mut self) -> (r: PollOutcome)
        ensures
            final(self).closed == old(self).closed,
            old(self).pending@.len() > 0 ==> {
                &&& r == PollOutcome::Job(old(self).pending@[0])
                &&& final(self).pending@ == old(self).pending@.remove(0)
            },
            old(self).pending@.len() == 0 ==> final(self).pending@ == old(self).pending@,
            old(self).pending@.len() == 0 && old(self).closed ==> r == PollOutcome::Finished,
            old(self).pending@.len() == 0 && !old(self).closed ==> r == PollOutcome::Blocked,
    {
        if self.pending.len() > 0 {
            let id = self.pending.remove(0);
            PollOutcome::Job(id)
        } else if self.closed {
            PollOutcome::Finished
        } else {
            PollOutcome::Blocked
        }
    }
}

} // verus!
