//! The pool: a fixed-size set of workers around one shared work queue.
//!
//! `ThreadPool` is the pool's control state, advanced one transition per
//! observable event: a submission (`execute`), a worker taking or finishing
//! a job (`poll_worker`, `finish_job`, `fail_job`), the producer handle
//! being relinquished (`shutdown`) and the final joining of the worker
//! threads (`join_all`).  The invariant `wf` carries the accounting that
//! makes the pool's guarantees provable: every accepted job identifier is
//! in exactly one place (queued, executing on one worker, finished, or lost
//! with a failed worker), the queue holds jobs in submission order, and the
//! bookkeeping of phases is consistent.

use vstd::prelude::*;

use crate::queue::PollOutcome;
use crate::queue::WorkQueue;
use crate::worker::Worker;
use crate::worker::WorkerPhase;
use crate::worker::all_terminated;
use crate::worker::exec_weight;
use crate::worker::job_weight;
use crate::worker::lemma_wsum_le_len;
use crate::worker::lemma_wsum_update;
use crate::worker::lemma_wsum_zero;
use crate::worker::lemma_wsum_ge_elem;
use crate::worker::lemma_wsum_ge_pair;
use crate::worker::n_executing;
use crate::worker::n_running;
use crate::worker::occ_executing;
use crate::worker::run_weight;

verus! {

/// Everything that can go wrong at the pool's public surface.
#[derive(Clone, Copy, Debug, PartialEq, Eq, Structural)]
pub enum PoolError {
    /// The requested pool size was zero.  Raised at construction.
    InvalidConfiguration,
    /// The execution substrate could not create a worker thread.  Raised at
    /// construction by a runtime driving this machine; the machine itself
    /// never raises it.
    SpawnFailure,
    /// A submission arrived after the producer handle was relinquished.
    PoolShutDown,
}

/// How often `x` occurs in `s`.
pub open spec fn occ(s: Seq<u64>, x: u64) -> nat
    decreases s.len(),
{
    if s.len() == 0 {
        0
    } else {
        occ(s.drop_last(), x) + (if s.last() == x {
            1nat
        } else {
            0nat
        })
    }
}

/// How often a pool that accepted ids `0, 1, ..., n - 1` submitted `x`.
pub open spec fn submitted_occ(n: u64, x: u64) -> nat {
    if x < n {
        1
    } else {
        0
    }
}

/// Appending a value raises its count by one and no other.
pub proof fn lemma_occ_push(s: Seq<u64>, v: u64, x: u64)
    ensures
        occ(s.push(v), x) == occ(s, x) + (if v == x {
            1nat
        } else {
            0nat
        }),
{
    assert(s.push(v).drop_last() =~= s);
}

/// Removing the first value lowers its count by one and no other.
pub proof fn lemma_occ_remove_first(s: Seq<u64>, x: u64)
    requires
        s.len() > 0,
    ensures
        occ(s, x) == occ(s.remove(0), x) + (if s[0] == x {
            1nat
        } else {
            0nat
        }),
    decreases s.len(),
{
    if s.len() == 1 {
        assert(s.remove(0) =~= Seq::<u64>::empty());
    } else {
        assert(s.remove(0).drop_last() =~= s.drop_last().remove(0));
        assert(s.remove(0).last() == s.last());
        lemma_occ_remove_first(s.drop_last(), x);
    }
}

/// The control state of a fixed-size worker pool.
pub struct ThreadPool {
    /// The pool's workers; the pool's size is their number, fixed at
    /// construction.
    pub workers: Vec<Worker>,
    /// The shared work queue; its producer handle belongs to the pool.
    pub queue: WorkQueue,
    /// How many submissions the pool has accepted.  Accepted jobs carry the
    /// identifiers `0, 1, ..., n_submitted - 1` in submission order.
    pub n_submitted: u64,
    /// Jobs that some worker ran to completion, in completion order.
    pub executed: Vec<u64>,
    /// Jobs whose execution failed fatally, killing their worker.
    pub failed: Vec<u64>,
}

impl ThreadPool {
    /// The pool's size: how many workers it was built with.
    pub open spec fn size(self) -> nat {
        self.workers@.len()
    }

    /// The pool's invariant.
    ///
    /// Workers are identified by their index and only joined once
    /// terminated.  The queue holds accepted identifiers in submission
    /// order (strictly ascending, since identifiers are handed out in that
    /// order).  Every accepted identifier is in exactly one place: still
    /// queued, executing on exactly one worker, finished, or failed; and
    /// the matching count of places equals the number of submissions.
    pub open spec fn wf(self) -> bool {
        &&& forall|i: int|
            0 <= i < self.workers@.len() ==> (#[trigger] self.workers@[i]).id == i
        &&& forall|i: int|
            0 <= i < self.workers@.len() ==> ((#[trigger] self.workers@[i]).joined
                ==> self.workers@[i].phase is Terminated)
        &&& forall|i: int|
            0 <= i < self.queue.pending@.len() ==> (#[trigger] self.queue.pending@[i])
                < self.n_submitted
        &&& forall|i: int, j: int|
            0 <= i < j < self.queue.pending@.len() ==> #[trigger] self.queue.pending@[i]
                < #[trigger] self.queue.pending@[j]
        &&& forall|x: u64|
            #![trigger occ(self.queue.pending@, x)]
            #![trigger occ(self.executed@, x)]
            #![trigger occ(self.failed@, x)]
            #![trigger occ_executing(self.workers@, x)]
            submitted_occ(self.n_submitted, x) == occ(self.queue.pending@, x)
                + occ_executing(self.workers@, x) + occ(self.executed@, x)
                + occ(self.failed@, x)
        &&& self.n_submitted == self.queue.pending@.len() + n_executing(self.workers@)
            + self.executed@.len() + self.failed@.len()
    }

    /// A pool that has done nothing yet: every worker waiting, nothing
    /// queued, nothing submitted, open for submissions.
    pub open spec fn fresh(self) -> bool {
        &&& !self.queue.closed
        &&& self.queue.pending@.len() == 0
        &&& self.n_submitted == 0
        &&& self.executed@.len() == 0
        &&& self.failed@.len() == 0
        &&& forall|i: int|
            0 <= i < self.workers@.len() ==> (#[trigger] self.workers@[i]).phase is Running
                && !self.workers@[i].joined
    }

    /// How far the pool still is from a completed shutdown.
    ///
    /// Once the queue is closed, every worker event (`poll_worker`,
    /// `finish_job`, `fail_job`) strictly lowers this measure, and it is
    /// zero exactly when the queue is drained and every worker has
    /// terminated: shutdown therefore always completes and never deadlocks.
    pub open spec fn measure(self) -> nat {
        3 * self.queue.pending@.len() + 2 * n_executing(self.workers@) + n_running(self.workers@)
    }

    /// Create a pool of `size` workers.
    ///
    /// Fails with `InvalidConfiguration` if and only if `size` is zero;
    /// for every positive `size` it returns a well-formed pool with exactly
    /// `size` workers, all waiting for work.
    pub fn new(size: usize) -> (r: Result<ThreadPool, PoolError>)
        ensures
            size == 0 ==> r == Err::<ThreadPool, PoolError>(PoolError::InvalidConfiguration),
            size > 0 ==> (r matches Ok(p) && p.wf() && p.size() == size && p.fresh()),
    {
        if size == 0 {
            return Err(PoolError::InvalidConfiguration);
        }
        let mut workers: Vec<Worker> = Vec::new();
        let mut id: usize = 0;
        while id < size
            invariant
                id <= size,
                workers@.len() == id,
                forall|i: int|
                    0 <= i < id ==> (#[trigger] workers@[i]).id == i
                        && workers@[i].phase is Running && !workers@[i].joined,
            decreases size - id,
        {
            workers.push(Worker { id, phase: WorkerPhase::Running, joined: false });
            id = id + 1;
        }
        let pool = ThreadPool {
            workers,
            queue: WorkQueue::new(),
            n_submitted: 0,
            executed: Vec::new(),
            failed: Vec::new(),
        };
        proof {
            assert forall|x: u64| occ_executing(pool.workers@, x) == 0 by {
                lemma_wsum_zero(pool.workers@, |w: Worker| job_weight(w, x));
            }
            lemma_wsum_zero(pool.workers@, |w: Worker| exec_weight(w));
        }
        Ok(pool)
    }

    /// Accept a job for execution.
    ///
    /// While the pool is open, the job is placed at the back of the work
    /// queue under the next free identifier, which is returned: exactly one
    /// worker will later take it, in submission order.  After `shutdown`
    /// the submission is rejected with `PoolShutDown` and has no effect at
    /// all: the job is never enqueued, so it is never executed.
    pub fn execute(&mut self) -> (r: Result<u64, PoolError>)
        requires
            old(self).wf(),
            old(self).n_submitted < u64::MAX,
        ensures
            final(self).wf(),
            old(self).queue.closed ==> r == Err::<u64, PoolError>(PoolError::PoolShutDown)
                && *final(self) == *old(self),
            !old(self).queue.closed ==> {
                &&& r == Ok::<u64, PoolError>(old(self).n_submitted)
                &&& final(self).n_submitted == old(self).n_submitted + 1
                &&& final(self).queue.pending@ == old(self).queue.pending@.push(
                    old(self).n_submitted,
                )
                &&& !final(self).queue.closed
                &&& final(self).workers == old(self).workers
                &&& final(self).executed == old(self).executed
                &&& final(self).failed == old(self).failed
            },
    {
        if self.queue.closed {
            return Err(PoolError::PoolShutDown);
        }
        let id = self.n_submitted;
        self.queue.send(id);
        self.n_submitted = id + 1;
        proof {
            assert forall|x: u64|
                submitted_occ(self.n_submitted, x) == occ(self.queue.pending@, x)
                    + occ_executing(self.workers@, x) + occ(self.executed@, x)
                    + occ(self.failed@, x) by {
                lemma_occ_push(old(self).queue.pending@, id, x);
                assert(submitted_occ(old(self).n_submitted, x) == occ(
                    old(self).queue.pending@,
                    x,
                ) + occ_executing(old(self).workers@, x) + occ(old(self).executed@, x) + occ(
                    old(self).failed@,
                    x,
                ));
            }
        }
        Ok(id)
    }

    /// Relinquish the producer handle: no further submission is accepted,
    /// already queued jobs stay and will still be delivered.  Idempotent:
    /// on a pool that is already shut down it changes nothing.
    pub fn shutdown(&mut self)
        requires
            old(self).wf(),
        ensures
            final(self).wf(),
            final(self).queue.closed,
            final(self).queue.pending@ == old(self).queue.pending@,
            final(self).workers == old(self).workers,
            final(self).n_submitted == old(self).n_submitted,
            final(self).executed == old(self).executed,
            final(self).failed == old(self).failed,
    {
        self.queue.close();
    }

    /// Worker `w`, waiting for work, asks the queue for its next item.
    ///
    /// If a job is pending, the worker atomically removes the oldest one
    /// and starts executing it; no other worker is touched, so no job is
    /// ever delivered twice.  If the queue is drained and closed, the
    /// worker observes the end-of-stream signal and terminates.  Otherwise
    /// the worker keeps waiting and nothing changes.  Once the pool is shut
    /// down, every poll strictly lowers `measure`.
    pub fn poll_worker(&mut self, w: usize) -> (r: PollOutcome)
        requires
            old(self).wf(),
            w < old(self).size(),
            old(self).workers@[w as int].phase is Running,
        ensures
            final(self).wf(),
            final(self).size() == old(self).size(),
            final(self).n_submitted == old(self).n_submitted,
            final(self).executed == old(self).executed,
            final(self).failed == old(self).failed,
            final(self).queue.closed == old(self).queue.closed,
            forall|i: int|
                0 <= i < old(self).size() && i != w ==> final(self).workers@[i] == old(
                    self,
                ).workers@[i],
            old(self).queue.pending@.len() > 0 ==> {
                &&& r == PollOutcome::Job(old(self).queue.pending@[0])
                &&& final(self).queue.pending@ == old(self).queue.pending@.remove(0)
                &&& final(self).workers@[w as int].phase == (WorkerPhase::Executing {
                    job: old(self).queue.pending@[0],
                })
                &&& !final(self).workers@[w as int].joined
            },
            old(self).queue.pending@.len() == 0 ==> final(self).queue.pending@ == old(
                self,
            ).queue.pending@,
            old(self).queue.pending@.len() == 0 && old(self).queue.closed ==> {
                &&& r == PollOutcome::Finished
                &&& final(self).workers@[w as int].phase is Terminated
                &&& !final(self).workers@[w as int].joined
            },
            old(self).queue.pending@.len() == 0 && !old(self).queue.closed ==> {
                &&& r == PollOutcome::Blocked
                &&& final(self).workers == old(self).workers
            },
            old(self).queue.closed ==> final(self).measure() < old(self).measure(),
    {
        let ghost prev = *self;
        let out = self.queue.poll();
        match out {
            PollOutcome::Job(id) => {
                self.workers.set(
                    w,
                    Worker { id: w, phase: WorkerPhase::Executing { job: id }, joined: false },
                );
                proof {
                    let wk = (Worker {
                        id: w,
                        phase: WorkerPhase::Executing { job: id },
                        joined: false,
                    });
                    assert forall|x: u64|
                        submitted_occ(self.n_submitted, x) == occ(self.queue.pending@, x)
                            + occ_executing(self.workers@, x) + occ(self.executed@, x)
                            + occ(self.failed@, x) by {
                        lemma_occ_remove_first(prev.queue.pending@, x);
                        lemma_wsum_update(
                            prev.workers@,
                            w as int,
                            wk,
                            |wr: Worker| job_weight(wr, x),
                        );
                        assert(submitted_occ(prev.n_submitted, x) == occ(prev.queue.pending@, x)
                            + occ_executing(prev.workers@, x) + occ(prev.executed@, x) + occ(
                            prev.failed@,
                            x,
                        ));
                    }
                    lemma_wsum_update(prev.workers@, w as int, wk, |wr: Worker| exec_weight(wr));
                    lemma_wsum_update(prev.workers@, w as int, wk, |wr: Worker| run_weight(wr));
                    assert forall|i: int, j: int|
                        0 <= i < j < self.queue.pending@.len() implies #[trigger] self.queue.pending@[i]
                        < #[trigger] self.queue.pending@[j] by {
                        assert(self.queue.pending@[i] == prev.queue.pending@[i + 1]);
                        assert(self.queue.pending@[j] == prev.queue.pending@[j + 1]);
                    }
                    assert forall|i: int|
                        0 <= i < self.queue.pending@.len() implies (
                        #[trigger] self.queue.pending@[i]) < self.n_submitted by {
                        assert(self.queue.pending@[i] == prev.queue.pending@[i + 1]);
                    }
                }
                PollOutcome::Job(id)
            },
            PollOutcome::Finished => {
                self.workers.set(
                    w,
                    Worker { id: w, phase: WorkerPhase::Terminated, joined: false },
                );
                proof {
                    let wk = (Worker { id: w, phase: WorkerPhase::Terminated, joined: false });
                    assert forall|x: u64|
                        submitted_occ(self.n_submitted, x) == occ(self.queue.pending@, x)
                            + occ_executing(self.workers@, x) + occ(self.executed@, x)
                            + occ(self.failed@, x) by {
                        lemma_wsum_update(
                            prev.workers@,
                            w as int,
                            wk,
                            |wr: Worker| job_weight(wr, x),
                        );
                        assert(submitted_occ(prev.n_submitted, x) == occ(prev.queue.pending@, x)
                            + occ_executing(prev.workers@, x) + occ(prev.executed@, x) + occ(
                            prev.failed@,
                            x,
                        ));
                    }
                    lemma_wsum_update(prev.workers@, w as int, wk, |wr: Worker| exec_weight(wr));
                    lemma_wsum_update(prev.workers@, w as int, wk, |wr: Worker| run_weight(wr));
                }
                PollOutcome::Finished
            },
            PollOutcome::Blocked => PollOutcome::Blocked,
        }
    }

    /// Worker `w` ran its current job to completion and goes back to
    /// waiting for the next one.  The job is recorded as executed; no
    /// other worker and nothing in the queue changes.  This always lowers
    /// `measure`.
    pub fn finish_job(&mut self, w: usize)
        requires
            old(self).wf(),
            w < old(self).size(),
            old(self).workers@[w as int].phase is Executing,
        ensures
            final(self).wf(),
            final(self).size() == old(self).size(),
            final(self).n_submitted == old(self).n_submitted,
            final(self).failed == old(self).failed,
            final(self).queue == old(self).queue,
            final(self).executed@ == old(self).executed@.push(
                old(self).workers@[w as int].phase->job,
            ),
            final(self).workers@[w as int].phase is Running,
            !final(self).workers@[w as int].joined,
            forall|i: int|
                0 <= i < old(self).size() && i != w ==> final(self).workers@[i] == old(
                    self,
                ).workers@[i],
            final(self).measure() < old(self).measure(),
    {
        let ghost prev = *self;
        let done: u64 = match self.workers[w].phase {
            WorkerPhase::Executing { job } => job,
            _ => 0,
        };
        self.executed.push(done);
        self.workers.set(w, Worker { id: w, phase: WorkerPhase::Running, joined: false });
        proof {
            let wk = (Worker { id: w, phase: WorkerPhase::Running, joined: false });
            assert forall|x: u64|
                submitted_occ(self.n_submitted, x) == occ(self.queue.pending@, x)
                    + occ_executing(self.workers@, x) + occ(self.executed@, x)
                    + occ(self.failed@, x) by {
                lemma_occ_push(prev.executed@, done, x);
                lemma_wsum_update(prev.workers@, w as int, wk, |wr: Worker| job_weight(wr, x));
                assert(submitted_occ(prev.n_submitted, x) == occ(prev.queue.pending@, x)
                    + occ_executing(prev.workers@, x) + occ(prev.executed@, x) + occ(
                    prev.failed@,
                    x,
                ));
            }
            lemma_wsum_update(prev.workers@, w as int, wk, |wr: Worker| exec_weight(wr));
            lemma_wsum_update(prev.workers@, w as int, wk, |wr: Worker| run_weight(wr));
        }
    }

    /// Worker `w`'s current job failed fatally, which terminates that
    /// worker's thread abnormally.  The job is recorded as failed, the
    /// worker is gone for good, and the pool runs on with one worker
    /// fewer; queue and other workers are unaffected.  This always lowers
    /// `measure`.
    pub fn fail_job(&mut self, w: usize)
        requires
            old(self).wf(),
            w < old(self).size(),
            old(self).workers@[w as int].phase is Executing,
        ensures
            final(self).wf(),
            final(self).size() == old(self).size(),
            final(self).n_submitted == old(self).n_submitted,
            final(self).executed == old(self).executed,
            final(self).queue == old(self).queue,
            final(self).failed@ == old(self).failed@.push(
                old(self).workers@[w as int].phase->job,
            ),
            final(self).workers@[w as int].phase is Terminated,
            !final(self).workers@[w as int].joined,
            forall|i: int|
                0 <= i < old(self).size() && i != w ==> final(self).workers@[i] == old(
                    self,
                ).workers@[i],
            final(self).measure() < old(self).measure(),
    {
        let ghost prev = *self;
        let done: u64 = match self.workers[w].phase {
            WorkerPhase::Executing { job } => job,
            _ => 0,
        };
        self.failed.push(done);
        self.workers.set(w, Worker { id: w, phase: WorkerPhase::Terminated, joined: false });
        proof {
            let wk = (Worker { id: w, phase: WorkerPhase::Terminated, joined: false });
            assert forall|x: u64|
                submitted_occ(self.n_submitted, x) == occ(self.queue.pending@, x)
                    + occ_executing(self.workers@, x) + occ(self.executed@, x)
                    + occ(self.failed@, x) by {
                lemma_occ_push(prev.failed@, done, x);
                lemma_wsum_update(prev.workers@, w as int, wk, |wr: Worker| job_weight(wr, x));
                assert(submitted_occ(prev.n_submitted, x) == occ(prev.queue.pending@, x)
                    + occ_executing(prev.workers@, x) + occ(prev.executed@, x) + occ(
                    prev.failed@,
                    x,
                ));
            }
            lemma_wsum_update(prev.workers@, w as int, wk, |wr: Worker| exec_weight(wr));
            lemma_wsum_update(prev.workers@, w as int, wk, |wr: Worker| run_weight(wr));
        }
    }

    /// Join every worker thread, in worker-index order, each exactly once.
    ///
    /// This is the last step of shutdown, taken when every worker has
    /// terminated; a worker whose thread was already joined is skipped.
    /// Afterwards no worker thread is left un-joined.
    pub fn join_all(&mut self)
        requires
            old(self).wf(),
            all_terminated(old(self).workers@),
        ensures
            final(self).wf(),
            final(self).size() == old(self).size(),
            final(self).queue == old(self).queue,
            final(self).n_submitted == old(self).n_submitted,
            final(self).executed == old(self).executed,
            final(self).failed == old(self).failed,
            forall|i: int|
                0 <= i < old(self).size() ==> (#[trigger] final(self).workers@[i]).joined
                    && final(self).workers@[i].phase == old(self).workers@[i].phase,
    {
        let n = self.workers.len();
        let mut w: usize = 0;
        while w < n
            invariant
                self.wf(),
                all_terminated(old(self).workers@),
                w <= n,
                n == self.workers@.len(),
                n == old(self).workers@.len(),
                self.queue == old(self).queue,
                self.n_submitted == old(self).n_submitted,
                self.executed == old(self).executed,
                self.failed == old(self).failed,
                forall|i: int| 0 <= i < w ==> (#[trigger] self.workers@[i]).joined,
                forall|i: int|
                    0 <= i < n ==> (#[trigger] self.workers@[i]).phase == old(
                        self,
                    ).workers@[i].phase,
            decreases n - w,
        {
            let ghost prev = *self;
            if !self.workers[w].joined {
                self.workers.set(
                    w,
                    Worker { id: w, phase: WorkerPhase::Terminated, joined: true },
                );
                proof {
                    let wk = (Worker { id: w, phase: WorkerPhase::Terminated, joined: true });
                    assert(prev.workers@[w as int].phase == old(self).workers@[w as int].phase);
                    assert(prev.workers@[w as int].phase is Terminated);
                    assert forall|x: u64|
                        submitted_occ(self.n_submitted, x) == occ(self.queue.pending@, x)
                            + occ_executing(self.workers@, x) + occ(self.executed@, x)
                            + occ(self.failed@, x) by {
                        assert(job_weight(prev.workers@[w as int], x) == 0);
                        assert(job_weight(wk, x) == 0);
                        lemma_wsum_update(
                            prev.workers@,
                            w as int,
                            wk,
                            |wr: Worker| job_weight(wr, x),
                        );
                        assert(submitted_occ(prev.n_submitted, x) == occ(prev.queue.pending@, x)
                            + occ_executing(prev.workers@, x) + occ(prev.executed@, x) + occ(
                            prev.failed@,
                            x,
                        ));
                    }
                    lemma_wsum_update(prev.workers@, w as int, wk, |wr: Worker| exec_weight(wr));
                    lemma_wsum_update(prev.workers@, w as int, wk, |wr: Worker| run_weight(wr));
                }
            }
            w = w + 1;
        }
    }
}

/// Law: at no point do more jobs execute concurrently than the pool has
/// workers — the pool's size bounds its concurrency.
pub proof fn lemma_bounded_concurrency(p: ThreadPool)
    requires
        p.wf(),
    ensures
        n_executing(p.workers@) <= p.size(),
{
    lemma_wsum_le_len(p.workers@, |w: Worker| exec_weight(w));
}

/// Law: when shutdown has completed — every worker terminated, the queue
/// drained — and no job failed, then every accepted job has been executed
/// exactly once, nothing else was executed, and the completion log holds
/// exactly one entry per submission.
pub proof fn lemma_exactly_once(p: ThreadPool)
    requires
        p.wf(),
        all_terminated(p.workers@),
        p.queue.pending@.len() == 0,
        p.failed@.len() == 0,
    ensures
        forall|x: u64| x < p.n_submitted ==> #[trigger] occ(p.executed@, x) == 1,
        forall|x: u64| x >= p.n_submitted ==> #[trigger] occ(p.executed@, x) == 0,
        p.executed@.len() == p.n_submitted,
{
    assert forall|x: u64| #[trigger] occ(p.executed@, x) == submitted_occ(p.n_submitted, x) by {
        lemma_wsum_zero(p.workers@, |w: Worker| job_weight(w, x));
    }
    lemma_wsum_zero(p.workers@, |w: Worker| exec_weight(w));
}

/// Law: a shut-down pool whose workers have not all terminated can always
/// act — some worker is still waiting (and will observe closure) or still
/// executing (and will finish or fail).  Shutdown never deadlocks.
pub proof fn lemma_no_deadlock(p: ThreadPool)
    requires
        p.wf(),
        p.queue.closed,
        !all_terminated(p.workers@),
    ensures
        exists|w: int|
            0 <= w < p.size() && ((#[trigger] p.workers@[w].phase) is Running
                || p.workers@[w].phase is Executing),
{
    assert(exists|i: int| 0 <= i < p.workers@.len() && !((#[trigger] p.workers@[i].phase) is Terminated));
    let i = choose|i: int| 0 <= i < p.workers@.len() && !((#[trigger] p.workers@[i].phase) is Terminated);
    assert(0 <= i < p.size() && (p.workers@[i].phase is Running || p.workers@[i].phase is Executing));
}

/// Law: the shutdown measure reaches zero exactly when the queue is
/// drained and every worker has terminated.  Since every worker event of a
/// shut-down pool strictly lowers the measure, shutdown always completes.
pub proof fn lemma_measure_zero(p: ThreadPool)
    requires
        p.wf(),
    ensures
        p.measure() == 0 <==> (p.queue.pending@.len() == 0 && all_terminated(p.workers@)),
{
    if all_terminated(p.workers@) {
        lemma_wsum_zero(p.workers@, |w: Worker| exec_weight(w));
        lemma_wsum_zero(p.workers@, |w: Worker| run_weight(w));
    }
    if p.measure() == 0 {
        assert forall|i: int|
            0 <= i < p.workers@.len() implies (#[trigger] p.workers@[i]).phase is Terminated by {
            lemma_wsum_ge_elem(p.workers@, i, |w: Worker| exec_weight(w));
            lemma_wsum_ge_elem(p.workers@, i, |w: Worker| run_weight(w));
        }
    }
}

/// Law: an accepted job is never lost and never duplicated.  Each accepted
/// identifier is in exactly one place — still queued, in flight on exactly
/// one worker, executed, or failed — and an identifier that was never
/// handed out is nowhere.
pub proof fn lemma_accounting(p: ThreadPool, x: u64)
    requires
        p.wf(),
    ensures
        x < p.n_submitted ==> occ(p.queue.pending@, x) + occ_executing(p.workers@, x) + occ(
            p.executed@,
            x,
        ) + occ(p.failed@, x) == 1,
        x >= p.n_submitted ==> occ(p.queue.pending@, x) + occ_executing(p.workers@, x) + occ(
            p.executed@,
            x,
        ) + occ(p.failed@, x) == 0,
{
}

/// Law: no two workers ever execute the same job at the same time — every
/// job is delivered to exactly one worker.
pub proof fn lemma_no_double_delivery(p: ThreadPool, i: int, j: int)
    requires
        p.wf(),
        0 <= i < j < p.size(),
        p.workers@[i].phase is Executing,
        p.workers@[j].phase is Executing,
    ensures
        p.workers@[i].phase->job != p.workers@[j].phase->job,
{
    let x = p.workers@[i].phase->job;
    if p.workers@[j].phase->job == x {
        lemma_wsum_ge_pair(p.workers@, i, j, |w: Worker| job_weight(w, x));
        assert(occ_executing(p.workers@, x) >= 2);
        lemma_accounting(p, x);
        assert(false);
    }
}

/// Law: the job at the head of the queue — the one the next poll hands out
/// — is the oldest pending submission: delivery follows submission order.
pub proof fn lemma_fifo(p: ThreadPool)
    requires
        p.wf(),
        p.queue.pending@.len() > 0,
    ensures
        forall|j: int|
            0 <= j < p.queue.pending@.len() ==> p.queue.pending@[0] <= #[trigger] p.queue.pending@[j],
{
}

} // verus!
