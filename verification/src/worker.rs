//! Workers: the consuming side of the pool.
//!
//! A worker is one long-lived execution thread, identified by its index in
//! the pool.  It repeatedly takes a job from the shared work queue, runs it
//! to completion, and terminates once the queue reports that no further job
//! will arrive (or if a job fails fatally while it runs).
//!
//! This module also holds the summation helpers used by the pool's
//! invariants: `wsum` adds a per-worker weight over a sequence of workers,
//! which expresses "how many workers are executing", "how many are waiting"
//! and "how often is job `x` in flight" in one shape.

use vstd::prelude::*;

verus! {

/// The life of a worker thread.  `Terminated` is terminal.
#[derive(Clone, Copy)]
pub enum WorkerPhase {
    /// Blocked on the work queue, waiting for the next job.
    Running,
    /// Executing job `job` synchronously on its own thread.
    Executing { job: u64 },
    /// The thread function has returned: the queue signalled closure, or a
    /// job failed fatally on this worker.
    Terminated,
}

/// One worker of the pool.
#[derive(Clone, Copy)]
pub struct Worker {
    /// The worker's index in the pool, fixed at construction.
    pub id: usize,
    /// Where the worker stands in its life cycle.
    pub phase: WorkerPhase,
    /// Whether the pool has already joined this worker's thread.
    pub joined: bool,
}

/// The weight a worker contributes to a count of executing workers.
pub open spec fn exec_weight(w: Worker) -> nat {
    if w.phase is Executing {
        1
    } else {
        0
    }
}

/// The weight a worker contributes to a count of waiting workers.
pub open spec fn run_weight(w: Worker) -> nat {
    if w.phase is Running {
        1
    } else {
        0
    }
}

/// The weight a worker contributes to the in-flight count of job `x`.
pub open spec fn job_weight(w: Worker, x: u64) -> nat {
    if w.phase matches WorkerPhase::Executing { job } && job == x {
        1
    } else {
        0
    }
}

/// The sum of `f` over a sequence of workers.
pub open spec fn wsum(ws: Seq<Worker>, f: spec_fn(Worker) -> nat) -> nat
    decreases ws.len(),
{
    if ws.len() == 0 {
        0
    } else {
        wsum(ws.drop_last(), f) + f(ws.last())
    }
}

/// How many workers of `ws` are executing a job right now.
pub open spec fn n_executing(ws: Seq<Worker>) -> nat {
    wsum(ws, |w: Worker| exec_weight(w))
}

/// How many workers of `ws` are waiting for a job.
pub open spec fn n_running(ws: Seq<Worker>) -> nat {
    wsum(ws, |w: Worker| run_weight(w))
}

/// How many workers of `ws` are executing job `x` right now.
pub open spec fn occ_executing(ws: Seq<Worker>, x: u64) -> nat {
    wsum(ws, |w: Worker| job_weight(w, x))
}

/// Every worker of `ws` has terminated.
pub open spec fn all_terminated(ws: Seq<Worker>) -> bool {
    forall|i: int| 0 <= i < ws.len() ==> ws[i].phase is Terminated
}

/// Replacing one worker exchanges its old weight for its new one.
pub proof fn lemma_wsum_update(ws: Seq<Worker>, i: int, w: Worker, f: spec_fn(Worker) -> nat)
    requires
        0 <= i < ws.len(),
    ensures
        wsum(ws.update(i, w), f) + f(ws[i]) == wsum(ws, f) + f(w),
    decreases ws.len(),
{
    if i == ws.len() - 1 {
        assert(ws.update(i, w).drop_last() =~= ws.drop_last());
    } else {
        assert(ws.update(i, w).drop_last() =~= ws.drop_last().update(i, w));
        assert(ws.update(i, w).last() == ws.last());
        lemma_wsum_update(ws.drop_last(), i, w, f);
    }
}

/// A sum of weights that never exceed one is bounded by the length.
pub proof fn lemma_wsum_le_len(ws: Seq<Worker>, f: spec_fn(Worker) -> nat)
    requires
        forall|w: Worker| #[trigger] f(w) <= 1,
    ensures
        wsum(ws, f) <= ws.len(),
    decreases ws.len(),
{
    if ws.len() > 0 {
        lemma_wsum_le_len(ws.drop_last(), f);
    }
}

/// The sum dominates the weight of each single worker.
pub proof fn lemma_wsum_ge_elem(ws: Seq<Worker>, i: int, f: spec_fn(Worker) -> nat)
    requires
        0 <= i < ws.len(),
    ensures
        wsum(ws, f) >= f(ws[i]),
    decreases ws.len(),
{
    if i < ws.len() - 1 {
        lemma_wsum_ge_elem(ws.drop_last(), i, f);
    }
}

/// The sum dominates the combined weight of any two distinct workers.
pub proof fn lemma_wsum_ge_pair(ws: Seq<Worker>, i: int, j: int, f: spec_fn(Worker) -> nat)
    requires
        0 <= i < j < ws.len(),
    ensures
        wsum(ws, f) >= f(ws[i]) + f(ws[j]),
    decreases ws.len(),
{
    if j == ws.len() - 1 {
        lemma_wsum_ge_elem(ws.drop_last(), i, f);
    } else {
        lemma_wsum_ge_pair(ws.drop_last(), i, j, f);
    }
}

/// A sum of weights that are zero on every worker of `ws` is zero.
pub proof fn lemma_wsum_zero(ws: Seq<Worker>, f: spec_fn(Worker) -> nat)
    requires
        forall|i: int| 0 <= i < ws.len() ==> f(#[trigger] ws[i]) == 0,
    ensures
        wsum(ws, f) == 0,
    decreases ws.len(),
{
    if ws.len() > 0 {
        lemma_wsum_zero(ws.drop_last(), f);
    }
}

} // verus!
