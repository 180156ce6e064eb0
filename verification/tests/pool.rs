use speck_thread_pool::pool::PoolError;
use speck_thread_pool::pool::ThreadPool;
use speck_thread_pool::queue::PollOutcome;
use speck_thread_pool::worker::WorkerPhase;

fn occurrences(v: &[u64], x: u64) -> usize {
    v.iter().filter(|&&y| y == x).count()
}

#[test]
fn create_positive_size_spawns_all_workers() {
    for size in [1usize, 2, 4, 8] {
        let p = ThreadPool::new(size).unwrap();
        assert_eq!(p.workers.len(), size);
        for (i, w) in p.workers.iter().enumerate() {
            assert_eq!(w.id, i);
            assert!(matches!(w.phase, WorkerPhase::Running));
            assert!(!w.joined);
        }
        assert!(!p.queue.closed);
        assert!(p.queue.pending.is_empty());
        assert_eq!(p.n_submitted, 0);
    }
}

#[test]
fn create_zero_fails_with_invalid_configuration() {
    assert!(matches!(ThreadPool::new(0), Err(PoolError::InvalidConfiguration)));
}

#[test]
fn submit_assigns_identifiers_in_order() {
    let mut p = ThreadPool::new(2).unwrap();
    assert_eq!(p.execute(), Ok(0));
    assert_eq!(p.execute(), Ok(1));
    assert_eq!(p.execute(), Ok(2));
    assert_eq!(p.queue.pending, vec![0, 1, 2]);
    assert_eq!(p.n_submitted, 3);
}

#[test]
fn submit_after_shutdown_is_rejected_without_effect() {
    let mut p = ThreadPool::new(2).unwrap();
    assert_eq!(p.execute(), Ok(0));
    p.shutdown();
    assert_eq!(p.execute(), Err(PoolError::PoolShutDown));
    assert_eq!(p.queue.pending, vec![0]);
    assert_eq!(p.n_submitted, 1);
    // Drain the pool: the rejected job is never delivered, let alone run.
    assert!(matches!(p.poll_worker(0), PollOutcome::Job(0)));
    p.finish_job(0);
    assert!(matches!(p.poll_worker(0), PollOutcome::Finished));
    assert!(matches!(p.poll_worker(1), PollOutcome::Finished));
    p.join_all();
    assert_eq!(p.executed, vec![0]);
}

#[test]
fn shutdown_is_idempotent() {
    let mut p = ThreadPool::new(1).unwrap();
    assert_eq!(p.execute(), Ok(0));
    p.shutdown();
    assert!(p.queue.closed);
    assert_eq!(p.queue.pending, vec![0]);
    p.shutdown();
    assert!(p.queue.closed);
    assert_eq!(p.queue.pending, vec![0]);
}

#[test]
fn shutdown_delivers_buffered_jobs_before_closure() {
    let mut p = ThreadPool::new(1).unwrap();
    assert_eq!(p.execute(), Ok(0));
    assert_eq!(p.execute(), Ok(1));
    p.shutdown();
    assert!(matches!(p.poll_worker(0), PollOutcome::Job(0)));
    p.finish_job(0);
    assert!(matches!(p.poll_worker(0), PollOutcome::Job(1)));
    p.finish_job(0);
    assert!(matches!(p.poll_worker(0), PollOutcome::Finished));
    assert_eq!(p.executed, vec![0, 1]);
}

#[test]
fn poll_on_open_empty_queue_blocks() {
    let mut p = ThreadPool::new(1).unwrap();
    assert!(matches!(p.poll_worker(0), PollOutcome::Blocked));
    assert!(matches!(p.workers[0].phase, WorkerPhase::Running));
}

#[test]
fn scenario_single_worker_serializes_jobs() {
    // Pool of size 1: submit J1 then J2.  J2 does not start until J1 is
    // done, and both run exactly once.
    let mut p = ThreadPool::new(1).unwrap();
    let j1 = p.execute().unwrap();
    let j2 = p.execute().unwrap();
    assert!(matches!(p.poll_worker(0), PollOutcome::Job(id) if id == j1));
    // While the only worker runs J1, J2 is still queued and nobody can
    // take it: no worker is waiting.
    assert!(matches!(p.workers[0].phase, WorkerPhase::Executing { job } if job == j1));
    assert_eq!(p.queue.pending, vec![j2]);
    assert!(p.workers.iter().all(|w| !matches!(w.phase, WorkerPhase::Running)));
    p.finish_job(0);
    assert!(matches!(p.poll_worker(0), PollOutcome::Job(id) if id == j2));
    p.finish_job(0);
    p.shutdown();
    assert!(matches!(p.poll_worker(0), PollOutcome::Finished));
    p.join_all();
    assert_eq!(p.executed, vec![j1, j2]);
}

#[test]
fn scenario_four_workers_run_four_jobs_in_parallel() {
    // Pool of size 4 with 4 jobs: all four can be in execution at the same
    // time, which is what makes the wall-clock time one job long.
    let mut p = ThreadPool::new(4).unwrap();
    for _ in 0..4 {
        p.execute().unwrap();
    }
    for w in 0..4 {
        assert!(matches!(p.poll_worker(w), PollOutcome::Job(id) if id == w as u64));
    }
    let executing = p
        .workers
        .iter()
        .filter(|w| matches!(w.phase, WorkerPhase::Executing { .. }))
        .count();
    assert_eq!(executing, 4);
    for w in 0..4 {
        p.finish_job(w);
    }
    p.shutdown();
    for w in 0..4 {
        assert!(matches!(p.poll_worker(w), PollOutcome::Finished));
    }
    p.join_all();
    for x in 0..4u64 {
        assert_eq!(occurrences(&p.executed, x), 1);
    }
}

#[test]
fn scenario_two_workers_five_jobs_each_exactly_once() {
    // Pool of size 2 with 5 quick jobs: every job completes exactly once,
    // and no job is ever on two workers at the same time.
    let mut p = ThreadPool::new(2).unwrap();
    for _ in 0..5 {
        p.execute().unwrap();
    }
    let mut delivered = 0usize;
    while delivered < 5 {
        for w in 0..2 {
            if matches!(p.workers[w].phase, WorkerPhase::Running) && !p.queue.pending.is_empty() {
                assert!(matches!(p.poll_worker(w), PollOutcome::Job(_)));
                delivered += 1;
            }
        }
        if let (WorkerPhase::Executing { job: a }, WorkerPhase::Executing { job: b }) =
            (p.workers[0].phase, p.workers[1].phase)
        {
            assert_ne!(a, b);
        }
        for w in 0..2 {
            if matches!(p.workers[w].phase, WorkerPhase::Executing { .. }) {
                p.finish_job(w);
            }
        }
    }
    p.shutdown();
    for w in 0..2 {
        assert!(matches!(p.poll_worker(w), PollOutcome::Finished));
    }
    p.join_all();
    assert_eq!(p.executed.len(), 5);
    for x in 0..5u64 {
        assert_eq!(occurrences(&p.executed, x), 1);
    }
}

#[test]
fn scenario_fatal_job_kills_only_its_worker() {
    // A fatally failing job terminates its own worker; a later submission
    // still completes on the remaining worker, and shutdown still drains.
    let mut p = ThreadPool::new(2).unwrap();
    let bad = p.execute().unwrap();
    assert!(matches!(p.poll_worker(0), PollOutcome::Job(id) if id == bad));
    p.fail_job(0);
    assert!(matches!(p.workers[0].phase, WorkerPhase::Terminated));
    assert!(matches!(p.workers[1].phase, WorkerPhase::Running));
    let good = p.execute().unwrap();
    assert!(matches!(p.poll_worker(1), PollOutcome::Job(id) if id == good));
    p.finish_job(1);
    p.shutdown();
    assert!(matches!(p.poll_worker(1), PollOutcome::Finished));
    p.join_all();
    assert_eq!(p.executed, vec![good]);
    assert_eq!(p.failed, vec![bad]);
}

#[test]
fn concurrency_never_exceeds_pool_size() {
    // Pool of size 2 with 3 jobs: once both workers execute, the third job
    // has to wait in the queue — there is nobody left to take it.
    let mut p = ThreadPool::new(2).unwrap();
    for _ in 0..3 {
        p.execute().unwrap();
    }
    assert!(matches!(p.poll_worker(0), PollOutcome::Job(0)));
    assert!(matches!(p.poll_worker(1), PollOutcome::Job(1)));
    let executing = p
        .workers
        .iter()
        .filter(|w| matches!(w.phase, WorkerPhase::Executing { .. }))
        .count();
    assert_eq!(executing, 2);
    assert_eq!(p.queue.pending, vec![2]);
    assert!(p.workers.iter().all(|w| !matches!(w.phase, WorkerPhase::Running)));
}

#[test]
fn join_all_joins_every_worker_and_is_repeatable() {
    let mut p = ThreadPool::new(3).unwrap();
    p.shutdown();
    for w in 0..3 {
        assert!(matches!(p.poll_worker(w), PollOutcome::Finished));
    }
    p.join_all();
    assert!(p.workers.iter().all(|w| w.joined));
    p.join_all();
    assert!(p.workers.iter().all(|w| w.joined));
    assert!(p.workers.iter().all(|w| matches!(w.phase, WorkerPhase::Terminated)));
}
