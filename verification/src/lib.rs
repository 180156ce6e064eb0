//! A fixed-size worker pool, modelled as a verified state machine.
//!
//! The pool owns a bounded set of workers that consume jobs from a shared
//! FIFO work queue and run each job to completion, one job per worker at a
//! time.  Job identifiers stand for the submitted units of work; the state
//! machine tracks where every identifier is (queued, executing, finished or
//! failed) and its invariants establish that each accepted job is delivered
//! to exactly one worker, that at most `size` jobs ever execute at once, and
//! that a closed pool drains and terminates.  A thin runtime built on real
//! threads can drive this machine, one transition per observable event.

pub mod pool;
pub mod queue;
pub mod worker;
