//! Bounded-concurrency execution of retry-until-success tasks.
//!
//! The crate holds the admission rules of two schedulers that keep at most a
//! fixed number of tasks running at once, the retry rule of a single task, and
//! the draw that decides whether one attempt succeeds. The schedulers decide
//! and never wait: the caller starts the tasks, waits for them, and reports
//! back which one has ended.

pub mod admission;
pub mod config;
pub mod lockstep;
pub mod outcome;
pub mod permits;
pub mod retry;
pub mod run;
pub mod stream;
