//! Validation of a scheduler run's parameters.

use vstd::prelude::*;

verus! {

/// Why a scheduler run was refused before any task started.
#[derive(Clone, Copy, Debug, PartialEq, Eq, Structural)]
pub enum ConfigError {
    /// The concurrency ceiling was zero: no task could ever be admitted.
    ZeroConcurrency,
    /// There was no task to run.
    ZeroTasks,
}

/// The verdict on a pair of run parameters. A zero ceiling is reported before
/// an empty workload.
pub open spec fn config_verdict(task_count: usize, max_concurrency: usize) -> Result<
    (),
    ConfigError,
> {
    if max_concurrency == 0 {
        Err(ConfigError::ZeroConcurrency)
    } else if task_count == 0 {
        Err(ConfigError::ZeroTasks)
    } else {
        Ok(())
    }
}

/// Checks the parameters of a run: both the task count and the ceiling must
/// be at least one.
pub fn validate(task_count: usize, max_concurrency: usize) -> (verdict: Result<(), ConfigError>)
    ensures
        verdict == config_verdict(task_count, max_concurrency),
        verdict.is_ok() <==> (task_count >= 1 && max_concurrency >= 1),
{
    if max_concurrency == 0 {
        Err(ConfigError::ZeroConcurrency)
    } else if task_count == 0 {
        Err(ConfigError::ZeroTasks)
    } else {
        Ok(())
    }
}

impl ConfigError {
    /// A one-line description of the error.
    pub fn message(&self) -> (text: &'static str)
        ensures
            text == match *self {
                ConfigError::ZeroConcurrency => "max_concurrency must be at least 1",
                ConfigError::ZeroTasks => "task_count must be at least 1",
            },
    {
        match self {
            ConfigError::ZeroConcurrency => "max_concurrency must be at least 1",
            ConfigError::ZeroTasks => "task_count must be at least 1",
        }
    }
}

} // verus!
