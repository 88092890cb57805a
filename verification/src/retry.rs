//! The retry rule of one task: attempt until an attempt succeeds.

use crate::outcome::simulate_api_call;
use crate::outcome::SuccessOdds;
use rand::rngs::StdRng;
use vstd::prelude::*;

verus! {

/// What a task does after one attempt's outcome is known.
#[derive(Clone, Copy, Debug, PartialEq, Eq, Structural)]
pub enum RetryStep {
    /// The attempt failed: attempt again at once.
    TryAgain,
    /// The attempt succeeded: the task is over, after this many attempts.
    Succeeded(u64),
}

/// The attempt counter that a running task owns.
#[derive(Clone, Copy, Debug, PartialEq, Eq, Structural)]
pub struct RetryState {
    /// Attempts whose outcome is known.
    pub tries: u64,
}

impl RetryState {
    /// The state of a task that has not attempted anything yet.
    pub fn new() -> (state: RetryState)
        ensures
            state.tries == 0,
    {
        RetryState { tries: 0 }
    }

    /// Counts one attempt and decides what follows it. A task ends on a
    /// success and on nothing else.
    pub fn record(self, success: bool) -> (next: (RetryState, RetryStep))
        requires
            self.tries < u64::MAX,
        ensures
            next.0.tries == self.tries + 1,
            success ==> next.1 == RetryStep::Succeeded(next.0.tries),
            !success ==> next.1 == RetryStep::TryAgain,
    {
        let tries: u64 = self.tries + 1;
        let step = if success {
            RetryStep::Succeeded(tries)
        } else {
            RetryStep::TryAgain
        };
        (RetryState { tries }, step)
    }
}

/// `outcomes[k]` is a success and every outcome before it is a failure.
pub open spec fn is_first_success(outcomes: Seq<bool>, k: int) -> bool {
    &&& 0 <= k < outcomes.len()
    &&& outcomes[k]
    &&& forall|j: int| 0 <= j < k ==> !#[trigger] outcomes[j]
}

/// No outcome of the sequence is a success.
pub open spec fn never_succeeds(outcomes: Seq<bool>) -> bool {
    forall|j: int| 0 <= j < outcomes.len() ==> !#[trigger] outcomes[j]
}

/// What a task reports when its attempts meet `outcomes` in order: the number
/// of attempts up to and including the first success, or nothing where the
/// outcomes run out before a success.
pub open spec fn retry_report(outcomes: Seq<bool>, report: Option<u64>) -> bool {
    match report {
        Some(tries) => is_first_success(outcomes, tries - 1),
        None => never_succeeds(outcomes),
    }
}

/// Runs one task against a script of outcomes, one per attempt. The task
/// stops at the first success and reports how many attempts it made; a script
/// without a success leaves it unfinished.
pub fn call_api(outcomes: &[bool]) -> (report: Option<u64>)
    ensures
        retry_report(outcomes@, report),
{
    let mut state = RetryState::new();
    let mut i: usize = 0;
    while i < outcomes.len()
        invariant
            i <= outcomes.len(),
            state.tries == i,
            forall|j: int| 0 <= j < i ==> !#[trigger] outcomes@[j],
        decreases outcomes.len() - i,
    {
        let (next, step) = state.record(outcomes[i]);
        match step {
            RetryStep::Succeeded(tries) => {
                return Some(tries);
            },
            RetryStep::TryAgain => {},
        }
        state = next;
        i += 1;
    }
    None
}

/// Runs one task whose attempts fail exactly `failures` times and then
/// succeed. It reports one attempt more than it saw failures.
pub fn call_api_stubbed(failures: u32) -> (tries: u64)
    ensures
        tries == failures + 1,
{
    let mut state = RetryState::new();
    loop
        invariant
            state.tries <= failures,
        decreases failures - state.tries,
    {
        let success = state.tries >= failures as u64;
        let (next, step) = state.record(success);
        match step {
            RetryStep::Succeeded(tries) => {
                return tries;
            },
            RetryStep::TryAgain => {},
        }
        state = next;
    }
}

/// Runs one task on drawn outcomes, for at most `max_tries` attempts. It
/// reports the number of attempts at the first success, and nothing where
/// every attempt allowed has failed. With odds of one the first attempt
/// succeeds; with odds of zero none does.
pub fn call_api_within(rng: &mut StdRng, odds: &SuccessOdds, max_tries: u64) -> (report: Option<
    u64,
>)
    requires
        odds.wf(),
    ensures
        report.is_some() ==> 1 <= report.unwrap() <= max_tries,
        odds.always() ==> report == (if max_tries == 0 {
            None
        } else {
            Some(1u64)
        }),
        odds.never() ==> report.is_none(),
{
    let mut state = RetryState::new();
    while state.tries < max_tries
        invariant
            odds.wf(),
            state.tries <= max_tries,
            odds.always() ==> state.tries == 0,
        decreases max_tries - state.tries,
    {
        let success = simulate_api_call(rng, odds);
        let (next, step) = state.record(success);
        match step {
            RetryStep::Succeeded(tries) => {
                return Some(tries);
            },
            RetryStep::TryAgain => {},
        }
        state = next;
    }
    None
}

/// A task never ends on a failure, and one that meets exactly `failures`
/// failures before its first success reports `failures + 1` attempts.
pub proof fn law_attempts_are_failures_plus_one(
    outcomes: Seq<bool>,
    failures: nat,
    report: Option<u64>,
)
    requires
        is_first_success(outcomes, failures as int),
        retry_report(outcomes, report),
    ensures
        report.is_some(),
        report.unwrap() == failures + 1,
        outcomes[report.unwrap() - 1],
{
    match report {
        Some(tries) => {
            let k = tries - 1;
            if k < failures {
                assert(!outcomes[k]);
            } else if failures < k {
                assert(!outcomes[failures as int]);
            }
        },
        None => {
            assert(!outcomes[failures as int]);
        },
    }
}

} // verus!
