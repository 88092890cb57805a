//! The shortest time a run can take, counted in units of one call's latency.
//!
//! Every call takes the same time. Where every call also succeeds at once,
//! the tasks that run together end together: the run goes in rounds, each of
//! one unit, and each round runs as many tasks as the scheduler lets in.

use crate::admission::lemma_finish;
use crate::admission::lemma_idle_is_drained;
use crate::config::config_verdict;
use crate::config::ConfigError;
use crate::permits::GateAction;
use crate::permits::PermitGate;
use crate::stream::StreamAction;
use crate::stream::ThrottledStream;
use vstd::prelude::*;

verus! {

/// `rounds` rounds of at most `max_connections` tasks are what `task_count`
/// tasks need: they hold them all, and one round fewer would not.
pub open spec fn fills_rounds(task_count: usize, max_connections: usize, rounds: usize) -> bool {
    (rounds - 1) * max_connections < task_count <= rounds * max_connections
}

/// What counting the rounds of either scheduler returns: the error of bad
/// parameters, and for good ones the number of rounds that the tasks need.
pub open spec fn rounds_outcome(
    task_count: usize,
    max_connections: usize,
    outcome: Result<usize, ConfigError>,
) -> bool {
    match config_verdict(task_count, max_connections) {
        Err(e) => outcome == Err::<usize, ConfigError>(e),
        Ok(_) => match outcome {
            Ok(rounds) => fills_rounds(task_count, max_connections, rounds),
            Err(_) => false,
        },
    }
}

/// Starts tasks until the stream lets no more in, and says whether the run
/// is over.
fn fill_stream(stream: &mut ThrottledStream) -> (over: bool)
    requires
        old(stream).wf(),
    ensures
        final(stream).wf(),
        !final(stream)@.can_admit(),
        final(stream)@.task_count == old(stream)@.task_count,
        final(stream)@.ceiling == old(stream)@.ceiling,
        final(stream)@.completed == old(stream)@.completed,
        final(stream)@.admitted >= old(stream)@.admitted,
        over == (final(stream)@.active.len() == 0),
{
    loop
        invariant
            stream.wf(),
            stream@.task_count == old(stream)@.task_count,
            stream@.ceiling == old(stream)@.ceiling,
            stream@.completed == old(stream)@.completed,
            stream@.admitted >= old(stream)@.admitted,
        decreases stream@.task_count - stream@.admitted,
    {
        match stream.poll() {
            StreamAction::Start(_) => {},
            StreamAction::Wait => {
                return false;
            },
            StreamAction::Done => {
                return true;
            },
        }
    }
}

/// Ends every task in flight.
fn drain_stream(stream: &mut ThrottledStream)
    requires
        old(stream).wf(),
    ensures
        final(stream).wf(),
        final(stream)@.task_count == old(stream)@.task_count,
        final(stream)@.ceiling == old(stream)@.ceiling,
        final(stream)@.admitted == old(stream)@.admitted,
        final(stream)@.active.len() == 0,
{
    while stream.in_flight_count() > 0
        invariant
            stream.wf(),
            stream@.task_count == old(stream)@.task_count,
            stream@.ceiling == old(stream)@.ceiling,
            stream@.admitted == old(stream)@.admitted,
        decreases stream@.active.len(),
    {
        let id: usize = stream.in_flight_at(0);
        proof {
            lemma_finish(stream@, 0);
            assert(stream@.active.index_of(id) == 0);
        }
        stream.complete(id);
    }
}

/// Counts the rounds in which the throttled stream runs `task_count` tasks
/// that all succeed at their first attempt, at most `max_connections` at a
/// time.
pub fn stream_rounds(task_count: usize, max_connections: usize) -> (outcome: Result<
    usize,
    ConfigError,
>)
    ensures
        rounds_outcome(task_count, max_connections, outcome),
{
    let mut stream = match ThrottledStream::new(task_count, max_connections) {
        Err(e) => {
            return Err(e);
        },
        Ok(stream) => stream,
    };
    let mut rounds: usize = 0;
    loop
        invariant
            stream.wf(),
            stream@.task_count == task_count,
            stream@.ceiling == max_connections,
            stream@.active.len() == 0,
            rounds <= stream@.completed,
            stream@.admitted < task_count ==> stream@.admitted == rounds * max_connections,
            stream@.admitted == task_count ==> fills_rounds(task_count, max_connections, rounds),
        decreases task_count - stream@.completed,
    {
        let ghost before = stream@;
        let over = fill_stream(&mut stream);
        if over {
            proof {
                lemma_idle_is_drained(stream@);
            }
            return Ok(rounds);
        }
        drain_stream(&mut stream);
        proof {
            lemma_next_round(
                task_count as int,
                max_connections as int,
                rounds as int,
                before.admitted as int,
                stream@.admitted as int,
            );
        }
        rounds = rounds + 1;
    }
}

/// Takes permits and launches tasks until the permit gate lets no more in,
/// and says whether the run is over.
fn fill_gate(gate: &mut PermitGate) -> (over: bool)
    requires
        old(gate).wf(),
    ensures
        final(gate).wf(),
        !final(gate)@.can_admit(),
        final(gate)@.task_count == old(gate)@.task_count,
        final(gate)@.ceiling == old(gate)@.ceiling,
        final(gate)@.completed == old(gate)@.completed,
        final(gate)@.admitted >= old(gate)@.admitted,
        over == (final(gate)@.active.len() == 0),
{
    loop
        invariant
            gate.wf(),
            gate@.task_count == old(gate)@.task_count,
            gate@.ceiling == old(gate)@.ceiling,
            gate@.completed == old(gate)@.completed,
            gate@.admitted >= old(gate)@.admitted,
        decreases gate@.task_count - gate@.admitted,
    {
        match gate.poll() {
            GateAction::Spawn(_) => {},
            GateAction::AwaitPermit => {
                return false;
            },
            GateAction::AwaitJoin => {
                return false;
            },
            GateAction::Done => {
                return true;
            },
        }
    }
}

/// Ends every running task, so that each gives its permit back.
fn drain_gate(gate: &mut PermitGate)
    requires
        old(gate).wf(),
    ensures
        final(gate).wf(),
        final(gate)@.task_count == old(gate)@.task_count,
        final(gate)@.ceiling == old(gate)@.ceiling,
        final(gate)@.admitted == old(gate)@.admitted,
        final(gate)@.active.len() == 0,
{
    while gate.running_count() > 0
        invariant
            gate.wf(),
            gate@.task_count == old(gate)@.task_count,
            gate@.ceiling == old(gate)@.ceiling,
            gate@.admitted == old(gate)@.admitted,
        decreases gate@.active.len(),
    {
        let id: usize = gate.running_at(0);
        proof {
            lemma_finish(gate@, 0);
            assert(gate@.active.index_of(id) == 0);
        }
        gate.complete(id);
    }
}

/// Counts the rounds in which the permit gate runs `task_count` tasks that
/// all succeed at their first attempt, with a pool of `max_connections`
/// permits.
pub fn permit_rounds(task_count: usize, max_connections: usize) -> (outcome: Result<
    usize,
    ConfigError,
>)
    ensures
        rounds_outcome(task_count, max_connections, outcome),
{
    let mut gate = match PermitGate::new(task_count, max_connections) {
        Err(e) => {
            return Err(e);
        },
        Ok(gate) => gate,
    };
    let mut rounds: usize = 0;
    loop
        invariant
            gate.wf(),
            gate@.task_count == task_count,
            gate@.ceiling == max_connections,
            gate@.active.len() == 0,
            rounds <= gate@.completed,
            gate@.admitted < task_count ==> gate@.admitted == rounds * max_connections,
            gate@.admitted == task_count ==> fills_rounds(task_count, max_connections, rounds),
        decreases task_count - gate@.completed,
    {
        let ghost before = gate@;
        let over = fill_gate(&mut gate);
        if over {
            proof {
                lemma_idle_is_drained(gate@);
            }
            return Ok(rounds);
        }
        drain_gate(&mut gate);
        proof {
            lemma_next_round(
                task_count as int,
                max_connections as int,
                rounds as int,
                before.admitted as int,
                gate@.admitted as int,
            );
        }
        rounds = rounds + 1;
    }
}

/// One more round: from `rounds` full rounds, a round that starts either a
/// full house or the last of the tasks keeps the count of rounds exact.
proof fn lemma_next_round(
    task_count: int,
    max_connections: int,
    rounds: int,
    started_before: int,
    started_after: int,
)
    requires
        1 <= max_connections,
        0 <= rounds,
        started_before == rounds * max_connections,
        started_before < task_count,
        started_before < started_after <= task_count,
        started_after - started_before <= max_connections,
        started_after < task_count ==> started_after - started_before == max_connections,
    ensures
        started_after < task_count ==> started_after == (rounds + 1) * max_connections,
        started_after == task_count ==> rounds * max_connections < task_count <= (rounds + 1)
            * max_connections,
{
    assert((rounds + 1) * max_connections == rounds * max_connections + max_connections)
        by (nonlinear_arith);
}

/// The rounds that the tasks need are their number divided by the ceiling,
/// rounded up.
pub proof fn law_rounds_are_ceiling_division(
    task_count: usize,
    max_connections: usize,
    rounds: usize,
)
    requires
        max_connections >= 1,
        fills_rounds(task_count, max_connections, rounds),
    ensures
        rounds == (task_count + max_connections - 1) / (max_connections as int),
{
    let n = task_count as int;
    let c = max_connections as int;
    let r = rounds as int;
    assert(r == (n + c - 1) / c) by (nonlinear_arith)
        requires
            c >= 1,
            (r - 1) * c < n,
            n <= r * c,
    ;
}

/// Both schedulers take the same number of rounds for the same tasks under
/// the same ceiling.
pub proof fn law_variants_take_the_same_rounds(
    task_count: usize,
    max_connections: usize,
    by_stream: Result<usize, ConfigError>,
    by_permits: Result<usize, ConfigError>,
)
    requires
        rounds_outcome(task_count, max_connections, by_stream),
        rounds_outcome(task_count, max_connections, by_permits),
    ensures
        by_stream == by_permits,
{
    if config_verdict(task_count, max_connections).is_ok() {
        let a = by_stream.unwrap();
        let b = by_permits.unwrap();
        law_rounds_are_ceiling_division(task_count, max_connections, a);
        law_rounds_are_ceiling_division(task_count, max_connections, b);
    }
}

} // verus!
