//! Whole runs of both schedulers, on tasks whose number of failures is given.
//!
//! A run drives a scheduler to its end on one thread. Which running task ends
//! next is the caller's choice, so that what a run reports is proved for every
//! order of completion.

use crate::admission::lemma_finish;
use crate::admission::lemma_idle_is_drained;
use crate::admission::lemma_start_next;
use crate::config::config_verdict;
use crate::config::ConfigError;
use crate::permits::GateAction;
use crate::permits::PermitGate;
use crate::retry::call_api_stubbed;
use crate::stream::StreamAction;
use crate::stream::ThrottledStream;
use vstd::prelude::*;

verus! {

/// What a run has counted at the moment it waits for a running task to end.
#[derive(Clone, Copy, Debug, PartialEq, Eq, Structural)]
pub struct WaitSample {
    /// Tasks started so far.
    pub started: usize,
    /// Tasks that have ended so far.
    pub completed: usize,
    /// Slots of the ceiling that no running task takes: for the permit gate,
    /// the permits left in its pool.
    pub free_slots: usize,
}

/// What a finished run reports.
#[derive(Debug)]
pub struct RunReport {
    /// For each task identity, the attempts that the task made.
    pub attempts: Vec<u64>,
    /// The most tasks that were running at one time.
    pub peak_active: usize,
    /// The task identities in the order in which they were started.
    pub started: Vec<usize>,
    /// The counts at each wait, in the order of the waits.
    pub waits: Vec<WaitSample>,
    /// Free slots when the run was over: for the permit gate, the permits in
    /// its pool.
    pub free_slots_at_end: usize,
}

/// The failures that task `id` meets before it succeeds: the entry of the
/// script for it, and none where the script has no entry.
pub open spec fn scripted_failures(failures: Seq<u32>, id: int) -> u32 {
    if 0 <= id < failures.len() {
        failures[id]
    } else {
        0
    }
}

/// The attempts of each task of a run: one more than its failures.
pub open spec fn expected_attempts(task_count: nat, failures: Seq<u32>) -> Seq<u64> {
    Seq::new(task_count, |id: int| (scripted_failures(failures, id) + 1) as u64)
}

/// The smaller of the task count and the ceiling.
pub open spec fn full_house(task_count: usize, max_connections: usize) -> usize {
    if task_count <= max_connections {
        task_count
    } else {
        max_connections
    }
}

/// The order in which a run starts its tasks: every identity once, in
/// identity order.
pub open spec fn expected_started(task_count: nat) -> Seq<usize> {
    Seq::new(task_count, |id: int| id as usize)
}

/// What a run has counted at its wait numbered `wait`, from zero. One task
/// ends at each wait, so `wait` tasks have ended. No slot is idle while a task
/// is queued, so the ceiling more than that have been started, or all of them.
/// The slots that those still running do not take are free.
pub open spec fn expected_wait(task_count: usize, max_connections: usize, wait: int) -> WaitSample {
    let started = if wait + max_connections <= task_count {
        wait + max_connections
    } else {
        task_count as int
    };
    WaitSample {
        started: started as usize,
        completed: wait as usize,
        free_slots: (max_connections - (started - wait)) as usize,
    }
}

/// The counts at the first `waits` waits of a run.
pub open spec fn expected_waits(task_count: usize, max_connections: usize, waits: nat) -> Seq<
    WaitSample,
> {
    Seq::new(waits, |wait: int| expected_wait(task_count, max_connections, wait))
}

/// What a run of either scheduler returns. Bad parameters give their error
/// and nothing else. Good ones give a report in which every task has made one
/// attempt more than it had failures, in which the most tasks running at once
/// were the ceiling, or all of them where they are fewer, in which the tasks
/// were started once each in identity order, in which the run waited once for
/// each task with every slot in use that a queued task could take, and in
/// which every slot is free at the end.
pub open spec fn run_outcome(
    task_count: usize,
    max_connections: usize,
    failures: Seq<u32>,
    outcome: Result<RunReport, ConfigError>,
) -> bool {
    match config_verdict(task_count, max_connections) {
        Err(e) => outcome == Err::<RunReport, ConfigError>(e),
        Ok(_) => match outcome {
            Ok(report) => {
                &&& report.attempts@ == expected_attempts(task_count as nat, failures)
                &&& report.peak_active == full_house(task_count, max_connections)
                &&& report.started@ == expected_started(task_count as nat)
                &&& report.waits@ == expected_waits(
                    task_count,
                    max_connections,
                    task_count as nat,
                )
                &&& report.free_slots_at_end == max_connections
            },
            Err(_) => false,
        },
    }
}

/// The failures scripted for task `id`.
pub fn failures_of(failures: &[u32], id: usize) -> (count: u32)
    ensures
        count == scripted_failures(failures@, id as int),
{
    if id < failures.len() {
        failures[id]
    } else {
        0
    }
}

/// Chooses which of `running` tasks ends at the wait numbered `wait`: the
/// slot that `order` names for that wait, wrapped into the running ones, and
/// the oldest where `order` names none.
pub fn pick_slot(order: &[usize], wait: usize, running: usize) -> (slot: usize)
    requires
        running > 0,
    ensures
        slot < running,
        slot == (if wait < order@.len() {
            order@[wait as int] % running
        } else {
            0
        }),
{
    if wait < order.len() {
        order[wait] % running
    } else {
        0
    }
}

/// Runs `task_count` tasks through the throttled stream, at most
/// `max_connections` at a time. Task `id` fails `failures[id]` times before it
/// succeeds, and `order` chooses at each wait which running task ends.
pub fn run_with_buffer_unordered(
    task_count: usize,
    max_connections: usize,
    failures: &[u32],
    order: &[usize],
) -> (outcome: Result<RunReport, ConfigError>)
    ensures
        run_outcome(task_count, max_connections, failures@, outcome),
{
    let mut stream = match ThrottledStream::new(task_count, max_connections) {
        Err(e) => {
            return Err(e);
        },
        Ok(stream) => stream,
    };
    let mut attempts: Vec<u64> = vec![0u64; task_count];
    let mut peak: usize = 0;
    let mut waits: usize = 0;
    let mut started: Vec<usize> = Vec::new();
    let mut samples: Vec<WaitSample> = Vec::new();
    loop
        invariant
            stream.wf(),
            stream@.task_count == task_count,
            stream@.ceiling == max_connections,
            attempts.len() == task_count,
            forall|id: usize| #[trigger]
                stream@.has_finished(id) ==> attempts[id as int] == scripted_failures(
                    failures@,
                    id as int,
                ) + 1,
            stream@.completed == 0 ==> peak == stream@.active.len(),
            stream@.completed > 0 ==> peak == full_house(task_count, max_connections),
            waits == stream@.completed,
            started@ == expected_started(stream@.admitted),
            samples@ == expected_waits(task_count, max_connections, stream@.completed),
        decreases 2 * task_count - stream@.admitted - stream@.completed,
    {
        let ghost before = stream@;
        match stream.poll() {
            StreamAction::Start(id) => {
                started.push(id);
                proof {
                    assert(started@ =~= expected_started(stream@.admitted));
                    lemma_start_next(before);
                    assert forall|other: usize| #[trigger]
                        stream@.has_finished(other) implies attempts[other as int]
                        == scripted_failures(failures@, other as int) + 1 by {
                        assert(before.has_finished(other));
                    }
                }
                let running: usize = stream.in_flight_count();
                if running > peak {
                    peak = running;
                }
            },
            StreamAction::Wait => {
                let running: usize = stream.in_flight_count();
                let sample = WaitSample {
                    started: stream.started(),
                    completed: stream.completed(),
                    free_slots: max_connections - running,
                };
                samples.push(sample);
                proof {
                    assert(sample == expected_wait(task_count, max_connections, waits as int));
                    assert(samples@ =~= expected_waits(
                        task_count,
                        max_connections,
                        (waits + 1) as nat,
                    ));
                }
                let slot: usize = pick_slot(order, waits, running);
                let id: usize = stream.in_flight_at(slot);
                let tries: u64 = call_api_stubbed(failures_of(failures, id));
                attempts.set(id, tries);
                proof {
                    lemma_finish(before, slot as int);
                    assert(before.active.index_of(id) == slot);
                }
                stream.complete(id);
                waits = waits + 1;
                proof {
                    assert forall|other: usize| #[trigger]
                        stream@.has_finished(other) implies attempts[other as int]
                        == scripted_failures(failures@, other as int) + 1 by {
                        if other != id {
                            assert(before.has_finished(other));
                        }
                    }
                }
            },
            StreamAction::Done => {
                proof {
                    lemma_idle_is_drained(before);
                    assert forall|id: usize| id < task_count implies attempts[id as int]
                        == scripted_failures(failures@, id as int) + 1 by {
                        assert(stream@.has_finished(id));
                    }
                    assert(attempts@ =~= expected_attempts(task_count as nat, failures@));
                }
                let free_slots_at_end: usize = max_connections - stream.in_flight_count();
                return Ok(
                    RunReport {
                        attempts,
                        peak_active: peak,
                        started,
                        waits: samples,
                        free_slots_at_end,
                    },
                );
            },
        }
    }
}

/// Runs `task_count` tasks through the permit gate, with a pool of
/// `max_connections` permits. Task `id` fails `failures[id]` times before it
/// succeeds, and `order` chooses at each wait which running task ends.
pub fn run_with_semaphore(
    task_count: usize,
    max_connections: usize,
    failures: &[u32],
    order: &[usize],
) -> (outcome: Result<RunReport, ConfigError>)
    ensures
        run_outcome(task_count, max_connections, failures@, outcome),
{
    let mut gate = match PermitGate::new(task_count, max_connections) {
        Err(e) => {
            return Err(e);
        },
        Ok(gate) => gate,
    };
    let mut attempts: Vec<u64> = vec![0u64; task_count];
    let mut peak: usize = 0;
    let mut waits: usize = 0;
    let mut started: Vec<usize> = Vec::new();
    let mut samples: Vec<WaitSample> = Vec::new();
    loop
        invariant
            gate.wf(),
            gate@.task_count == task_count,
            gate@.ceiling == max_connections,
            attempts.len() == task_count,
            forall|id: usize| #[trigger]
                gate@.has_finished(id) ==> attempts[id as int] == scripted_failures(
                    failures@,
                    id as int,
                ) + 1,
            gate@.completed == 0 ==> peak == gate@.active.len(),
            gate@.completed > 0 ==> peak == full_house(task_count, max_connections),
            waits == gate@.completed,
            started@ == expected_started(gate@.admitted),
            samples@ == expected_waits(task_count, max_connections, gate@.completed),
        decreases 2 * task_count - gate@.admitted - gate@.completed,
    {
        let ghost before = gate@;
        match gate.poll() {
            GateAction::Spawn(id) => {
                started.push(id);
                proof {
                    assert(started@ =~= expected_started(gate@.admitted));
                    lemma_start_next(before);
                    assert forall|other: usize| #[trigger]
                        gate@.has_finished(other) implies attempts[other as int]
                        == scripted_failures(failures@, other as int) + 1 by {
                        assert(before.has_finished(other));
                    }
                }
                let running: usize = gate.running_count();
                if running > peak {
                    peak = running;
                }
            },
            GateAction::AwaitPermit | GateAction::AwaitJoin => {
                let running: usize = gate.running_count();
                let sample = WaitSample {
                    started: gate.started(),
                    completed: gate.completed(),
                    free_slots: gate.available_permits(),
                };
                samples.push(sample);
                proof {
                    assert(sample == expected_wait(task_count, max_connections, waits as int));
                    assert(samples@ =~= expected_waits(
                        task_count,
                        max_connections,
                        (waits + 1) as nat,
                    ));
                }
                let slot: usize = pick_slot(order, waits, running);
                let id: usize = gate.running_at(slot);
                let tries: u64 = call_api_stubbed(failures_of(failures, id));
                attempts.set(id, tries);
                proof {
                    lemma_finish(before, slot as int);
                    assert(before.active.index_of(id) == slot);
                }
                gate.complete(id);
                waits = waits + 1;
                proof {
                    assert forall|other: usize| #[trigger]
                        gate@.has_finished(other) implies attempts[other as int]
                        == scripted_failures(failures@, other as int) + 1 by {
                        if other != id {
                            assert(before.has_finished(other));
                        }
                    }
                }
            },
            GateAction::Done => {
                proof {
                    lemma_idle_is_drained(before);
                    assert forall|id: usize| id < task_count implies attempts[id as int]
                        == scripted_failures(failures@, id as int) + 1 by {
                        assert(gate@.has_finished(id));
                    }
                    assert(attempts@ =~= expected_attempts(task_count as nat, failures@));
                }
                let free_slots_at_end: usize = gate.available_permits();
                return Ok(
                    RunReport {
                        attempts,
                        peak_active: peak,
                        started,
                        waits: samples,
                        free_slots_at_end,
                    },
                );
            },
        }
    }
}

/// With at least one task and a ceiling of at least one, a run of either
/// scheduler ends with every task finished exactly once, each after at least
/// one attempt, and with no more tasks running at once than the ceiling.
pub proof fn law_run_completes_every_task(
    task_count: usize,
    max_connections: usize,
    failures: Seq<u32>,
    outcome: Result<RunReport, ConfigError>,
)
    requires
        task_count >= 1,
        max_connections >= 1,
        run_outcome(task_count, max_connections, failures, outcome),
    ensures
        outcome.is_ok(),
        outcome.unwrap().attempts@.len() == task_count,
        forall|id: int|
            0 <= id < task_count ==> #[trigger] outcome.unwrap().attempts@[id] == scripted_failures(
                failures,
                id,
            ) + 1,
        1 <= outcome.unwrap().peak_active <= max_connections,
{
}

/// On the same task count, ceiling and failures, the two schedulers report
/// the same attempts for every task identity, and so the same multiset of
/// attempts, whatever the order in which their tasks finished. They also
/// start the tasks in the same order and count the same at every wait.
pub proof fn law_variants_agree(
    task_count: usize,
    max_connections: usize,
    failures: Seq<u32>,
    by_stream: Result<RunReport, ConfigError>,
    by_permits: Result<RunReport, ConfigError>,
)
    requires
        run_outcome(task_count, max_connections, failures, by_stream),
        run_outcome(task_count, max_connections, failures, by_permits),
    ensures
        by_stream.is_ok() == by_permits.is_ok(),
        by_stream.is_err() ==> by_stream == by_permits,
        by_stream.is_ok() ==> {
            &&& by_stream.unwrap().attempts@ == by_permits.unwrap().attempts@
            &&& by_stream.unwrap().attempts@.to_multiset()
                == by_permits.unwrap().attempts@.to_multiset()
            &&& by_stream.unwrap().peak_active == by_permits.unwrap().peak_active
            &&& by_stream.unwrap().started@ == by_permits.unwrap().started@
            &&& by_stream.unwrap().waits@ == by_permits.unwrap().waits@
            &&& by_stream.unwrap().free_slots_at_end == by_permits.unwrap().free_slots_at_end
        },
{
}

/// In a run of either scheduler the tasks are started once each, in identity
/// order. At every wait as many tasks have been started as the ceiling lets
/// in beyond those that have ended, or all of them: no slot stays idle while
/// a task is queued, and no more run than the ceiling. The free slots and the
/// running tasks make up the ceiling at every wait, and at the end of the run
/// every slot is free: each permit that was taken has been given back.
pub proof fn law_slots_are_accounted_for(
    task_count: usize,
    max_connections: usize,
    failures: Seq<u32>,
    outcome: Result<RunReport, ConfigError>,
    wait: int,
)
    requires
        task_count >= 1,
        max_connections >= 1,
        run_outcome(task_count, max_connections, failures, outcome),
        0 <= wait < task_count,
    ensures
        outcome.is_ok(),
        outcome.unwrap().started@.len() == task_count,
        outcome.unwrap().started@[wait] == wait,
        outcome.unwrap().waits@.len() == task_count,
        outcome.unwrap().waits@[wait].completed == wait,
        outcome.unwrap().waits@[wait].started == (if wait + max_connections <= task_count {
            wait + max_connections
        } else {
            task_count as int
        }),
        1 <= outcome.unwrap().waits@[wait].started - outcome.unwrap().waits@[wait].completed
            <= max_connections,
        outcome.unwrap().waits@[wait].free_slots + (outcome.unwrap().waits@[wait].started
            - outcome.unwrap().waits@[wait].completed) == max_connections,
        outcome.unwrap().free_slots_at_end == max_connections,
{
}

/// In a run of either scheduler a task beyond the first full house is not
/// started before a slot is free for it: at the wait that precedes its start
/// exactly the tasks before it have been started, every slot is taken, and
/// the task is started once one more of them has ended.
pub proof fn law_task_waits_for_its_slot(
    task_count: usize,
    max_connections: usize,
    failures: Seq<u32>,
    outcome: Result<RunReport, ConfigError>,
    id: int,
)
    requires
        max_connections >= 1,
        max_connections <= id < task_count,
        run_outcome(task_count, max_connections, failures, outcome),
    ensures
        outcome.is_ok(),
        outcome.unwrap().waits@[id - max_connections].completed == id - max_connections,
        outcome.unwrap().waits@[id - max_connections].started == id,
        outcome.unwrap().waits@[id - max_connections].free_slots == 0,
        outcome.unwrap().waits@[id - max_connections + 1].completed == id - max_connections + 1,
        outcome.unwrap().waits@[id - max_connections + 1].started > id,
{
}

/// A ceiling of zero is refused by both schedulers, whatever the task count:
/// the run ends in the configuration error and reports no task.
pub proof fn law_zero_ceiling_is_refused(
    task_count: usize,
    failures: Seq<u32>,
    outcome: Result<RunReport, ConfigError>,
)
    requires
        run_outcome(task_count, 0, failures, outcome),
    ensures
        outcome == Err::<RunReport, ConfigError>(ConfigError::ZeroConcurrency),
{
}

} // verus!
