//! The throttled-stream scheduler: tasks are pulled from the queue of
//! identities only while fewer than the ceiling are in flight.

use crate::admission::lemma_finish;
use crate::admission::lemma_initial_wf;
use crate::admission::lemma_start_next;
use crate::admission::complete_effect;
use crate::admission::poll_effect;
use crate::admission::position;
use crate::admission::Admission;
use crate::config::validate;
use crate::config::config_verdict;
use crate::config::ConfigError;
use vstd::prelude::*;

verus! {

/// What the caller of a throttled stream does next.
#[derive(Clone, Copy, Debug, PartialEq, Eq, Structural)]
pub enum StreamAction {
    /// Start the task of this identity, then poll again.
    Start(usize),
    /// Nothing can be started: wait until a running task ends, report it with
    /// `complete`, then poll again.
    Wait,
    /// Every task has ended.
    Done,
}

impl StreamAction {
    /// The identity that the action starts, if it starts one.
    pub open spec fn started(self) -> Option<usize> {
        match self {
            StreamAction::Start(id) => Some(id),
            _ => None,
        }
    }
}

/// The pull-based scheduler. It holds the queue position and the tasks in
/// flight, and pulls the next identity only while a slot is free.
#[derive(Debug)]
pub struct ThrottledStream {
    task_count: usize,
    ceiling: usize,
    next: usize,
    in_flight: Vec<usize>,
    completed: usize,
}

impl View for ThrottledStream {
    type V = Admission;

    closed spec fn view(&self) -> Admission {
        Admission {
            task_count: self.task_count as nat,
            ceiling: self.ceiling as nat,
            admitted: self.next as nat,
            active: self.in_flight@,
            completed: self.completed as nat,
        }
    }
}

impl ThrottledStream {
    /// The scheduler's state is a state of a run.
    pub open spec fn wf(&self) -> bool {
        self@.wf()
    }

    /// A scheduler for `task_count` tasks with at most `max_concurrency` in
    /// flight. A zero ceiling or an empty workload is refused before anything
    /// starts.
    pub fn new(task_count: usize, max_concurrency: usize) -> (made: Result<
        ThrottledStream,
        ConfigError,
    >)
        ensures
            match config_verdict(task_count, max_concurrency) {
                Ok(_) => made.is_ok() && made.unwrap().wf() && made.unwrap()@ == Admission::initial(
                    task_count as nat,
                    max_concurrency as nat,
                ),
                Err(e) => made == Err::<ThrottledStream, ConfigError>(e),
            },
    {
        match validate(task_count, max_concurrency) {
            Err(e) => Err(e),
            Ok(_) => {
                proof {
                    lemma_initial_wf(task_count as nat, max_concurrency as nat);
                }
                Ok(
                    ThrottledStream {
                        task_count,
                        ceiling: max_concurrency,
                        next: 0,
                        in_flight: Vec::new(),
                        completed: 0,
                    },
                )
            },
        }
    }

    /// Decides the next step. While a task waits and a slot is free, the next
    /// identity in order is started. Otherwise the caller waits for a task in
    /// flight, and where none is left the run is over with every task ended.
    pub fn poll(&mut self) -> (action: StreamAction)
        requires
            old(self).wf(),
        ensures
            final(self).wf(),
            poll_effect(old(self)@, final(self)@, action.started()),
            !old(self)@.can_admit() && old(self)@.active.len() > 0 ==> action == StreamAction::Wait,
            !old(self)@.can_admit() && old(self)@.active.len() == 0 ==> action
                == StreamAction::Done && old(self)@.drained(),
    {
        if self.next < self.task_count && self.in_flight.len() < self.ceiling {
            proof {
                lemma_start_next(self@);
            }
            let id: usize = self.next;
            self.in_flight.push(id);
            self.next = self.next + 1;
            StreamAction::Start(id)
        } else if self.in_flight.len() > 0 {
            StreamAction::Wait
        } else {
            StreamAction::Done
        }
    }

    /// Records that the task `id` has ended. The answer says whether that task
    /// was in flight; where it was not, nothing changes.
    pub fn complete(&mut self, id: usize) -> (known: bool)
        requires
            old(self).wf(),
        ensures
            final(self).wf(),
            complete_effect(old(self)@, final(self)@, id, known),
    {
        match position(&self.in_flight, id) {
            None => false,
            Some(slot) => {
                proof {
                    lemma_finish(self@, slot as int);
                    assert(self@.active.index_of(id) == slot);
                }
                self.in_flight.remove(slot);
                self.completed = self.completed + 1;
                true
            },
        }
    }

    /// The number of tasks in flight.
    pub fn in_flight_count(&self) -> (n: usize)
        ensures
            n == self@.active.len(),
    {
        self.in_flight.len()
    }

    /// The identity of the task in flight at `slot`, counted from the one
    /// that started first.
    pub fn in_flight_at(&self, slot: usize) -> (id: usize)
        requires
            slot < self@.active.len(),
        ensures
            id == self@.active[slot as int],
    {
        self.in_flight[slot]
    }

    /// The number of tasks that have ended.
    pub fn completed(&self) -> (n: usize)
        ensures
            n == self@.completed,
    {
        self.completed
    }

    /// The number of tasks started so far.
    pub fn started(&self) -> (n: usize)
        ensures
            n == self@.admitted,
    {
        self.next
    }
}

} // verus!
