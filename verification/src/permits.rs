//! The permit-gated scheduler: every task is launched as a unit of its own,
//! but only once the admission loop holds a permit for it.

use crate::admission::lemma_finish;
use crate::admission::lemma_initial_wf;
use crate::admission::lemma_start_next;
use crate::admission::complete_effect;
use crate::admission::poll_effect;
use crate::admission::position;
use crate::admission::Admission;
use crate::config::config_verdict;
use crate::config::validate;
use crate::config::ConfigError;
use vstd::prelude::*;

verus! {

/// A counting pool of permits. A permit taken from it authorises one running
/// task; giving it back frees the slot for another.
#[derive(Debug)]
pub struct PermitPool {
    capacity: usize,
    available: usize,
}

impl PermitPool {
    /// The number of permits that the pool was made with.
    pub closed spec fn spec_capacity(&self) -> nat {
        self.capacity as nat
    }

    /// The number of permits that nobody holds.
    pub closed spec fn spec_available(&self) -> nat {
        self.available as nat
    }

    /// No more permits are free than the pool was made with.
    pub open spec fn wf(&self) -> bool {
        self.spec_available() <= self.spec_capacity()
    }

    /// A pool of `capacity` permits, all of them free.
    pub fn new(capacity: usize) -> (pool: PermitPool)
        ensures
            pool.wf(),
            pool.spec_capacity() == capacity,
            pool.spec_available() == capacity,
    {
        PermitPool { capacity, available: capacity }
    }

    /// Takes a permit where one is free, and says whether it did.
    pub fn try_acquire(&mut self) -> (taken: bool)
        requires
            old(self).wf(),
        ensures
            final(self).wf(),
            final(self).spec_capacity() == old(self).spec_capacity(),
            taken == (old(self).spec_available() > 0),
            taken ==> final(self).spec_available() == old(self).spec_available() - 1,
            !taken ==> final(self).spec_available() == old(self).spec_available(),
    {
        if self.available > 0 {
            self.available = self.available - 1;
            true
        } else {
            false
        }
    }

    /// Gives a permit back where one is held, and says whether it did.
    pub fn release(&mut self) -> (given: bool)
        requires
            old(self).wf(),
        ensures
            final(self).wf(),
            final(self).spec_capacity() == old(self).spec_capacity(),
            given == (old(self).spec_available() < old(self).spec_capacity()),
            given ==> final(self).spec_available() == old(self).spec_available() + 1,
            !given ==> final(self).spec_available() == old(self).spec_available(),
    {
        if self.available < self.capacity {
            self.available = self.available + 1;
            true
        } else {
            false
        }
    }

    /// The number of permits that nobody holds.
    pub fn available(&self) -> (n: usize)
        ensures
            n == self.spec_available(),
    {
        self.available
    }

    /// The number of permits that the pool was made with.
    pub fn capacity(&self) -> (n: usize)
        ensures
            n == self.spec_capacity(),
    {
        self.capacity
    }
}

/// What the admission loop of a permit gate does next.
#[derive(Clone, Copy, Debug, PartialEq, Eq, Structural)]
pub enum GateAction {
    /// A permit was taken for the task of this identity: launch it, then poll
    /// again.
    Spawn(usize),
    /// A task waits but every permit is held: wait until a launched task ends
    /// and gives its permit back, report it with `complete`, then poll again.
    AwaitPermit,
    /// Every task has been launched: wait for one of those still running,
    /// report it with `complete`, then poll again.
    AwaitJoin,
    /// Every launched task has ended and given its permit back.
    Done,
}

impl GateAction {
    /// The identity that the action launches, if it launches one.
    pub open spec fn started(self) -> Option<usize> {
        match self {
            GateAction::Spawn(id) => Some(id),
            _ => None,
        }
    }
}

/// The push-based scheduler. Its admission loop goes through the identities
/// in order and launches each one as soon as it holds a permit for it; a task
/// keeps its permit until it has ended.
#[derive(Debug)]
pub struct PermitGate {
    task_count: usize,
    pool: PermitPool,
    next: usize,
    launched: Vec<usize>,
    joined: usize,
}

impl View for PermitGate {
    type V = Admission;

    closed spec fn view(&self) -> Admission {
        Admission {
            task_count: self.task_count as nat,
            ceiling: self.pool.spec_capacity(),
            admitted: self.next as nat,
            active: self.launched@,
            completed: self.joined as nat,
        }
    }
}

impl PermitGate {
    /// The number of permits that no task holds.
    pub closed spec fn free_permits(&self) -> nat {
        self.pool.spec_available()
    }

    /// The scheduler's state is a state of a run, and every running task
    /// holds exactly one permit.
    pub open spec fn wf(&self) -> bool {
        &&& self@.wf()
        &&& self.free_permits() + self@.active.len() == self@.ceiling
    }

    /// A gate for `task_count` tasks with a pool of `max_concurrency`
    /// permits. A zero ceiling or an empty workload is refused before
    /// anything starts.
    pub fn new(task_count: usize, max_concurrency: usize) -> (made: Result<PermitGate, ConfigError>)
        ensures
            match config_verdict(task_count, max_concurrency) {
                Ok(_) => made.is_ok() && made.unwrap().wf() && made.unwrap()@ == Admission::initial(
                    task_count as nat,
                    max_concurrency as nat,
                ),
                Err(e) => made == Err::<PermitGate, ConfigError>(e),
            },
    {
        match validate(task_count, max_concurrency) {
            Err(e) => Err(e),
            Ok(_) => {
                proof {
                    lemma_initial_wf(task_count as nat, max_concurrency as nat);
                }
                Ok(
                    PermitGate {
                        task_count,
                        pool: PermitPool::new(max_concurrency),
                        next: 0,
                        launched: Vec::new(),
                        joined: 0,
                    },
                )
            },
        }
    }

    /// Decides the next step of the admission loop. While a task waits, the
    /// loop tries to take a permit: with one it launches the next identity in
    /// order, without one it waits for a permit. Once every task has been
    /// launched it waits for those still running, and is done when none is.
    pub fn poll(&mut self) -> (action: GateAction)
        requires
            old(self).wf(),
        ensures
            final(self).wf(),
            poll_effect(old(self)@, final(self)@, action.started()),
            !old(self)@.can_admit() && old(self)@.admitted < old(self)@.task_count ==> action
                == GateAction::AwaitPermit,
            old(self)@.admitted == old(self)@.task_count && old(self)@.active.len() > 0 ==> action
                == GateAction::AwaitJoin,
            old(self)@.admitted == old(self)@.task_count && old(self)@.active.len() == 0 ==> action
                == GateAction::Done && old(self)@.drained(),
    {
        if self.next < self.task_count {
            if self.pool.try_acquire() {
                proof {
                    lemma_start_next(old(self)@);
                }
                let id: usize = self.next;
                self.launched.push(id);
                self.next = self.next + 1;
                GateAction::Spawn(id)
            } else {
                GateAction::AwaitPermit
            }
        } else if self.launched.len() > 0 {
            GateAction::AwaitJoin
        } else {
            GateAction::Done
        }
    }

    /// Records that the launched task `id` has ended: its permit goes back to
    /// the pool. The answer says whether that task was running; where it was
    /// not, nothing changes.
    pub fn complete(&mut self, id: usize) -> (known: bool)
        requires
            old(self).wf(),
        ensures
            final(self).wf(),
            complete_effect(old(self)@, final(self)@, id, known),
            known ==> final(self).free_permits() == old(self).free_permits() + 1,
            !known ==> final(self).free_permits() == old(self).free_permits(),
    {
        match position(&self.launched, id) {
            None => false,
            Some(slot) => {
                proof {
                    lemma_finish(self@, slot as int);
                    assert(self@.active.index_of(id) == slot);
                }
                self.launched.remove(slot);
                self.pool.release();
                self.joined = self.joined + 1;
                true
            },
        }
    }

    /// The number of launched tasks that have not ended.
    pub fn running_count(&self) -> (n: usize)
        ensures
            n == self@.active.len(),
    {
        self.launched.len()
    }

    /// The identity of the running task at `slot`, counted from the one that
    /// was launched first.
    pub fn running_at(&self, slot: usize) -> (id: usize)
        requires
            slot < self@.active.len(),
        ensures
            id == self@.active[slot as int],
    {
        self.launched[slot]
    }

    /// The number of permits that no task holds.
    pub fn available_permits(&self) -> (n: usize)
        ensures
            n == self.free_permits(),
    {
        self.pool.available()
    }

    /// The number of tasks that have ended.
    pub fn completed(&self) -> (n: usize)
        ensures
            n == self@.completed,
    {
        self.joined
    }

    /// The number of tasks launched so far.
    pub fn started(&self) -> (n: usize)
        ensures
            n == self@.admitted,
    {
        self.next
    }
}

} // verus!
