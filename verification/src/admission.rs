//! The admission model that both schedulers follow: which tasks have been
//! admitted, which are running, and how many have finished.

use vstd::prelude::*;

verus! {

/// The state of a scheduler run, as a mathematical value.
pub struct Admission {
    /// Number of tasks of the run; their identities are `0..task_count`.
    pub task_count: nat,
    /// Most tasks that may run at once.
    pub ceiling: nat,
    /// Tasks admitted so far: the identities `0..admitted`, in that order.
    pub admitted: nat,
    /// The identities of the tasks that run now.
    pub active: Seq<usize>,
    /// Tasks that have finished.
    pub completed: nat,
}

impl Admission {
    /// The state before any task is admitted.
    pub open spec fn initial(task_count: nat, ceiling: nat) -> Admission {
        Admission { task_count, ceiling, admitted: 0, active: Seq::empty(), completed: 0 }
    }

    /// What holds of every state of a run. Its second clause is the
    /// concurrency bound.
    pub open spec fn wf(self) -> bool {
        &&& 1 <= self.task_count <= usize::MAX
        &&& 1 <= self.ceiling
        &&& self.active.len() <= self.ceiling
        &&& self.admitted <= self.task_count
        &&& self.completed + self.active.len() == self.admitted
        &&& self.active.no_duplicates()
        &&& forall|i: int| 0 <= i < self.active.len() ==> (#[trigger] self.active[i]) < self.admitted
    }

    /// A task is waiting and a slot is free.
    pub open spec fn can_admit(self) -> bool {
        self.admitted < self.task_count && self.active.len() < self.ceiling
    }

    /// The state after the next waiting task has been admitted.
    pub open spec fn start_next(self) -> Admission {
        Admission {
            admitted: self.admitted + 1,
            active: self.active.push(self.admitted as usize),
            ..self
        }
    }

    /// The state after the running task in `slot` has finished.
    pub open spec fn finish(self, slot: int) -> Admission {
        Admission { active: self.active.remove(slot), completed: self.completed + 1, ..self }
    }

    /// Every task of the run has finished.
    pub open spec fn drained(self) -> bool {
        self.completed == self.task_count
    }

    /// A task has been admitted and has finished.
    pub open spec fn has_finished(self, id: usize) -> bool {
        id < self.admitted && !self.active.contains(id)
    }
}

/// The initial state of a run with a task and a slot is well formed.
pub proof fn lemma_initial_wf(task_count: nat, ceiling: nat)
    requires
        1 <= task_count <= usize::MAX,
        1 <= ceiling,
    ensures
        Admission::initial(task_count, ceiling).wf(),
{
}

/// Admission keeps a state well formed, the concurrency bound included, and
/// changes the set of finished tasks in nothing.
pub proof fn lemma_start_next(a: Admission)
    requires
        a.wf(),
        a.can_admit(),
    ensures
        a.start_next().wf(),
        a.start_next().active.contains(a.admitted as usize),
        forall|id: usize| a.start_next().has_finished(id) <==> a.has_finished(id),
{
    let b = a.start_next();
    let new_id = a.admitted as usize;
    assert(b.active[a.active.len() as int] == new_id);
    assert forall|id: usize| b.has_finished(id) <==> a.has_finished(id) by {
        if a.active.contains(id) {
            let i = a.active.index_of(id);
            assert(b.active[i] == id);
        }
        if b.active.contains(id) && id != a.admitted {
            let i = b.active.index_of(id);
            assert(i < a.active.len());
            assert(a.active[i] == id);
        }
    }
}

/// The end of a running task keeps a state well formed and adds that task,
/// and no other, to the finished ones.
pub proof fn lemma_finish(a: Admission, slot: int)
    requires
        a.wf(),
        0 <= slot < a.active.len(),
    ensures
        a.finish(slot).wf(),
        forall|id: usize|
            a.finish(slot).has_finished(id) <==> (a.has_finished(id) || id == a.active[slot]),
{
    let b = a.finish(slot);
    a.active.remove_ensures(slot);
    assert forall|id: usize|
        b.has_finished(id) <==> (a.has_finished(id) || id == a.active[slot]) by {
        if b.active.contains(id) {
            let i = b.active.index_of(id);
            if i < slot {
                assert(a.active[i] == id);
            } else {
                assert(a.active[i + 1] == id);
            }
        }
        if a.active.contains(id) && id != a.active[slot] {
            let i = a.active.index_of(id);
            if i < slot {
                assert(b.active[i] == id);
            } else {
                assert(b.active[i - 1] == id);
            }
        }
    }
}

/// A well-formed state in which nothing runs and nothing can be admitted is
/// one in which every task has finished.
pub proof fn lemma_idle_is_drained(a: Admission)
    requires
        a.wf(),
        !a.can_admit(),
        a.active.len() == 0,
    ensures
        a.drained(),
        a.admitted == a.task_count,
{
}

/// One event of a run: the next waiting task is admitted while a slot is
/// free, or a running task finishes.
pub open spec fn run_step(a: Admission, b: Admission) -> bool {
    ||| a.can_admit() && b == a.start_next()
    ||| exists|slot: int| 0 <= slot < a.active.len() && b == a.finish(slot)
}

/// What one poll of either scheduler does to the state of a run: while a
/// task waits and a slot is free it starts the next identity in order, and
/// otherwise it starts nothing and changes nothing.
pub open spec fn poll_effect(before: Admission, after: Admission, started: Option<usize>) -> bool {
    if before.can_admit() {
        after == before.start_next() && started == Some(before.admitted as usize)
    } else {
        after == before && started.is_none()
    }
}

/// What the report that task `id` has ended does to the state of a run: a
/// running task finishes, and of any other task the report changes nothing.
pub open spec fn complete_effect(before: Admission, after: Admission, id: usize, known: bool) -> bool {
    &&& known == before.active.contains(id)
    &&& known ==> after == before.finish(before.active.index_of(id))
    &&& known ==> run_step(before, after)
    &&& !known ==> after == before
}

/// `states` are the successive states of a run of `task_count` tasks under
/// `ceiling`, from its start.
pub open spec fn is_run(states: Seq<Admission>, task_count: nat, ceiling: nat) -> bool {
    &&& states.len() > 0
    &&& states[0] == Admission::initial(task_count, ceiling)
    &&& forall|i: int| 0 <= i < states.len() - 1 ==> run_step(#[trigger] states[i], states[i + 1])
}

/// At every instant of every run, whatever the order in which tasks finish,
/// no more tasks are running than the ceiling allows, and no more have
/// finished than the run has.
pub proof fn law_ceiling_holds_at_every_instant(
    states: Seq<Admission>,
    task_count: nat,
    ceiling: nat,
    at: int,
)
    requires
        1 <= task_count <= usize::MAX,
        1 <= ceiling,
        is_run(states, task_count, ceiling),
        0 <= at < states.len(),
    ensures
        states[at].wf(),
        states[at].task_count == task_count,
        states[at].ceiling == ceiling,
        states[at].active.len() <= ceiling,
        states[at].completed <= task_count,
    decreases at,
{
    if at == 0 {
        lemma_initial_wf(task_count, ceiling);
    } else {
        law_ceiling_holds_at_every_instant(states, task_count, ceiling, at - 1);
        let a = states[at - 1];
        assert(run_step(a, states[at - 1 + 1]));
        if a.can_admit() && states[at] == a.start_next() {
            lemma_start_next(a);
        } else {
            let slot = choose|slot: int| 0 <= slot < a.active.len() && states[at] == a.finish(slot);
            lemma_finish(a, slot);
        }
    }
}

/// Finds the place of `id` among the running tasks.
pub fn position(ids: &Vec<usize>, id: usize) -> (found: Option<usize>)
    ensures
        found.is_some() <==> ids@.contains(id),
        found.is_some() ==> found.unwrap() < ids.len() && ids[found.unwrap() as int] == id,
{
    let mut i: usize = 0;
    while i < ids.len()
        invariant
            i <= ids.len(),
            forall|j: int| 0 <= j < i ==> ids[j] != id,
        decreases ids.len() - i,
    {
        if ids[i] == id {
            return Some(i);
        }
        i += 1;
    }
    None
}

} // verus!
