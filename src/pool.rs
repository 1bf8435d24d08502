//! The bookkeeping of one generation of delayed tasks, and of the swap from
//! one generation to the next.
use vstd::prelude::*;

verus! {

/// The life of a pool: tasks are added while `Active`; `cancel_all` makes it
/// `Draining`; once every task has settled it can become `Retired`.
#[derive(Clone, Copy, Debug, PartialEq, Eq, Structural)]
pub enum PoolPhase {
    Active,
    Draining,
    Retired,
}

/// Where one task stands.
#[derive(Clone, Copy, Debug, PartialEq, Eq, Structural)]
pub enum TaskStatus {
    /// Waiting out its delay.
    Pending,
    /// Its delay elapsed and its delivery was started.
    Fired,
    /// Cancelled during its wait: it never delivers.
    Cancelled,
    /// Its delivery call has returned, or was abandoned.
    Finished,
}

pub open spec fn is_settled(s: TaskStatus) -> bool {
    s is Cancelled || s is Finished
}

/// The tasks spawned from one configuration snapshot.
pub struct TaskPool {
    generation: u64,
    phase: PoolPhase,
    tasks: Vec<TaskStatus>,
}

pub struct PoolView {
    pub generation: nat,
    pub phase: PoolPhase,
    pub tasks: Seq<TaskStatus>,
}

impl View for TaskPool {
    type V = PoolView;

    closed spec fn view(&self) -> PoolView {
        PoolView { generation: self.generation as nat, phase: self.phase, tasks: self.tasks@ }
    }
}

/// Every task has settled.
pub open spec fn all_settled(p: PoolView) -> bool {
    forall|i: int| 0 <= i < p.tasks.len() ==> is_settled(#[trigger] p.tasks[i])
}

/// No task waits any more once cancellation has begun, and a retired pool
/// has no task left running.
pub open spec fn pool_wf(p: PoolView) -> bool {
    &&& p.phase !is Active ==> forall|i: int|
        0 <= i < p.tasks.len() ==> !(#[trigger] p.tasks[i] is Pending)
    &&& p.phase is Retired ==> all_settled(p)
}

/// A task may deliver only from a live pool, and only once.
pub open spec fn may_fire(p: PoolView, id: int) -> bool {
    p.phase is Active && 0 <= id < p.tasks.len() && p.tasks[id] is Pending
}

impl TaskPool {
    /// An empty, active pool.
    pub fn new(generation: u64) -> (r: TaskPool)
        ensures
            r@ == (PoolView { generation: generation as nat, phase: PoolPhase::Active, tasks: seq![] }),
            pool_wf(r@),
    {
        TaskPool { generation, phase: PoolPhase::Active, tasks: Vec::new() }
    }

    pub fn generation(&self) -> (r: u64)
        ensures
            r as nat == self@.generation,
    {
        self.generation
    }

    pub fn phase(&self) -> (r: PoolPhase)
        ensures
            r == self@.phase,
    {
        self.phase
    }

    pub fn len(&self) -> (r: usize)
        ensures
            r == self@.tasks.len(),
    {
        self.tasks.len()
    }

    pub fn status(&self, id: usize) -> (r: TaskStatus)
        requires
            id < self@.tasks.len(),
        ensures
            r == self@.tasks[id as int],
    {
        self.tasks[id]
    }

    /// Records a new pending task and returns its index.
    pub fn spawn(&mut self) -> (r: usize)
        requires
            pool_wf(old(self)@),
            old(self)@.phase is Active,
        ensures
            r == old(self)@.tasks.len(),
            final(self)@ == (PoolView {
                tasks: old(self)@.tasks.push(TaskStatus::Pending),
                ..old(self)@
            }),
            pool_wf(final(self)@),
    {
        let id = self.tasks.len();
        self.tasks.push(TaskStatus::Pending);
        id
    }

    /// Called when the delay of task `id` has elapsed: says whether it may
    /// deliver now, and if so records that it has fired.
    pub fn fire(&mut self, id: usize) -> (r: bool)
        requires
            pool_wf(old(self)@),
        ensures
            r == may_fire(old(self)@, id as int),
            r ==> final(self)@ == (PoolView {
                tasks: old(self)@.tasks.update(id as int, TaskStatus::Fired),
                ..old(self)@
            }),
            !r ==> final(self)@ == old(self)@,
            pool_wf(final(self)@),
    {
        let ok = self.phase == PoolPhase::Active && id < self.tasks.len() && self.tasks[id]
            == TaskStatus::Pending;
        if ok {
            self.tasks.set(id, TaskStatus::Fired);
        }
        ok
    }

    /// Records that the delivery of fired task `id` is over.
    pub fn finish(&mut self, id: usize)
        requires
            pool_wf(old(self)@),
            id < old(self)@.tasks.len(),
            old(self)@.tasks[id as int] is Fired,
        ensures
            final(self)@ == (PoolView {
                tasks: old(self)@.tasks.update(id as int, TaskStatus::Finished),
                ..old(self)@
            }),
            pool_wf(final(self)@),
    {
        self.tasks.set(id, TaskStatus::Finished);
    }

    /// Cancels every task still waiting; fired tasks run on.
    pub fn cancel_all(&mut self)
        requires
            pool_wf(old(self)@),
            old(self)@.phase is Active,
        ensures
            final(self)@.generation == old(self)@.generation,
            final(self)@.phase is Draining,
            final(self)@.tasks.len() == old(self)@.tasks.len(),
            forall|i: int|
                0 <= i < old(self)@.tasks.len() ==> #[trigger] final(self)@.tasks[i] == if old(
                    self,
                )@.tasks[i] is Pending {
                    TaskStatus::Cancelled
                } else {
                    old(self)@.tasks[i]
                },
            pool_wf(final(self)@),
    {
        let ghost old_tasks = self.tasks@;
        let ghost old_generation = self.generation;
        let mut i: usize = 0;
        while i < self.tasks.len()
            invariant
                self.generation == old_generation,
                i <= self.tasks@.len(),
                self.tasks@.len() == old_tasks.len(),
                forall|k: int|
                    0 <= k < i ==> #[trigger] self.tasks@[k] == if old_tasks[k] is Pending {
                        TaskStatus::Cancelled
                    } else {
                        old_tasks[k]
                    },
                forall|k: int| i <= k < old_tasks.len() ==> #[trigger] self.tasks@[k] == old_tasks[k],
            decreases old_tasks.len() - i,
        {
            if self.tasks[i] == TaskStatus::Pending {
                self.tasks.set(i, TaskStatus::Cancelled);
            }
            i = i + 1;
        }
        self.phase = PoolPhase::Draining;
    }

    /// Whether every task has been cancelled or has finished.
    pub fn is_all_settled(&self) -> (r: bool)
        ensures
            r == all_settled(self@),
    {
        let mut i: usize = 0;
        while i < self.tasks.len()
            invariant
                i <= self.tasks@.len(),
                forall|k: int| 0 <= k < i ==> is_settled(#[trigger] self.tasks@[k]),
            decreases self.tasks@.len() - i,
        {
            if self.tasks[i] == TaskStatus::Pending || self.tasks[i] == TaskStatus::Fired {
                assert(!is_settled(self@.tasks[i as int]));
                return false;
            }
            i = i + 1;
        }
        true
    }

    /// Whether the pool keeps its rules: no task waits once cancellation has
    /// begun, and every task has settled once it is retired.
    pub fn is_wf(&self) -> (r: bool)
        ensures
            r == pool_wf(self@),
    {
        let settled = self.is_all_settled();
        let mut i: usize = 0;
        while i < self.tasks.len()
            invariant
                i <= self.tasks@.len(),
                self.phase !is Active ==> forall|k: int|
                    0 <= k < i ==> !(#[trigger] self.tasks@[k] is Pending),
            decreases self.tasks@.len() - i,
        {
            if self.phase != PoolPhase::Active && self.tasks[i] == TaskStatus::Pending {
                assert(self@.tasks[i as int] is Pending);
                return false;
            }
            i = i + 1;
        }
        self.phase != PoolPhase::Retired || settled
    }

    /// Retires a draining pool whose tasks have all settled.
    pub fn retire(&mut self) -> (r: bool)
        requires
            pool_wf(old(self)@),
        ensures
            r == (old(self)@.phase is Draining && all_settled(old(self)@)),
            r ==> final(self)@ == (PoolView { phase: PoolPhase::Retired, ..old(self)@ }),
            !r ==> final(self)@ == old(self)@,
            pool_wf(final(self)@),
    {
        if self.phase == PoolPhase::Draining && self.is_all_settled() {
            self.phase = PoolPhase::Retired;
            true
        } else {
            false
        }
    }
}

/// The one live generation, and the rule for replacing it.
pub struct Generations {
    current: TaskPool,
}

impl View for Generations {
    type V = PoolView;

    closed spec fn view(&self) -> PoolView {
        self.current@
    }
}

/// Task `id` of generation `generation` may deliver now.
pub open spec fn generation_may_fire(g: PoolView, generation: int, id: int) -> bool {
    generation == g.generation && may_fire(g, id)
}

impl Generations {
    /// Generation zero, active and empty.
    pub fn new() -> (r: Generations)
        ensures
            r@ == (PoolView { generation: 0, phase: PoolPhase::Active, tasks: seq![] }),
            pool_wf(r@),
    {
        Generations { current: TaskPool::new(0) }
    }

    pub fn current(&self) -> (r: &TaskPool)
        ensures
            r@ == self@,
    {
        &self.current
    }

    /// Whether the live generation keeps the rules of a pool.
    pub fn is_wf(&self) -> (r: bool)
        ensures
            r == pool_wf(self@),
    {
        self.current.is_wf()
    }

    /// Records a new task in the live generation.
    pub fn spawn(&mut self) -> (r: usize)
        requires
            pool_wf(old(self)@),
            old(self)@.phase is Active,
        ensures
            r == old(self)@.tasks.len(),
            final(self)@ == (PoolView {
                tasks: old(self)@.tasks.push(TaskStatus::Pending),
                ..old(self)@
            }),
            pool_wf(final(self)@),
    {
        self.current.spawn()
    }

    /// Called when the delay of task `id` of `generation` has elapsed: a task
    /// of any generation but the live one never delivers.
    pub fn fire(&mut self, generation: u64, id: usize) -> (r: bool)
        requires
            pool_wf(old(self)@),
        ensures
            r == generation_may_fire(old(self)@, generation as int, id as int),
            r ==> final(self)@ == (PoolView {
                tasks: old(self)@.tasks.update(id as int, TaskStatus::Fired),
                ..old(self)@
            }),
            !r ==> final(self)@ == old(self)@,
            pool_wf(final(self)@),
    {
        if generation != self.current.generation() {
            return false;
        }
        self.current.fire(id)
    }

    /// Records that the delivery of fired task `id` of the live generation is over.
    pub fn finish(&mut self, id: usize)
        requires
            pool_wf(old(self)@),
            id < old(self)@.tasks.len(),
            old(self)@.tasks[id as int] is Fired,
        ensures
            final(self)@ == (PoolView {
                tasks: old(self)@.tasks.update(id as int, TaskStatus::Finished),
                ..old(self)@
            }),
            pool_wf(final(self)@),
    {
        self.current.finish(id)
    }

    /// Cancels the live generation if it is still active.
    pub fn cancel_all(&mut self)
        requires
            pool_wf(old(self)@),
        ensures
            final(self)@.generation == old(self)@.generation,
            final(self)@.phase !is Active,
            old(self)@.phase is Active ==> final(self)@.phase is Draining,
            old(self)@.phase !is Active ==> final(self)@ == old(self)@,
            final(self)@.tasks.len() == old(self)@.tasks.len(),
            forall|i: int|
                0 <= i < old(self)@.tasks.len() ==> #[trigger] final(self)@.tasks[i] == if old(
                    self,
                )@.tasks[i] is Pending {
                    TaskStatus::Cancelled
                } else {
                    old(self)@.tasks[i]
                },
            pool_wf(final(self)@),
    {
        if self.current.phase() == PoolPhase::Active {
            self.current.cancel_all();
        }
    }

    /// Retires the live generation once it has drained.
    pub fn retire(&mut self) -> (r: bool)
        requires
            pool_wf(old(self)@),
        ensures
            r == (old(self)@.phase is Draining && all_settled(old(self)@)),
            r ==> final(self)@ == (PoolView { phase: PoolPhase::Retired, ..old(self)@ }),
            !r ==> final(self)@ == old(self)@,
            pool_wf(final(self)@),
    {
        self.current.retire()
    }

    /// Starts the next generation, which is allowed only once the live one is
    /// retired.
    pub fn start_next(&mut self) -> (r: bool)
        requires
            pool_wf(old(self)@),
        ensures
            r == (old(self)@.phase is Retired && old(self)@.generation < u64::MAX),
            r ==> final(self)@ == (PoolView {
                generation: old(self)@.generation + 1,
                phase: PoolPhase::Active,
                tasks: seq![],
            }),
            !r ==> final(self)@ == old(self)@,
            pool_wf(final(self)@),
    {
        if self.current.phase() == PoolPhase::Retired && self.current.generation() < u64::MAX {
            let next = self.current.generation() + 1;
            self.current = TaskPool::new(next);
            true
        } else {
            false
        }
    }
}

/// Generation isolation. A generation may be replaced only once it is
/// retired (see `Generations::start_next`); at that point none of its tasks is
/// waiting or in flight, and none of them can deliver in the generation that
/// replaces it.
pub proof fn lemma_generation_isolation(old_gen: PoolView, new_gen: PoolView, id: int)
    requires
        pool_wf(old_gen),
        old_gen.phase is Retired,
        new_gen.generation == old_gen.generation + 1,
    ensures
        all_settled(old_gen),
        !may_fire(old_gen, id),
        !generation_may_fire(new_gen, old_gen.generation as int, id),
{
}

/// Once a pool is cancelled, no task of it can deliver.
pub proof fn lemma_no_fire_after_cancel(p: PoolView, id: int)
    requires
        p.phase !is Active,
    ensures
        !may_fire(p, id),
{
}

} // verus!
