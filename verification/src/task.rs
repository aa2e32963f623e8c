use vstd::prelude::*;

verus! {

/// Source of unique task identifiers: a monotone counter that starts at
/// zero and is never reset while the scheduler is alive. Each task draws
/// its identifier from one allocator, so two live tasks never share one.
pub struct TaskIdAllocator {
    /// The value the next allocation will return.
    pub next_id: u64,
}

/// Identifier of one spawned task; allocated exactly once, never reused
/// within a run.
#[derive(Clone, Copy, PartialEq, Eq, Structural, Debug)]
pub struct TaskId {
    pub value: u64,
}

impl TaskIdAllocator {
    pub fn new() -> (a: TaskIdAllocator)
        ensures
            a.next_id == 0,
    {
        TaskIdAllocator { next_id: 0 }
    }
}

impl TaskId {
    /// Issues the next identifier: the counter's current value, after which
    /// the counter moves up by one. Counter exhaustion is left out: the
    /// 64-bit space is never expected to run dry within one run.
    pub fn new(alloc: &mut TaskIdAllocator) -> (id: TaskId)
        requires
            old(alloc).next_id < u64::MAX,
        ensures
            id.value == old(alloc).next_id,
            final(alloc).next_id == old(alloc).next_id + 1,
    {
        let value = alloc.next_id;
        alloc.next_id = alloc.next_id + 1;
        TaskId { value }
    }

    pub fn as_u64(&self) -> (r: u64)
        ensures
            r == self.value,
    {
        self.value
    }
}

/// What one advance step of a computation reports: finished for good, or
/// suspended until some wake handle re-queues the owning task.
#[derive(Clone, Copy, PartialEq, Eq, Structural, Debug)]
pub enum StepResult {
    Complete,
    Suspended,
}

/// Capability that re-queues one task. It carries the identifier of the
/// task it wakes; invoking it (through `Executor::wake`) pushes that
/// identifier onto the ready queue and does nothing else, so holding or
/// cloning a handle is always safe.
#[derive(Clone, Copy, PartialEq, Eq, Structural, Debug)]
pub struct WakeHandle {
    pub task_id: TaskId,
}

/// One unit of asynchronous work, advanced incrementally. The handle given
/// to `step` wakes the owning task when handed back to the scheduler; a
/// computation that reports `Suspended` is stepped again only after some
/// holder of that handle re-queues the task.
pub trait Computation {
    fn step(&mut self, wake: &WakeHandle) -> StepResult;
}

/// One spawned task: its identifier, immutable after creation, and the
/// boxed computation it owns. The box keeps the computation at a stable
/// address for its whole lifetime.
pub struct Task {
    id: TaskId,
    computation: Box<dyn Computation>,
}

impl View for Task {
    type V = TaskId;

    /// In contracts a task is read through its identifier; the computation
    /// it owns stays opaque.
    closed spec fn view(&self) -> TaskId {
        self.id
    }
}

impl Task {
    pub fn id(&self) -> (r: TaskId)
        ensures
            r == self@,
    {
        self.id
    }

    /// Wraps a computation and draws a fresh identifier from the allocator.
    pub fn new(alloc: &mut TaskIdAllocator, computation: Box<dyn Computation>) -> (t: Task)
        requires
            old(alloc).next_id < u64::MAX,
        ensures
            t@.value == old(alloc).next_id,
            final(alloc).next_id == old(alloc).next_id + 1,
    {
        Task { id: TaskId::new(alloc), computation }
    }

    /// Advances the owned computation by exactly one step. The identifier
    /// never changes; what the step reports is up to the computation.
    pub fn poll(&mut self, wake: &WakeHandle) -> (r: StepResult)
        ensures
            final(self)@ == old(self)@,
    {
        self.computation.step(wake)
    }
}

} // verus!
