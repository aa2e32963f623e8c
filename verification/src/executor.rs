use vstd::prelude::*;
use std::collections::BTreeMap;
use crossbeam_queue::ArrayQueue;
use crate::task::{Task, TaskId, WakeHandle, StepResult};
use crate::ready_queue::{ready_ids, queue_bound, queue_new, queue_push, queue_pop,
    queue_is_empty, queue_len, queue_capacity};
use crate::platform::{disable_interrupts, enable_interrupts, enable_interrupts_and_halt};

verus! {

/// The ready queue's fixed capacity: one hundred slots.
pub const READY_QUEUE_CAPACITY: usize = 100;

/// Outcome of one full drain of the ready queue, over the ghost model:
/// which task identifiers stay live, which keep a cached wake handle, and
/// how many polls the drain performed. `short` marks the degenerate case
/// where the verdict sequence ran out before the queue did; a drain the
/// scheduler performs never produces it.
pub struct DrainOutcome {
    pub tasks: Set<u64>,
    pub cache: Set<u64>,
    pub polls: nat,
    pub short: bool,
}

/// What draining the ready queue does to the scheduler's two tables, entry
/// by entry from the front: a queued identifier with no live task is
/// skipped; a live one is polled, consuming the next verdict. A `true`
/// verdict (the computation completed) retires the task together with its
/// cached handle; a `false` verdict (still pending) keeps the task and
/// leaves a cached handle behind.
pub open spec fn drain(tasks: Set<u64>, cache: Set<u64>, queue: Seq<u64>, verdicts: Seq<bool>)
    -> DrainOutcome
    decreases queue.len(),
{
    if queue.len() == 0 {
        DrainOutcome { tasks, cache, polls: 0, short: false }
    } else {
        let id = queue[0];
        if !tasks.contains(id) {
            drain(tasks, cache, queue.drop_first(), verdicts)
        } else if verdicts.len() == 0 {
            DrainOutcome { tasks, cache, polls: 0, short: true }
        } else {
            let rest = if verdicts[0] {
                drain(tasks.remove(id), cache.remove(id), queue.drop_first(),
                    verdicts.drop_first())
            } else {
                drain(tasks, cache.insert(id), queue.drop_first(), verdicts.drop_first())
            };
            DrainOutcome { tasks: rest.tasks, cache: rest.cache, polls: rest.polls + 1,
                short: rest.short }
        }
    }
}

/// Appending an identifier with no live task to the queue leaves a full
/// drain's outcome as it was: the entry is skipped.
proof fn lemma_drain_snoc_skip(
    tasks: Set<u64>, cache: Set<u64>, queue: Seq<u64>, verdicts: Seq<bool>, id: u64,
)
    requires
        !drain(tasks, cache, queue, verdicts).short,
        drain(tasks, cache, queue, verdicts).polls == verdicts.len(),
        !drain(tasks, cache, queue, verdicts).tasks.contains(id),
    ensures
        drain(tasks, cache, queue.push(id), verdicts) == drain(tasks, cache, queue, verdicts),
    decreases queue.len(),
{
    if queue.len() == 0 {
        assert(queue.push(id).drop_first() =~= queue);
    } else {
        assert(queue.push(id)[0] == queue[0]);
        assert(queue.push(id).drop_first() =~= queue.drop_first().push(id));
        let head = queue[0];
        if !tasks.contains(head) {
            lemma_drain_snoc_skip(tasks, cache, queue.drop_first(), verdicts, id);
        } else {
            let rest = if verdicts[0] {
                drain(tasks.remove(head), cache.remove(head), queue.drop_first(),
                    verdicts.drop_first())
            } else {
                drain(tasks, cache.insert(head), queue.drop_first(), verdicts.drop_first())
            };
            if verdicts[0] {
                lemma_drain_snoc_skip(tasks.remove(head), cache.remove(head),
                    queue.drop_first(), verdicts.drop_first(), id);
            } else {
                lemma_drain_snoc_skip(tasks, cache.insert(head), queue.drop_first(),
                    verdicts.drop_first(), id);
            }
        }
    }
}

/// Appending an identifier whose task is live at the end of a full drain,
/// together with one more verdict, extends the drain by exactly that one
/// poll: the appended verdict decides whether the task is retired.
proof fn lemma_drain_snoc_poll(
    tasks: Set<u64>, cache: Set<u64>, queue: Seq<u64>, verdicts: Seq<bool>, id: u64, done: bool,
)
    requires
        !drain(tasks, cache, queue, verdicts).short,
        drain(tasks, cache, queue, verdicts).polls == verdicts.len(),
        drain(tasks, cache, queue, verdicts).tasks.contains(id),
    ensures
        ({
            let out = drain(tasks, cache, queue, verdicts);
            drain(tasks, cache, queue.push(id), verdicts.push(done)) == DrainOutcome {
                tasks: if done { out.tasks.remove(id) } else { out.tasks },
                cache: if done { out.cache.remove(id) } else { out.cache.insert(id) },
                polls: out.polls + 1,
                short: false,
            }
        }),
    decreases queue.len(),
{
    if queue.len() == 0 {
        assert(queue =~= Seq::<u64>::empty());
        assert(queue.push(id).drop_first() =~= Seq::<u64>::empty());
        assert(verdicts =~= Seq::<bool>::empty());
        assert(verdicts.push(done)[0] == done);
        assert(verdicts.push(done).drop_first() =~= Seq::<bool>::empty());
        assert(drain(tasks.remove(id), cache.remove(id), Seq::<u64>::empty(),
            Seq::<bool>::empty()) == (DrainOutcome {
                tasks: tasks.remove(id), cache: cache.remove(id), polls: 0nat, short: false,
            }));
        assert(drain(tasks, cache.insert(id), Seq::<u64>::empty(), Seq::<bool>::empty())
            == (DrainOutcome { tasks, cache: cache.insert(id), polls: 0nat, short: false }));
    } else {
        assert(queue.push(id)[0] == queue[0]);
        assert(queue.push(id).drop_first() =~= queue.drop_first().push(id));
        let head = queue[0];
        if !tasks.contains(head) {
            lemma_drain_snoc_poll(tasks, cache, queue.drop_first(), verdicts, id, done);
        } else {
            assert(verdicts.len() > 0);
            assert(verdicts.push(done)[0] == verdicts[0]);
            assert(verdicts.push(done).drop_first() =~= verdicts.drop_first().push(done));
            if verdicts[0] {
                lemma_drain_snoc_poll(tasks.remove(head), cache.remove(head),
                    queue.drop_first(), verdicts.drop_first(), id, done);
            } else {
                lemma_drain_snoc_poll(tasks, cache.insert(head), queue.drop_first(),
                    verdicts.drop_first(), id, done);
            }
        }
    }
}

/// The scheduler: exclusive owner of the task table, the ready queue and
/// the wake-handle cache. It drains the ready queue, advances each
/// referenced task by one step, retires completed tasks, and halts the
/// core when idle.
pub struct Executor {
    tasks: BTreeMap<u64, Task>,
    task_queue: ArrayQueue<u64>,
    waker_cache: BTreeMap<u64, WakeHandle>,
}

impl Executor {
    /// The live tasks, keyed by their identifiers.
    pub closed spec fn task_map(self) -> Map<u64, Task> {
        self.tasks@
    }

    /// Identifiers of the live tasks.
    pub open spec fn task_ids(self) -> Set<u64> {
        self.task_map().dom()
    }

    /// The cached wake handles, keyed by task identifier.
    pub closed spec fn cache_map(self) -> Map<u64, WakeHandle> {
        self.waker_cache@
    }

    /// Identifiers that hold a cached wake handle.
    pub open spec fn cache_ids(self) -> Set<u64> {
        self.cache_map().dom()
    }

    /// The ready queue's content, front (next to be polled) first.
    pub closed spec fn queue(self) -> Seq<u64> {
        ready_ids(self.task_queue)
    }

    /// The ready queue's fixed capacity.
    pub closed spec fn capacity(self) -> nat {
        queue_bound(self.task_queue)
    }

    /// Well-formedness: every table entry sits under the identifier of the
    /// task it holds, a handle is cached only for a live task, and the
    /// ready queue's capacity is at least one.
    pub open spec fn wf(self) -> bool {
        &&& forall|id: u64| #[trigger] self.task_ids().contains(id)
            ==> self.task_map()[id]@.value == id
        &&& forall|id: u64| #[trigger] self.cache_ids().contains(id)
            ==> self.task_ids().contains(id) && self.cache_map()[id].task_id.value == id
        &&& 1 <= self.capacity()
    }

    /// A fresh scheduler: no tasks, no cached handles, an empty ready
    /// queue with one hundred slots.
    pub fn new() -> (e: Executor)
        ensures
            e.wf(),
            e.task_map() == Map::<u64, Task>::empty(),
            e.cache_map() == Map::<u64, WakeHandle>::empty(),
            e.queue() == Seq::<u64>::empty(),
            e.capacity() == READY_QUEUE_CAPACITY as nat,
    {
        Executor {
            tasks: BTreeMap::new(),
            task_queue: queue_new(READY_QUEUE_CAPACITY),
            waker_cache: BTreeMap::new(),
        }
    }

    /// Registers a task under its identifier and immediately queues that
    /// identifier, so the task gets its first poll on the next drain. A
    /// full ready queue is fatal by design, and a duplicate identifier
    /// cannot arise while identifiers come from one allocator; both are
    /// therefore left out here. `try_spawn` reports fullness instead.
    pub fn spawn(&mut self, task: Task)
        requires
            old(self).wf(),
            !old(self).task_ids().contains(task@.value),
            old(self).queue().len() < old(self).capacity(),
        ensures
            final(self).wf(),
            final(self).task_map() == old(self).task_map().insert(task@.value, task),
            final(self).cache_map() == old(self).cache_map(),
            final(self).queue() == old(self).queue().push(task@.value),
            final(self).capacity() == old(self).capacity(),
    {
        let id = task.id().as_u64();
        let _prev = self.tasks.insert(id, task);
        match queue_push(&mut self.task_queue, id) {
            Ok(_) => {}
            Err(_) => {}
        }
        proof {
            assert forall|i: u64| self.cache_ids().contains(i)
                implies self.task_ids().contains(i) && self.cache_map()[i].task_id.value == i by {
                assert(old(self).cache_ids().contains(i));
            };
        }
    }

    /// Like `spawn`, but with the fullness check made: a task handed in
    /// while the ready queue is full comes back untouched as the error,
    /// and the scheduler is left as it was.
    pub fn try_spawn(&mut self, task: Task) -> (r: Result<(), Task>)
        requires
            old(self).wf(),
            !old(self).task_ids().contains(task@.value),
        ensures
            final(self).wf(),
            final(self).capacity() == old(self).capacity(),
            final(self).cache_map() == old(self).cache_map(),
            old(self).queue().len() < old(self).capacity() ==> r is Ok
                && final(self).task_map() == old(self).task_map().insert(task@.value, task)
                && final(self).queue() == old(self).queue().push(task@.value),
            old(self).queue().len() >= old(self).capacity() ==> (r matches Err(t) && t == task)
                && final(self).task_map() == old(self).task_map()
                && final(self).queue() == old(self).queue(),
    {
        let n = queue_len(&self.task_queue);
        let c = queue_capacity(&self.task_queue);
        if n < c {
            self.spawn(task);
            Ok(())
        } else {
            Err(task)
        }
    }

    /// Invokes a wake handle: pushes its task identifier onto the ready
    /// queue, and nothing else. A full queue is fatal by design and left
    /// out here (`try_wake` reports it instead). A stale handle, one whose
    /// task already completed, is harmless: the drain skips identifiers
    /// with no live task.
    pub fn wake(&mut self, handle: &WakeHandle)
        requires
            old(self).wf(),
            old(self).queue().len() < old(self).capacity(),
        ensures
            final(self).wf(),
            final(self).task_map() == old(self).task_map(),
            final(self).cache_map() == old(self).cache_map(),
            final(self).queue() == old(self).queue().push(handle.task_id.value),
            final(self).capacity() == old(self).capacity(),
    {
        match queue_push(&mut self.task_queue, handle.task_id.value) {
            Ok(_) => {}
            Err(_) => {}
        }
        proof {
            assert forall|i: u64| self.task_ids().contains(i)
                implies self.task_map()[i]@.value == i by {
                assert(old(self).task_ids().contains(i));
            };
            assert forall|i: u64| self.cache_ids().contains(i)
                implies self.task_ids().contains(i) && self.cache_map()[i].task_id.value == i by {
                assert(old(self).cache_ids().contains(i));
            };
        }
    }

    /// Like `wake`, but with the fullness check made: returns whether the
    /// identifier was queued; on a full queue nothing changes.
    pub fn try_wake(&mut self, handle: &WakeHandle) -> (queued: bool)
        requires
            old(self).wf(),
        ensures
            final(self).wf(),
            final(self).task_map() == old(self).task_map(),
            final(self).cache_map() == old(self).cache_map(),
            final(self).capacity() == old(self).capacity(),
            queued == (old(self).queue().len() < old(self).capacity()),
            queued ==> final(self).queue() == old(self).queue().push(handle.task_id.value),
            !queued ==> final(self).queue() == old(self).queue(),
    {
        let n = queue_len(&self.task_queue);
        let c = queue_capacity(&self.task_queue);
        if n < c {
            self.wake(handle);
            true
        } else {
            false
        }
    }


    /// One full drain of the ready queue: identifiers are popped in FIFO
    /// order until the queue is empty. An identifier with no live task is
    /// skipped silently (its task completed while extra wakes were queued).
    /// A live task is polled exactly once per queue entry, with its cached
    /// wake handle, created on the first poll and reused afterwards. A poll
    /// that reports completion retires the task together with its cached
    /// handle; a pending task stays and is polled again only when a wake
    /// re-queues it. The returned verdicts record, in order, what each poll
    /// reported (`true` for completion), so the drain's effect on the two
    /// tables is exactly what `drain` computes from them.
    #[verifier::rlimit(100)]
    pub fn run_ready_tasks(&mut self) -> (verdicts: Ghost<Seq<bool>>)
        requires
            old(self).wf(),
        ensures
            final(self).wf(),
            final(self).capacity() == old(self).capacity(),
            final(self).queue() == Seq::<u64>::empty(),
            ({
                let out = drain(old(self).task_ids(), old(self).cache_ids(),
                    old(self).queue(), verdicts@);
                &&& final(self).task_ids() == out.tasks
                &&& final(self).cache_ids() == out.cache
                &&& out.polls == verdicts@.len()
                &&& !out.short
            }),
            final(self).task_map().remove_keys(old(self).queue().to_set())
                == old(self).task_map().remove_keys(old(self).queue().to_set()),
            final(self).cache_map().remove_keys(old(self).queue().to_set())
                == old(self).cache_map().remove_keys(old(self).queue().to_set()),
    {
        let ghost t0 = old(self).task_ids();
        let ghost c0 = old(self).cache_ids();
        let ghost q0 = old(self).queue();
        let ghost q0s = old(self).queue().to_set();
        let ghost tm0 = old(self).task_map();
        let ghost cm0 = old(self).cache_map();
        let ghost cap0 = old(self).capacity();
        let ghost mut processed: Seq<u64> = Seq::empty();
        let ghost mut verdicts: Seq<bool> = Seq::empty();
        proof {
            assert(q0 =~= processed + self.queue());
        }
        let mut running = true;
        while running
            invariant
                self.wf(),
                self.capacity() == cap0,
                q0 == processed + self.queue(),
                q0s == q0.to_set(),
                drain(t0, c0, processed, verdicts) == (DrainOutcome {
                    tasks: self.task_ids(),
                    cache: self.cache_ids(),
                    polls: verdicts.len() as nat,
                    short: false,
                }),
                self.task_map().remove_keys(q0s) == tm0.remove_keys(q0s),
                self.cache_map().remove_keys(q0s) == cm0.remove_keys(q0s),
                !running ==> self.queue().len() == 0,
            decreases self.queue().len() + (if running { 1int } else { 0int }),
        {
            let ghost q_pre = processed;
            let ghost v_pre = verdicts;
            let ghost t_pre = self.task_ids();
            let ghost c_pre = self.cache_ids();
            let ghost tm_pre = self.task_map();
            let ghost cm_pre = self.cache_map();
            let next = queue_pop(&mut self.task_queue);
            proof {
                assert(self.task_map() == tm_pre);
                assert(self.cache_map() == cm_pre);
            }
            match next {
                None => {
                    running = false;
                }
                Some(task_id) => {
                    proof {
                        processed = processed.push(task_id);
                        assert(q0[q_pre.len() as int] == task_id);
                        assert(q0.contains(task_id));
                        assert(q0s.contains(task_id));
                        assert(q0 =~= processed + self.queue());
                    }
                    if self.tasks.contains_key(&task_id) {
                        if !self.waker_cache.contains_key(&task_id) {
                            let _prev = self.waker_cache.insert(task_id,
                                WakeHandle { task_id: TaskId { value: task_id } });
                        }
                        let wake = *self.waker_cache.get(&task_id).unwrap();
                        let mut task = self.tasks.remove(&task_id).unwrap();
                        let res = task.poll(&wake);
                        match res {
                            StepResult::Complete => {
                                let _gone = self.waker_cache.remove(&task_id);
                                proof {
                                    verdicts = verdicts.push(true);
                                    lemma_drain_snoc_poll(t0, c0, q_pre, v_pre, task_id, true);
                                    assert(self.task_ids() =~= t_pre.remove(task_id));
                                    assert(self.cache_ids() =~= c_pre.remove(task_id));
                                    assert(self.task_map().remove_keys(q0s)
                                        =~= tm_pre.remove_keys(q0s));
                                    assert(self.cache_map().remove_keys(q0s)
                                        =~= cm_pre.remove_keys(q0s));
                                }
                            }
                            StepResult::Suspended => {
                                let _prev = self.tasks.insert(task_id, task);
                                proof {
                                    verdicts = verdicts.push(false);
                                    lemma_drain_snoc_poll(t0, c0, q_pre, v_pre, task_id, false);
                                    assert(self.task_ids() =~= t_pre);
                                    assert(self.cache_ids() =~= c_pre.insert(task_id));
                                    assert(self.task_map().remove_keys(q0s)
                                        =~= tm_pre.remove_keys(q0s));
                                    assert(self.cache_map().remove_keys(q0s)
                                        =~= cm_pre.remove_keys(q0s));
                                }
                            }
                        }
                    } else {
                        proof {
                            lemma_drain_snoc_skip(t0, c0, q_pre, v_pre, task_id);
                        }
                    }
                }
            }
        }
        proof {
            assert(processed =~= q0);
        }
        Ghost(verdicts)
    }

    /// The race-free idle: disables interrupts, and only if the ready queue
    /// is still empty halts the core, re-enabling interrupts and halting as
    /// one indivisible pair, so a wake delivered by an interrupt between
    /// the check and the halt is never missed. With work already queued it
    /// just re-enables interrupts and returns.
    pub fn sleep_if_idle(&self) {
        disable_interrupts();
        if queue_is_empty(&self.task_queue) {
            enable_interrupts_and_halt();
        } else {
            enable_interrupts();
        }
    }

    /// A single drain pass with no idling, for a harness that must observe
    /// completion without diverging.
    pub fn test_run(&mut self) -> (verdicts: Ghost<Seq<bool>>)
        requires
            old(self).wf(),
        ensures
            final(self).wf(),
            final(self).capacity() == old(self).capacity(),
            final(self).queue() == Seq::<u64>::empty(),
            ({
                let out = drain(old(self).task_ids(), old(self).cache_ids(),
                    old(self).queue(), verdicts@);
                &&& final(self).task_ids() == out.tasks
                &&& final(self).cache_ids() == out.cache
                &&& out.polls == verdicts@.len()
                &&& !out.short
            }),
    {
        self.run_ready_tasks()
    }

    /// How many tasks are live.
    pub fn task_count(&self) -> (n: usize)
        ensures
            n as nat == self.task_ids().len(),
    {
        self.tasks.len()
    }

    /// How many wake handles are cached.
    pub fn cache_count(&self) -> (n: usize)
        ensures
            n as nat == self.cache_ids().len(),
    {
        self.waker_cache.len()
    }

    /// Whether a task is still registered under this identifier.
    pub fn has_task(&self, id: TaskId) -> (r: bool)
        ensures
            r == self.task_ids().contains(id.value),
    {
        self.tasks.contains_key(&id.value)
    }

    /// How many identifiers sit in the ready queue.
    pub fn queue_size(&self) -> (n: usize)
        ensures
            n as nat == self.queue().len(),
    {
        queue_len(&self.task_queue)
    }

    /// The ready queue's capacity.
    pub fn queue_capacity(&self) -> (n: usize)
        ensures
            n as nat == self.capacity(),
    {
        queue_capacity(&self.task_queue)
    }
}

} // verus!
