use vstd::prelude::*;
use crate::task::{TaskId, TaskIdAllocator};
use crate::executor::{drain, DrainOutcome};

verus! {

/// One identifier allocation: the issued identifier is the counter's value
/// before the call, and the counter moves up by one, exactly as
/// `TaskId::new` ensures.
pub open spec fn issues(pre: TaskIdAllocator, id: TaskId, post: TaskIdAllocator) -> bool {
    id.value == pre.next_id && post.next_id == pre.next_id + 1
}

/// Along a chain of allocations the counter climbs by one per step.
proof fn lemma_counter_climbs(states: Seq<TaskIdAllocator>, ids: Seq<TaskId>, i: int, j: int)
    requires
        states.len() == ids.len() + 1,
        forall|k: int| 0 <= k < ids.len() ==> #[trigger] issues(states[k], ids[k], states[k + 1]),
        0 <= i <= j < states.len(),
    ensures
        states[i].next_id + (j - i) <= states[j].next_id,
    decreases j - i,
{
    if i < j {
        lemma_counter_climbs(states, ids, i, j - 1);
        let k = j - 1;
        assert(issues(states[k], ids[k], states[k + 1]));
    }
}

/// Law: across any sequence of allocations from one allocator, the issued
/// identifiers are pairwise distinct and strictly increasing in issue
/// order. Since every spawned task draws its identifier this way, the
/// identifiers of any sequence of spawns are pairwise distinct and
/// strictly increasing in spawn order.
pub proof fn lemma_issued_ids_strictly_increase(states: Seq<TaskIdAllocator>, ids: Seq<TaskId>)
    requires
        states.len() == ids.len() + 1,
        forall|k: int| 0 <= k < ids.len() ==> #[trigger] issues(states[k], ids[k], states[k + 1]),
    ensures
        forall|i: int, j: int| 0 <= i < j < ids.len() ==> ids[i].value < ids[j].value,
{
    assert forall|i: int, j: int| 0 <= i < j < ids.len() implies ids[i].value < ids[j].value by {
        let a = i;
        let b = j;
        assert(issues(states[a], ids[a], states[a + 1]));
        assert(issues(states[b], ids[b], states[b + 1]));
        lemma_counter_climbs(states, ids, i + 1, j);
    };
}

/// Law: a task that completes on its first poll is absent from the task
/// table and from the wake-handle cache after one drain of a queue holding
/// just its identifier, and that drain polled exactly once.
pub proof fn lemma_completed_task_retired(tasks: Set<u64>, cache: Set<u64>, id: u64)
    requires
        tasks.contains(id),
    ensures
        ({
            let out = drain(tasks, cache, seq![id], seq![true]);
            &&& out.tasks == tasks.remove(id)
            &&& out.cache == cache.remove(id)
            &&& out.polls == 1
            &&& !out.short
        }),
{
    assert(seq![id].drop_first() =~= Seq::<u64>::empty());
    assert(seq![true].drop_first() =~= Seq::<bool>::empty());
    assert(drain(tasks.remove(id), cache.remove(id), Seq::<u64>::empty(), Seq::<bool>::empty())
        == (DrainOutcome {
            tasks: tasks.remove(id), cache: cache.remove(id), polls: 0nat, short: false,
        }));
}

/// How many entries of the queue refer to a live task: the number of polls
/// a drain performs when nothing completes.
pub open spec fn live_entries(tasks: Set<u64>, queue: Seq<u64>) -> nat
    decreases queue.len(),
{
    if queue.len() == 0 {
        0
    } else {
        (if tasks.contains(queue[0]) { 1nat } else { 0nat }) + live_entries(
            tasks, queue.drop_first())
    }
}

/// Law: a drain in which every poll reports pending removes no task, and
/// performs exactly one poll per queue entry whose task is live — so a
/// pending task stays registered until some wake re-queues it, and extra
/// queue entries for one identifier cost one poll each, never more.
pub proof fn lemma_pending_tasks_persist(
    tasks: Set<u64>, cache: Set<u64>, queue: Seq<u64>, verdicts: Seq<bool>,
)
    requires
        forall|k: int| 0 <= k < verdicts.len() ==> !verdicts[k],
        !drain(tasks, cache, queue, verdicts).short,
    ensures
        drain(tasks, cache, queue, verdicts).tasks == tasks,
        drain(tasks, cache, queue, verdicts).polls == live_entries(tasks, queue),
    decreases queue.len(),
{
    if queue.len() == 0 {
    } else {
        let head = queue[0];
        if !tasks.contains(head) {
            lemma_pending_tasks_persist(tasks, cache, queue.drop_first(), verdicts);
        } else {
            assert(verdicts.len() > 0);
            assert(!verdicts[0]);
            assert forall|k: int| 0 <= k < verdicts.drop_first().len()
                implies !verdicts.drop_first()[k] by {
                assert(verdicts.drop_first()[k] == verdicts[k + 1]);
            };
            lemma_pending_tasks_persist(tasks, cache.insert(head), queue.drop_first(),
                verdicts.drop_first());
        }
    }
}

/// Law: a drain never adds a task: the live set only shrinks.
pub proof fn lemma_drain_tasks_shrink(
    tasks: Set<u64>, cache: Set<u64>, queue: Seq<u64>, verdicts: Seq<bool>,
)
    ensures
        drain(tasks, cache, queue, verdicts).tasks.subset_of(tasks),
    decreases queue.len(),
{
    if queue.len() == 0 {
    } else {
        let head = queue[0];
        if !tasks.contains(head) {
            lemma_drain_tasks_shrink(tasks, cache, queue.drop_first(), verdicts);
        } else if verdicts.len() == 0 {
        } else if verdicts[0] {
            lemma_drain_tasks_shrink(tasks.remove(head), cache.remove(head),
                queue.drop_first(), verdicts.drop_first());
        } else {
            lemma_drain_tasks_shrink(tasks, cache.insert(head), queue.drop_first(),
                verdicts.drop_first());
        }
    }
}

/// Law: a cached wake handle outlives every drain its task survives: an
/// identifier cached before a drain and still live after it is still
/// cached. Together with `Executor::wf`, which pins each cached handle to
/// its key, the entry a task's first poll creates is the one every later
/// poll reuses — it is created at most once across the task's lifetime.
pub proof fn lemma_cache_entry_persists(
    tasks: Set<u64>, cache: Set<u64>, queue: Seq<u64>, verdicts: Seq<bool>, id: u64,
)
    requires
        cache.contains(id),
    ensures
        drain(tasks, cache, queue, verdicts).tasks.contains(id)
            ==> drain(tasks, cache, queue, verdicts).cache.contains(id),
    decreases queue.len(),
{
    if queue.len() == 0 {
    } else {
        let head = queue[0];
        if !tasks.contains(head) {
            lemma_cache_entry_persists(tasks, cache, queue.drop_first(), verdicts, id);
        } else if verdicts.len() == 0 {
        } else if verdicts[0] {
            if head == id {
                lemma_drain_tasks_shrink(tasks.remove(head), cache.remove(head),
                    queue.drop_first(), verdicts.drop_first());
            } else {
                lemma_cache_entry_persists(tasks.remove(head), cache.remove(head),
                    queue.drop_first(), verdicts.drop_first(), id);
            }
        } else {
            lemma_cache_entry_persists(tasks, cache.insert(head), queue.drop_first(),
                verdicts.drop_first(), id);
        }
    }
}

/// Law: draining an empty ready queue performs zero polls and leaves both
/// tables untouched, whatever verdicts would have been available — so it
/// is safe to repeat.
pub proof fn lemma_empty_queue_drain(tasks: Set<u64>, cache: Set<u64>, verdicts: Seq<bool>)
    ensures
        drain(tasks, cache, Seq::<u64>::empty(), verdicts) == (DrainOutcome {
            tasks, cache, polls: 0nat, short: false,
        }),
{
}

/// Law: two queue entries for one dormant task whose next poll completes
/// it cause exactly one poll: the first entry's poll retires the task, and
/// the duplicate entry is skipped because the task is gone.
pub proof fn lemma_duplicate_wake_entries_skip(tasks: Set<u64>, cache: Set<u64>, id: u64)
    requires
        tasks.contains(id),
    ensures
        ({
            let out = drain(tasks, cache, seq![id, id], seq![true]);
            &&& out.tasks == tasks.remove(id)
            &&& out.cache == cache.remove(id)
            &&& out.polls == 1
            &&& !out.short
        }),
{
    let q1 = seq![id, id].drop_first();
    assert(q1 =~= seq![id]);
    assert(seq![true].drop_first() =~= Seq::<bool>::empty());
    assert(!tasks.remove(id).contains(id));
    assert(seq![id].drop_first() =~= Seq::<u64>::empty());
    assert(drain(tasks.remove(id), cache.remove(id), Seq::<u64>::empty(), Seq::<bool>::empty())
        == (DrainOutcome {
            tasks: tasks.remove(id), cache: cache.remove(id), polls: 0nat, short: false,
        }));
    assert(drain(tasks.remove(id), cache.remove(id), seq![id], Seq::<bool>::empty())
        == (DrainOutcome {
            tasks: tasks.remove(id), cache: cache.remove(id), polls: 0nat, short: false,
        }));
}

} // verus!
