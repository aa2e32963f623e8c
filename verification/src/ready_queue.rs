use vstd::prelude::*;
use crossbeam_queue::ArrayQueue;

verus! {

/// Bounded lock-free FIFO from the crossbeam queue crate; it holds the
/// identifiers of tasks that are eligible for the next scheduling pass.
/// Push and pop never allocate and never block, which is what lets a wake
/// run inside an interrupt handler.
#[verifier::external_type_specification]
#[verifier::external_body]
#[verifier::reject_recursive_types(T)]
pub struct ExArrayQueue<T>(ArrayQueue<T>);

/// The identifiers the queue holds, front (next to pop) first.
pub uninterp spec fn ready_ids(q: ArrayQueue<u64>) -> Seq<u64>;

/// The capacity the queue was constructed with.
pub uninterp spec fn queue_bound(q: ArrayQueue<u64>) -> nat;

/// Relies on crossbeam_queue::ArrayQueue::new: an empty queue with the
/// given capacity; it panics when the capacity is zero or large enough
/// that the internal index arithmetic would overflow, so those are left out.
#[verifier::external_body]
pub(crate) fn queue_new(cap: usize) -> (q: ArrayQueue<u64>)
    requires
        1 <= cap <= 0x1000_0000,
    ensures
        ready_ids(q) == Seq::<u64>::empty(),
        queue_bound(q) == cap as nat,
{
    ArrayQueue::new(cap)
}

/// Relies on crossbeam_queue::ArrayQueue::push: appends at the back when a
/// slot is free, and hands the value back as the error when the queue is
/// full, leaving it unchanged.
#[verifier::external_body]
pub(crate) fn queue_push(q: &mut ArrayQueue<u64>, id: u64) -> (r: Result<(), u64>)
    ensures
        ready_ids(*old(q)).len() < queue_bound(*old(q)) ==> r is Ok
            && ready_ids(*final(q)) == ready_ids(*old(q)).push(id)
            && queue_bound(*final(q)) == queue_bound(*old(q)),
        ready_ids(*old(q)).len() >= queue_bound(*old(q)) ==> r is Err && r->Err_0 == id
            && ready_ids(*final(q)) == ready_ids(*old(q))
            && queue_bound(*final(q)) == queue_bound(*old(q)),
{
    q.push(id)
}

/// Relies on crossbeam_queue::ArrayQueue::pop: takes the front element out,
/// or returns nothing when the queue is empty.
#[verifier::external_body]
pub(crate) fn queue_pop(q: &mut ArrayQueue<u64>) -> (r: Option<u64>)
    ensures
        ready_ids(*old(q)).len() == 0 ==> r is None
            && ready_ids(*final(q)) == ready_ids(*old(q))
            && queue_bound(*final(q)) == queue_bound(*old(q)),
        ready_ids(*old(q)).len() > 0 ==> r == Some(ready_ids(*old(q))[0])
            && ready_ids(*final(q)) == ready_ids(*old(q)).drop_first()
            && queue_bound(*final(q)) == queue_bound(*old(q)),
{
    q.pop()
}

/// Relies on crossbeam_queue::ArrayQueue::is_empty: whether the queue holds
/// no element.
#[verifier::external_body]
pub(crate) fn queue_is_empty(q: &ArrayQueue<u64>) -> (r: bool)
    ensures
        r == (ready_ids(*q).len() == 0),
{
    q.is_empty()
}

/// Relies on crossbeam_queue::ArrayQueue::capacity: the capacity the queue
/// was constructed with.
#[verifier::external_body]
pub(crate) fn queue_capacity(q: &ArrayQueue<u64>) -> (r: usize)
    ensures
        r as nat == queue_bound(*q),
{
    q.capacity()
}

/// Relies on crossbeam_queue::ArrayQueue::len: how many elements the queue
/// holds.
#[verifier::external_body]
pub(crate) fn queue_len(q: &ArrayQueue<u64>) -> (r: usize)
    ensures
        r as nat == ready_ids(*q).len(),
{
    q.len()
}

} // verus!
