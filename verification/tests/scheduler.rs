use std::cell::RefCell;
use std::rc::Rc;

use finn_os::executor::Executor;
use finn_os::task::{Computation, StepResult, Task, TaskId, TaskIdAllocator, WakeHandle};

/// Completes on its very first step.
struct CompleteNow;

impl Computation for CompleteNow {
    fn step(&mut self, _wake: &WakeHandle) -> StepResult {
        StepResult::Complete
    }
}

/// Reports pending for a fixed number of steps, storing the wake handle it
/// was given each time, then completes; counts every step it takes.
struct Countdown {
    pending_steps: u32,
    steps_taken: Rc<RefCell<u32>>,
    stored: Rc<RefCell<Vec<WakeHandle>>>,
}

impl Computation for Countdown {
    fn step(&mut self, wake: &WakeHandle) -> StepResult {
        *self.steps_taken.borrow_mut() += 1;
        if self.pending_steps > 0 {
            self.pending_steps -= 1;
            self.stored.borrow_mut().push(*wake);
            StepResult::Suspended
        } else {
            StepResult::Complete
        }
    }
}

/// Completes immediately, recording its label so poll order is visible.
struct Recorder {
    label: u64,
    order: Rc<RefCell<Vec<u64>>>,
}

impl Computation for Recorder {
    fn step(&mut self, _wake: &WakeHandle) -> StepResult {
        self.order.borrow_mut().push(self.label);
        StepResult::Complete
    }
}

fn counted(pending_steps: u32) -> (Countdown, Rc<RefCell<u32>>, Rc<RefCell<Vec<WakeHandle>>>) {
    let steps = Rc::new(RefCell::new(0u32));
    let stored = Rc::new(RefCell::new(Vec::new()));
    let c = Countdown {
        pending_steps,
        steps_taken: Rc::clone(&steps),
        stored: Rc::clone(&stored),
    };
    (c, steps, stored)
}

#[test]
fn allocator_ids_distinct_and_increasing() {
    let mut alloc = TaskIdAllocator::new();
    let mut seen: Vec<u64> = Vec::new();
    for _ in 0..50 {
        let id = TaskId::new(&mut alloc);
        seen.push(id.as_u64());
    }
    for i in 0..seen.len() {
        for j in (i + 1)..seen.len() {
            assert!(seen[i] < seen[j]);
            assert_ne!(seen[i], seen[j]);
        }
    }
    assert_eq!(seen[0], 0);
    assert_eq!(seen[49], 49);
}

#[test]
fn task_ids_follow_spawn_order() {
    let mut alloc = TaskIdAllocator::new();
    let t1 = Task::new(&mut alloc, Box::new(CompleteNow));
    let t2 = Task::new(&mut alloc, Box::new(CompleteNow));
    assert_eq!(t1.id().as_u64(), 0);
    assert_eq!(t2.id().as_u64(), 1);
}

#[test]
fn complete_on_first_poll_retires_task() {
    let mut alloc = TaskIdAllocator::new();
    let mut ex = Executor::new();
    ex.spawn(Task::new(&mut alloc, Box::new(CompleteNow)));
    assert_eq!(ex.task_count(), 1);
    assert_eq!(ex.queue_size(), 1);
    let _ = ex.test_run();
    assert_eq!(ex.task_count(), 0);
    assert_eq!(ex.cache_count(), 0);
    assert_eq!(ex.queue_size(), 0);
}

#[test]
fn pending_task_stays_until_woken() {
    let mut alloc = TaskIdAllocator::new();
    let mut ex = Executor::new();
    let (comp, steps, stored) = counted(1);
    let task = Task::new(&mut alloc, Box::new(comp));
    let id = task.id();
    ex.spawn(task);

    // first drain: one poll, task reports pending and stores its handle
    let _ = ex.test_run();
    assert_eq!(*steps.borrow(), 1);
    assert!(ex.has_task(id));
    assert_eq!(ex.task_count(), 1);
    assert_eq!(ex.cache_count(), 1);

    // no wake: further drains poll nothing
    let _ = ex.test_run();
    let _ = ex.test_run();
    assert_eq!(*steps.borrow(), 1);
    assert!(ex.has_task(id));

    // the stored handle carries the task's identifier
    let handle = stored.borrow()[0];
    assert_eq!(handle.task_id.value, id.as_u64());

    // waking re-queues the task; the next drain completes and retires it
    ex.wake(&handle);
    assert_eq!(ex.queue_size(), 1);
    let _ = ex.test_run();
    assert_eq!(*steps.borrow(), 2);
    assert!(!ex.has_task(id));
    assert_eq!(ex.task_count(), 0);
    assert_eq!(ex.cache_count(), 0);
}

#[test]
fn empty_drain_polls_nothing_and_repeats_safely() {
    let mut ex = Executor::new();
    let _ = ex.test_run();
    let _ = ex.test_run();
    let _ = ex.test_run();
    assert_eq!(ex.task_count(), 0);
    assert_eq!(ex.cache_count(), 0);
    assert_eq!(ex.queue_size(), 0);
}

#[test]
fn hundredth_spawn_fits_and_next_is_refused() {
    let mut alloc = TaskIdAllocator::new();
    let mut ex = Executor::new();
    assert_eq!(ex.queue_capacity(), 100);
    for _ in 0..99 {
        let task = Task::new(&mut alloc, Box::new(CompleteNow));
        assert!(ex.try_spawn(task).is_ok());
    }
    // the hundredth spawn takes the last ready-queue slot
    let task = Task::new(&mut alloc, Box::new(CompleteNow));
    assert!(ex.try_spawn(task).is_ok());
    assert_eq!(ex.queue_size(), 100);
    assert_eq!(ex.task_count(), 100);
    // the next spawn finds the queue full and hands the task back
    let extra = Task::new(&mut alloc, Box::new(CompleteNow));
    match ex.try_spawn(extra) {
        Ok(()) => panic!("a spawn past the queue's capacity must be refused"),
        Err(returned) => assert_eq!(returned.id().as_u64(), 100),
    }
    assert_eq!(ex.task_count(), 100);
    assert_eq!(ex.queue_size(), 100);
}

#[test]
fn full_queue_refuses_wakes_too() {
    let mut alloc = TaskIdAllocator::new();
    let mut ex = Executor::new();
    let (comp, _steps, stored) = counted(1);
    ex.spawn(Task::new(&mut alloc, Box::new(comp)));
    let _ = ex.test_run();
    let handle = stored.borrow()[0];
    for _ in 0..100 {
        assert!(ex.try_wake(&handle));
    }
    assert_eq!(ex.queue_size(), 100);
    assert!(!ex.try_wake(&handle));
    assert_eq!(ex.queue_size(), 100);
}

#[test]
fn double_wake_polls_once_and_skips_the_duplicate() {
    let mut alloc = TaskIdAllocator::new();
    let mut ex = Executor::new();
    let (comp, steps, stored) = counted(1);
    ex.spawn(Task::new(&mut alloc, Box::new(comp)));
    let _ = ex.test_run();
    assert_eq!(*steps.borrow(), 1);

    // two wakes before the next drain leave two entries for the same id
    let handle = stored.borrow()[0];
    ex.wake(&handle);
    ex.wake(&handle);
    assert_eq!(ex.queue_size(), 2);

    // the drain's first entry completes the task; the duplicate is skipped
    let _ = ex.test_run();
    assert_eq!(*steps.borrow(), 2);
    assert_eq!(ex.task_count(), 0);
    assert_eq!(ex.cache_count(), 0);
    assert_eq!(ex.queue_size(), 0);
}

#[test]
fn stale_wake_after_completion_is_ignored() {
    let mut alloc = TaskIdAllocator::new();
    let mut ex = Executor::new();
    let (comp, steps, stored) = counted(1);
    ex.spawn(Task::new(&mut alloc, Box::new(comp)));
    let _ = ex.test_run();
    let handle = stored.borrow()[0];
    ex.wake(&handle);
    let _ = ex.test_run();
    assert_eq!(ex.task_count(), 0);

    // the task is gone; a stale wake queues its id, and the drain skips it
    ex.wake(&handle);
    assert_eq!(ex.queue_size(), 1);
    let _ = ex.test_run();
    assert_eq!(*steps.borrow(), 2);
    assert_eq!(ex.task_count(), 0);
    assert_eq!(ex.queue_size(), 0);
}

#[test]
fn wake_handle_is_the_same_across_pending_cycles() {
    let mut alloc = TaskIdAllocator::new();
    let mut ex = Executor::new();
    let (comp, steps, stored) = counted(2);
    ex.spawn(Task::new(&mut alloc, Box::new(comp)));
    let _ = ex.test_run();
    let first = stored.borrow()[0];
    ex.wake(&first);
    let _ = ex.test_run();
    assert_eq!(*steps.borrow(), 2);
    // the handle given on the second poll is the cached one from the first
    let second = stored.borrow()[1];
    assert_eq!(first, second);
    assert_eq!(ex.cache_count(), 1);
    ex.wake(&second);
    let _ = ex.test_run();
    assert_eq!(*steps.borrow(), 3);
    assert_eq!(ex.task_count(), 0);
    assert_eq!(ex.cache_count(), 0);
}

#[test]
fn tasks_poll_in_wake_order() {
    let mut alloc = TaskIdAllocator::new();
    let mut ex = Executor::new();
    let order = Rc::new(RefCell::new(Vec::<u64>::new()));
    for label in 0..5u64 {
        ex.spawn(Task::new(&mut alloc, Box::new(Recorder {
            label,
            order: Rc::clone(&order),
        })));
    }
    let _ = ex.test_run();
    assert_eq!(*order.borrow(), vec![0, 1, 2, 3, 4]);
    assert_eq!(ex.task_count(), 0);
}
