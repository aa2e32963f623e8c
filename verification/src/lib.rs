//! Cooperative task scheduler for a single execution core.
//!
//! The scheduler owns a table of suspended computations, a bounded FIFO
//! ready queue of task identifiers, and a cache of wake handles. Draining
//! the ready queue advances each referenced task by one step; a task that
//! reports completion is retired together with its cached handle, and a
//! pending task re-enters scheduling only when a wake handle re-queues its
//! identifier.

pub mod executor;
pub mod laws;
pub mod platform;
pub mod ready_queue;
pub mod task;
