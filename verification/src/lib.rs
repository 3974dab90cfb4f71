//! A persistent task scheduler: tasks carry an activation instant and a
//! declarative action; a store keeps them durably; a poll loop dispatches
//! ready tasks to registered executors with retry and exponential backoff.

use vstd::prelude::*;

pub mod action;
pub mod action_executor;
pub mod action_registry;
pub mod action_value;
pub mod base_storage;
pub mod clock;
pub mod error;
pub mod in_memory_storage;
pub mod task;
pub mod task_db;
pub mod task_scheduler;

verus! {

/// Milliseconds since the Unix epoch, UTC.
pub type Millis = i64;

/// A task identifier: the 128 bits of a UUID.
pub type TaskId = u128;

} // verus!
