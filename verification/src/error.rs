//! The failure kinds surfaced by every component of the scheduler.

use vstd::prelude::*;
use crate::TaskId;

verus! {

/// Errors visible at the scheduler boundary.
///
/// `AlreadyRunning` / `NotRunning` report start/stop misuse. `DatabaseError`
/// carries a store failure. `TaskExecutionError` is surfaced by executors and
/// consumed by the retry loop. `ActionMissing` carries the id of a task that
/// has no action. `RegistryActionNotFound` means no registered executor
/// supports the action's discriminant. `UnsupportedAction` means an executor
/// received a discriminant outside its declared set.
#[derive(Debug, Clone, PartialEq)]
pub enum SchedulerError {
    AlreadyRunning,
    NotRunning,
    DatabaseError(String),
    TaskExecutionError(String),
    MigrationError(String),
    UnsupportedAction,
    ActionMissing(TaskId),
    RegistryActionNotFound,
    IoError(String),
    SerdeError(String),
}

} // verus!
