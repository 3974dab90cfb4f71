//! The executor contract: a consumer that performs the side effect for one
//! or more action discriminants.

use vstd::prelude::*;
use crate::action::{ActionType, TaskAction};
use crate::error::SchedulerError;
use crate::task::Task;

verus! {

/// An action sink. The registry resolves a task's action to the first
/// registered executor whose supported set contains the action's
/// discriminant, and delegates execution to it.
pub trait ActionExecutor: Sized {
    /// The discriminants this executor can handle.
    spec fn supported_spec(&self) -> Seq<ActionType>;

    /// The discriminants this executor declares it can handle.
    fn supported_actions(&self) -> (r: Vec<ActionType>)
        ensures
            r@ == self.supported_spec(),
    ;

    /// Performs the side effect for one action. What it returns is the
    /// executor's own affair; executing never changes what it supports.
    fn execute(&mut self, task: &Task, action: &TaskAction) -> (r: Result<(), SchedulerError>)
        ensures
            final(self).supported_spec() == old(self).supported_spec(),
    ;
}

/// An executor for `Log` actions. Deciding what to do with the entry is the
/// caller's affair; this executor only accepts or rejects the action.
pub struct LogExecutor;

impl LogExecutor {
    /// A fresh log executor.
    pub fn new() -> (e: Self)
        ensures
            e.supported_spec() == seq![ActionType::Log],
    {
        LogExecutor
    }
}

impl Default for LogExecutor {
    /// The same executor [`LogExecutor::new`] gives.
    fn default() -> (e: Self)
        ensures
            e.supported_spec() == seq![ActionType::Log],
    {
        LogExecutor::new()
    }
}

impl ActionExecutor for LogExecutor {
    open spec fn supported_spec(&self) -> Seq<ActionType> {
        seq![ActionType::Log]
    }

    fn supported_actions(&self) -> (r: Vec<ActionType>)
        ensures
            r@ == self.supported_spec(),
    {
        let r = vec![ActionType::Log];
        proof {
            assert(r@ =~= seq![ActionType::Log]);
        }
        r
    }

    /// Accepts every `Log` action and rejects any other discriminant with
    /// `UnsupportedAction`.
    fn execute(&mut self, task: &Task, action: &TaskAction) -> (r: Result<(), SchedulerError>)
        ensures
            final(self).supported_spec() == old(self).supported_spec(),
            r is Ok <==> action@ is Log,
            action@ is Log || (r matches Err(e) && e == SchedulerError::UnsupportedAction),
    {
        match action {
            TaskAction::Log { .. } => Ok(()),
            _ => Err(SchedulerError::UnsupportedAction),
        }
    }
}

/// A `Log` executor that counts its invocations and fails each attempt until
/// a chosen one, so that callers can exercise the retry loop.
pub struct CountingExecutor {
    /// Invocations so far.
    pub calls: u64,
    /// The first attempt, counted from one, that succeeds. Zero or one makes
    /// every attempt succeed.
    pub fail_until: u64,
}

impl CountingExecutor {
    /// A fresh counting executor whose attempts before `fail_until` fail.
    pub fn new(fail_until: u64) -> (e: Self)
        ensures
            e.calls == 0,
            e.fail_until == fail_until,
    {
        CountingExecutor { calls: 0, fail_until }
    }
}

impl ActionExecutor for CountingExecutor {
    open spec fn supported_spec(&self) -> Seq<ActionType> {
        seq![ActionType::Log]
    }

    fn supported_actions(&self) -> (r: Vec<ActionType>)
        ensures
            r@ == self.supported_spec(),
    {
        let r = vec![ActionType::Log];
        proof {
            assert(r@ =~= seq![ActionType::Log]);
        }
        r
    }

    /// Counts the invocation; fails with `TaskExecutionError` while the count
    /// stays below `fail_until`.
    fn execute(&mut self, task: &Task, action: &TaskAction) -> (r: Result<(), SchedulerError>)
        ensures
            final(self).supported_spec() == old(self).supported_spec(),
            final(self).fail_until == old(self).fail_until,
            old(self).calls < u64::MAX ==> final(self).calls == old(self).calls + 1,
            old(self).calls < u64::MAX ==> (r is Ok <==> old(self).calls + 1 >= old(
                self,
            ).fail_until),
    {
        if self.calls < u64::MAX {
            self.calls = self.calls + 1;
        }
        if self.calls < self.fail_until {
            Err(SchedulerError::TaskExecutionError("simulated failure".to_owned()))
        } else {
            Ok(())
        }
    }
}

} // verus!
