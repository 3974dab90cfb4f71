//! The scheduler core: submission, the poll step, the per-task retry worker,
//! and the in-flight set that keeps each task to at most one concurrent
//! activation.

use vstd::prelude::*;
use vstd::arithmetic::power2::pow2;
use crate::action::ActionType;
use crate::action_executor::ActionExecutor;
use crate::action_registry::{spec_first_supporting, spec_has_executor_for, ActionRegistry};
use crate::base_storage::{spec_is_ready, spec_ready_list, spec_seq_has_id, Storage};
use crate::error::SchedulerError;
use crate::task::{backoff_in_bounds, spec_completed_task, step_in_bounds, Task, TaskSpec};
use crate::{Millis, TaskId};

verus! {

/// The poll cadence in milliseconds when none is chosen.
pub const DEFAULT_CHECK_INTERVAL: u64 = 500;

/// True when `v` holds a task equal to `t`.
pub open spec fn spec_list_has_task(v: Seq<TaskSpec>, t: TaskSpec) -> bool {
    exists|k: int| 0 <= k < v.len() && v[k] == t
}

/// True when the ids in `s` are pairwise distinct.
pub open spec fn tids_distinct(s: Seq<TaskId>) -> bool {
    forall|a: int, b: int| 0 <= a < b < s.len() ==> s[a] != s[b]
}

/// True when the store contents `m` hold a task with this id that is ready at
/// `now` and not already among the in-flight ids `e`: the tasks one poll pass
/// dispatches.
pub open spec fn spec_eligible(
    m: Map<TaskId, TaskSpec>,
    e: Seq<TaskId>,
    id: TaskId,
    now: Millis,
) -> bool {
    m.contains_key(id) && spec_is_ready(m[id], now) && !e.contains(id)
}

/// True when `rs` holds a report for this id.
pub open spec fn spec_reports_have_id(rs: Seq<ActivationReport>, id: TaskId) -> bool {
    exists|j: int| 0 <= j < rs.len() && #[trigger] rs[j].id == id
}

/// True when a task's numbers stay within the machine's integers through an
/// activation: the attempt counter can step to its bound, every backoff fits
/// a `u64`, and advancing the schedule fits the instant type.
pub open spec fn spec_task_runnable(t: TaskSpec) -> bool {
    &&& t.retry_count <= t.max_retries
    &&& t.max_retries < u32::MAX
    &&& backoff_in_bounds(t)
    &&& step_in_bounds(t)
}

/// What one activation did: how often the executor ran, the backoff pauses
/// between the attempts, and whether an attempt succeeded before the bound.
pub struct ActivationReport {
    /// The id of the task the activation ran.
    pub id: TaskId,
    /// Executor invocations within the activation.
    pub attempts: u64,
    /// The backoff pauses, in milliseconds, between consecutive attempts.
    pub slept: Vec<u64>,
    /// True when an attempt returned success; false when the activation
    /// exhausted its retries.
    pub succeeded: bool,
}

/// True when `v` holds a task with this id.
fn contains_id(v: &Vec<TaskId>, id: TaskId) -> (r: bool)
    ensures
        r == v@.contains(id),
{
    let mut i: usize = 0;
    while i < v.len()
        invariant
            0 <= i <= v@.len(),
            forall|j: int| 0 <= j < i ==> v@[j] != id,
        decreases v@.len() - i,
    {
        if v[i] == id {
            return true;
        }
        i = i + 1;
    }
    false
}

/// The task scheduler: a storage handle, an action registry, a running flag,
/// a poll cadence, and the set of task ids currently in flight.
pub struct TaskScheduler<S: Storage, E: ActionExecutor> {
    storage: S,
    action_registry: ActionRegistry<E>,
    running: bool,
    check_interval: u64,
    executing_tasks: Vec<TaskId>,
}

impl<S: Storage, E: ActionExecutor> TaskScheduler<S, E> {
    /// The stored tasks, by id.
    pub open spec fn spec_tasks(&self) -> Map<TaskId, TaskSpec> {
        self.spec_storage().tasks()
    }

    /// The storage handle.
    pub closed spec fn spec_storage(&self) -> S {
        self.storage
    }

    /// The registry.
    pub closed spec fn spec_registry(&self) -> ActionRegistry<E> {
        self.action_registry
    }

    /// The supported set of each registered executor.
    pub open spec fn spec_supported(&self) -> Seq<Seq<ActionType>> {
        self.spec_registry().supported_sets()
    }

    /// True while the poll loop is to go on.
    pub closed spec fn spec_running(&self) -> bool {
        self.running
    }

    /// The poll cadence in milliseconds.
    pub closed spec fn spec_interval(&self) -> u64 {
        self.check_interval
    }

    /// The ids currently in flight.
    pub closed spec fn spec_executing(&self) -> Seq<TaskId> {
        self.executing_tasks@
    }

    /// Well-formedness: the storage is sound and no id is in flight twice.
    pub open spec fn inv(&self) -> bool {
        &&& self.spec_storage().inv()
        &&& tids_distinct(self.spec_executing())
    }

    /// A stopped scheduler around the given storage and registry, with the
    /// default poll cadence and nothing in flight.
    pub fn new(storage: S, registry: ActionRegistry<E>) -> (s: Self)
        requires
            storage.inv(),
        ensures
            s.inv(),
            s.spec_storage() == storage,
            s.spec_registry() == registry,
            s.spec_tasks() == storage.tasks(),
            s.spec_supported() == registry.supported_sets(),
            !s.spec_running(),
            s.spec_executing() == Seq::<TaskId>::empty(),
            s.spec_interval() == DEFAULT_CHECK_INTERVAL,
    {
        let s = TaskScheduler {
            storage,
            action_registry: registry,
            running: false,
            check_interval: DEFAULT_CHECK_INTERVAL,
            executing_tasks: Vec::new(),
        };
        proof {
            assert(s.spec_executing() =~= Seq::<TaskId>::empty());
        }
        s
    }

    /// Sets the poll cadence in milliseconds.
    pub fn with_check_interval(self, interval: u64) -> (s: Self)
        ensures
            s.spec_tasks() == self.spec_tasks(),
            s.spec_storage() == self.spec_storage(),
            s.spec_supported() == self.spec_supported(),
            s.spec_registry() == self.spec_registry(),
            s.spec_running() == self.spec_running(),
            s.spec_executing() == self.spec_executing(),
            s.spec_interval() == interval,
            self.inv() ==> s.inv(),
    {
        TaskScheduler { check_interval: interval, ..self }
    }

    /// The storage handle, for inspection.
    pub fn storage(&self) -> (r: &S)
        ensures
            *r == self.spec_storage(),
    {
        &self.storage
    }

    /// The registry, for inspection.
    pub fn registry(&self) -> (r: &ActionRegistry<E>)
        ensures
            *r == self.spec_registry(),
    {
        &self.action_registry
    }

    /// Submits a task: rejects one without an action with `ActionMissing`,
    /// one whose action no registered executor supports with
    /// `RegistryActionNotFound`, and otherwise persists it and returns its
    /// id. A storage failure surfaces as the storage's error, with the store
    /// unchanged; over a store that cannot fail, submission of a supported
    /// task always succeeds.
    pub fn add_task(&mut self, task: Task) -> (r: Result<TaskId, SchedulerError>)
        requires
            old(self).inv(),
        ensures
            final(self).inv(),
            final(self).spec_running() == old(self).spec_running(),
            final(self).spec_executing() == old(self).spec_executing(),
            final(self).spec_supported() == old(self).spec_supported(),
            final(self).spec_registry() == old(self).spec_registry(),
            final(self).spec_interval() == old(self).spec_interval(),
            task@.action is None ==> (r == Err::<TaskId, SchedulerError>(
                SchedulerError::ActionMissing(task@.id),
            ) && final(self).spec_tasks() == old(self).spec_tasks()),
            (task@.action matches Some(a) && !spec_has_executor_for(
                old(self).spec_supported(),
                a.action_type(),
            )) ==> (r == Err::<TaskId, SchedulerError>(SchedulerError::RegistryActionNotFound)
                && final(self).spec_tasks() == old(self).spec_tasks()),
            (task@.action matches Some(a) && spec_has_executor_for(
                old(self).spec_supported(),
                a.action_type(),
            ) && S::infallible()) ==> r == Ok::<TaskId, SchedulerError>(task@.id)
                && final(self).spec_tasks() == old(self).spec_tasks().insert(task@.id, task@),
            (task@.action matches Some(a) && spec_has_executor_for(
                old(self).spec_supported(),
                a.action_type(),
            )) ==> {
                &&& (r matches Ok(id) ==> id == task@.id && final(self).spec_tasks() == old(
                    self,
                ).spec_tasks().insert(task@.id, task@))
                &&& (r is Err ==> final(self).spec_tasks() == old(self).spec_tasks())
            },
    {
        let action = match &task.action {
            Some(a) => a,
            None => {
                return Err(SchedulerError::ActionMissing(task.id));
            },
        };
        if !self.action_registry.has_executor_for(action) {
            return Err(SchedulerError::RegistryActionNotFound);
        }
        let id = task.id;
        match self.storage.save_task(task) {
            Ok(_) => Ok(id),
            Err(e) => Err(e),
        }
    }

    /// Marks the scheduler running: fails with `AlreadyRunning` when it
    /// already is. Polling is the caller's loop: see [`Self::tick_at`].
    pub fn start(&mut self) -> (r: Result<(), SchedulerError>)
        requires
            old(self).inv(),
        ensures
            final(self).inv(),
            final(self).spec_tasks() == old(self).spec_tasks(),
            final(self).spec_storage() == old(self).spec_storage(),
            final(self).spec_executing() == old(self).spec_executing(),
            final(self).spec_supported() == old(self).spec_supported(),
            final(self).spec_registry() == old(self).spec_registry(),
            final(self).spec_interval() == old(self).spec_interval(),
            final(self).spec_running(),
            old(self).spec_running() ==> r == Err::<(), SchedulerError>(
                SchedulerError::AlreadyRunning,
            ),
            !old(self).spec_running() ==> r is Ok,
    {
        if self.running {
            return Err(SchedulerError::AlreadyRunning);
        }
        self.running = true;
        Ok(())
    }

    /// Marks the scheduler stopped: fails with `NotRunning` when it is not
    /// running. In-flight activations are unaffected; polling ceases at the
    /// caller's next tick.
    pub fn stop(&mut self) -> (r: Result<(), SchedulerError>)
        requires
            old(self).inv(),
        ensures
            final(self).inv(),
            final(self).spec_tasks() == old(self).spec_tasks(),
            final(self).spec_storage() == old(self).spec_storage(),
            final(self).spec_executing() == old(self).spec_executing(),
            final(self).spec_supported() == old(self).spec_supported(),
            final(self).spec_registry() == old(self).spec_registry(),
            final(self).spec_interval() == old(self).spec_interval(),
            !old(self).spec_running() ==> r == Err::<(), SchedulerError>(SchedulerError::NotRunning)
                && final(self).spec_running() == old(self).spec_running(),
            old(self).spec_running() ==> r is Ok && !final(self).spec_running(),
    {
        if !self.running {
            return Err(SchedulerError::NotRunning);
        }
        self.running = false;
        Ok(())
    }

    /// The guard against double dispatch: of the given ready tasks, returns
    /// those whose ids are not already in flight, and puts their ids in
    /// flight. An id never enters the returned list twice, and never while a
    /// prior activation of it is still in flight.
    pub fn select_dispatch(&mut self, ready_tasks: Vec<Task>) -> (r: Vec<Task>)
        requires
            old(self).inv(),
        ensures
            final(self).inv(),
            final(self).spec_tasks() == old(self).spec_tasks(),
            final(self).spec_storage() == old(self).spec_storage(),
            final(self).spec_running() == old(self).spec_running(),
            final(self).spec_supported() == old(self).spec_supported(),
            final(self).spec_registry() == old(self).spec_registry(),
            final(self).spec_interval() == old(self).spec_interval(),
            forall|j: int| 0 <= j < r@.len() ==> spec_list_has_task(
                ready_tasks@.map_values(|t: Task| t@),
                (#[trigger] r@[j])@,
            ),
            forall|j: int| 0 <= j < r@.len() ==> !old(self).spec_executing().contains(
                (#[trigger] r@[j])@.id,
            ),
            forall|k: int| 0 <= k < ready_tasks@.len() && !old(self).spec_executing().contains(
                (#[trigger] ready_tasks@[k])@.id,
            ) ==> spec_seq_has_id(r@.map_values(|t: Task| t@), ready_tasks@[k]@.id),
            crate::base_storage::spec_distinct_ids(r@.map_values(|t: Task| t@)),
            forall|x: TaskId| final(self).spec_executing().contains(x) <==> (old(
                self,
            ).spec_executing().contains(x) || spec_seq_has_id(r@.map_values(|t: Task| t@), x)),
    {
        let ghost e0 = self.executing_tasks@;
        let mut out: Vec<Task> = Vec::new();
        let mut i: usize = 0;
        proof {
            assert(out@.map_values(|t: Task| t@) =~= Seq::<TaskSpec>::empty());
        }
        while i < ready_tasks.len()
            invariant
                0 <= i <= ready_tasks@.len(),
                old(self).inv(),
                e0 == old(self).spec_executing(),
                self.storage == old(self).spec_storage(),
                self.action_registry == old(self).spec_registry(),
                self.running == old(self).spec_running(),
                self.check_interval == old(self).spec_interval(),
                tids_distinct(self.executing_tasks@),
                forall|j: int| 0 <= j < out@.len() ==> spec_list_has_task(
                    ready_tasks@.map_values(|t: Task| t@),
                    (#[trigger] out@[j])@,
                ),
                forall|j: int| 0 <= j < out@.len() ==> !e0.contains((#[trigger] out@[j])@.id),
                forall|k: int| 0 <= k < i && !e0.contains((#[trigger] ready_tasks@[k])@.id)
                    ==> spec_seq_has_id(out@.map_values(|t: Task| t@), ready_tasks@[k]@.id),
                forall|j: int| 0 <= j < out@.len() ==> self.executing_tasks@.contains(
                    (#[trigger] out@[j])@.id,
                ),
                crate::base_storage::spec_distinct_ids(out@.map_values(|t: Task| t@)),
                forall|x: TaskId| self.executing_tasks@.contains(x) <==> (e0.contains(x)
                    || spec_seq_has_id(out@.map_values(|t: Task| t@), x)),
            decreases ready_tasks@.len() - i,
        {
            let t = &ready_tasks[i];
            let ghost out_pre = out@;
            let ghost exec_pre = self.executing_tasks@;
            if !contains_id(&self.executing_tasks, t.id) {
                self.executing_tasks.push(t.id);
                out.push(t.clone());
                proof {
                    assert(out@.map_values(|t: Task| t@) =~= out_pre.map_values(
                        |t: Task| t@,
                    ).push(ready_tasks@[i as int]@));
                    assert forall|a: int, b: int|
                        0 <= a < b < self.executing_tasks@.len() implies self.executing_tasks@[a]
                        != self.executing_tasks@[b] by {
                        if b < self.executing_tasks@.len() - 1 {
                            assert(self.executing_tasks@[a] == exec_pre[a]);
                            assert(self.executing_tasks@[b] == exec_pre[b]);
                        } else {
                            assert(self.executing_tasks@[a] == exec_pre[a]);
                            assert(exec_pre.contains(exec_pre[a]));
                        }
                    }
                    let rv = ready_tasks@.map_values(|t: Task| t@);
                    assert forall|j: int| 0 <= j < out@.len() implies spec_list_has_task(
                        rv,
                        (#[trigger] out@[j])@,
                    ) by {
                        if j < out@.len() - 1 {
                            assert(out@[j] == out_pre[j]);
                        } else {
                            assert(rv[i as int] == out@[j]@);
                        }
                    }
                    let v_pre = out_pre.map_values(|t: Task| t@);
                    let v_new = out@.map_values(|t: Task| t@);
                    assert forall|a: int, b: int| 0 <= a < b < v_new.len() implies (
                    #[trigger] v_new[a]).id != (#[trigger] v_new[b]).id by {
                        if b < v_new.len() - 1 {
                            assert(v_new[a] == v_pre[a]);
                            assert(v_new[b] == v_pre[b]);
                        } else {
                            assert(v_new[a] == v_pre[a]);
                            assert(exec_pre.contains(v_pre[a].id));
                            assert(v_new[b].id == ready_tasks@[i as int]@.id);
                        }
                    }
                    assert(crate::base_storage::spec_distinct_ids(v_new));
                    assert forall|j: int| 0 <= j < out@.len() implies self.executing_tasks@
                        .contains((#[trigger] out@[j])@.id) by {
                        if j < out@.len() - 1 {
                            assert(out@[j] == out_pre[j]);
                            let w = choose|w: int|
                                0 <= w < exec_pre.len() && exec_pre[w] == (
                                #[trigger] out_pre[j])@.id;
                            assert(self.executing_tasks@[w] == out@[j]@.id);
                        } else {
                            let last = self.executing_tasks@.len() - 1;
                            assert(self.executing_tasks@[last] == out@[j]@.id);
                        }
                    }
                    assert forall|x: TaskId| self.executing_tasks@.contains(x) <==> (e0.contains(x)
                        || spec_seq_has_id(out@.map_values(|t: Task| t@), x)) by {
                        let v_pre = out_pre.map_values(|t: Task| t@);
                        let v_new = out@.map_values(|t: Task| t@);
                        if self.executing_tasks@.contains(x) {
                            let w = choose|w: int|
                                0 <= w < self.executing_tasks@.len() && self.executing_tasks@[w]
                                    == x;
                            if w < self.executing_tasks@.len() - 1 {
                                assert(exec_pre[w] == x);
                                assert(exec_pre.contains(x));
                                if spec_seq_has_id(v_pre, x) {
                                    let j = choose|j: int|
                                        0 <= j < v_pre.len() && #[trigger] v_pre[j].id == x;
                                    assert(v_new[j].id == x);
                                }
                            } else {
                                assert(v_new[v_new.len() - 1].id == x);
                            }
                        }
                        if e0.contains(x) {
                            let w = choose|w: int| 0 <= w < e0.len() && e0[w] == x;
                            assert(exec_pre.contains(x));
                            let w2 = choose|w2: int|
                                0 <= w2 < exec_pre.len() && exec_pre[w2] == x;
                            assert(self.executing_tasks@[w2] == x);
                            assert(self.executing_tasks@.contains(x));
                        }
                        if spec_seq_has_id(v_new, x) {
                            let j = choose|j: int|
                                0 <= j < v_new.len() && #[trigger] v_new[j].id == x;
                            if j < v_new.len() - 1 {
                                assert(v_pre[j].id == x);
                                assert(exec_pre.contains(x));
                                let w2 = choose|w2: int|
                                    0 <= w2 < exec_pre.len() && exec_pre[w2] == x;
                                assert(self.executing_tasks@[w2] == x);
                            } else {
                                assert(self.executing_tasks@[self.executing_tasks@.len() - 1]
                                    == x);
                            }
                        }
                    }
                    assert forall|k: int| 0 <= k < i + 1 && !e0.contains(
                        (#[trigger] ready_tasks@[k])@.id,
                    ) implies spec_seq_has_id(
                        out@.map_values(|t: Task| t@),
                        ready_tasks@[k]@.id,
                    ) by {
                        let v_pre = out_pre.map_values(|t: Task| t@);
                        let v_new = out@.map_values(|t: Task| t@);
                        if k < i {
                            if spec_seq_has_id(v_pre, ready_tasks@[k]@.id) {
                                let j = choose|j: int|
                                    0 <= j < v_pre.len() && #[trigger] v_pre[j].id
                                        == ready_tasks@[k]@.id;
                                assert(v_new[j].id == ready_tasks@[k]@.id);
                            }
                        } else {
                            assert(v_new[v_new.len() - 1].id == ready_tasks@[k]@.id);
                        }
                    }
                }
            } else {
                proof {
                    assert forall|k: int| 0 <= k < i + 1 && !e0.contains(
                        (#[trigger] ready_tasks@[k])@.id,
                    ) implies spec_seq_has_id(
                        out@.map_values(|t: Task| t@),
                        ready_tasks@[k]@.id,
                    ) by {
                        if k == i as int {
                            assert(self.executing_tasks@.contains(ready_tasks@[k]@.id));
                        }
                    }
                }
            }
            i = i + 1;
        }
        out
    }

    /// Takes a task's id out of flight; every other id stays as it was.
    pub fn finish_task(&mut self, id: TaskId)
        requires
            old(self).inv(),
        ensures
            final(self).inv(),
            final(self).spec_tasks() == old(self).spec_tasks(),
            final(self).spec_storage() == old(self).spec_storage(),
            final(self).spec_running() == old(self).spec_running(),
            final(self).spec_supported() == old(self).spec_supported(),
            final(self).spec_registry() == old(self).spec_registry(),
            final(self).spec_interval() == old(self).spec_interval(),
            !final(self).spec_executing().contains(id),
            forall|x: TaskId| x != id ==> final(self).spec_executing().contains(x) == old(
                self,
            ).spec_executing().contains(x),
    {
        let ghost e0 = self.executing_tasks@;
        let mut i: usize = 0;
        while i < self.executing_tasks.len()
            invariant
                0 <= i <= self.executing_tasks@.len(),
                e0 == self.executing_tasks@,
                e0 == old(self).spec_executing(),
                tids_distinct(e0),
                old(self).inv(),
                self.storage == old(self).spec_storage(),
                self.action_registry == old(self).spec_registry(),
                self.running == old(self).spec_running(),
                self.check_interval == old(self).spec_interval(),
                forall|j: int| 0 <= j < i ==> e0[j] != id,
            decreases self.executing_tasks@.len() - i,
        {
            if self.executing_tasks[i] == id {
                self.executing_tasks.remove(i);
                proof {
                    assert forall|a: int, b: int|
                        0 <= a < b < self.executing_tasks@.len() implies self.executing_tasks@[a]
                        != self.executing_tasks@[b] by {
                        assert(self.executing_tasks@[a] == if a < i as int {
                            e0[a]
                        } else {
                            e0[a + 1]
                        });
                        assert(self.executing_tasks@[b] == if b < i as int {
                            e0[b]
                        } else {
                            e0[b + 1]
                        });
                    }
                    assert forall|x: TaskId|
                        x != id implies self.executing_tasks@.contains(x) == e0.contains(x) by {
                        if self.executing_tasks@.contains(x) {
                            let w = choose|w: int|
                                0 <= w < self.executing_tasks@.len() && self.executing_tasks@[w]
                                    == x;
                            if w < i as int {
                                assert(e0[w] == x);
                            } else {
                                assert(e0[w + 1] == x);
                            }
                        }
                        if e0.contains(x) {
                            let w = choose|w: int| 0 <= w < e0.len() && e0[w] == x;
                            if w < i as int {
                                assert(self.executing_tasks@[w] == x);
                            } else {
                                assert(w != i as int);
                                assert(self.executing_tasks@[w - 1] == x);
                            }
                        }
                    }
                    assert forall|x: TaskId| !(self.executing_tasks@.contains(x) && x == id) by {
                        if self.executing_tasks@.contains(x) && x == id {
                            let w = choose|w: int|
                                0 <= w < self.executing_tasks@.len() && self.executing_tasks@[w]
                                    == x;
                            if w < i as int {
                                assert(e0[w] == id);
                            } else {
                                assert(e0[w + 1] == id && w + 1 > i);
                            }
                        }
                    }
                }
                return ;
            }
            i = i + 1;
        }
        proof {
            assert(!self.executing_tasks@.contains(id)) by {
                if self.executing_tasks@.contains(id) {
                    let w = choose|w: int| 0 <= w < e0.len() && e0[w] == id;
                    assert(e0[w] != id);
                }
            }
        }
    }

    /// The retry worker for one activation: invokes the registry until an
    /// attempt succeeds or the retry bound is exhausted; then records the
    /// completion instant, takes the id out of flight, advances the schedule,
    /// clears the attempt counter, and persists the task. A failed save is
    /// swallowed: the store is then simply unchanged; over a store that
    /// cannot fail, the completed task is persisted. Between consecutive
    /// attempts the worker pauses for the task's exponential backoff; the
    /// pauses taken are returned in the report. Of the registry, only the
    /// executor that owns the action's discriminant can be touched.
    pub fn execute_task_with_retry(&mut self, task: Task, now: Millis) -> (rep: ActivationReport)
        requires
            old(self).inv(),
            spec_task_runnable(task@),
        ensures
            final(self).inv(),
            final(self).spec_running() == old(self).spec_running(),
            final(self).spec_supported() == old(self).spec_supported(),
            final(self).spec_interval() == old(self).spec_interval(),
            final(self).spec_registry().executors_spec().len() == old(
                self,
            ).spec_registry().executors_spec().len(),
            forall|k: int|
                0 <= k < old(self).spec_registry().executors_spec().len() && (match task@.action {
                    Some(a) => !spec_first_supporting(
                        old(self).spec_supported(),
                        a.action_type(),
                        k,
                    ),
                    None => true,
                }) ==> final(self).spec_registry().executors_spec()[k] == old(
                    self,
                ).spec_registry().executors_spec()[k],
            !final(self).spec_executing().contains(task@.id),
            forall|x: TaskId| x != task@.id ==> final(self).spec_executing().contains(x) == old(
                self,
            ).spec_executing().contains(x),
            final(self).spec_tasks() == old(self).spec_tasks().insert(
                task@.id,
                spec_completed_task(task@, now),
            ) || final(self).spec_tasks() == old(self).spec_tasks(),
            S::infallible() ==> final(self).spec_tasks() == old(self).spec_tasks().insert(
                task@.id,
                spec_completed_task(task@, now),
            ),
            rep.id == task@.id,
            1 <= rep.attempts,
            rep.attempts as int <= if task@.retry_count < task@.max_retries {
                task@.max_retries - task@.retry_count
            } else {
                1int
            },
            !rep.succeeded ==> rep.attempts as int == if task@.retry_count < task@.max_retries {
                task@.max_retries - task@.retry_count
            } else {
                1int
            },
            rep.slept@.len() == rep.attempts - 1,
            forall|i: int| 0 <= i < rep.slept@.len() ==> rep.slept@[i] == task@.retry_delay * pow2(
                (task@.retry_count + i + 1) as nat,
            ),
    {
        let ghost orig = task@;
        let id = task.id;
        let mut cur = task;
        let mut slept: Vec<u64> = Vec::new();
        let mut attempts: u64 = 0;
        loop
            invariant
                old(self).inv(),
                self.inv(),
                spec_task_runnable(orig),
                self.storage == old(self).spec_storage(),
                self.action_registry.supported_sets() == old(self).spec_supported(),
                self.action_registry.executors_spec().len() == old(
                    self,
                ).spec_registry().executors_spec().len(),
                forall|k: int|
                    0 <= k < old(self).spec_registry().executors_spec().len() && (
                    match orig.action {
                        Some(a) => !spec_first_supporting(
                            old(self).spec_supported(),
                            a.action_type(),
                            k,
                        ),
                        None => true,
                    }) ==> self.action_registry.executors_spec()[k] == old(
                        self,
                    ).spec_registry().executors_spec()[k],
                self.running == old(self).spec_running(),
                self.check_interval == old(self).spec_interval(),
                self.executing_tasks@ == old(self).spec_executing(),
                id == orig.id,
                cur@ == (TaskSpec { retry_count: cur@.retry_count, ..orig }),
                orig == task@,
                orig.retry_count <= cur@.retry_count <= orig.max_retries,
                cur@.retry_count > orig.retry_count ==> cur@.retry_count < orig.max_retries,
                attempts == cur@.retry_count - orig.retry_count,
                slept@.len() == attempts,
                forall|i: int| 0 <= i < slept@.len() ==> slept@[i] == orig.retry_delay * pow2(
                    (orig.retry_count + i + 1) as nat,
                ),
            decreases orig.max_retries - cur@.retry_count,
        {
            attempts = attempts + 1;
            let result = self.action_registry.execute(&cur);
            match result {
                Ok(_) => {
                    cur.reset_retry_count();
                    cur.last_run = Some(now);
                    self.finish_task(id);
                    cur.calculate_next_run();
                    proof {
                        assert(cur@ =~= spec_completed_task(orig, now));
                    }
                    match self.storage.save_task(cur) {
                        Ok(_) => {},
                        Err(_) => {},
                    }
                    return ActivationReport { id, attempts, slept, succeeded: true };
                },
                Err(_) => {
                    cur.retry_count = cur.retry_count + 1;
                    if cur.should_retry() {
                        let d = cur.calcluate_retry_delay();
                        slept.push(d);
                    } else {
                        cur.last_run = Some(now);
                        cur.calculate_next_run();
                        cur.reset_retry_count();
                        proof {
                            assert(cur@ =~= spec_completed_task(orig, now));
                        }
                        match self.storage.save_task(cur) {
                            Ok(_) => {},
                            Err(_) => {},
                        }
                        self.finish_task(id);
                        return ActivationReport { id, attempts, slept, succeeded: false };
                    }
                },
            }
        }
    }

    /// One pass of the poll loop at instant `now`: when the scheduler is
    /// running, reads the tasks ready at `now`, filters out those already in
    /// flight, and runs one activation to completion for each task that
    /// remains, returning one report per activation. When it is not running,
    /// nothing happens, and a storage read failure skips the pass: the loop
    /// never dies of a task-level error. Every dispatched id leaves the
    /// in-flight set again before the pass ends, no task is created or
    /// deleted, and a task that was not ready at `now` comes out untouched.
    /// Over a store that cannot fail, every ready task not already in flight
    /// is reported on and left in its completed form.
    pub fn tick_at(&mut self, now: Millis) -> (reports: Vec<ActivationReport>)
        requires
            old(self).inv(),
            forall|id: TaskId| old(self).spec_tasks().contains_key(id) ==> spec_task_runnable(
                #[trigger] old(self).spec_tasks()[id],
            ),
        ensures
            final(self).inv(),
            final(self).spec_running() == old(self).spec_running(),
            final(self).spec_supported() == old(self).spec_supported(),
            final(self).spec_interval() == old(self).spec_interval(),
            !old(self).spec_running() ==> final(self).spec_tasks() == old(self).spec_tasks()
                && final(self).spec_storage() == old(self).spec_storage()
                && final(self).spec_registry() == old(self).spec_registry() && reports@.len() == 0,
            forall|x: TaskId| final(self).spec_executing().contains(x) == old(
                self,
            ).spec_executing().contains(x),
            forall|id: TaskId| final(self).spec_tasks().contains_key(id) == old(
                self,
            ).spec_tasks().contains_key(id),
            forall|id: TaskId|
                old(self).spec_tasks().contains_key(id) && !spec_eligible(
                    old(self).spec_tasks(),
                    old(self).spec_executing(),
                    id,
                    now,
                ) ==> #[trigger] final(self).spec_tasks()[id] == old(self).spec_tasks()[id],
            forall|id: TaskId| old(self).spec_tasks().contains_key(id) ==> (#[trigger] final(self).spec_tasks()[id]
                == old(self).spec_tasks()[id] || final(self).spec_tasks()[id]
                == spec_completed_task(old(self).spec_tasks()[id], now)),
            forall|j: int| 0 <= j < reports@.len() ==> {
                &&& spec_eligible(
                    old(self).spec_tasks(),
                    old(self).spec_executing(),
                    (#[trigger] reports@[j]).id,
                    now,
                )
                &&& reports@[j].attempts >= 1
                &&& reports@[j].slept@.len() == reports@[j].attempts - 1
                &&& forall|i: int| 0 <= i < reports@[j].slept@.len() ==> reports@[j].slept@[i]
                    == old(self).spec_tasks()[reports@[j].id].retry_delay * pow2(
                    (old(self).spec_tasks()[reports@[j].id].retry_count + i + 1) as nat,
                )
            },
            forall|j: int, k: int| 0 <= j < k < reports@.len() ==> (#[trigger] reports@[j]).id != (
            #[trigger] reports@[k]).id,
            (old(self).spec_running() && S::infallible()) ==> forall|id: TaskId|
                #[trigger] spec_eligible(
                    old(self).spec_tasks(),
                    old(self).spec_executing(),
                    id,
                    now,
                ) ==> (final(self).spec_tasks()[id] == spec_completed_task(
                    old(self).spec_tasks()[id],
                    now,
                ) && spec_reports_have_id(reports@, id)),
    {
        let mut reports: Vec<ActivationReport> = Vec::new();
        if !self.running {
            return reports;
        }
        let ghost e0 = self.spec_executing();
        let ghost m0 = self.spec_tasks();
        let ready = match self.storage.get_ready_tasks_at(now) {
            Ok(v) => v,
            Err(_) => {
                return reports;
            },
        };
        let ghost rv = ready@.map_values(|t: Task| t@);
        let mut dispatch = self.select_dispatch(ready);
        proof {
            assert forall|j: int| 0 <= j < dispatch@.len() implies spec_task_runnable(
                (#[trigger] dispatch@[j])@,
            ) && !e0.contains(dispatch@[j]@.id) && m0.contains_key(dispatch@[j]@.id)
                && m0[dispatch@[j]@.id] == dispatch@[j]@ && spec_is_ready(dispatch@[j]@, now) by {
                let k = choose|k: int| 0 <= k < rv.len() && rv[k] == (#[trigger] dispatch@[j])@;
                assert(m0.contains_key(rv[k].id) && m0[rv[k].id] == rv[k]);
            }
            assert forall|id: TaskId| spec_eligible(m0, e0, id, now) implies spec_seq_has_id(
                dispatch@.map_values(|t: Task| t@),
                id,
            ) by {
                let k = choose|k: int| 0 <= k < rv.len() && #[trigger] rv[k].id == id;
                assert(ready@[k]@ == rv[k]);
            }
        }
        while dispatch.len() > 0
            invariant
                self.inv(),
                e0 == old(self).spec_executing(),
                self.running == old(self).spec_running(),
                self.action_registry.supported_sets() == old(self).spec_supported(),
                self.check_interval == old(self).spec_interval(),
                forall|j: int| 0 <= j < dispatch@.len() ==> spec_task_runnable(
                    (#[trigger] dispatch@[j])@,
                ),
                forall|j: int| 0 <= j < dispatch@.len() ==> !e0.contains(
                    (#[trigger] dispatch@[j])@.id,
                ),
                m0 == old(self).spec_tasks(),
                forall|j: int| 0 <= j < dispatch@.len() ==> (m0.contains_key(
                    (#[trigger] dispatch@[j])@.id,
                ) && m0[dispatch@[j]@.id] == dispatch@[j]@ && spec_is_ready(dispatch@[j]@, now)),
                forall|id: TaskId| self.spec_tasks().contains_key(id) == m0.contains_key(id),
                forall|id: TaskId|
                    m0.contains_key(id) && !spec_eligible(m0, e0, id, now)
                        ==> #[trigger] self.spec_tasks()[id] == m0[id],
                forall|id: TaskId| m0.contains_key(id) ==> (#[trigger] self.spec_tasks()[id]
                    == m0[id] || self.spec_tasks()[id] == spec_completed_task(m0[id], now)),
                forall|j: int| 0 <= j < reports@.len() ==> {
                    &&& spec_eligible(m0, e0, (#[trigger] reports@[j]).id, now)
                    &&& reports@[j].attempts >= 1
                    &&& reports@[j].slept@.len() == reports@[j].attempts - 1
                    &&& forall|i: int| 0 <= i < reports@[j].slept@.len() ==> reports@[j].slept@[i]
                        == m0[reports@[j].id].retry_delay * pow2(
                        (m0[reports@[j].id].retry_count + i + 1) as nat,
                    )
                },
                forall|j: int, k: int| 0 <= j < k < reports@.len() ==> (#[trigger] reports@[j]).id
                    != (#[trigger] reports@[k]).id,
                forall|j: int| 0 <= j < reports@.len() ==> !spec_seq_has_id(
                    dispatch@.map_values(|t: Task| t@),
                    (#[trigger] reports@[j]).id,
                ),
                forall|id: TaskId| spec_eligible(m0, e0, id, now) ==> (spec_reports_have_id(
                    reports@,
                    id,
                ) || spec_seq_has_id(dispatch@.map_values(|t: Task| t@), id)),
                S::infallible() ==> forall|id: TaskId|
                    spec_reports_have_id(#[trigger] reports@, id) && m0.contains_key(id)
                        ==> self.spec_tasks()[id] == spec_completed_task(m0[id], now),
                crate::base_storage::spec_distinct_ids(dispatch@.map_values(|t: Task| t@)),
                forall|x: TaskId| self.spec_executing().contains(x) <==> (e0.contains(x)
                    || spec_seq_has_id(dispatch@.map_values(|t: Task| t@), x)),
            decreases dispatch@.len(),
        {
            let ghost pre = dispatch@;
            let ghost m_pre = self.spec_tasks();
            let ghost reports_pre = reports@;
            let t = dispatch.remove(0);
            let ghost tid = t@.id;
            let rep = self.execute_task_with_retry(t, now);
            reports.push(rep);
            proof {
                let v_pre = pre.map_values(|t: Task| t@);
                let v_rem = dispatch@.map_values(|t: Task| t@);
                assert(dispatch@ =~= pre.drop_first());
                assert forall|j: int| 0 <= j < dispatch@.len() implies (m0.contains_key(
                    (#[trigger] dispatch@[j])@.id,
                ) && m0[dispatch@[j]@.id] == dispatch@[j]@ && spec_is_ready(
                    dispatch@[j]@,
                    now,
                ) && spec_task_runnable(dispatch@[j]@) && !e0.contains(dispatch@[j]@.id)) by {
                    assert(dispatch@[j] == pre[j + 1]);
                }
                assert(pre[0]@ == t@);
                assert(m0[tid] == t@ && spec_is_ready(t@, now));
                assert(spec_eligible(m0, e0, tid, now));
                assert forall|id: TaskId| self.spec_tasks().contains_key(id) == m0.contains_key(
                    id,
                ) by {
                    if self.spec_tasks() == m_pre.insert(tid, spec_completed_task(t@, now)) {
                        assert(m_pre.contains_key(tid));
                    }
                }
                assert forall|id: TaskId|
                    m0.contains_key(id) && !spec_eligible(m0, e0, id, now) implies #[trigger] self
                    .spec_tasks()[id] == m0[id] by {
                    if self.spec_tasks() == m_pre.insert(tid, spec_completed_task(t@, now)) {
                        assert(id != tid);
                        assert(self.spec_tasks()[id] == m_pre[id]);
                    }
                }
                assert forall|id: TaskId| m0.contains_key(id) implies (
                #[trigger] self.spec_tasks()[id] == m0[id] || self.spec_tasks()[id]
                    == spec_completed_task(m0[id], now)) by {
                    if self.spec_tasks() == m_pre.insert(tid, spec_completed_task(t@, now)) {
                        if id == tid {
                            assert(self.spec_tasks()[id] == spec_completed_task(m0[id], now));
                        } else {
                            assert(self.spec_tasks()[id] == m_pre[id]);
                        }
                    }
                }
                assert(reports@ =~= reports_pre.push(rep));
                assert forall|j: int| 0 <= j < reports@.len() implies (spec_eligible(
                    m0,
                    e0,
                    (#[trigger] reports@[j]).id,
                    now,
                ) && reports@[j].attempts >= 1 && reports@[j].slept@.len() == reports@[j].attempts
                    - 1 && forall|i: int|
                    0 <= i < reports@[j].slept@.len() ==> reports@[j].slept@[i] == m0[reports@[j
                    ].id].retry_delay * pow2(
                        (m0[reports@[j].id].retry_count + i + 1) as nat,
                    )) by {
                    if j < reports@.len() - 1 {
                        assert(reports@[j] == reports_pre[j]);
                    } else {
                        assert(reports@[j] == rep);
                        assert(rep.id == tid);
                    }
                }
                assert forall|j: int| 0 <= j < reports@.len() implies !spec_seq_has_id(
                    v_rem,
                    (#[trigger] reports@[j]).id,
                ) by {
                    if spec_seq_has_id(v_rem, reports@[j].id) {
                        let k = choose|k: int|
                            0 <= k < v_rem.len() && #[trigger] v_rem[k].id == reports@[j].id;
                        assert(v_pre[k + 1].id == reports@[j].id);
                        if j < reports@.len() - 1 {
                            assert(reports@[j] == reports_pre[j]);
                        } else {
                            assert(v_pre[0].id == tid);
                        }
                    }
                }
                assert forall|j: int, k: int| 0 <= j < k < reports@.len() implies (
                #[trigger] reports@[j]).id != (#[trigger] reports@[k]).id by {
                    if k == reports@.len() - 1 {
                        assert(reports@[j] == reports_pre[j]);
                        assert(v_pre[0].id == tid);
                    } else {
                        assert(reports@[j] == reports_pre[j]);
                        assert(reports@[k] == reports_pre[k]);
                    }
                }
                assert forall|id: TaskId| spec_eligible(m0, e0, id, now) implies (
                spec_reports_have_id(reports@, id) || spec_seq_has_id(v_rem, id)) by {
                    if spec_reports_have_id(reports_pre, id) {
                        let j = choose|j: int|
                            0 <= j < reports_pre.len() && #[trigger] reports_pre[j].id == id;
                        assert(reports@[j].id == id);
                    } else if spec_seq_has_id(v_pre, id) {
                        let k = choose|k: int|
                            0 <= k < v_pre.len() && #[trigger] v_pre[k].id == id;
                        if k == 0 {
                            assert(reports@[reports@.len() - 1].id == id);
                        } else {
                            assert(v_rem[k - 1].id == id);
                        }
                    }
                }
                if S::infallible() {
                    assert(self.spec_tasks() == m_pre.insert(tid, spec_completed_task(t@, now)));
                    assert forall|id: TaskId|
                        spec_reports_have_id(#[trigger] reports@, id) && m0.contains_key(id) implies self
                        .spec_tasks()[id] == spec_completed_task(m0[id], now) by {
                        if id == tid {
                            assert(self.spec_tasks()[id] == spec_completed_task(m0[id], now));
                        } else {
                            let j = choose|j: int|
                                0 <= j < reports@.len() && #[trigger] reports@[j].id == id;
                            assert(j < reports@.len() - 1);
                            assert(reports_pre[j].id == id);
                            assert(spec_reports_have_id(reports_pre, id));
                            assert(self.spec_tasks()[id] == m_pre[id]);
                        }
                    }
                }
                assert forall|x: TaskId| self.spec_executing().contains(x) <==> (e0.contains(x)
                    || spec_seq_has_id(v_rem, x)) by {
                    if x != tid {
                        if spec_seq_has_id(v_pre, x) {
                            let j = choose|j: int|
                                0 <= j < v_pre.len() && #[trigger] v_pre[j].id == x;
                            assert(j != 0);
                            assert(v_rem[j - 1].id == x);
                        }
                        if spec_seq_has_id(v_rem, x) {
                            let j = choose|j: int|
                                0 <= j < v_rem.len() && #[trigger] v_rem[j].id == x;
                            assert(v_pre[j + 1].id == x);
                        }
                    } else {
                        assert(!e0.contains(x));
                        if spec_seq_has_id(v_rem, x) {
                            let j = choose|j: int|
                                0 <= j < v_rem.len() && #[trigger] v_rem[j].id == x;
                            assert(v_pre[j + 1].id == x);
                            assert(v_pre[0].id == x);
                        }
                    }
                }
                assert forall|a: int, b: int| 0 <= a < b < v_rem.len() implies (
                #[trigger] v_rem[a]).id != (#[trigger] v_rem[b]).id by {
                    assert(v_rem[a] == v_pre[a + 1]);
                    assert(v_rem[b] == v_pre[b + 1]);
                }
                assert(crate::base_storage::spec_distinct_ids(v_rem));
            }
        }
        proof {
            assert forall|x: TaskId| self.spec_executing().contains(x) == e0.contains(x) by {
                assert(dispatch@.map_values(|t: Task| t@).len() == 0);
            }
            if old(self).spec_running() && S::infallible() {
                assert forall|id: TaskId| #[trigger] spec_eligible(
                    old(self).spec_tasks(),
                    old(self).spec_executing(),
                    id,
                    now,
                ) implies (self.spec_tasks()[id] == spec_completed_task(
                    old(self).spec_tasks()[id],
                    now,
                ) && spec_reports_have_id(reports@, id)) by {
                    assert(spec_reports_have_id(reports@, id) || spec_seq_has_id(
                        dispatch@.map_values(|t: Task| t@),
                        id,
                    ));
                }
            }
        }
        reports
    }
}

/// Law: a task that has just been saved is found under its id, equal in
/// every field: looking up `t.id` after an upsert of `t` yields exactly `t`.
pub proof fn lemma_submitted_task_found(m: Map<TaskId, TaskSpec>, t: TaskSpec)
    ensures
        m.insert(t.id, t).contains_key(t.id),
        m.insert(t.id, t)[t.id] == t,
{
}

/// Law: a disabled task is never dispatched: no correct answer to the
/// ready-query holds its id, at any instant.
pub proof fn lemma_disabled_never_dispatched(
    m: Map<TaskId, TaskSpec>,
    v: Seq<TaskSpec>,
    now: Millis,
    id: TaskId,
)
    requires
        spec_ready_list(m, v, now),
        m.contains_key(id),
        !m[id].enabled,
    ensures
        !spec_seq_has_id(v, id),
{
    if spec_seq_has_id(v, id) {
        let j = choose|j: int| 0 <= j < v.len() && #[trigger] v[j].id == id;
        assert(m[v[j].id] == v[j]);
        assert(spec_is_ready(v[j], now));
    }
}

/// Law: the in-flight set serialises activations per id. When one poll's
/// dispatch put its ids in flight and a later poll's dispatch was selected
/// against that in-flight set, no id was dispatched by both: a task id runs
/// at most once concurrently, until `finish_task` takes it out of flight.
pub proof fn lemma_no_double_dispatch(
    e0: Seq<TaskId>,
    d1: Seq<TaskSpec>,
    e1: Seq<TaskId>,
    d2: Seq<TaskSpec>,
    id: TaskId,
)
    requires
        forall|x: TaskId| e1.contains(x) <==> (e0.contains(x) || spec_seq_has_id(d1, x)),
        forall|j: int| 0 <= j < d2.len() ==> !e1.contains((#[trigger] d2[j]).id),
        spec_seq_has_id(d1, id),
    ensures
        !spec_seq_has_id(d2, id),
{
    if spec_seq_has_id(d2, id) {
        let j = choose|j: int| 0 <= j < d2.len() && #[trigger] d2[j].id == id;
        assert(!e1.contains(d2[j].id));
    }
}

} // verus!
