//! The storage contract: CRUD and a ready-query over tasks.

use vstd::prelude::*;
use crate::error::SchedulerError;
use crate::task::{Task, TaskSpec};
use crate::{Millis, TaskId};

verus! {

/// A task is ready when it is enabled and its activation instant has passed.
pub open spec fn spec_is_ready(t: TaskSpec, now: Millis) -> bool {
    t.enabled && t.next_run <= now
}

/// True when `v` holds a task with this id.
pub open spec fn spec_seq_has_id(v: Seq<TaskSpec>, id: TaskId) -> bool {
    exists|j: int| 0 <= j < v.len() && #[trigger] v[j].id == id
}

/// True when the ids in `v` are pairwise distinct.
pub open spec fn spec_distinct_ids(v: Seq<TaskSpec>) -> bool {
    forall|j: int, k: int| 0 <= j < k < v.len() ==> (#[trigger] v[j]).id != (#[trigger] v[k]).id
}

/// True when `v` is a correct answer to the ready-query against the store
/// contents `m` at instant `now`: a duplicate-free list of exactly the stored
/// tasks that are enabled with `next_run <= now`, each returned as stored.
pub open spec fn spec_ready_list(m: Map<TaskId, TaskSpec>, v: Seq<TaskSpec>, now: Millis) -> bool {
    &&& forall|j: int| 0 <= j < v.len() ==> {
        &&& m.contains_key(#[trigger] v[j].id)
        &&& m[v[j].id] == v[j]
        &&& spec_is_ready(v[j], now)
    }
    &&& forall|id: TaskId| m.contains_key(id) && spec_is_ready(#[trigger] m[id], now)
        ==> spec_seq_has_id(v, id)
    &&& spec_distinct_ids(v)
}

/// True when `v` answers the ready-query against `m` at some instant.
pub open spec fn spec_some_ready_list(m: Map<TaskId, TaskSpec>, v: Seq<TaskSpec>) -> bool {
    exists|now: Millis| #[trigger] spec_ready_list(m, v, now)
}

/// True when `v` lists the store contents `m` exactly, free of duplicates.
pub open spec fn spec_all_list(m: Map<TaskId, TaskSpec>, v: Seq<TaskSpec>) -> bool {
    &&& forall|j: int| 0 <= j < v.len() ==> {
        &&& m.contains_key(#[trigger] v[j].id)
        &&& m[v[j].id] == v[j]
    }
    &&& forall|id: TaskId| m.contains_key(id) ==> spec_seq_has_id(v, id)
    &&& spec_distinct_ids(v)
}

/// The durable CRUD surface for tasks. The store is a map from task id to
/// task; `save_task` upserts by id, and the ready-query returns the enabled
/// tasks whose activation instant has passed.
pub trait Storage: Sized {
    /// The implementation's internal well-formedness.
    spec fn inv(&self) -> bool;

    /// True of an implementation that cannot fail: each of its operations
    /// returns `Ok`. The in-memory backend is such a store; a networked one
    /// is not.
    spec fn infallible() -> bool;

    /// The stored tasks, by id.
    spec fn tasks(&self) -> Map<TaskId, TaskSpec>;

    /// Upserts the task by id: on success the store maps the task's id to the
    /// task, and every other entry is untouched. A failed save leaves the
    /// store as it was.
    fn save_task(&mut self, task: Task) -> (r: Result<TaskId, SchedulerError>)
        requires
            old(self).inv(),
        ensures
            final(self).inv(),
            Self::infallible() ==> r is Ok,
            r matches Ok(id) ==> id == task@.id && final(self).tasks() == old(self).tasks().insert(
                task@.id,
                task@,
            ),
            r is Err ==> final(self).tasks() == old(self).tasks(),
    ;

    /// Looks a task up by id: on success, exactly the stored task, or `None`
    /// when the id is absent.
    fn get_task(&self, id: TaskId) -> (r: Result<Option<Task>, SchedulerError>)
        requires
            self.inv(),
        ensures
            Self::infallible() ==> r is Ok,
            r matches Ok(o) ==> match o {
                Some(t) => self.tasks().contains_key(id) && t@ == self.tasks()[id],
                None => !self.tasks().contains_key(id),
            },
    ;

    /// Every stored task, in unspecified order, free of duplicates.
    fn get_all_tasks(&self) -> (r: Result<Vec<Task>, SchedulerError>)
        requires
            self.inv(),
        ensures
            Self::infallible() ==> r is Ok,
            r matches Ok(v) ==> spec_all_list(self.tasks(), v@.map_values(|t: Task| t@)),
    ;

    /// Removes the task with this id, if any; on success every other entry is
    /// untouched.
    fn delete_task(&mut self, id: TaskId) -> (r: Result<(), SchedulerError>)
        requires
            old(self).inv(),
        ensures
            final(self).inv(),
            Self::infallible() ==> r is Ok,
            r is Ok ==> final(self).tasks() == old(self).tasks().remove(id),
            r is Err ==> final(self).tasks() == old(self).tasks(),
    ;

    /// A snapshot of the tasks ready at the given instant: enabled and due,
    /// each as stored, free of duplicates.
    fn get_ready_tasks_at(&self, now: Millis) -> (r: Result<Vec<Task>, SchedulerError>)
        requires
            self.inv(),
        ensures
            Self::infallible() ==> r is Ok,
            r matches Ok(v) ==> spec_ready_list(self.tasks(), v@.map_values(|t: Task| t@), now),
    ;

    /// A snapshot of the tasks ready at some instant the store reads from its
    /// clock during the call.
    fn get_ready_tasks(&self) -> (r: Result<Vec<Task>, SchedulerError>)
        requires
            self.inv(),
        ensures
            Self::infallible() ==> r is Ok,
            r matches Ok(v) ==> spec_some_ready_list(self.tasks(), v@.map_values(|t: Task| t@)),
    ;
}

} // verus!
