//! The in-memory storage backend: a duplicate-free list of tasks, read as a
//! map from id to task.

use vstd::prelude::*;
use crate::base_storage::{
    spec_all_list, spec_distinct_ids, spec_is_ready, spec_ready_list, spec_seq_has_id,
    spec_some_ready_list, Storage,
};
use crate::error::SchedulerError;
use crate::task::{Task, TaskSpec};
use crate::{Millis, TaskId};

verus! {

/// True when the ids in `s` are pairwise distinct.
pub open spec fn ids_unique(s: Seq<Task>) -> bool {
    forall|i: int, j: int| 0 <= i < j < s.len() ==> (#[trigger] s[i]).id != (#[trigger] s[j]).id
}

/// The map a task list stands for: each task under its id, later entries
/// winning.
pub open spec fn spec_tasks_map(s: Seq<Task>) -> Map<TaskId, TaskSpec>
    decreases s.len(),
{
    if s.len() == 0 {
        Map::empty()
    } else {
        spec_tasks_map(s.drop_last()).insert(s.last().id, s.last()@)
    }
}

proof fn lemma_unique_drop_last(s: Seq<Task>)
    requires
        ids_unique(s),
        s.len() > 0,
    ensures
        ids_unique(s.drop_last()),
{
    assert forall|i: int, j: int| 0 <= i < j < s.drop_last().len() implies s.drop_last()[i].id != s
        .drop_last()[j].id by {
        assert(s.drop_last()[i] == s[i]);
        assert(s.drop_last()[j] == s[j]);
    }
}

/// The map of a task list contains exactly the listed ids; under unique ids
/// it maps each id to that task.
proof fn lemma_map_props(s: Seq<Task>)
    ensures
        forall|i: int| 0 <= i < s.len() ==> spec_tasks_map(s).contains_key(#[trigger] s[i].id),
        forall|id: TaskId| spec_tasks_map(s).contains_key(id) ==> exists|i: int|
            0 <= i < s.len() && #[trigger] s[i].id == id,
        ids_unique(s) ==> forall|i: int| 0 <= i < s.len() ==> spec_tasks_map(s)[(
        #[trigger] s[i].id)] == s[i]@,
    decreases s.len(),
{
    if s.len() > 0 {
        let inner = s.drop_last();
        lemma_map_props(inner);
        assert forall|i: int| 0 <= i < s.len() implies spec_tasks_map(s).contains_key(
            s[i].id,
        ) by {
            if i < s.len() - 1 {
                assert(inner[i] == s[i]);
            }
        }
        assert forall|id: TaskId| spec_tasks_map(s).contains_key(id) implies exists|i: int|
            0 <= i < s.len() && #[trigger] s[i].id == id by {
            if id == s.last().id {
                assert(s[s.len() - 1].id == id);
            } else {
                let i = choose|i: int| 0 <= i < inner.len() && #[trigger] inner[i].id == id;
                assert(s[i].id == id);
            }
        }
        if ids_unique(s) {
            lemma_unique_drop_last(s);
            assert forall|i: int| 0 <= i < s.len() implies spec_tasks_map(s)[s[i].id] == s[i]@ by {
                if i < s.len() - 1 {
                    assert(inner[i] == s[i]);
                    assert(s[i].id != s.last().id);
                }
            }
        }
    }
}

proof fn lemma_map_push(s: Seq<Task>, t: Task)
    ensures
        spec_tasks_map(s.push(t)) == spec_tasks_map(s).insert(t.id, t@),
{
    assert(s.push(t).drop_last() =~= s);
    assert(s.push(t).last() == t);
}

proof fn lemma_map_update(s: Seq<Task>, i: int, t: Task)
    requires
        ids_unique(s),
        0 <= i < s.len(),
        s[i].id == t.id,
    ensures
        spec_tasks_map(s.update(i, t)) == spec_tasks_map(s).insert(t.id, t@),
    decreases s.len(),
{
    let u = s.update(i, t);
    lemma_unique_drop_last(s);
    if i == s.len() - 1 {
        assert(u.drop_last() =~= s.drop_last());
        assert(u.last() == t);
        assert(spec_tasks_map(u) =~= spec_tasks_map(s).insert(t.id, t@));
    } else {
        assert(u.drop_last() =~= s.drop_last().update(i, t));
        assert(s.drop_last()[i] == s[i]);
        lemma_map_update(s.drop_last(), i, t);
        assert(u.last() == s.last());
        assert(s.last().id != t.id);
        assert(spec_tasks_map(u) =~= spec_tasks_map(s).insert(t.id, t@));
    }
}

proof fn lemma_map_remove(s: Seq<Task>, i: int)
    requires
        ids_unique(s),
        0 <= i < s.len(),
    ensures
        spec_tasks_map(s.remove(i)) == spec_tasks_map(s).remove(s[i].id),
    decreases s.len(),
{
    lemma_unique_drop_last(s);
    lemma_map_props(s.drop_last());
    if i == s.len() - 1 {
        assert(s.remove(i) =~= s.drop_last());
        assert(spec_tasks_map(s.drop_last()) =~= spec_tasks_map(s).remove(s[i].id));
    } else {
        let r = s.remove(i);
        assert(r.drop_last() =~= s.drop_last().remove(i));
        assert(s.drop_last()[i] == s[i]);
        lemma_map_remove(s.drop_last(), i);
        assert(r.last() == s.last());
        assert(s.last().id != s[i].id);
        assert(spec_tasks_map(r) =~= spec_tasks_map(s).remove(s[i].id));
    }
}

/// The index of the task with this id, if any.
fn find_index(v: &Vec<Task>, id: TaskId) -> (r: Option<usize>)
    ensures
        match r {
            Some(i) => i < v@.len() && v@[i as int].id == id,
            None => forall|j: int| 0 <= j < v@.len() ==> v@[j].id != id,
        },
{
    let mut i: usize = 0;
    while i < v.len()
        invariant
            0 <= i <= v@.len(),
            forall|j: int| 0 <= j < i ==> v@[j].id != id,
        decreases v@.len() - i,
    {
        if v[i].id == id {
            return Some(i);
        }
        i = i + 1;
    }
    None
}

/// The in-memory storage backend over a map of tasks.
pub struct InMemoryStorage {
    tasks: Vec<Task>,
}

impl InMemoryStorage {
    /// An empty store.
    pub fn new() -> (r: Self)
        ensures
            r.inv(),
            r.tasks() == Map::<TaskId, TaskSpec>::empty(),
    {
        let r = InMemoryStorage { tasks: Vec::new() };
        r
    }

    /// The tasks ready at `now`: enabled and due, each as stored, free of
    /// duplicates.
    fn collect_ready_at(&self, now: Millis) -> (r: Vec<Task>)
        requires
            self.inv(),
        ensures
            spec_ready_list(self.tasks(), r@.map_values(|t: Task| t@), now),
    {
        let ghost s = self.tasks@;
        let ghost m = self.tasks();
        let mut out: Vec<Task> = Vec::new();
        let mut i: usize = 0;
        proof {
            assert(out@.map_values(|t: Task| t@) =~= Seq::<TaskSpec>::empty());
        }
        while i < self.tasks.len()
            invariant
                0 <= i <= s.len(),
                s == self.tasks@,
                m == spec_tasks_map(s),
                ids_unique(s),
                forall|j: int| 0 <= j < out@.len() ==> {
                    &&& m.contains_key((#[trigger] out@[j])@.id)
                    &&& m[out@[j]@.id] == out@[j]@
                    &&& spec_is_ready(out@[j]@, now)
                },
                forall|j: int| 0 <= j < out@.len() ==> exists|k: int|
                    0 <= k < i && (#[trigger] out@[j])@.id == s[k].id,
                forall|k: int| 0 <= k < i && spec_is_ready(#[trigger] s[k]@, now)
                    ==> spec_seq_has_id(out@.map_values(|t: Task| t@), s[k].id),
                spec_distinct_ids(out@.map_values(|t: Task| t@)),
            decreases s.len() - i,
        {
            let t = &self.tasks[i];
            let ghost out_pre = out@;
            if t.enabled && t.next_run <= now {
                out.push(t.clone());
                proof {
                    lemma_map_props(s);
                    assert(out@.map_values(|t: Task| t@) =~= out_pre.map_values(
                        |t: Task| t@,
                    ).push(s[i as int]@));
                    assert(out@[out@.len() - 1]@.id == s[i as int].id);
                    assert forall|j: int| 0 <= j < out@.len() implies exists|k: int|
                        0 <= k < i + 1 && (#[trigger] out@[j])@.id == s[k].id by {
                        if j < out@.len() - 1 {
                            assert(out@[j] == out_pre[j]);
                            let k = choose|k: int|
                                0 <= k < i && (#[trigger] out_pre[j])@.id == s[k].id;
                            assert(0 <= k < i + 1 && out@[j]@.id == s[k].id);
                        } else {
                            assert(0 <= i < i + 1 && out@[j]@.id == s[i as int].id);
                        }
                    }
                    assert forall|k: int| 0 <= k < i + 1 && spec_is_ready(
                        #[trigger] s[k]@,
                        now,
                    ) implies spec_seq_has_id(out@.map_values(|t: Task| t@), s[k].id) by {
                        let v_pre = out_pre.map_values(|t: Task| t@);
                        let v_new = out@.map_values(|t: Task| t@);
                        if k < i {
                            let j = choose|j: int|
                                0 <= j < v_pre.len() && #[trigger] v_pre[j].id == s[k].id;
                            assert(v_new[j] == v_pre[j]);
                            assert(v_new[j].id == s[k].id);
                        } else {
                            assert(v_new[v_new.len() - 1].id == s[k].id);
                        }
                    }
                }
            } else {
                proof {
                    assert(!spec_is_ready(s[i as int]@, now));
                }
            }
            i = i + 1;
        }
        proof {
            lemma_map_props(s);
            assert forall|id: TaskId| m.contains_key(id) && spec_is_ready(
                #[trigger] m[id],
                now,
            ) implies spec_seq_has_id(out@.map_values(|t: Task| t@), id) by {
                let k = choose|k: int| 0 <= k < s.len() && #[trigger] s[k].id == id;
                assert(m[id] == s[k]@);
                assert(spec_is_ready(s[k]@, now));
            }
        }
        out
    }
}

impl Default for InMemoryStorage {
    /// The same empty store [`InMemoryStorage::new`] gives.
    fn default() -> (r: Self)
        ensures
            r.inv(),
            r.tasks() == Map::<TaskId, TaskSpec>::empty(),
    {
        InMemoryStorage::new()
    }
}

impl Storage for InMemoryStorage {
    /// Ids in the backing list are pairwise distinct.
    closed spec fn inv(&self) -> bool {
        ids_unique(self.tasks@)
    }

    /// The in-memory store never fails.
    open spec fn infallible() -> bool {
        true
    }

    closed spec fn tasks(&self) -> Map<TaskId, TaskSpec> {
        spec_tasks_map(self.tasks@)
    }

    /// Upserts by id; always returns the task's id.
    fn save_task(&mut self, task: Task) -> (r: Result<TaskId, SchedulerError>)
        ensures
            final(self).inv(),
            r == Ok::<TaskId, SchedulerError>(task@.id),
            final(self).tasks() == old(self).tasks().insert(task@.id, task@),
    {
        let id = task.id;
        let ghost s0 = self.tasks@;
        match find_index(&self.tasks, id) {
            Some(i) => {
                proof {
                    lemma_map_update(s0, i as int, task);
                }
                let slot = &mut self.tasks[i];
                *slot = task;
                proof {
                    assert forall|a: int, b: int| 0 <= a < b < self.tasks@.len() implies self
                        .tasks@[a].id != self.tasks@[b].id by {
                        if a != i as int {
                            assert(self.tasks@[a] == s0[a]);
                        }
                        if b != i as int {
                            assert(self.tasks@[b] == s0[b]);
                        }
                    }
                }
            },
            None => {
                proof {
                    lemma_map_push(s0, task);
                }
                self.tasks.push(task);
                proof {
                    assert forall|a: int, b: int| 0 <= a < b < self.tasks@.len() implies self
                        .tasks@[a].id != self.tasks@[b].id by {
                        if b < self.tasks@.len() - 1 {
                            assert(self.tasks@[a] == s0[a]);
                            assert(self.tasks@[b] == s0[b]);
                        } else {
                            assert(self.tasks@[a] == s0[a]);
                        }
                    }
                }
            },
        }
        Ok(id)
    }

    /// Looks the task up by id; never fails.
    fn get_task(&self, id: TaskId) -> (r: Result<Option<Task>, SchedulerError>)
        ensures
            r is Ok,
            r matches Ok(o) ==> match o {
                Some(t) => self.tasks().contains_key(id) && t@ == self.tasks()[id],
                None => !self.tasks().contains_key(id),
            },
    {
        proof {
            lemma_map_props(self.tasks@);
        }
        match find_index(&self.tasks, id) {
            Some(i) => Ok(Some(self.tasks[i].clone())),
            None => Ok(None),
        }
    }

    /// Every stored task, in list order; never fails.
    fn get_all_tasks(&self) -> (r: Result<Vec<Task>, SchedulerError>)
        ensures
            r is Ok,
            r matches Ok(v) ==> spec_all_list(self.tasks(), v@.map_values(|t: Task| t@)),
    {
        let ghost s = self.tasks@;
        let ghost m = self.tasks();
        let mut out: Vec<Task> = Vec::new();
        let mut i: usize = 0;
        while i < self.tasks.len()
            invariant
                0 <= i <= s.len(),
                s == self.tasks@,
                out@.len() == i,
                forall|j: int| 0 <= j < i ==> (#[trigger] out@[j])@ == s[j]@,
            decreases s.len() - i,
        {
            out.push(self.tasks[i].clone());
            i = i + 1;
        }
        proof {
            lemma_map_props(s);
            let ov = out@.map_values(|t: Task| t@);
            assert forall|j: int| 0 <= j < ov.len() implies m.contains_key((#[trigger] ov[j]).id)
                && m[ov[j].id] == ov[j] by {
                assert(ov[j] == s[j]@);
            }
            assert forall|id: TaskId| m.contains_key(id) implies spec_seq_has_id(ov, id) by {
                let k = choose|k: int| 0 <= k < s.len() && #[trigger] s[k].id == id;
                assert(ov[k].id == id);
            }
            assert forall|a: int, b: int| 0 <= a < b < ov.len() implies ov[a].id != ov[b].id by {
                assert(ov[a] == s[a]@);
                assert(ov[b] == s[b]@);
            }
        }
        Ok(out)
    }

    /// Removes the task with this id, if any; never fails.
    fn delete_task(&mut self, id: TaskId) -> (r: Result<(), SchedulerError>)
        ensures
            final(self).inv(),
            r == Ok::<(), SchedulerError>(()),
            final(self).tasks() == old(self).tasks().remove(id),
    {
        let ghost s0 = self.tasks@;
        match find_index(&self.tasks, id) {
            Some(i) => {
                proof {
                    lemma_map_remove(s0, i as int);
                }
                self.tasks.remove(i);
                proof {
                    assert forall|a: int, b: int| 0 <= a < b < self.tasks@.len() implies self
                        .tasks@[a].id != self.tasks@[b].id by {
                        assert(self.tasks@[a] == if a < i as int {
                            s0[a]
                        } else {
                            s0[a + 1]
                        });
                        assert(self.tasks@[b] == if b < i as int {
                            s0[b]
                        } else {
                            s0[b + 1]
                        });
                    }
                }
            },
            None => {
                proof {
                    lemma_map_props(s0);
                    assert(!spec_tasks_map(s0).contains_key(id));
                    assert(spec_tasks_map(s0).remove(id) =~= spec_tasks_map(s0));
                }
            },
        }
        Ok(())
    }

    /// The tasks ready at the given instant; never fails.
    fn get_ready_tasks_at(&self, now: Millis) -> (r: Result<Vec<Task>, SchedulerError>)
        ensures
            r is Ok,
            r matches Ok(v) ==> spec_ready_list(self.tasks(), v@.map_values(|t: Task| t@), now),
    {
        Ok(self.collect_ready_at(now))
    }

    /// The tasks ready now, by the system clock; never fails.
    fn get_ready_tasks(&self) -> (r: Result<Vec<Task>, SchedulerError>)
        ensures
            r is Ok,
            r matches Ok(v) ==> spec_some_ready_list(self.tasks(), v@.map_values(|t: Task| t@)),
    {
        let now = crate::clock::now_millis();
        let v = self.collect_ready_at(now);
        proof {
            assert(spec_ready_list(self.tasks(), v@.map_values(|t: Task| t@), now));
        }
        Ok(v)
    }
}

} // verus!
