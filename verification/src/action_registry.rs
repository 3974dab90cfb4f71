//! The registry that resolves a task's action to a capable executor.

use vstd::prelude::*;
use crate::action::{ActionType, TaskAction};
use crate::action_executor::ActionExecutor;
use crate::error::SchedulerError;
use crate::task::Task;

verus! {

/// True when some supported set in `sets` contains the discriminant `t`.
pub open spec fn spec_has_executor_for(sets: Seq<Seq<ActionType>>, t: ActionType) -> bool {
    exists|i: int| 0 <= i < sets.len() && #[trigger] sets[i].contains(t)
}

/// True when `j` indexes the first supported set in `sets` that contains the
/// discriminant `t`: the executor registration order's tie-break.
pub open spec fn spec_first_supporting(sets: Seq<Seq<ActionType>>, t: ActionType, j: int) -> bool {
    &&& 0 <= j < sets.len()
    &&& sets[j].contains(t)
    &&& forall|k: int| 0 <= k < j ==> !(#[trigger] sets[k]).contains(t)
}

/// An insertion-ordered collection of executors. Execution goes to the first
/// registered executor whose supported set contains the action's
/// discriminant.
pub struct ActionRegistry<E: ActionExecutor> {
    executors: Vec<E>,
}

/// True when the elements of `v` contain `t`.
fn contains_action(v: &Vec<ActionType>, t: ActionType) -> (r: bool)
    ensures
        r == v@.contains(t),
{
    let mut i: usize = 0;
    while i < v.len()
        invariant
            0 <= i <= v@.len(),
            forall|k: int| 0 <= k < i ==> v@[k] != t,
        decreases v@.len() - i,
    {
        if v[i] == t {
            return true;
        }
        i = i + 1;
    }
    false
}

impl<E: ActionExecutor> ActionRegistry<E> {
    /// The registered executors, in registration order.
    pub closed spec fn executors_spec(&self) -> Seq<E> {
        self.executors@
    }

    /// The supported set of each registered executor, in registration order.
    pub open spec fn supported_sets(&self) -> Seq<Seq<ActionType>> {
        self.executors_spec().map_values(|e: E| e.supported_spec())
    }

    /// An empty registry.
    pub fn new() -> (r: Self)
        ensures
            r.supported_sets() == Seq::<Seq<ActionType>>::empty(),
    {
        let r = ActionRegistry { executors: Vec::new() };
        proof {
            assert(r.supported_sets() =~= Seq::<Seq<ActionType>>::empty());
        }
        r
    }

    /// Appends an executor; ownership transfers to the registry.
    pub fn register(&mut self, executor: E)
        ensures
            final(self).supported_sets() == old(self).supported_sets().push(
                executor.supported_spec(),
            ),
    {
        self.executors.push(executor);
        proof {
            assert(self.supported_sets() =~= old(self).supported_sets().push(
                executor.supported_spec(),
            ));
        }
    }

    /// The executor at a registration index, for inspection.
    pub fn executor_at(&self, i: usize) -> (e: &E)
        requires
            i < self.supported_sets().len(),
        ensures
            *e == self.executors_spec()[i as int],
            e.supported_spec() == self.supported_sets()[i as int],
    {
        &self.executors[i]
    }

    /// True when `executor` lists the discriminant of `action`.
    fn can_execute(&self, action: &TaskAction, executor: &E) -> (r: bool)
        ensures
            r == executor.supported_spec().contains(action@.action_type()),
    {
        let supported = executor.supported_actions();
        contains_action(&supported, action.action_type())
    }

    /// True exactly when some registered executor lists the discriminant of
    /// `action`.
    pub fn has_executor_for(&self, action: &TaskAction) -> (r: bool)
        ensures
            r == spec_has_executor_for(self.supported_sets(), action@.action_type()),
    {
        let ghost t = action@.action_type();
        let mut i: usize = 0;
        while i < self.executors.len()
            invariant
                0 <= i <= self.executors@.len(),
                t == action@.action_type(),
                forall|k: int| 0 <= k < i ==> !#[trigger] self.supported_sets()[k].contains(t),
            decreases self.executors@.len() - i,
        {
            let supports = self.can_execute(action, &self.executors[i]);
            proof {
                assert(self.supported_sets()[i as int] == self.executors@[i as int
                ].supported_spec());
            }
            if supports {
                return true;
            }
            i = i + 1;
        }
        false
    }

    /// Delegates the task's action to the first registered executor whose
    /// supported set contains its discriminant, invoking that executor alone,
    /// and returns that call's result. Fails with `ActionMissing` when the
    /// task has no action, and with `RegistryActionNotFound` when no
    /// registered executor supports the discriminant; on either failure the
    /// registry is untouched.
    pub fn execute(&mut self, task: &Task) -> (r: Result<(), SchedulerError>)
        ensures
            final(self).supported_sets() == old(self).supported_sets(),
            final(self).executors_spec().len() == old(self).executors_spec().len(),
            task@.action is None ==> ((r matches Err(e) && e == SchedulerError::ActionMissing(
                task@.id,
            )) && final(self).executors_spec() == old(self).executors_spec()),
            (task@.action matches Some(a) && !spec_has_executor_for(
                old(self).supported_sets(),
                a.action_type(),
            )) ==> ((r matches Err(e) && e == SchedulerError::RegistryActionNotFound)
                && final(self).executors_spec() == old(self).executors_spec()),
            (task@.action is Some && spec_has_executor_for(
                old(self).supported_sets(),
                task@.action->Some_0.action_type(),
            )) ==> exists|j: int|
                #[trigger] spec_first_supporting(
                    old(self).supported_sets(),
                    task@.action->Some_0.action_type(),
                    j,
                ) && forall|k: int|
                    0 <= k < old(self).executors_spec().len() && k != j
                        ==> final(self).executors_spec()[k] == old(self).executors_spec()[k],
    {
        let action = match &task.action {
            Some(a) => a,
            None => {
                return Err(SchedulerError::ActionMissing(task.id));
            },
        };
        let ghost t = action@.action_type();
        let ghost sets0 = self.supported_sets();
        let mut i: usize = 0;
        while i < self.executors.len()
            invariant
                0 <= i <= self.executors@.len(),
                self.supported_sets() == sets0,
                sets0 == old(self).supported_sets(),
                self.executors@ == old(self).executors_spec(),
                t == action@.action_type(),
                task@.action matches Some(a) && a.action_type() == t,
                forall|k: int| 0 <= k < i ==> !#[trigger] sets0[k].contains(t),
            decreases self.executors@.len() - i,
        {
            let supports = self.can_execute(action, &self.executors[i]);
            proof {
                assert(sets0[i as int] == self.executors@[i as int].supported_spec());
            }
            if supports {
                proof {
                    assert(sets0[i as int].contains(t));
                }
                let ghost prev = self.executors@;
                let r = self.executors[i].execute(task, action);
                proof {
                    assert forall|k: int| 0 <= k < sets0.len() implies self.supported_sets()[k]
                        == sets0[k] by {
                        assert(self.supported_sets()[k] == self.executors@[k].supported_spec());
                        if k != i as int {
                            assert(self.executors@[k] == prev[k]);
                        } else {
                            assert(self.executors@[k].supported_spec() == prev[k
                            ].supported_spec());
                        }
                    }
                    assert(self.supported_sets() =~= sets0);
                    assert(spec_first_supporting(sets0, t, i as int));
                    assert forall|k: int| 0 <= k < prev.len() && k != i as int implies self
                        .executors@[k] == prev[k] by {}
                }
                return r;
            }
            i = i + 1;
        }
        Err(SchedulerError::RegistryActionNotFound)
    }
}

impl<E: ActionExecutor> Default for ActionRegistry<E> {
    /// The same registry [`ActionRegistry::new`] gives.
    fn default() -> (r: Self)
        ensures
            r.supported_sets() == Seq::<Seq<ActionType>>::empty(),
    {
        ActionRegistry::new()
    }
}

} // verus!
