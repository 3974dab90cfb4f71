//! The store row form of a task, and the conversions to and from it.
//!
//! Temporal columns hold whole seconds, so persisting truncates instants to
//! the second. The schedule variant becomes a small integer discriminant, and
//! the action becomes its self-describing wire value.

use vstd::prelude::*;
use vstd::arithmetic::div_mod::lemma_fundamental_div_mod;
use crate::action_value::{spec_decode_action, spec_encode_action, ActionValue, ActionValueSpec};
use crate::error::SchedulerError;
use crate::action::TaskAction;
use crate::task::{Task, TaskSpec, TaskType};
use crate::{Millis, TaskId};

verus! {

/// Discriminant of a single-shot schedule in the store.
pub const SCHEDULE_TYPE_ONCE: i16 = 1;

/// Discriminant of a range schedule in the store.
pub const SCHEDULE_TYPE_RANGE: i16 = 2;

/// A task as the store's `tasks` table holds it. Temporal columns are whole
/// seconds since the Unix epoch.
#[derive(Debug, PartialEq)]
pub struct TaskDb {
    pub id: TaskId,
    pub schedule_type: i16,
    pub last_run: Option<i64>,
    pub next_run: i64,
    pub retry_count: i32,
    pub max_retries: i32,
    pub retry_delay: i32,
    pub enabled: bool,
    pub action: ActionValue,
    pub start_date: Option<i64>,
    pub end_date: Option<i64>,
}

/// The mathematical model of a [`TaskDb`].
#[verifier::ext_equal]
pub ghost struct TaskDbSpec {
    pub id: TaskId,
    pub schedule_type: i16,
    pub last_run: Option<i64>,
    pub next_run: i64,
    pub retry_count: i32,
    pub max_retries: i32,
    pub retry_delay: i32,
    pub enabled: bool,
    pub action: ActionValueSpec,
    pub start_date: Option<i64>,
    pub end_date: Option<i64>,
}

impl View for TaskDb {
    type V = TaskDbSpec;

    open spec fn view(&self) -> TaskDbSpec {
        TaskDbSpec {
            id: self.id,
            schedule_type: self.schedule_type,
            last_run: self.last_run,
            next_run: self.next_run,
            retry_count: self.retry_count,
            max_retries: self.max_retries,
            retry_delay: self.retry_delay,
            enabled: self.enabled,
            action: self.action@,
            start_date: self.start_date,
            end_date: self.end_date,
        }
    }
}

/// An instant truncated to the second it falls in.
pub open spec fn spec_millis_to_secs(ms: Millis) -> i64 {
    (ms as int / 1000) as i64
}

/// True when a seconds column can be widened back to milliseconds.
pub open spec fn secs_fit(s: i64) -> bool {
    i64::MIN <= s * 1000 <= i64::MAX
}

fn millis_to_secs(ms: Millis) -> (s: i64)
    ensures
        s == spec_millis_to_secs(ms),
{
    proof {
        lemma_fundamental_div_mod(ms as int, 1000);
    }
    match ms.checked_div_euclid(1000) {
        Some(s) => s,
        None => 0,
    }
}

/// The store discriminant of a schedule variant.
pub open spec fn spec_schedule_type(s: TaskType) -> i16 {
    match s {
        TaskType::Once => SCHEDULE_TYPE_ONCE,
        TaskType::Range { .. } => SCHEDULE_TYPE_RANGE,
    }
}

/// The row a task with an action persists to.
pub open spec fn spec_to_db(t: TaskSpec, a: crate::action::ActionSpec) -> TaskDbSpec {
    TaskDbSpec {
        id: t.id,
        schedule_type: spec_schedule_type(t.schedule),
        last_run: match t.last_run {
            Some(m) => Some(spec_millis_to_secs(m)),
            None => None,
        },
        next_run: spec_millis_to_secs(t.next_run),
        retry_count: t.retry_count as i32,
        max_retries: t.max_retries as i32,
        retry_delay: t.retry_delay as i32,
        enabled: t.enabled,
        action: spec_encode_action(a),
        start_date: match t.schedule {
            TaskType::Range { start_date, .. } => Some(spec_millis_to_secs(start_date)),
            TaskType::Once => None,
        },
        end_date: match t.schedule {
            TaskType::Range { end_date, .. } => Some(spec_millis_to_secs(end_date)),
            TaskType::Once => None,
        },
    }
}

/// True when a row's shape is acceptable: a known schedule discriminant, and
/// both endpoints present for a range schedule.
pub open spec fn spec_db_shape_ok(d: TaskDbSpec) -> bool {
    &&& (d.schedule_type == SCHEDULE_TYPE_ONCE || d.schedule_type == SCHEDULE_TYPE_RANGE)
    &&& (d.schedule_type == SCHEDULE_TYPE_RANGE ==> d.start_date is Some && d.end_date is Some)
}

/// The task a row de-serializes to, or `None` when the row must be rejected:
/// an unknown schedule discriminant, a range schedule missing an endpoint, or
/// an action that does not decode.
pub open spec fn spec_from_db(d: TaskDbSpec) -> Option<TaskSpec> {
    if !spec_db_shape_ok(d) {
        None
    } else {
        match spec_decode_action(d.action) {
            None => None,
            Some(a) => Some(
                TaskSpec {
                    id: d.id,
                    next_run: (d.next_run * 1000) as Millis,
                    last_run: match d.last_run {
                        Some(s) => Some((s * 1000) as Millis),
                        None => None,
                    },
                    enabled: d.enabled,
                    retry_count: d.retry_count as u32,
                    max_retries: d.max_retries as u32,
                    retry_delay: d.retry_delay as u64,
                    schedule: if d.schedule_type == SCHEDULE_TYPE_ONCE {
                        TaskType::Once
                    } else {
                        TaskType::Range {
                            start_date: (d.start_date->Some_0 * 1000) as Millis,
                            end_date: (d.end_date->Some_0 * 1000) as Millis,
                        }
                    },
                    action: Some(a),
                    delay_between_runs: None,
                },
            ),
        }
    }
}

/// True when a row's counters are the non-negative values the data model
/// gives them.
pub open spec fn spec_db_counters_ok(d: TaskDbSpec) -> bool {
    d.retry_count >= 0 && d.max_retries >= 0 && d.retry_delay >= 0
}

/// True when a row's temporal columns can be widened back to milliseconds.
pub open spec fn spec_db_times_fit(d: TaskDbSpec) -> bool {
    &&& secs_fit(d.next_run)
    &&& (d.last_run matches Some(s) ==> secs_fit(s))
    &&& (d.start_date matches Some(s) ==> secs_fit(s))
    &&& (d.end_date matches Some(s) ==> secs_fit(s))
}

impl Task {
    /// The row the task persists to. Fails with `ActionMissing` exactly when
    /// the task has no action.
    pub fn to_db_task(&self) -> (r: Result<TaskDb, SchedulerError>)
        requires
            self@.retry_count <= i32::MAX,
            self@.max_retries <= i32::MAX,
            self@.retry_delay <= i32::MAX,
        ensures
            match self@.action {
                Some(a) => r matches Ok(db) && db@ == spec_to_db(self@, a),
                None => r matches Err(e) && e == SchedulerError::ActionMissing(self@.id),
            },
    {
        let action = match &self.action {
            Some(a) => a,
            None => {
                return Err(SchedulerError::ActionMissing(self.id));
            },
        };
        let (start_date, end_date) = match self.schedule {
            TaskType::Range { start_date, end_date } => (
                Some(millis_to_secs(start_date)),
                Some(millis_to_secs(end_date)),
            ),
            TaskType::Once => (None, None),
        };
        let db = TaskDb {
            id: self.id,
            schedule_type: match self.schedule {
                TaskType::Once => SCHEDULE_TYPE_ONCE,
                TaskType::Range { .. } => SCHEDULE_TYPE_RANGE,
            },
            last_run: match self.last_run {
                Some(m) => Some(millis_to_secs(m)),
                None => None,
            },
            next_run: millis_to_secs(self.next_run),
            retry_count: self.retry_count as i32,
            max_retries: self.max_retries as i32,
            retry_delay: self.retry_delay as i32,
            enabled: self.enabled,
            action: action.encode(),
            start_date,
            end_date,
        };
        proof {
            assert(db@ =~= spec_to_db(self@, self@.action->Some_0));
        }
        Ok(db)
    }

    /// The task a row de-serializes to, as [`spec_from_db`] says. Rejects an
    /// unknown schedule discriminant and a range schedule missing an endpoint
    /// with `DatabaseError`, and an undecodable action with `SerdeError`.
    pub fn from_db_task(db_task: TaskDb) -> (r: Result<Task, SchedulerError>)
        requires
            spec_db_counters_ok(db_task@),
            spec_db_times_fit(db_task@),
        ensures
            match spec_from_db(db_task@) {
                Some(ts) => r matches Ok(t) && t@ == ts,
                None => r is Err,
            },
            !spec_db_shape_ok(db_task@) ==> (r matches Err(e) && e is DatabaseError),
            spec_db_shape_ok(db_task@) && spec_decode_action(db_task@.action) is None ==> (
            r matches Err(e) && e is SerdeError),
    {
        let schedule = if db_task.schedule_type == SCHEDULE_TYPE_ONCE {
            TaskType::Once
        } else if db_task.schedule_type == SCHEDULE_TYPE_RANGE {
            let start_date = match db_task.start_date {
                Some(s) => s,
                None => {
                    return Err(
                        SchedulerError::DatabaseError(
                            "Missing start_date for Range task".to_owned(),
                        ),
                    );
                },
            };
            let end_date = match db_task.end_date {
                Some(s) => s,
                None => {
                    return Err(
                        SchedulerError::DatabaseError("Missing end_date for Range task".to_owned()),
                    );
                },
            };
            TaskType::Range { start_date: start_date * 1000, end_date: end_date * 1000 }
        } else {
            return Err(SchedulerError::DatabaseError("Invalid schedule type".to_owned()));
        };
        let action = match TaskAction::decode(&db_task.action) {
            Ok(a) => a,
            Err(e) => {
                return Err(e);
            },
        };
        Ok(
            Task {
                id: db_task.id,
                next_run: db_task.next_run * 1000,
                last_run: match db_task.last_run {
                    Some(s) => Some(s * 1000),
                    None => None,
                },
                enabled: db_task.enabled,
                retry_count: db_task.retry_count as u32,
                max_retries: db_task.max_retries as u32,
                retry_delay: db_task.retry_delay as u64,
                schedule,
                action: Some(action),
                delay_between_runs: None,
            },
        )
    }
}

/// True when an instant lies on a whole second, the resolution the store keeps.
pub open spec fn on_second(ms: Millis) -> bool {
    ms % 1000 == 0
}

proof fn lemma_secs_round_trip(ms: Millis)
    requires
        on_second(ms),
    ensures
        spec_millis_to_secs(ms) * 1000 == ms,
        secs_fit(spec_millis_to_secs(ms)),
{
    lemma_fundamental_div_mod(ms as int, 1000);
}

/// Law: persisting a task and reading the row back yields the task unchanged,
/// for any task the store can hold exactly: one with an action, counters
/// within the row's integer columns, instants on whole seconds, and no step
/// of its own (the row has no column for a step).
pub proof fn lemma_db_round_trip(t: TaskSpec, a: crate::action::ActionSpec)
    requires
        t.action == Some(a),
        t.retry_count <= i32::MAX,
        t.max_retries <= i32::MAX,
        t.retry_delay <= i32::MAX,
        on_second(t.next_run),
        t.last_run matches Some(m) ==> on_second(m),
        t.schedule matches TaskType::Range { start_date, end_date } ==> on_second(start_date)
            && on_second(end_date),
        t.delay_between_runs is None,
    ensures
        spec_from_db(spec_to_db(t, a)) == Some(t),
{
    let d = spec_to_db(t, a);
    crate::action_value::lemma_action_codec_round_trip(a);
    lemma_secs_round_trip(t.next_run);
    match t.last_run {
        Some(m) => lemma_secs_round_trip(m),
        None => {},
    }
    match t.schedule {
        TaskType::Range { start_date, end_date } => {
            lemma_secs_round_trip(start_date);
            lemma_secs_round_trip(end_date);
        },
        TaskType::Once => {},
    }
    assert(spec_from_db(d) matches Some(t2) && t2 =~= t);
}

} // verus!
