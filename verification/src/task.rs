//! The task entity: identity, schedule, retry bookkeeping and action.

use vstd::prelude::*;
use vstd::arithmetic::power2::{pow2, lemma_pow2_unfold, lemma_pow2_strictly_increases};
use crate::action::{ActionSpec, TaskAction};
use crate::{Millis, TaskId};

verus! {

/// The step of a `Range` schedule when the task sets none of its own.
pub const MILLIS_PER_DAY: i64 = 86400000;

/// Attempts allowed per activation when the task sets no bound of its own.
pub const DEFAULT_MAX_RETRIES: u32 = 3;

/// Base backoff in milliseconds when the task sets none of its own.
pub const DEFAULT_RETRY_DELAY: u64 = 1000;

/// A task's schedule: a single activation, or repeated activations from
/// `start_date` up to and including `end_date`.
#[derive(Clone, Copy, Debug, PartialEq, Eq, Structural)]
pub enum TaskType {
    Once,
    Range { start_date: Millis, end_date: Millis },
}

/// A schedulable task.
#[derive(Debug, PartialEq)]
pub struct Task {
    pub id: TaskId,
    pub next_run: Millis,
    pub last_run: Option<Millis>,
    pub enabled: bool,
    pub retry_count: u32,
    pub max_retries: u32,
    pub retry_delay: u64,
    pub schedule: TaskType,
    pub action: Option<TaskAction>,
    pub delay_between_runs: Option<Millis>,
}

/// The mathematical model of a [`Task`].
#[verifier::ext_equal]
pub ghost struct TaskSpec {
    pub id: TaskId,
    pub next_run: Millis,
    pub last_run: Option<Millis>,
    pub enabled: bool,
    pub retry_count: u32,
    pub max_retries: u32,
    pub retry_delay: u64,
    pub schedule: TaskType,
    pub action: Option<ActionSpec>,
    pub delay_between_runs: Option<Millis>,
}

impl View for Task {
    type V = TaskSpec;

    open spec fn view(&self) -> TaskSpec {
        TaskSpec {
            id: self.id,
            next_run: self.next_run,
            last_run: self.last_run,
            enabled: self.enabled,
            retry_count: self.retry_count,
            max_retries: self.max_retries,
            retry_delay: self.retry_delay,
            schedule: self.schedule,
            action: match &self.action {
                Some(a) => Some(a@),
                None => None,
            },
            delay_between_runs: self.delay_between_runs,
        }
    }
}

impl Clone for Task {
    /// Cloning keeps the task's model.
    fn clone(&self) -> (r: Self)
        ensures
            r@ == self@,
    {
        Task {
            id: self.id,
            next_run: self.next_run,
            last_run: self.last_run,
            enabled: self.enabled,
            retry_count: self.retry_count,
            max_retries: self.max_retries,
            retry_delay: self.retry_delay,
            schedule: self.schedule,
            action: match &self.action {
                Some(a) => Some(a.clone()),
                None => None,
            },
            delay_between_runs: self.delay_between_runs,
        }
    }
}

/// Relies on `uuid::Uuid::new_v4` and `uuid::Uuid::as_u128`: a freshly
/// generated random UUID as its 128-bit value. Nothing is promised of the
/// value; it is random.
#[verifier::external_body]
fn fresh_task_id() -> TaskId {
    uuid::Uuid::new_v4().as_u128()
}

/// The step a task's `Range` schedule advances by: the task's own
/// `delay_between_runs`, or one day.
pub open spec fn spec_step(t: TaskSpec) -> Millis {
    match t.delay_between_runs {
        Some(d) => d,
        None => MILLIS_PER_DAY,
    }
}

/// True when advancing the schedule stays within the machine's integers.
pub open spec fn step_in_bounds(t: TaskSpec) -> bool {
    t.schedule is Range ==> i64::MIN <= t.next_run + spec_step(t) <= i64::MAX
}

/// How a completed activation advances the schedule: a `Once` task disables
/// itself; a `Range` task moves `next_run` forward by the step, or disables
/// itself when the proposed instant would pass `end_date`.
pub open spec fn spec_calculate_next_run(t: TaskSpec) -> TaskSpec {
    match t.schedule {
        TaskType::Once => TaskSpec { enabled: false, ..t },
        TaskType::Range { start_date, end_date } => {
            let candidate = t.next_run + spec_step(t);
            if candidate <= end_date {
                TaskSpec { next_run: candidate as Millis, ..t }
            } else {
                TaskSpec { enabled: false, ..t }
            }
        },
    }
}

/// The exponential backoff before the next attempt: the base delay doubled
/// once per retry already counted.
pub open spec fn spec_retry_delay(t: TaskSpec) -> nat {
    (t.retry_delay * pow2(t.retry_count as nat)) as nat
}

/// True when every backoff the task may reach fits in a `u64`.
pub open spec fn backoff_in_bounds(t: TaskSpec) -> bool {
    forall|n: nat| n <= t.max_retries ==> #[trigger] pow2(n) <= u64::MAX && t.retry_delay * pow2(n)
        <= u64::MAX
}

/// A task as a completed activation leaves it: the attempt counter cleared,
/// the completion instant recorded, and the schedule advanced.
pub open spec fn spec_completed_task(t: TaskSpec, now: Millis) -> TaskSpec {
    spec_calculate_next_run(TaskSpec { retry_count: 0, last_run: Some(now), ..t })
}

/// Two raised to the power `e`.
fn pow2_u64(e: u32) -> (r: u64)
    requires
        pow2(e as nat) <= u64::MAX,
    ensures
        r == pow2(e as nat),
{
    proof {
        vstd::arithmetic::power2::lemma2_to64();
    }
    let mut r: u64 = 1;
    let mut i: u32 = 0;
    while i < e
        invariant
            i <= e,
            r == pow2(i as nat),
            pow2(e as nat) <= u64::MAX,
        decreases e - i,
    {
        proof {
            let ni = (i + 1) as nat;
            let ne = e as nat;
            lemma_pow2_unfold(ni);
            if ni < ne {
                lemma_pow2_strictly_increases(ni, ne);
            }
        }
        r = r * 2;
        i = i + 1;
    }
    r
}

impl Task {
    /// A single-shot task activating at `next_run`, with a fresh id and the
    /// default retry configuration.
    pub fn new_with_datetime(next_run: Millis, action: TaskAction) -> (t: Task)
        ensures
            t@ == (TaskSpec {
                id: t@.id,
                next_run: next_run,
                last_run: None,
                enabled: true,
                retry_count: 0,
                max_retries: DEFAULT_MAX_RETRIES,
                retry_delay: DEFAULT_RETRY_DELAY,
                schedule: TaskType::Once,
                action: Some(action@),
                delay_between_runs: None,
            }),
    {
        Task {
            id: fresh_task_id(),
            next_run,
            last_run: None,
            enabled: true,
            retry_count: 0,
            max_retries: DEFAULT_MAX_RETRIES,
            retry_delay: DEFAULT_RETRY_DELAY,
            schedule: TaskType::Once,
            action: Some(action),
            delay_between_runs: None,
        }
    }

    /// A repeating task activating from `start_date` up to and including
    /// `end_date`, with a fresh id and the default retry configuration.
    pub fn new_with_datetime_range(start_date: Millis, end_date: Millis, action: TaskAction) -> (t:
        Task)
        requires
            start_date <= end_date,
        ensures
            t@ == (TaskSpec {
                id: t@.id,
                next_run: start_date,
                last_run: None,
                enabled: true,
                retry_count: 0,
                max_retries: DEFAULT_MAX_RETRIES,
                retry_delay: DEFAULT_RETRY_DELAY,
                schedule: TaskType::Range { start_date, end_date },
                action: Some(action@),
                delay_between_runs: None,
            }),
    {
        Task {
            id: fresh_task_id(),
            next_run: start_date,
            last_run: None,
            enabled: true,
            retry_count: 0,
            max_retries: DEFAULT_MAX_RETRIES,
            retry_delay: DEFAULT_RETRY_DELAY,
            schedule: TaskType::Range { start_date, end_date },
            action: Some(action),
            delay_between_runs: None,
        }
    }

    /// Sets the bound on attempts per activation.
    pub fn with_max_retries(self, max_retries: u32) -> (t: Task)
        ensures
            t@ == (TaskSpec { max_retries, ..self@ }),
    {
        Task { max_retries, ..self }
    }

    /// Sets the base backoff duration in milliseconds.
    pub fn with_retry_delay(self, retry_delay: u64) -> (t: Task)
        ensures
            t@ == (TaskSpec { retry_delay, ..self@ }),
    {
        Task { retry_delay, ..self }
    }

    /// Sets the step of a `Range` schedule, in milliseconds.
    pub fn with_delay_between_runs(self, delay: Millis) -> (t: Task)
        ensures
            t@ == (TaskSpec { delay_between_runs: Some(delay), ..self@ }),
    {
        Task { delay_between_runs: Some(delay), ..self }
    }

    /// Advances the schedule after a completed activation, as
    /// [`spec_calculate_next_run`] says.
    pub fn calculate_next_run(&mut self)
        requires
            step_in_bounds(old(self)@),
        ensures
            final(self)@ == spec_calculate_next_run(old(self)@),
    {
        match self.schedule {
            TaskType::Range { start_date: _, end_date } => {
                let step = match self.delay_between_runs {
                    Some(d) => d,
                    None => MILLIS_PER_DAY,
                };
                let candidate = self.next_run + step;
                if candidate <= end_date {
                    self.next_run = candidate;
                } else {
                    self.enabled = false;
                }
            },
            TaskType::Once => {
                self.enabled = false;
            },
        }
    }

    /// The backoff before the next attempt, as [`spec_retry_delay`] says.
    pub fn calcluate_retry_delay(&self) -> (d: u64)
        requires
            pow2(self@.retry_count as nat) <= u64::MAX,
            self@.retry_delay * pow2(self@.retry_count as nat) <= u64::MAX,
        ensures
            d == spec_retry_delay(self@),
    {
        let multiplier = pow2_u64(self.retry_count);
        self.retry_delay * multiplier
    }

    /// True while attempts within the current activation remain.
    pub fn should_retry(&self) -> (r: bool)
        ensures
            r == (self@.retry_count < self@.max_retries),
    {
        self.retry_count < self.max_retries
    }

    /// Clears the attempt counter on completion of an activation.
    pub fn reset_retry_count(&mut self)
        ensures
            final(self)@ == (TaskSpec { retry_count: 0, ..old(self)@ }),
    {
        self.retry_count = 0;
    }
}

impl Default for Task {
    /// A single-shot, enabled task with a fresh id, activating now, with the
    /// default retry configuration and no action.
    fn default() -> (t: Task)
        ensures
            t@ == (TaskSpec {
                id: t@.id,
                next_run: t@.next_run,
                last_run: None,
                enabled: true,
                retry_count: 0,
                max_retries: DEFAULT_MAX_RETRIES,
                retry_delay: DEFAULT_RETRY_DELAY,
                schedule: TaskType::Once,
                action: None,
                delay_between_runs: None,
            }),
    {
        Task {
            id: fresh_task_id(),
            next_run: crate::clock::now_millis(),
            last_run: None,
            enabled: true,
            retry_count: 0,
            max_retries: DEFAULT_MAX_RETRIES,
            retry_delay: DEFAULT_RETRY_DELAY,
            schedule: TaskType::Once,
            action: None,
            delay_between_runs: None,
        }
    }
}

/// Law: a `Range` task within its window either moves its activation instant
/// forward by exactly the step, staying inside `[start_date, end_date]`, or
/// is disabled exactly when the proposed instant would pass `end_date`.
pub proof fn lemma_range_progression(t: TaskSpec, start_date: Millis, end_date: Millis)
    requires
        t.schedule == (TaskType::Range { start_date, end_date }),
        start_date <= t.next_run <= end_date,
        spec_step(t) >= 0,
        step_in_bounds(t),
    ensures
        t.next_run + spec_step(t) <= end_date ==> {
            let t2 = spec_calculate_next_run(t);
            &&& t2.enabled == t.enabled
            &&& t2.next_run == t.next_run + spec_step(t)
            &&& start_date <= t2.next_run <= end_date
        },
        t.next_run + spec_step(t) > end_date ==> {
            let t2 = spec_calculate_next_run(t);
            &&& !t2.enabled
            &&& t2.next_run == t.next_run
        },
{
}

} // verus!
