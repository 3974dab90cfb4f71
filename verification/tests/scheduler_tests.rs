use scheduler::action::TaskAction;
use scheduler::action_executor::{CountingExecutor, LogExecutor};
use scheduler::action_registry::ActionRegistry;
use scheduler::base_storage::Storage;
use scheduler::error::SchedulerError;
use scheduler::in_memory_storage::InMemoryStorage;
use scheduler::task::{Task, TaskType};
use scheduler::task_scheduler::TaskScheduler;

const NOW: i64 = 1_700_000_000_000;
const DAY: i64 = 86_400_000;

fn log_action() -> TaskAction {
    TaskAction::Log {
        message: "Test task".to_string(),
        level: "info".to_string(),
    }
}

fn run_tasks_count<S: Storage>(storage: &S) -> usize {
    storage
        .get_all_tasks()
        .unwrap()
        .iter()
        .filter(|t| t.last_run.is_some())
        .count()
}

fn counting_scheduler(
    fail_until: u64,
) -> TaskScheduler<InMemoryStorage, CountingExecutor> {
    let storage = InMemoryStorage::new();
    let mut registry = ActionRegistry::new();
    registry.register(CountingExecutor::new(fail_until));
    TaskScheduler::new(storage, registry).with_check_interval(50)
}

#[test]
fn test_add_and_execute_task() {
    let storage = InMemoryStorage::new();
    let mut registry = ActionRegistry::new();
    registry.register(LogExecutor::new());
    let mut sched = TaskScheduler::new(storage, registry).with_check_interval(50);
    let next_run = NOW + 10;

    sched
        .add_task(Task::new_with_datetime(next_run, log_action()))
        .unwrap();

    assert_eq!(run_tasks_count(sched.storage()), 0);

    sched.start().unwrap();
    sched.tick_at(NOW + 100);

    assert_eq!(run_tasks_count(sched.storage()), 1);
}

#[test]
fn test_retry_task_on_failure() {
    let mut sched = counting_scheduler(3);
    let next_run = NOW + 10;

    let id = sched
        .add_task(
            Task::new_with_datetime(next_run, TaskAction::Log {
                message: "Test retry task".to_string(),
                level: "info".to_string(),
            })
            .with_max_retries(3)
            .with_retry_delay(10),
        )
        .unwrap();

    assert_eq!(run_tasks_count(sched.storage()), 0);

    sched.start().unwrap();
    let reports = sched.tick_at(NOW + 300);
    assert_eq!(reports.len(), 1);
    assert_eq!(reports[0].attempts, 3);
    assert_eq!(reports[0].slept, vec![20, 40]);
    assert!(reports[0].succeeded);

    assert_eq!(run_tasks_count(sched.storage()), 1);
    assert_eq!(sched.registry().executor_at(0).calls, 3);

    let done = sched.storage().get_task(id).unwrap().unwrap();
    assert_eq!(done.retry_count, 0);
    assert!(done.last_run.is_some());
}

#[test]
fn test_execute_unfinished_tasks_on_startup() {
    let storage = InMemoryStorage::new();
    let mut registry = ActionRegistry::new();
    registry.register(LogExecutor::new());
    let mut sched = TaskScheduler::new(storage, registry).with_check_interval(50);
    let next_run = NOW - DAY;

    let id = sched
        .add_task(Task::new_with_datetime(next_run, TaskAction::Log {
            message: "Test startup task".to_string(),
            level: "info".to_string(),
        }))
        .unwrap();

    assert_eq!(run_tasks_count(sched.storage()), 0);

    sched.start().unwrap();
    sched.tick_at(NOW);

    assert_eq!(run_tasks_count(sched.storage()), 1);
    let done = sched.storage().get_task(id).unwrap().unwrap();
    assert!(done.last_run.is_some());
    assert!(!done.enabled);
}

#[test]
fn test_do_not_execute_disabled_tasks() {
    let mut storage = InMemoryStorage::new();
    storage
        .save_task(Task {
            id: 42,
            schedule: TaskType::Once,
            next_run: NOW - DAY,
            last_run: None,
            retry_count: 0,
            max_retries: 3,
            retry_delay: 10,
            enabled: false,
            action: Some(TaskAction::Log {
                message: "Disabled task".to_string(),
                level: "info".to_string(),
            }),
            delay_between_runs: None,
        })
        .unwrap();

    let mut registry = ActionRegistry::new();
    registry.register(LogExecutor::new());
    let mut sched = TaskScheduler::new(storage, registry).with_check_interval(50);

    assert_eq!(run_tasks_count(sched.storage()), 0);

    sched.start().unwrap();
    sched.tick_at(NOW);

    assert_eq!(run_tasks_count(sched.storage()), 0);
}

#[test]
fn test_once_immediate() {
    let mut sched = counting_scheduler(0);
    let id = sched
        .add_task(Task::new_with_datetime(NOW, TaskAction::Log {
            message: "hello".to_string(),
            level: "info".to_string(),
        }))
        .unwrap();

    sched.start().unwrap();
    let reports = sched.tick_at(NOW + 100);
    assert_eq!(reports.len(), 1);
    assert_eq!(reports[0].id, id);
    assert_eq!(reports[0].attempts, 1);
    assert!(reports[0].succeeded);

    let done = sched.storage().get_task(id).unwrap().unwrap();
    assert!(done.last_run.is_some());
    assert_eq!(sched.registry().executor_at(0).calls, 1);

    // a completed single-shot task is disabled and never dispatched again
    sched.tick_at(NOW + 200);
    assert_eq!(sched.registry().executor_at(0).calls, 1);
}

#[test]
fn test_past_due_picked_up_on_first_poll() {
    let mut sched = counting_scheduler(0);
    sched
        .add_task(Task::new_with_datetime(NOW - 5_000, log_action()))
        .unwrap();
    sched.start().unwrap();
    sched.tick_at(NOW);
    assert_eq!(sched.registry().executor_at(0).calls, 1);
}

#[test]
fn test_range_progression() {
    let mut sched = counting_scheduler(0);
    let id = sched
        .add_task(
            Task::new_with_datetime_range(NOW, NOW + 2 * DAY, log_action())
                .with_delay_between_runs(DAY),
        )
        .unwrap();
    sched.start().unwrap();

    sched.tick_at(NOW);
    let t = sched.storage().get_task(id).unwrap().unwrap();
    assert_eq!(sched.registry().executor_at(0).calls, 1);
    assert_eq!(t.next_run, NOW + DAY);
    assert!(t.enabled);

    sched.tick_at(NOW + DAY);
    let t = sched.storage().get_task(id).unwrap().unwrap();
    assert_eq!(sched.registry().executor_at(0).calls, 2);
    assert_eq!(t.next_run, NOW + 2 * DAY);
    assert!(t.enabled);

    sched.tick_at(NOW + 2 * DAY);
    let t = sched.storage().get_task(id).unwrap().unwrap();
    assert_eq!(sched.registry().executor_at(0).calls, 3);
    assert_eq!(t.next_run, NOW + 2 * DAY);
    assert!(!t.enabled);

    sched.tick_at(NOW + 3 * DAY);
    assert_eq!(sched.registry().executor_at(0).calls, 3);
}

#[test]
fn test_no_double_dispatch() {
    let mut sched = counting_scheduler(0);
    sched
        .add_task(Task::new_with_datetime(NOW - 10, log_action()))
        .unwrap();
    sched.start().unwrap();

    let ready1 = sched.storage().get_ready_tasks_at(NOW).unwrap();
    assert_eq!(ready1.len(), 1);
    let d1 = sched.select_dispatch(ready1);
    assert_eq!(d1.len(), 1);

    // while the first activation is in flight the task still looks ready,
    // but it is held back as already in flight
    let ready2 = sched.storage().get_ready_tasks_at(NOW + 50).unwrap();
    assert_eq!(ready2.len(), 1);
    let d2 = sched.select_dispatch(ready2);
    assert_eq!(d2.len(), 0);

    for t in d1 {
        sched.execute_task_with_retry(t, NOW + 200);
    }
    assert_eq!(sched.registry().executor_at(0).calls, 1);
}

#[test]
fn test_start_twice_fails() {
    let mut sched = counting_scheduler(0);
    assert!(sched.start().is_ok());
    assert_eq!(sched.start().unwrap_err(), SchedulerError::AlreadyRunning);
}

#[test]
fn test_stop_without_start_fails() {
    let mut sched = counting_scheduler(0);
    assert_eq!(sched.stop().unwrap_err(), SchedulerError::NotRunning);
    assert!(sched.start().is_ok());
    assert!(sched.stop().is_ok());
    assert_eq!(sched.stop().unwrap_err(), SchedulerError::NotRunning);
}

#[test]
fn test_stopped_scheduler_does_not_dispatch() {
    let mut sched = counting_scheduler(0);
    sched
        .add_task(Task::new_with_datetime(NOW - 10, log_action()))
        .unwrap();
    sched.start().unwrap();
    sched.stop().unwrap();
    let reports = sched.tick_at(NOW);
    assert_eq!(reports.len(), 0);
    assert_eq!(sched.registry().executor_at(0).calls, 0);
}

#[test]
fn test_add_task_without_action_fails() {
    let mut sched = counting_scheduler(0);
    let task = Task::default();
    let id = task.id;
    assert_eq!(
        sched.add_task(task).unwrap_err(),
        SchedulerError::ActionMissing(id)
    );
}

#[test]
fn test_add_task_without_executor_fails() {
    let storage = InMemoryStorage::new();
    let registry: ActionRegistry<LogExecutor> = ActionRegistry::new();
    let mut sched = TaskScheduler::new(storage, registry);
    assert_eq!(
        sched.add_task(Task::new_with_datetime(NOW, log_action())).unwrap_err(),
        SchedulerError::RegistryActionNotFound
    );
}

#[test]
fn test_retry_exhaustion_disables_once_task() {
    let mut sched = counting_scheduler(u64::MAX);
    let task = Task::new_with_datetime(NOW - 10, log_action())
        .with_max_retries(3)
        .with_retry_delay(10);
    let id = sched.add_task(task).unwrap();
    sched.start().unwrap();
    sched.tick_at(NOW);

    // the executor never succeeds: three attempts, then the task completes
    assert_eq!(sched.registry().executor_at(0).calls, 3);
    let done = sched.storage().get_task(id).unwrap().unwrap();
    assert!(done.last_run.is_some());
    assert!(!done.enabled);
    assert_eq!(done.retry_count, 0);
}

#[test]
fn test_backoff_sequence() {
    let mut sched = counting_scheduler(4);
    let task = Task::new_with_datetime(NOW, log_action())
        .with_max_retries(5)
        .with_retry_delay(10);
    let rep = sched.execute_task_with_retry(task, NOW);
    assert!(rep.succeeded);
    assert_eq!(rep.attempts, 4);
    assert_eq!(rep.slept, vec![20, 40, 80]);
}

#[test]
fn test_backoff_sequence_exhaustion() {
    let mut sched = counting_scheduler(u64::MAX);
    let task = Task::new_with_datetime(NOW, log_action())
        .with_max_retries(4)
        .with_retry_delay(100);
    let rep = sched.execute_task_with_retry(task, NOW);
    assert!(!rep.succeeded);
    assert_eq!(rep.attempts, 4);
    assert_eq!(rep.slept, vec![200, 400, 800]);
}
