use scheduler::action::{ActionType, TaskAction};
use scheduler::task::{Task, TaskType, DEFAULT_MAX_RETRIES, DEFAULT_RETRY_DELAY, MILLIS_PER_DAY};

const NOW: i64 = 1_700_000_000_000;

fn log_action() -> TaskAction {
    TaskAction::Log {
        message: "note".to_string(),
        level: "info".to_string(),
    }
}

#[test]
fn test_new_with_datetime_defaults() {
    let t = Task::new_with_datetime(NOW, log_action());
    assert_eq!(t.next_run, NOW);
    assert_eq!(t.last_run, None);
    assert!(t.enabled);
    assert_eq!(t.retry_count, 0);
    assert_eq!(t.max_retries, DEFAULT_MAX_RETRIES);
    assert_eq!(t.retry_delay, DEFAULT_RETRY_DELAY);
    assert_eq!(t.schedule, TaskType::Once);
    assert_eq!(t.delay_between_runs, None);
    assert!(t.action.is_some());
}

#[test]
fn test_new_with_datetime_range_defaults() {
    let t = Task::new_with_datetime_range(NOW, NOW + 5_000, log_action());
    assert_eq!(t.next_run, NOW);
    assert_eq!(
        t.schedule,
        TaskType::Range {
            start_date: NOW,
            end_date: NOW + 5_000
        }
    );
    assert!(t.enabled);
}

#[test]
fn test_default_task_has_no_action() {
    let t = Task::default();
    assert_eq!(t.action, None);
    assert!(t.enabled);
    assert_eq!(t.max_retries, DEFAULT_MAX_RETRIES);
    assert_eq!(t.retry_delay, DEFAULT_RETRY_DELAY);
    assert_eq!(t.schedule, TaskType::Once);
}

#[test]
fn test_fresh_ids_differ() {
    let a = Task::new_with_datetime(NOW, log_action());
    let b = Task::new_with_datetime(NOW, log_action());
    assert_ne!(a.id, b.id);
}

#[test]
fn test_builders() {
    let t = Task::new_with_datetime(NOW, log_action())
        .with_max_retries(7)
        .with_retry_delay(250)
        .with_delay_between_runs(3_600_000);
    assert_eq!(t.max_retries, 7);
    assert_eq!(t.retry_delay, 250);
    assert_eq!(t.delay_between_runs, Some(3_600_000));
}

#[test]
fn test_calculate_next_run_once_disables() {
    let mut t = Task::new_with_datetime(NOW, log_action());
    t.calculate_next_run();
    assert!(!t.enabled);
    assert_eq!(t.next_run, NOW);
}

#[test]
fn test_calculate_next_run_range_advances_by_default_day() {
    let mut t = Task::new_with_datetime_range(NOW, NOW + 3 * MILLIS_PER_DAY, log_action());
    t.calculate_next_run();
    assert!(t.enabled);
    assert_eq!(t.next_run, NOW + MILLIS_PER_DAY);
}

#[test]
fn test_calculate_next_run_range_advances_by_custom_step() {
    let mut t = Task::new_with_datetime_range(NOW, NOW + 10_000, log_action())
        .with_delay_between_runs(2_500);
    t.calculate_next_run();
    assert!(t.enabled);
    assert_eq!(t.next_run, NOW + 2_500);
}

#[test]
fn test_calculate_next_run_range_end_inclusive() {
    let mut t = Task::new_with_datetime_range(NOW, NOW + 2_500, log_action())
        .with_delay_between_runs(2_500);
    t.calculate_next_run();
    assert!(t.enabled);
    assert_eq!(t.next_run, NOW + 2_500);

    // the next proposed instant passes the end: the task turns itself off
    t.calculate_next_run();
    assert!(!t.enabled);
    assert_eq!(t.next_run, NOW + 2_500);
}

#[test]
fn test_calcluate_retry_delay_exact() {
    let mut t = Task::new_with_datetime(NOW, log_action()).with_retry_delay(1000);
    assert_eq!(t.calcluate_retry_delay(), 1000);
    t.retry_count = 1;
    assert_eq!(t.calcluate_retry_delay(), 2000);
    t.retry_count = 3;
    assert_eq!(t.calcluate_retry_delay(), 8000);
}

#[test]
fn test_should_retry_boundary() {
    let mut t = Task::new_with_datetime(NOW, log_action()).with_max_retries(3);
    t.retry_count = 2;
    assert!(t.should_retry());
    t.retry_count = 3;
    assert!(!t.should_retry());
}

#[test]
fn test_reset_retry_count() {
    let mut t = Task::new_with_datetime(NOW, log_action());
    t.retry_count = 5;
    t.reset_retry_count();
    assert_eq!(t.retry_count, 0);
}

#[test]
fn test_action_type_discriminants() {
    let log = log_action();
    assert_eq!(log.action_type(), ActionType::Log);
    let msg = TaskAction::SendBotMessage {
        chat_id: 7,
        message: "hi".to_string(),
    };
    assert_eq!(msg.action_type(), ActionType::SendBotMessage);
}

#[test]
fn test_task_clone_preserves_fields() {
    let t = Task::new_with_datetime_range(NOW, NOW + 100, log_action())
        .with_retry_delay(123)
        .with_delay_between_runs(50);
    let c = t.clone();
    assert_eq!(c, t);
}
