use scheduler::action::TaskAction;
use scheduler::action_value::{ActionValue, Field, FieldValue};
use scheduler::base_storage::Storage;
use scheduler::error::SchedulerError;
use scheduler::in_memory_storage::InMemoryStorage;
use scheduler::task::{Task, TaskType};
use scheduler::task_db::TaskDb;

const NOW: i64 = 1_700_000_000_000;

fn log_action() -> TaskAction {
    TaskAction::Log {
        message: "note".to_string(),
        level: "warn".to_string(),
    }
}

fn send_action() -> TaskAction {
    TaskAction::SendBotMessage {
        chat_id: 42,
        message: "ping".to_string(),
    }
}

#[test]
fn test_encode_log_exact() {
    let v = log_action().encode();
    assert_eq!(v.tag, "Log");
    assert_eq!(v.fields.len(), 2);
    assert_eq!(
        v.fields[0],
        Field {
            name: "message".to_string(),
            value: FieldValue::Str("note".to_string())
        }
    );
    assert_eq!(
        v.fields[1],
        Field {
            name: "level".to_string(),
            value: FieldValue::Str("warn".to_string())
        }
    );
}

#[test]
fn test_encode_send_bot_message_exact() {
    let v = send_action().encode();
    assert_eq!(v.tag, "SendBotMessage");
    assert_eq!(v.fields.len(), 2);
    assert_eq!(
        v.fields[0],
        Field {
            name: "chat_id".to_string(),
            value: FieldValue::Int(42)
        }
    );
    assert_eq!(
        v.fields[1],
        Field {
            name: "message".to_string(),
            value: FieldValue::Str("ping".to_string())
        }
    );
}

#[test]
fn test_action_round_trip() {
    for a in [log_action(), send_action()] {
        let v = a.encode();
        assert_eq!(TaskAction::decode(&v).unwrap(), a);
    }
}

#[test]
fn test_decode_unknown_tag_rejected() {
    let v = ActionValue {
        tag: "Mystery".to_string(),
        fields: vec![],
    };
    assert!(matches!(
        TaskAction::decode(&v),
        Err(SchedulerError::SerdeError(_))
    ));
}

#[test]
fn test_decode_missing_field_rejected() {
    let v = ActionValue {
        tag: "Log".to_string(),
        fields: vec![Field {
            name: "message".to_string(),
            value: FieldValue::Str("note".to_string()),
        }],
    };
    assert!(matches!(
        TaskAction::decode(&v),
        Err(SchedulerError::SerdeError(_))
    ));
}

#[test]
fn test_decode_ill_typed_field_rejected() {
    let v = ActionValue {
        tag: "SendBotMessage".to_string(),
        fields: vec![
            Field {
                name: "chat_id".to_string(),
                value: FieldValue::Str("not a number".to_string()),
            },
            Field {
                name: "message".to_string(),
                value: FieldValue::Str("ping".to_string()),
            },
        ],
    };
    assert!(matches!(
        TaskAction::decode(&v),
        Err(SchedulerError::SerdeError(_))
    ));
}

#[test]
fn test_decode_field_order_irrelevant() {
    let v = ActionValue {
        tag: "SendBotMessage".to_string(),
        fields: vec![
            Field {
                name: "message".to_string(),
                value: FieldValue::Str("ping".to_string()),
            },
            Field {
                name: "chat_id".to_string(),
                value: FieldValue::Int(42),
            },
        ],
    };
    assert_eq!(TaskAction::decode(&v).unwrap(), send_action());
}

#[test]
fn test_to_db_task_exact() {
    let mut t = Task::new_with_datetime_range(1_000, 5_000, send_action()).with_retry_delay(1_500);
    t.id = 7;
    t.next_run = 1_234_999;
    t.last_run = Some(2_000);
    t.retry_count = 1;

    let db = t.to_db_task().unwrap();
    assert_eq!(db.id, 7);
    assert_eq!(db.schedule_type, 2);
    assert_eq!(db.next_run, 1_234);
    assert_eq!(db.last_run, Some(2));
    assert_eq!(db.retry_count, 1);
    assert_eq!(db.max_retries, 3);
    assert_eq!(db.retry_delay, 1_500);
    assert!(db.enabled);
    assert_eq!(db.start_date, Some(1));
    assert_eq!(db.end_date, Some(5));
    assert_eq!(db.action, send_action().encode());
}

#[test]
fn test_to_db_task_once_has_no_dates() {
    let t = Task::new_with_datetime(9_000, log_action());
    let db = t.to_db_task().unwrap();
    assert_eq!(db.schedule_type, 1);
    assert_eq!(db.start_date, None);
    assert_eq!(db.end_date, None);
}

#[test]
fn test_to_db_task_without_action_fails() {
    let t = Task::default();
    let id = t.id;
    assert_eq!(
        t.to_db_task().unwrap_err(),
        SchedulerError::ActionMissing(id)
    );
}

#[test]
fn test_db_round_trip() {
    let mut t = Task::new_with_datetime_range(NOW, NOW + 7_000, send_action())
        .with_max_retries(5)
        .with_retry_delay(2_000);
    t.last_run = Some(NOW - 60_000);
    let back = Task::from_db_task(t.to_db_task().unwrap()).unwrap();
    assert_eq!(back, t);
}

#[test]
fn test_from_db_task_invalid_schedule_type() {
    let db = TaskDb {
        id: 1,
        schedule_type: 9,
        last_run: None,
        next_run: 100,
        retry_count: 0,
        max_retries: 3,
        retry_delay: 1000,
        enabled: true,
        action: log_action().encode(),
        start_date: None,
        end_date: None,
    };
    assert!(matches!(
        Task::from_db_task(db),
        Err(SchedulerError::DatabaseError(_))
    ));
}

#[test]
fn test_from_db_task_missing_range_dates() {
    let db = TaskDb {
        id: 1,
        schedule_type: 2,
        last_run: None,
        next_run: 100,
        retry_count: 0,
        max_retries: 3,
        retry_delay: 1000,
        enabled: true,
        action: log_action().encode(),
        start_date: Some(50),
        end_date: None,
    };
    assert!(matches!(
        Task::from_db_task(db),
        Err(SchedulerError::DatabaseError(_))
    ));
}

#[test]
fn test_from_db_task_bad_action_rejected() {
    let db = TaskDb {
        id: 1,
        schedule_type: 1,
        last_run: None,
        next_run: 100,
        retry_count: 0,
        max_retries: 3,
        retry_delay: 1000,
        enabled: true,
        action: ActionValue {
            tag: "Nope".to_string(),
            fields: vec![],
        },
        start_date: None,
        end_date: None,
    };
    assert!(matches!(
        Task::from_db_task(db),
        Err(SchedulerError::SerdeError(_))
    ));
}

#[test]
fn test_save_and_get_task_equal() {
    let mut storage = InMemoryStorage::new();
    let t = Task::new_with_datetime(NOW, send_action()).with_max_retries(9);
    let expected = t.clone();
    let id = storage.save_task(t).unwrap();
    let got = storage.get_task(id).unwrap().unwrap();
    assert_eq!(got, expected);
}

#[test]
fn test_storage_upsert_overwrites() {
    let mut storage = InMemoryStorage::new();
    let mut t = Task::new_with_datetime(NOW, log_action());
    let id = storage.save_task(t.clone()).unwrap();
    t.enabled = false;
    t.retry_count = 2;
    storage.save_task(t.clone()).unwrap();
    assert_eq!(storage.get_all_tasks().unwrap().len(), 1);
    let got = storage.get_task(id).unwrap().unwrap();
    assert_eq!(got, t);
}

#[test]
fn test_storage_delete_task() {
    let mut storage = InMemoryStorage::new();
    let id = storage
        .save_task(Task::new_with_datetime(NOW, log_action()))
        .unwrap();
    storage.delete_task(id).unwrap();
    assert_eq!(storage.get_task(id).unwrap(), None);
    assert_eq!(storage.get_all_tasks().unwrap().len(), 0);
}

#[test]
fn test_get_ready_tasks_filters() {
    let mut storage = InMemoryStorage::new();
    let due = Task::new_with_datetime(NOW - 1, log_action());
    let due_id = due.id;
    storage.save_task(due).unwrap();
    storage
        .save_task(Task::new_with_datetime(NOW + 1, log_action()))
        .unwrap();
    let mut disabled = Task::new_with_datetime(NOW - 1, log_action());
    disabled.enabled = false;
    storage.save_task(disabled).unwrap();

    let ready = storage.get_ready_tasks_at(NOW).unwrap();
    assert_eq!(ready.len(), 1);
    assert_eq!(ready[0].id, due_id);

    // a task due exactly now is ready
    assert_eq!(storage.get_ready_tasks_at(NOW + 1).unwrap().len(), 2);
}

#[test]
fn test_get_ready_tasks_uses_clock() {
    let mut storage = InMemoryStorage::new();
    // the wall clock is far past this instant, and far before the other
    storage
        .save_task(Task::new_with_datetime(NOW - NOW, log_action()))
        .unwrap();
    storage
        .save_task(Task::new_with_datetime(i64::MAX - 1, log_action()))
        .unwrap();
    let ready = storage.get_ready_tasks().unwrap();
    assert_eq!(ready.len(), 1);
    assert_eq!(ready[0].next_run, 0);
}

#[test]
fn test_schedule_type_discriminants() {
    let once = Task::new_with_datetime(NOW, log_action());
    assert_eq!(once.to_db_task().unwrap().schedule_type, 1);
    let range = Task::new_with_datetime_range(NOW, NOW + 1, log_action());
    assert_eq!(range.to_db_task().unwrap().schedule_type, 2);
    assert_eq!(
        range.schedule,
        TaskType::Range {
            start_date: NOW,
            end_date: NOW + 1
        }
    );
}
