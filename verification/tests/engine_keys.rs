//! Storage keys of the workflow engine.

use degov::engine::ids::Uuid;
use degov::engine::types::{TaskId, WorkflowId};
use degov::engine::keys::{
    DeadLetterSchema, KeyPrefix, SchemaUtils, TaskQueueSchema, TaskSchema, WorkerSchema,
    WorkflowDefSchema, WorkflowEventSchema, WorkflowInstanceSchema,
};

fn new_id() -> Uuid {
    Uuid { bytes: *uuid::Uuid::new_v4().as_bytes() }
}

#[test]
fn test_workflow_definition_keys() {
    let id = new_id();
    let key = WorkflowDefSchema::key(&id);

    assert!(!key.is_empty());
    assert!(key.starts_with(&KeyPrefix::WORKFLOW_DEFINITION));
}

#[test]
fn test_task_queue_ordering() {

    let task1_id = new_id();
    let task2_id = new_id();

    let time1 = chrono::Utc::now();
    let time2 = time1 + chrono::Duration::seconds(1);

    let key1 = TaskQueueSchema::queue_key(time1.timestamp_nanos_opt(), &task1_id);
    let key2 = TaskQueueSchema::queue_key(time2.timestamp_nanos_opt(), &task2_id);

    assert!(key1 < key2);
}

#[test]
fn test_idempotency_key_generation() {
    let workflow_id = new_id();
    let key1 = SchemaUtils::generate_idempotency_key(&workflow_id, "test", "context1");
    let key2 = SchemaUtils::generate_idempotency_key(&workflow_id, "test", "context2");
    let key3 = SchemaUtils::generate_idempotency_key(&workflow_id, "test", "context1");

    assert_ne!(key1, key2);
    assert_eq!(key1, key3);
}

#[test]
fn idempotency_key_layout() {
    let id = Uuid { bytes: [0x67, 0xe5, 0x50, 0x44, 0x10, 0xb1, 0x42, 0x6f, 0x92, 0x47, 0xbb, 0x68, 0x0e, 0x5f, 0xe0, 0xc8] };
    let key = SchemaUtils::generate_idempotency_key(&id, "send-mail", "ctx");
    assert!(key.starts_with("idem_67e55044-10b1-426f-9247-bb680e5fe0c8_send-mail_"));
    let digits = &key["idem_67e55044-10b1-426f-9247-bb680e5fe0c8_send-mail_".len()..];
    assert!(!digits.is_empty());
    assert!(digits.chars().all(|c| c.is_ascii_digit()));
}

#[test]
fn key_layouts() {
    let id = Uuid { bytes: [1; 16] };
    let mut expected = b"wfdef".to_vec();
    expected.extend_from_slice(&[1; 16]);
    expected.extend_from_slice(b":def");
    assert_eq!(WorkflowDefSchema::key(&id), expected);

    let mut expected = b"wfdef".to_vec();
    expected.extend_from_slice(b"permit");
    expected.push(0);
    expected.extend_from_slice(&7u32.to_be_bytes());
    assert_eq!(WorkflowDefSchema::name_version_key("permit", 7), expected);
    assert_eq!(WorkflowDefSchema::list_prefix(), b"wfdef".to_vec());

    let mut expected = b"wfinst".to_vec();
    expected.extend_from_slice(&[1; 16]);
    expected.extend_from_slice(b":inst");
    assert_eq!(WorkflowInstanceSchema::key(&id), expected);
    let mut expected = b"wfinst".to_vec();
    expected.extend_from_slice(&[1; 16]);
    expected.push(0);
    assert_eq!(WorkflowInstanceSchema::workflow_prefix(&id), expected);
    assert_eq!(WorkflowInstanceSchema::list_prefix(), b"wfinst".to_vec());
    let mut expected = b"wflk".to_vec();
    expected.extend_from_slice(&[1; 16]);
    assert_eq!(WorkflowInstanceSchema::lock_key(&id), expected);

    let mut expected = b"taskq".to_vec();
    expected.extend_from_slice(&(-5i64).to_be_bytes());
    expected.extend_from_slice(&[1; 16]);
    assert_eq!(TaskQueueSchema::queue_key(Some(-5), &id), expected);
    let mut expected = b"taskq".to_vec();
    expected.extend_from_slice(&0i64.to_be_bytes());
    expected.extend_from_slice(&[1; 16]);
    assert_eq!(TaskQueueSchema::queue_key(None, &id), expected);
    assert_eq!(TaskQueueSchema::prefix(), b"taskq".to_vec());
    assert_eq!(TaskQueueSchema::ready_prefix(), b"taskq".to_vec());

    let mut expected = b"task".to_vec();
    expected.extend_from_slice(b"worker:");
    expected.extend_from_slice(&[1; 16]);
    expected.push(0);
    assert_eq!(TaskSchema::worker_prefix(&id), expected);
    let mut expected = b"taskls".to_vec();
    expected.extend_from_slice(&[1; 16]);
    assert_eq!(TaskSchema::lease_key(&id), expected);

    let mut expected = b"worker".to_vec();
    expected.extend_from_slice(b"capability:");
    expected.extend_from_slice("script".as_bytes());
    expected.push(0);
    assert_eq!(WorkerSchema::capability_prefix("script"), expected);
    assert_eq!(WorkerSchema::list_prefix(), b"worker".to_vec());
    let mut expected = b"workerhb".to_vec();
    expected.extend_from_slice(&[1; 16]);
    assert_eq!(WorkerSchema::heartbeat_key(&id), expected);

    let mut expected = b"wflevt".to_vec();
    expected.extend_from_slice(&1_700_000_000_000_000_000i64.to_be_bytes());
    expected.extend_from_slice(&[1; 16]);
    assert_eq!(WorkflowEventSchema::key(Some(1_700_000_000_000_000_000), &id), expected);
    assert_eq!(WorkflowEventSchema::list_prefix(), b"wflevt".to_vec());

    let mut expected = b"dlq".to_vec();
    expected.extend_from_slice(&42i64.to_be_bytes());
    expected.extend_from_slice(&[1; 16]);
    assert_eq!(DeadLetterSchema::key(Some(42), &id), expected);
    assert_eq!(DeadLetterSchema::list_prefix(), b"dlq".to_vec());
    let mut expected = b"dlq".to_vec();
    expected.extend_from_slice(&[1; 16]);
    expected.push(0);
    assert_eq!(DeadLetterSchema::workflow_prefix(&id), expected);
}

#[test]
fn lease_times() {
    assert_eq!(SchemaUtils::lease_expiration_from(1_000, 500), Some(1_500));
    assert_eq!(SchemaUtils::lease_expiration_from(i64::MAX, 1), None);
    assert!(SchemaUtils::is_lease_valid_at(10, 11));
    assert!(!SchemaUtils::is_lease_valid_at(11, 11));
    assert!(SchemaUtils::lease_expiration_time(60_000).is_some());
    assert!(SchemaUtils::is_lease_valid(i64::MAX));
}

#[test]
fn uuid_text() {
    let u = uuid::Uuid::new_v4();
    let id = Uuid { bytes: *u.as_bytes() };
    assert_eq!(id.to_hyphenated(), u.to_string());
}

#[test]
fn fresh_ids_are_random_version_4() {
    for _ in 0..8 {
        let w = WorkflowId::new();
        assert_eq!(w.0.bytes[6] & 0xf0, 0x40);
        assert_eq!(w.0.bytes[8] & 0xc0, 0x80);
        let t = TaskId::new();
        assert_eq!(t.0.bytes[6] & 0xf0, 0x40);
        assert_eq!(t.0.bytes[8] & 0xc0, 0x80);
    }
    assert_ne!(WorkflowId::new(), WorkflowId::new());
}

#[test]
fn leases_from_the_clock() {
    assert!(SchemaUtils::is_lease_valid(i64::MAX));
    assert!(!SchemaUtils::is_lease_valid(i64::MIN));
    let t = SchemaUtils::lease_expiration_time(30_000).unwrap();
    assert!(SchemaUtils::is_lease_valid(t));
    assert_eq!(SchemaUtils::lease_expiration_time(u64::MAX >> 1), None);
}
