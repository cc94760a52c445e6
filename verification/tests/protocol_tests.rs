use beads_workers::protocol::{
    check_message_size, check_serialized, encode_frame, frame_length, validate_orchestrator_message,
    validate_orchestrator_message_at, validate_worker_message, validate_worker_message_at, MessageEnvelope,
    ProtocolError, MAX_MESSAGE_SIZE, PROTOCOL_VERSION,
};
use beads_workers::types::{get_timestamp, OrchestratorMessage, ShutdownReason, WorkerMessage};

#[test]
fn test_protocol_version() {
    assert_eq!(PROTOCOL_VERSION, 1);
}

#[test]
fn test_max_message_size_constant() {
    assert_eq!(MAX_MESSAGE_SIZE, 1_048_576);
}

#[test]
fn test_protocol_version_constant() {
    assert_eq!(PROTOCOL_VERSION, 1);
}

#[test]
fn test_validate_worker_message_empty_worker_id() {
    let msg = WorkerMessage::ready("".to_string());
    let result = validate_worker_message(&msg);
    assert!(result.is_err());
    assert!(matches!(result.unwrap_err(), ProtocolError::ValidationError(_)));
}

#[test]
fn test_validate_worker_message_empty_issue_id() {
    let msg = WorkerMessage::done("W1".to_string(), "".to_string(), 1000);
    let result = validate_worker_message(&msg);
    assert!(result.is_err());
}

#[test]
fn test_validate_worker_message_excessive_duration() {
    let msg = WorkerMessage::done("W1".to_string(), "issue-123".to_string(), 4_000_000);
    let result = validate_worker_message(&msg);
    assert!(result.is_err());
}

#[test]
fn test_validate_orchestrator_message_empty_worker_id() {
    let msg = OrchestratorMessage::wait("".to_string(), 30);
    let result = validate_orchestrator_message(&msg);
    assert!(result.is_err());
}

#[test]
fn test_validate_orchestrator_message_invalid_priority() {
    let msg = OrchestratorMessage::task("W1".to_string(), "issue-123".to_string(), 5, "Test".to_string());
    let result = validate_orchestrator_message(&msg);
    assert!(result.is_err());
}

#[test]
fn test_validate_orchestrator_message_excessive_wait() {
    let msg = OrchestratorMessage::wait("W1".to_string(), 5000);
    let result = validate_orchestrator_message(&msg);
    assert!(result.is_err());
}

#[test]
fn test_envelope_version_validation() {
    let envelope = MessageEnvelope::new(WorkerMessage::ready("W1".to_string()));
    assert_eq!(envelope.version(), PROTOCOL_VERSION);
    assert!(envelope.validate_version().is_ok());
}

#[test]
fn test_validate_empty_error_in_failed_message() {
    let msg = WorkerMessage::failed("W1".to_string(), "issue-123".to_string(), "".to_string(), 1000);
    let result = validate_worker_message(&msg);
    assert!(result.is_err());
    assert!(result.unwrap_err().message().contains("error cannot be empty"));
}

#[test]
fn test_validate_empty_title_in_task_message() {
    let msg = OrchestratorMessage::task("W1".to_string(), "issue-123".to_string(), 2, "".to_string());
    let result = validate_orchestrator_message(&msg);
    assert!(result.is_err());
    assert!(result.unwrap_err().message().contains("title cannot be empty"));
}

#[test]
fn test_validate_empty_issue_id_in_task_message() {
    let msg = OrchestratorMessage::task("W1".to_string(), "".to_string(), 2, "Test".to_string());
    let result = validate_orchestrator_message(&msg);
    assert!(result.is_err());
    assert!(result.unwrap_err().message().contains("issue_id cannot be empty"));
}

#[test]
fn test_protocol_error_display() {
    let errors = vec![
        ProtocolError::MessageTooLarge { size: 2000, max: 1000 },
        ProtocolError::VersionMismatch { expected: 1, actual: 2 },
        ProtocolError::ValidationError("test error".to_string()),
        ProtocolError::UnexpectedMessageType("UNKNOWN".to_string()),
        ProtocolError::WorkerIdMismatch { expected: "W1".to_string(), actual: "W2".to_string() },
        ProtocolError::ConnectionClosed,
        ProtocolError::Timeout,
    ];

    for error in errors {
        let display = error.message();
        assert!(display.len() > 0);
    }
}

#[test]
fn test_validate_future_timestamp() {
    let future_timestamp = get_timestamp() + 120_000;
    let msg = WorkerMessage::Ready { worker_id: "W1".to_string(), timestamp_ms: future_timestamp };
    let result = validate_worker_message(&msg);
    assert!(result.is_err());
    assert!(result.unwrap_err().message().contains("too far in the future"));
}

#[test]
fn test_validate_old_timestamp() {
    let old_timestamp = get_timestamp() - 7_200_000;
    let msg = WorkerMessage::Ready { worker_id: "W1".to_string(), timestamp_ms: old_timestamp };
    let result = validate_worker_message(&msg);
    assert!(result.is_err());
    assert!(result.unwrap_err().message().contains("too old"));
}

#[test]
fn test_envelope_new() {
    let payload = WorkerMessage::ready("W1".to_string());
    let envelope = MessageEnvelope::new(payload);
    assert_eq!(envelope.version, PROTOCOL_VERSION);
}

#[test]
fn test_validate_all_priority_values() {
    for priority in 0..=4 {
        let msg = OrchestratorMessage::task("W1".to_string(), "issue-123".to_string(), priority, "Test".to_string());
        assert!(validate_orchestrator_message(&msg).is_ok());
    }
    let msg = OrchestratorMessage::task("W1".to_string(), "issue-123".to_string(), 5, "Test".to_string());
    assert!(validate_orchestrator_message(&msg).is_err());
}

#[test]
fn test_validate_boundary_wait_seconds() {
    let msg = OrchestratorMessage::wait("W1".to_string(), 3600);
    assert!(validate_orchestrator_message(&msg).is_ok());
    let msg = OrchestratorMessage::wait("W1".to_string(), 3601);
    assert!(validate_orchestrator_message(&msg).is_err());
}

#[test]
fn test_validate_boundary_duration_ms() {
    let msg = WorkerMessage::done("W1".to_string(), "issue-123".to_string(), 3_600_000);
    assert!(validate_worker_message(&msg).is_ok());
    let msg = WorkerMessage::done("W1".to_string(), "issue-123".to_string(), 3_600_001);
    assert!(validate_worker_message(&msg).is_err());
}

#[test]
fn test_validation_texts_exact() {
    let now = 1_000_000_000u64;
    let m = WorkerMessage::ready_at("W1".to_string(), now + 60_500);
    match validate_worker_message_at(&m, now) {
        Err(ProtocolError::ValidationError(t)) => {
            assert_eq!(t, "timestamp 1000060.5 is too far in the future (now: 1000000)")
        }
        other => panic!("unexpected {:?}", other),
    }
    let m = WorkerMessage::ready_at("W1".to_string(), now - 3_600_001);
    match validate_worker_message_at(&m, now) {
        Err(ProtocolError::ValidationError(t)) => assert_eq!(t, "timestamp 996399.999 is too old (now: 1000000)"),
        other => panic!("unexpected {:?}", other),
    }
    let m = WorkerMessage::done_at("W1".to_string(), "i".to_string(), 3_600_001, now);
    match validate_worker_message_at(&m, now) {
        Err(ProtocolError::ValidationError(t)) => assert_eq!(t, "duration_ms 3600001 is unreasonably large"),
        other => panic!("unexpected {:?}", other),
    }
    let o = OrchestratorMessage::task_at("W1".to_string(), "i".to_string(), 7, "T".to_string(), now);
    match validate_orchestrator_message_at(&o, now) {
        Err(ProtocolError::ValidationError(t)) => assert_eq!(t, "priority 7 is out of range (0-4)"),
        other => panic!("unexpected {:?}", other),
    }
    let o = OrchestratorMessage::shutdown_at("W1".to_string(), ShutdownReason::Error, now);
    assert!(validate_orchestrator_message_at(&o, now).is_ok());
    let old = OrchestratorMessage::wait_at("W1".to_string(), 10, 1);
    assert!(validate_orchestrator_message_at(&old, now).is_ok());
}

#[test]
fn test_error_messages_exact() {
    assert_eq!(ProtocolError::MessageTooLarge { size: 2000, max: 1000 }.message(), "Message size 2000 exceeds maximum 1000");
    assert_eq!(
        ProtocolError::VersionMismatch { expected: 1, actual: 99 }.message(),
        "Invalid protocol version: expected 1, got 99"
    );
    assert_eq!(ProtocolError::ConnectionClosed.message(), "Connection closed");
    assert_eq!(ProtocolError::Timeout.message(), "Timeout waiting for message");
    assert_eq!(ProtocolError::JsonError("bad".to_string()).message(), "JSON error: bad");
}

#[test]
fn test_envelope_wrong_version() {
    let envelope = MessageEnvelope { version: 99, payload: 5u32 };
    match envelope.open() {
        Err(ProtocolError::VersionMismatch { expected, actual }) => {
            assert_eq!(expected, PROTOCOL_VERSION);
            assert_eq!(actual, 99);
        }
        _ => panic!("Expected VersionMismatch"),
    }
    assert_eq!(MessageEnvelope::new(7u32).open().unwrap(), 7);
}

#[test]
fn test_size_limit_and_frame() {
    assert!(check_message_size(MAX_MESSAGE_SIZE).is_ok());
    assert!(matches!(
        check_message_size(MAX_MESSAGE_SIZE + 1),
        Err(ProtocolError::MessageTooLarge { size, max }) if size == MAX_MESSAGE_SIZE + 1 && max == MAX_MESSAGE_SIZE
    ));
    assert!(check_serialized(vec![b'x'; MAX_MESSAGE_SIZE + 1]).is_err());
    assert_eq!(check_serialized(vec![1, 2, 3]).unwrap(), vec![1, 2, 3]);
    let frame = encode_frame(&[7u8; 300]);
    assert_eq!(&frame[..4], &[0, 0, 1, 44]);
    assert_eq!(frame.len(), 304);
    assert_eq!(frame_length([0, 0, 1, 44]).unwrap(), 300);
    assert!(frame_length([0, 0x10, 0, 1]).is_err());
    assert_eq!(frame_length([0, 0x10, 0, 0]).unwrap(), MAX_MESSAGE_SIZE);
}
