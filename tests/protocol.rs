use raco::protocol::{CommandType, McpRequest, ResponseStatus};

#[test]
fn test_command_type_conversion() {
    let cmd = CommandType::Execute;
    assert_eq!(cmd.as_str(), "execute");
    assert_eq!(CommandType::from_str("execute").unwrap().as_str(), "execute");
    assert!(CommandType::from_str("invalid").is_none());
}

#[test]
fn every_command_name_reads_back() {
    for c in [CommandType::Execute, CommandType::Query, CommandType::Monitor, CommandType::Register] {
        assert_eq!(CommandType::from_str(c.as_str()), Some(c));
    }
    assert_eq!(CommandType::Monitor.as_str(), "monitor");
    assert!(CommandType::from_str("").is_none());
    assert!(CommandType::from_str("Execute").is_none());
    assert!(CommandType::from_str("queryx").is_none());
}

#[test]
fn test_response_status() {
    let success = ResponseStatus::success();
    assert!(success.is_success());

    let error = ResponseStatus::error(1, "Error message");
    assert!(!error.is_success());
    assert_eq!(error.code, 1);
    assert_eq!(error.message, "Error message");
}

#[test]
fn success_status_message() {
    let s = ResponseStatus::success();
    assert_eq!(s.code, 0);
    assert_eq!(s.message, "Success");
    assert!(ResponseStatus::error(0, "fine").is_success());
    assert!(!ResponseStatus::error(-3, "bad").is_success());
}

#[test]
fn request_carries_command_payload_and_fresh_id() {
    let request = McpRequest::new("test", "payload");
    assert_eq!(request.command, "test");
    assert_eq!(request.payload, "payload");
    let id = request.request_id.clone().unwrap();
    assert_eq!(id.len(), 36);
    assert!(uuid::Uuid::parse_str(&id).is_ok());
    let other = McpRequest::new("test", "payload");
    assert_ne!(other.request_id, request.request_id);
}

#[test]
fn request_from_command_type() {
    let request = McpRequest::from_command_type(CommandType::Query, 5u32);
    assert_eq!(request.command, "query");
    assert_eq!(request.payload, 5);
    assert!(request.request_id.is_some());
}
