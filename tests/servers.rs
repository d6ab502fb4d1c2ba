use raco::client::{McpClient, McpClientFactory, MockTransport, StdioTransport, Transport, WebSocketTransport};
use raco::filesystem::{FilesystemCommand, FilesystemResponse, FilesystemServer};
use raco::process::{ProcessCommand, ProcessResponse, ProcessServer};
use raco::protocol::McpRequest;
use raco::registry::{ServerInfo, ServerRegistry};
use raco::servers::ServerError;
use std::collections::HashMap;

fn create_test_server() -> ServerInfo {
    ServerInfo {
        id: uuid::Uuid::new_v4().as_u128(),
        name: "Test Server".to_string(),
        server_type: "test".to_string(),
        uri: "localhost:8080".to_string(),
        active: false,
        metadata: HashMap::new(),
    }
}

fn server(id: u128, name: &str, kind: &str) -> ServerInfo {
    ServerInfo {
        id,
        name: name.to_string(),
        server_type: kind.to_string(),
        uri: format!("localhost:{}", 8000 + id),
        active: false,
        metadata: HashMap::new(),
    }
}

#[test]
fn filesystem_test_server_creation() {
    let server = FilesystemServer::new(".");
    assert!(!server.id().is_empty());
}

#[test]
fn filesystem_test_handle_list_request() {
    let server = FilesystemServer::new(".");

    let request = McpRequest::new(
        "filesystem.list",
        FilesystemCommand::List { path: ".".to_string(), recursive: false },
    );

    let response = server.handle_request(request);
    assert!(response.is_ok());

    let response = response.unwrap();
    assert!(response.status.is_success());

    if let FilesystemResponse::List { files } = response.payload {
        assert!(files.is_empty());
    } else {
        panic!("Expected List response");
    }
}

#[test]
fn filesystem_answers_each_command() {
    let server = FilesystemServer::new("/srv");
    assert_eq!(server.root_dir(), "/srv");
    assert_eq!(server.id().len(), 36);
    let request = McpRequest::new(
        "filesystem.read",
        FilesystemCommand::Read { path: "a".to_string(), encoding: None },
    );
    let id = request.request_id.clone();
    let response = server.handle_request(request).unwrap();
    assert_eq!(response.command, "filesystem.read");
    assert_eq!(response.request_id, id);
    assert!(matches!(response.payload, FilesystemResponse::Read { ref content, ref encoding } if content.is_empty() && encoding == "utf-8"));
    let write = FilesystemCommand::Write { path: "a".to_string(), content: "x".to_string(), append: true };
    let response = server.handle_request(McpRequest::new("w", write)).unwrap();
    assert!(matches!(response.payload, FilesystemResponse::Write { bytes_written: 0 }));
    let delete = FilesystemCommand::Delete { path: "a".to_string(), recursive: false };
    let response = server.handle_request(McpRequest::new("d", delete)).unwrap();
    assert!(matches!(response.payload, FilesystemResponse::Delete { success: true }));
    assert!(matches!(raco::filesystem::create_error_response("e"), FilesystemResponse::List { files } if files.is_empty()));
}

#[test]
fn process_test_server_creation() {
    let server = ProcessServer::new();
    assert!(!server.id().is_empty());
}

#[test]
fn process_test_handle_list_request() {
    let mut server = ProcessServer::new();

    let request = McpRequest::new("process.list", ProcessCommand::List);

    let response = server.handle_request(request);
    assert!(response.is_ok());

    let response = response.unwrap();
    assert!(response.status.is_success());

    if let ProcessResponse::List { processes } = response.payload {
        assert!(processes.is_empty());
    } else {
        panic!("Expected List response");
    }
}

#[test]
fn process_answers_each_command() {
    let mut server = ProcessServer::new();
    let start = ProcessCommand::Start {
        command: "ls".to_string(),
        args: vec!["-l".to_string()],
        cwd: None,
        env: HashMap::new(),
    };
    let response = server.handle_request(McpRequest::new("process.start", start)).unwrap();
    match response.payload {
        ProcessResponse::Start { process } => {
            assert_eq!(process.pid, 0);
            assert_eq!(process.name, "placeholder");
            assert_eq!(process.status, "running");
        }
        _ => panic!("Expected Start response"),
    }
    let response = server.handle_request(McpRequest::new("s", ProcessCommand::Stop { pid: 42, force: true })).unwrap();
    assert!(matches!(response.payload, ProcessResponse::Stop { success: true, pid: 42 }));
    let response = server.handle_request(McpRequest::new("i", ProcessCommand::Info { pid: 1 })).unwrap();
    assert!(matches!(response.payload, ProcessResponse::Info { process: None }));
}

#[test]
fn registry_test_register_server() {
    let mut registry = ServerRegistry::new();
    let server = create_test_server();
    assert!(registry.register_server(server).is_ok());
}

#[test]
fn registry_test_get_server() {
    let mut registry = ServerRegistry::new();
    let server = create_test_server();
    let id = server.id;

    let _ = registry.register_server(server.clone());

    let result = registry.get_server(id).unwrap();
    assert!(result.is_some());
    assert_eq!(result.unwrap().name, server.name);
}

#[test]
fn registry_test_unregister_server() {
    let mut registry = ServerRegistry::new();
    let server = create_test_server();
    let id = server.id;

    let _ = registry.register_server(server);

    assert!(registry.unregister_server(id).is_ok());
    assert!(registry.get_server(id).unwrap().is_none());
}

#[test]
fn registry_test_activate_deactivate_server() {
    let mut registry = ServerRegistry::new();
    let server = create_test_server();
    let id = server.id;

    let _ = registry.register_server(server);

    assert!(registry.activate_server(id).is_ok());
    let activated = registry.get_server(id).unwrap().unwrap();
    assert!(activated.active);

    assert!(registry.deactivate_server(id).is_ok());
    let deactivated = registry.get_server(id).unwrap().unwrap();
    assert!(!deactivated.active);
}

#[test]
fn registry_replaces_on_duplicate_id_and_filters() {
    let mut registry = ServerRegistry::new();
    registry.register_server(server(1, "fs", "filesystem")).unwrap();
    registry.register_server(server(2, "proc", "process")).unwrap();
    registry.register_server(server(3, "fs2", "filesystem")).unwrap();
    registry.register_server(server(1, "fs-renamed", "filesystem")).unwrap();
    let all = registry.get_all_servers().unwrap();
    let mut names: Vec<&str> = all.iter().map(|s| s.name.as_str()).collect();
    names.sort();
    assert_eq!(names, vec!["fs-renamed", "fs2", "proc"]);
    let mut fs: Vec<u128> = registry.get_servers_by_type("filesystem").unwrap().iter().map(|s| s.id).collect();
    fs.sort();
    assert_eq!(fs, vec![1, 3]);
    assert!(registry.get_servers_by_type("none").unwrap().is_empty());
    assert_eq!(registry.find_server_by_name("proc").unwrap().unwrap().id, 2);
    assert!(registry.find_server_by_name("fs").unwrap().is_none());
    registry.unregister_server(2).unwrap();
    registry.unregister_server(2).unwrap();
    assert_eq!(registry.get_all_servers().unwrap().len(), 2);
}

#[test]
fn activating_unknown_server_fails_with_its_id() {
    let mut registry = ServerRegistry::new();
    let id = uuid::Uuid::new_v4();
    match registry.activate_server(id.as_u128()) {
        Err(ServerError::ServerNotFound(s)) => assert_eq!(s, id.to_string()),
        _ => panic!("Expected ServerNotFound"),
    }
    assert!(matches!(registry.deactivate_server(5), Err(ServerError::ServerNotFound(_))));
}

#[test]
fn test_create_client() {
    let transport = MockTransport::new();
    let client = McpClient::new(transport);
    assert!(client.client().is_initialized());
}

#[test]
fn test_client_connect_disconnect() {
    let transport = MockTransport::new_auto_connect();
    let client = McpClient::new(transport);

    assert!(client.connect().is_ok());
    assert!(client.disconnect().is_ok());
}

#[test]
fn factory_and_transports() {
    let factory = McpClientFactory::new();
    let c = factory.create_stdio_client();
    assert!(c.client().is_initialized());
    assert!(!c.client().transport().auto_connect());
    let c = factory.create_websocket_client("ws://localhost:1");
    assert!(c.client().is_initialized());
    assert!(MockTransport::new_auto_connect().auto_connect());
    assert_eq!(WebSocketTransport::new("ws://x").url(), "ws://x");
    assert!(StdioTransport::new().send("hi").is_ok());
    assert_eq!(MockTransport::new().receive().unwrap(), "");
}

#[test]
fn missing_server_id_text_is_hyphenated_lowercase_hex() {
    let mut registry = ServerRegistry::new();
    match registry.deactivate_server(0xa1a2a3a4b1b2c1c2d1d2d3d4d5d6d7d8) {
        Err(ServerError::ServerNotFound(s)) => assert_eq!(s, "a1a2a3a4-b1b2-c1c2-d1d2-d3d4d5d6d7d8"),
        _ => panic!("Expected ServerNotFound"),
    }
}
