use raco::config::{CoreConfig, DEFAULT_CONFIG_FILE};
use raco::error::CoreError;
use raco::mcp_server::{ServerInfo, ServerRegistry};

fn create_test_server() -> ServerInfo {
    ServerInfo {
        id: uuid::Uuid::new_v4().as_u128(),
        name: "Test Server".to_string(),
        server_type: "test".to_string(),
        uri: "localhost:8080".to_string(),
        active: false,
    }
}

#[test]
fn server_test_register_server() {
    let mut registry = ServerRegistry::new();
    let server = create_test_server();
    assert!(registry.register_server(server).is_ok());
}

#[test]
fn server_test_get_server() {
    let mut registry = ServerRegistry::new();
    let server = create_test_server();
    let id = server.id;
    let _ = registry.register_server(server.clone());

    let result = registry.get_server(id);
    assert!(result.is_some());
    assert_eq!(result.unwrap().name, server.name);
}

#[test]
fn server_test_unregister_server() {
    let mut registry = ServerRegistry::new();
    let server = create_test_server();
    let id = server.id;
    let _ = registry.register_server(server);

    assert!(registry.unregister_server(id).is_ok());
    assert!(registry.get_server(id).is_none());
}

#[test]
fn server_test_activate_deactivate_server() {
    let mut registry = ServerRegistry::new();
    let server = create_test_server();
    let id = server.id;
    let _ = registry.register_server(server);

    assert!(registry.activate_server(id).is_ok());
    let activated = registry.get_server(id).unwrap();
    assert!(activated.active);

    assert!(registry.deactivate_server(id).is_ok());
    let deactivated = registry.get_server(id).unwrap();
    assert!(!deactivated.active);
}

#[test]
fn missing_server_error_names_the_id() {
    let mut registry = ServerRegistry::new();
    let id = uuid::Uuid::new_v4();
    match registry.activate_server(id.as_u128()) {
        Err(CoreError::Other(m)) => assert_eq!(m, format!("Server with ID {} not found", id)),
        _ => panic!("Expected Other error variant"),
    }
    assert!(registry.deactivate_server(3).is_err());
}

#[test]
fn registering_same_id_replaces() {
    let mut registry = ServerRegistry::new();
    let mut a = create_test_server();
    registry.register_server(a.clone()).unwrap();
    a.name = "Renamed".to_string();
    registry.register_server(a.clone()).unwrap();
    let all = registry.get_all_servers();
    assert_eq!(all.len(), 1);
    assert_eq!(all[0].name, "Renamed");
}

#[test]
fn config_holds_data_dir() {
    let c = CoreConfig::new("/tmp/raco".to_string());
    assert_eq!(c.data_dir, "/tmp/raco");
    assert_eq!(DEFAULT_CONFIG_FILE, "raco.toml");
}
