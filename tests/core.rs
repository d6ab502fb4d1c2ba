use raco::error::{with_context, CoreError};
use raco::servers::ServerError;
use raco::{version, VERSION};
use std::io;

#[test]
fn test_io_error_conversion() {
    let io_err = io::Error::new(io::ErrorKind::NotFound, "file not found");
    let core_err: CoreError = io_err.into();

    match core_err {
        CoreError::Io(_) => (),
        _ => panic!("Expected Io error variant"),
    }
}

#[test]
fn test_with_context() {
    let result: Result<(), String> = Err(io::Error::new(io::ErrorKind::Other, "test error").to_string());

    let core_result = with_context(result, "Context message".to_string());

    assert!(core_result.is_err());
    match core_result {
        Err(CoreError::Other(msg)) => {
            assert!(msg.contains("Context message"));
            assert!(msg.contains("test error"));
        }
        _ => panic!("Expected Other error variant with context message"),
    }
}

#[test]
fn with_context_message_is_exact_and_ok_passes_through() {
    let r: Result<u8, String> = Err("boom".to_string());
    match with_context(r, "loading".to_string()) {
        Err(CoreError::Other(msg)) => assert_eq!(msg, "loading: boom"),
        _ => panic!("Expected Other error variant"),
    }
    let ok: Result<u8, String> = Ok(7);
    assert!(matches!(with_context(ok, "loading".to_string()), Ok(7)));
}

#[test]
fn lib_test_version() {
    assert_eq!(version(), VERSION);
}

#[test]
fn core_error_converts_into_server_error() {
    let e: ServerError = CoreError::Config("bad".to_string()).into();
    assert!(matches!(e, ServerError::Core(CoreError::Config(m)) if m == "bad"));
}
