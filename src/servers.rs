//! Errors of the remote command servers.
use vstd::prelude::*;

use crate::error::CoreError;

verus! {

/// Why a server operation failed.
#[derive(Debug)]
pub enum ServerError {
    /// A failure of the core library.
    Core(CoreError),
    /// A protocol failure, with its message.
    Mcp(String),
    /// No server has this id.
    ServerNotFound(String),
    /// The operation is not supported.
    NotSupported(String),
    /// Any other failure, with its message.
    General(String),
}

/// A result whose error is a `ServerError`.
pub type ServerResult<T> = Result<T, ServerError>;

impl From<CoreError> for ServerError {
    fn from(e: CoreError) -> ServerError {
        ServerError::Core(e)
    }
}

impl vstd::std_specs::convert::FromSpecImpl<CoreError> for ServerError {
    open spec fn obeys_from_spec() -> bool {
        true
    }

    open spec fn from_spec(v: CoreError) -> ServerError {
        ServerError::Core(v)
    }
}

} // verus!
