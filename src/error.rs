//! Errors shared by the whole library.
use vstd::prelude::*;

verus! {

#[verifier::external_type_specification]
#[verifier::external_body]
pub struct ExIoError(std::io::Error);

/// The library's general error.
#[derive(Debug)]
pub enum CoreError {
    /// The configuration could not be used.
    Config(String),
    /// An I/O operation failed.
    Io(std::io::Error),
    /// A value could not be serialized or deserialized.
    Serialization(String),
    /// Any other failure, with its message.
    Other(String),
}

/// A result whose error is a `CoreError`.
pub type CoreResult<T> = Result<T, CoreError>;

impl From<std::io::Error> for CoreError {
    fn from(e: std::io::Error) -> CoreError {
        CoreError::Io(e)
    }
}

impl vstd::std_specs::convert::FromSpecImpl<std::io::Error> for CoreError {
    open spec fn obeys_from_spec() -> bool {
        true
    }

    open spec fn from_spec(v: std::io::Error) -> CoreError {
        CoreError::Io(v)
    }
}

/// Turns the error of `result`, given by its message, into `CoreError::Other`
/// whose message is `context`, a colon and a space, then the error's message.
pub fn with_context<T>(result: Result<T, String>, context: String) -> (r: CoreResult<T>)
    ensures
        result matches Ok(v) ==> r matches Ok(w) && w == v,
        result matches Err(e) ==> r matches Err(CoreError::Other(m)) && m@ == context@ + ": "@ + e@,
{
    match result {
        Ok(v) => Ok(v),
        Err(e) => {
            let m = context.concat(": ");
            let m = m.concat(e.as_str());
            Err(CoreError::Other(m))
        },
    }
}

} // verus!
