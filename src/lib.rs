//! Workflow orchestration: dependency graphs of steps, workflow instances
//! and the engine that drives them, together with the request/response
//! envelopes and server registries that steps use to reach remote executors.
use vstd::prelude::*;

pub mod error;
pub mod ids;
pub mod status;
pub mod graph;
pub mod digraph;
pub mod payload;
pub mod steps;
pub mod clock;
pub mod instance;
pub mod engine;
pub mod protocol;
pub mod servers;
pub mod filesystem;
pub mod process;
pub mod registry;
pub mod client;
pub mod mcp_server;
pub mod config;

verus! {

/// Version of the library.
pub const VERSION: &'static str = "0.1.0";

/// Returns the version of the library.
pub fn version() -> (r: &'static str)
    ensures
        r@ == VERSION@,
{
    VERSION
}

/// Initializes the workflow subsystem; nothing in it can fail.
pub fn init() -> (r: Result<(), error::CoreError>)
    ensures
        r is Ok,
{
    Ok(())
}

} // verus!
