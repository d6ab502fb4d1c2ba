//! A server answering process management commands.
use std::collections::HashMap;
use vstd::prelude::*;

use crate::ids::new_id_string;
use crate::protocol::{McpRequest, McpResponse, ProcessInfo, ResponseStatus};
use crate::servers::ServerResult;

verus! {

/// Answers process management commands.
#[derive(Debug)]
pub struct ProcessServer {
    id: String,
    next_pid: u32,
    processes: HashMap<u32, ProcessInfo>,
}

/// A process management command.
#[derive(Debug, Clone)]
pub enum ProcessCommand {
    /// Start a process.
    Start { command: String, args: Vec<String>, cwd: Option<String>, env: HashMap<String, String> },
    /// Stop a process.
    Stop { pid: u32, force: bool },
    /// List the processes.
    List,
    /// Describe a process.
    Info { pid: u32 },
}

/// The answer to a process management command.
#[derive(Debug, Clone)]
pub enum ProcessResponse {
    /// The process started.
    Start { process: ProcessInfo },
    /// Whether the process stopped, and its id.
    Stop { success: bool, pid: u32 },
    /// The processes.
    List { processes: Vec<ProcessInfo> },
    /// The process described, if it is known.
    Info { process: Option<ProcessInfo> },
}

/// The answer the server gives to `c`.
pub open spec fn process_answer(c: ProcessCommand, r: ProcessResponse) -> bool {
    match c {
        ProcessCommand::Start { .. } => r matches ProcessResponse::Start { process } && process.pid == 0
            && process.name@ == "placeholder"@ && process.command@ == "placeholder"@ && process.status@
            == "running"@ && process.metadata@.is_empty(),
        ProcessCommand::Stop { pid, .. } => r matches ProcessResponse::Stop { success, pid: p } && success && p
            == pid,
        ProcessCommand::List => r matches ProcessResponse::List { processes } && processes@.len() == 0,
        ProcessCommand::Info { .. } => r matches ProcessResponse::Info { process } && process is None,
    }
}

impl ProcessServer {
    /// A server with a fresh random id and no process.
    pub fn new() -> (r: ProcessServer)
        ensures
            r.spec_id()@.len() == 36,
    {
        ProcessServer { id: new_id_string(), next_pid: 1, processes: HashMap::new() }
    }

    /// The server's id.
    pub closed spec fn spec_id(&self) -> String {
        self.id
    }

    /// The server's id.
    pub fn id(&self) -> (r: &str)
        ensures
            r@ == self.spec_id()@,
    {
        self.id.as_str()
    }

    /// Answers `request`: the response carries the request's command and
    /// id, a success status, and the answer to its command.
    pub fn handle_request(&mut self, request: McpRequest<ProcessCommand>) -> (r: ServerResult<
        McpResponse<ProcessResponse>,
    >)
        ensures
            r matches Ok(resp) && resp.command == request.command && resp.request_id == request.request_id
                && resp.status.code == 0 && process_answer(request.payload, resp.payload),
    {
        let response = match request.payload {
            ProcessCommand::Start { command, args, cwd, env } => self.handle_start(command, args, cwd, env),
            ProcessCommand::Stop { pid, force } => self.handle_stop(pid, force),
            ProcessCommand::List => self.handle_list(),
            ProcessCommand::Info { pid } => self.handle_info(pid),
        };
        match response {
            Ok(payload) => Ok(
                McpResponse {
                    command: request.command,
                    payload,
                    status: ResponseStatus::success(),
                    request_id: request.request_id,
                },
            ),
            Err(e) => Ok(
                McpResponse {
                    command: request.command,
                    payload: create_error_response(e.as_str()),
                    status: ResponseStatus::error(1, e.as_str()),
                    request_id: request.request_id,
                },
            ),
        }
    }

    fn handle_start(
        &mut self,
        command: String,
        args: Vec<String>,
        cwd: Option<String>,
        env: HashMap<String, String>,
    ) -> (r: Result<ProcessResponse, String>)
        ensures
            r matches Ok(p) && process_answer(ProcessCommand::Start { command, args, cwd, env }, p),
    {
        let process = ProcessInfo {
            pid: 0,
            name: "placeholder".to_owned(),
            command: "placeholder".to_owned(),
            status: "running".to_owned(),
            metadata: HashMap::new(),
        };
        Ok(ProcessResponse::Start { process })
    }

    fn handle_stop(&mut self, pid: u32, force: bool) -> (r: Result<ProcessResponse, String>)
        ensures
            r matches Ok(ProcessResponse::Stop { success, pid: p }) && success && p == pid,
    {
        Ok(ProcessResponse::Stop { success: true, pid })
    }

    fn handle_list(&self) -> (r: Result<ProcessResponse, String>)
        ensures
            r matches Ok(ProcessResponse::List { processes }) && processes@.len() == 0,
    {
        Ok(ProcessResponse::List { processes: Vec::new() })
    }

    fn handle_info(&self, pid: u32) -> (r: Result<ProcessResponse, String>)
        ensures
            r matches Ok(ProcessResponse::Info { process }) && process is None,
    {
        Ok(ProcessResponse::Info { process: None })
    }
}

/// The payload sent with a failure status: an empty listing.
pub fn create_error_response(error: &str) -> (r: ProcessResponse)
    ensures
        r matches ProcessResponse::List { processes } && processes@.len() == 0,
{
    ProcessResponse::List { processes: Vec::new() }
}

impl Default for ProcessServer {
    fn default() -> (r: ProcessServer)
        ensures
            r.spec_id()@.len() == 36,
    {
        ProcessServer::new()
    }
}

} // verus!
