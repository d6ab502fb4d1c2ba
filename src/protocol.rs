//! The envelopes exchanged with remote command executors.
use std::collections::HashMap;
use vstd::prelude::*;

use crate::ids::new_id_string;

verus! {

/// The kinds of command a request can carry.
#[derive(Debug, Clone, Copy, PartialEq, Eq, Structural)]
pub enum CommandType {
    /// Execute a command.
    Execute,
    /// Query the system for information.
    Query,
    /// Monitor the system for events.
    Monitor,
    /// Register a new component.
    Register,
}

/// The name of each command type.
pub open spec fn command_name(c: CommandType) -> Seq<char> {
    match c {
        CommandType::Execute => "execute"@,
        CommandType::Query => "query"@,
        CommandType::Monitor => "monitor"@,
        CommandType::Register => "register"@,
    }
}

/// The command type a name stands for, if any.
pub open spec fn command_of(s: Seq<char>) -> Option<CommandType> {
    if s == "execute"@ {
        Some(CommandType::Execute)
    } else if s == "query"@ {
        Some(CommandType::Query)
    } else if s == "monitor"@ {
        Some(CommandType::Monitor)
    } else if s == "register"@ {
        Some(CommandType::Register)
    } else {
        None
    }
}

/// Whether `a` and `b` hold the same characters.
pub fn same_text(a: &str, b: &str) -> (r: bool)
    ensures
        r == (a@ == b@),
{
    let n = a.unicode_len();
    if n != b.unicode_len() {
        return false;
    }
    let mut i: usize = 0;
    while i < n
        invariant
            n == a@.len(),
            n == b@.len(),
            i <= n,
            forall|q: int| 0 <= q < i ==> a@[q] == b@[q],
        decreases n - i,
    {
        if a.get_char(i) != b.get_char(i) {
            return false;
        }
        i = i + 1;
    }
    assert(a@ =~= b@);
    true
}

impl CommandType {
    /// The command type's name.
    pub fn as_str(&self) -> (r: &'static str)
        ensures
            r@ == command_name(*self),
    {
        match self {
            CommandType::Execute => "execute",
            CommandType::Query => "query",
            CommandType::Monitor => "monitor",
            CommandType::Register => "register",
        }
    }

    /// The command type named `s`, or `None` if no type has that name.
    pub fn from_str(s: &str) -> (r: Option<CommandType>)
        ensures
            r == command_of(s@),
    {
        if same_text(s, "execute") {
            Some(CommandType::Execute)
        } else if same_text(s, "query") {
            Some(CommandType::Query)
        } else if same_text(s, "monitor") {
            Some(CommandType::Monitor)
        } else if same_text(s, "register") {
            Some(CommandType::Register)
        } else {
            None
        }
    }
}

/// Naming a command type and reading the name back gives the same type.
pub proof fn law_command_name_round_trip(c: CommandType)
    ensures
        command_of(command_name(c)) == Some(c),
{
    reveal_strlit("execute");
    reveal_strlit("query");
    reveal_strlit("monitor");
    reveal_strlit("register");
    assert("query"@.len() != "execute"@.len());
    assert("monitor"@[0] != "execute"@[0]);
    assert("monitor"@.len() != "query"@.len());
    assert("register"@.len() != "execute"@.len());
    assert("register"@.len() != "query"@.len());
    assert("register"@.len() != "monitor"@.len());
}

/// A request: a command, its payload and an id to match the response.
#[derive(Debug, Clone)]
pub struct McpRequest<T> {
    /// The command.
    pub command: String,
    /// The payload.
    pub payload: T,
    /// The id that the response carries back.
    pub request_id: Option<String>,
}

impl<T> McpRequest<T> {
    /// A request for `command` with `payload` and a fresh random id.
    pub fn new(command: &str, payload: T) -> (r: McpRequest<T>)
        ensures
            r.command@ == command@,
            r.payload == payload,
            r.request_id matches Some(id) && id@.len() == 36,
    {
        McpRequest { command: command.to_owned(), payload, request_id: Some(new_id_string()) }
    }

    /// A request for the command named by `command_type`.
    pub fn from_command_type(command_type: CommandType, payload: T) -> (r: McpRequest<T>)
        ensures
            r.command@ == command_name(command_type),
            r.payload == payload,
            r.request_id matches Some(id) && id@.len() == 36,
    {
        McpRequest::new(command_type.as_str(), payload)
    }
}

/// A response: the command answered, its payload, the outcome and the
/// request's id.
#[derive(Debug, Clone)]
pub struct McpResponse<T> {
    /// The command answered.
    pub command: String,
    /// The payload.
    pub payload: T,
    /// The outcome.
    pub status: ResponseStatus,
    /// The id of the request answered.
    pub request_id: Option<String>,
}

/// The outcome of a request: code 0 is success, any other an error.
#[derive(Debug, Clone)]
pub struct ResponseStatus {
    /// The status code.
    pub code: i32,
    /// The status message.
    pub message: String,
}

impl ResponseStatus {
    /// The success status: code 0, message "Success".
    pub fn success() -> (r: ResponseStatus)
        ensures
            r.code == 0,
            r.message@ == "Success"@,
    {
        ResponseStatus { code: 0, message: "Success".to_owned() }
    }

    /// A status with `code` and `message`.
    pub fn error(code: i32, message: &str) -> (r: ResponseStatus)
        ensures
            r.code == code,
            r.message@ == message@,
    {
        ResponseStatus { code, message: message.to_owned() }
    }

    /// Whether the status is a success, that is its code is 0.
    pub fn is_success(&self) -> (r: bool)
        ensures
            r == (self.code == 0),
    {
        self.code == 0
    }
}

/// A file or directory as a filesystem server reports it.
#[derive(Debug, Clone)]
pub struct FileInfo {
    /// The file's name.
    pub name: String,
    /// The file's path.
    pub path: String,
    /// The size in bytes.
    pub size: u64,
    /// Whether it is a directory.
    pub is_directory: bool,
    /// Further attributes.
    pub metadata: HashMap<String, String>,
}

/// A process as a process server reports it.
#[derive(Debug, Clone)]
pub struct ProcessInfo {
    /// The process id.
    pub pid: u32,
    /// The process name.
    pub name: String,
    /// The command that started it.
    pub command: String,
    /// Its status.
    pub status: String,
    /// Further attributes.
    pub metadata: HashMap<String, String>,
}

} // verus!
