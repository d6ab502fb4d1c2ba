//! A server answering filesystem commands.
use vstd::prelude::*;

use crate::ids::new_id_string;
use crate::protocol::{FileInfo, McpRequest, McpResponse, ResponseStatus};
use crate::servers::ServerResult;

verus! {

/// Answers filesystem commands below a root directory.
#[derive(Debug)]
pub struct FilesystemServer {
    root_dir: String,
    id: String,
}

/// A filesystem command.
#[derive(Debug, Clone)]
pub enum FilesystemCommand {
    /// List the files of a directory.
    List { path: String, recursive: bool },
    /// Read a file.
    Read { path: String, encoding: Option<String> },
    /// Write to a file.
    Write { path: String, content: String, append: bool },
    /// Delete a file or directory.
    Delete { path: String, recursive: bool },
}

/// The answer to a filesystem command.
#[derive(Debug, Clone)]
pub enum FilesystemResponse {
    /// The files of a directory.
    List { files: Vec<FileInfo> },
    /// The content of a file and the encoding used.
    Read { content: String, encoding: String },
    /// How many bytes were written.
    Write { bytes_written: u64 },
    /// Whether the deletion succeeded.
    Delete { success: bool },
}

/// The answer the server gives to `c`.
pub open spec fn filesystem_answer(c: FilesystemCommand, r: FilesystemResponse) -> bool {
    match c {
        FilesystemCommand::List { .. } => r matches FilesystemResponse::List { files } && files@.len() == 0,
        FilesystemCommand::Read { .. } => r matches FilesystemResponse::Read { content, encoding }
            && content@.len() == 0 && encoding@ == "utf-8"@,
        FilesystemCommand::Write { .. } => r matches FilesystemResponse::Write { bytes_written }
            && bytes_written == 0,
        FilesystemCommand::Delete { .. } => r matches FilesystemResponse::Delete { success } && success,
    }
}

impl FilesystemServer {
    /// A server rooted at `root_dir`, with a fresh random id.
    pub fn new(root_dir: &str) -> (r: FilesystemServer)
        ensures
            r.spec_root_dir()@ == root_dir@,
            r.spec_id()@.len() == 36,
    {
        FilesystemServer { root_dir: root_dir.to_owned(), id: new_id_string() }
    }

    /// The server's id.
    pub closed spec fn spec_id(&self) -> String {
        self.id
    }

    /// The directory the server works below.
    pub closed spec fn spec_root_dir(&self) -> String {
        self.root_dir
    }

    /// The server's id.
    pub fn id(&self) -> (r: &str)
        ensures
            r@ == self.spec_id()@,
    {
        self.id.as_str()
    }

    /// The directory the server works below.
    pub fn root_dir(&self) -> (r: &str)
        ensures
            r@ == self.spec_root_dir()@,
    {
        self.root_dir.as_str()
    }

    /// Answers `request`: the response carries the request's command and
    /// id, a success status, and the answer to its command.
    pub fn handle_request(&self, request: McpRequest<FilesystemCommand>) -> (r: ServerResult<
        McpResponse<FilesystemResponse>,
    >)
        ensures
            r matches Ok(resp) && resp.command == request.command && resp.request_id == request.request_id
                && resp.status.code == 0 && filesystem_answer(request.payload, resp.payload),
    {
        let ghost cmd = request.payload;
        let response = match request.payload {
            FilesystemCommand::List { path, recursive } => self.handle_list(path, recursive),
            FilesystemCommand::Read { path, encoding } => self.handle_read(path, encoding),
            FilesystemCommand::Write { path, content, append } => self.handle_write(path, content, append),
            FilesystemCommand::Delete { path, recursive } => self.handle_delete(path, recursive),
        };
        match response {
            Ok(payload) => Ok(
                McpResponse {
                    command: request.command,
                    payload,
                    status: ResponseStatus::success(),
                    request_id: request.request_id,
                },
            ),
            Err(e) => Ok(
                McpResponse {
                    command: request.command,
                    payload: create_error_response(e.as_str()),
                    status: ResponseStatus::error(1, e.as_str()),
                    request_id: request.request_id,
                },
            ),
        }
    }

    fn handle_list(&self, path: String, recursive: bool) -> (r: Result<FilesystemResponse, String>)
        ensures
            r matches Ok(FilesystemResponse::List { files }) && files@.len() == 0,
    {
        Ok(FilesystemResponse::List { files: Vec::new() })
    }

    fn handle_read(&self, path: String, encoding: Option<String>) -> (r: Result<FilesystemResponse, String>)
        ensures
            r matches Ok(FilesystemResponse::Read { content, encoding }) && content@.len() == 0
                && encoding@ == "utf-8"@,
    {
        Ok(FilesystemResponse::Read { content: String::new(), encoding: "utf-8".to_owned() })
    }

    fn handle_write(&self, path: String, content: String, append: bool) -> (r: Result<FilesystemResponse, String>)
        ensures
            r matches Ok(FilesystemResponse::Write { bytes_written }) && bytes_written == 0,
    {
        Ok(FilesystemResponse::Write { bytes_written: 0 })
    }

    fn handle_delete(&self, path: String, recursive: bool) -> (r: Result<FilesystemResponse, String>)
        ensures
            r matches Ok(FilesystemResponse::Delete { success }) && success,
    {
        Ok(FilesystemResponse::Delete { success: true })
    }
}

/// The payload sent with a failure status: an empty listing.
pub fn create_error_response(error: &str) -> (r: FilesystemResponse)
    ensures
        r matches FilesystemResponse::List { files } && files@.len() == 0,
{
    FilesystemResponse::List { files: Vec::new() }
}

} // verus!
