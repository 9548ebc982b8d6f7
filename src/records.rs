use vstd::prelude::*;

verus! {

/// Protocol-level failures of the tool server.
#[derive(Debug, PartialEq, Eq)]
pub enum McpError {
    InvalidProtocolVersion(String),
    InvalidJsonRpc(String),
    ToolNotFound(String),
    InvalidToolParameters(String),
}

/// Failures of the message transports. An I/O failure carries its error text.
#[derive(Debug, PartialEq, Eq)]
pub enum TransportError {
    WebSocket(String),
    InvalidMessage(String),
    ConnectionClosed,
    Io(String),
}

/// One match of a text search in a file.
#[derive(Debug)]
pub struct Match {
    pub file_path: String,
    pub line_number: u64,
    pub column_start: usize,
    pub column_end: usize,
    pub matched_text: String,
    pub context_before: Option<String>,
    pub context_after: Option<String>,
}

/// One entry of a directory listing.
#[derive(Debug)]
pub struct DirEntry {
    pub name: String,
    pub path: String,
    pub entry_type: String,
    pub size: Option<u64>,
    pub modified: Option<String>,
}

/// Metadata of a file system entry.
#[derive(Debug)]
pub struct FileStat {
    pub path: String,
    pub entry_type: String,
    pub size: u64,
    pub mode: Option<String>,
    pub modified: Option<String>,
    pub accessed: Option<String>,
    pub created: Option<String>,
    pub is_file: bool,
    pub is_dir: bool,
    pub is_symlink: bool,
}

/// The catalogue of tools that the server offers.
#[derive(Debug)]
pub struct ToolRegistry;

impl ToolRegistry {
    pub fn new() -> (r: ToolRegistry)
        ensures
            r == ToolRegistry,
    {
        ToolRegistry
    }
}

} // verus!
