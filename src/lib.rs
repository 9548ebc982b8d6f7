//! Structured file editing for a file-operation tool server: a byte-exact edit
//! engine with line addressing and anchor search, plus the decisions and text
//! processing of the surrounding file tools, each stated and proved in Verus.

/// Byte-buffer splicing and comparison.
pub mod bytes;
/// Line and word counts, and their per-path reports.
pub mod counting;
/// Edit operations, their semantics and the edit request orchestration.
pub mod edit;
/// Errors of the file operations.
pub mod error;
/// Content search and file-name search over walked files.
pub mod find;
/// Message framing helpers of the stdio transport.
pub mod framing;
/// Matching directory entries against glob patterns.
pub mod globbing;
/// Properties of the edit engine that relate several operations.
pub mod laws;
/// Line index: line starts, line counts and line-to-offset resolution.
pub mod lines;
/// Permission modes: parsing, formatting and per-path reports.
pub mod modes;
/// Unified-diff and add/remove-lines patches.
pub mod patch;
/// File and parent names of paths.
pub mod paths;
/// Plain records exchanged with the tool layer.
pub mod records;
/// Decisions and errors of removing paths and directories.
pub mod removal;
/// Per-path operation reports and glob-aware removal targets.
pub mod report;
/// Literal and regular-expression span search.
pub mod search;
/// Routing of JSON-RPC messages and the session's initialized state.
pub mod session;
/// Character-level helpers: whitespace trimming and number parsing.
pub mod text;
/// Character boundaries and UTF-8 validity under edits.
pub mod validity;
/// Windowed line reads.
pub mod window;
