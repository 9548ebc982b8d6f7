use vstd::prelude::*;
use vstd::string::*;

verus! {

/// Errors of the file operations. Each variant carries a human-readable detail.
#[derive(Debug, PartialEq, Eq)]
pub enum FileIoError {
    NotFound(String),
    PermissionDenied(String),
    InvalidPath(String),
    InvalidMode(String),
    ReadError(String),
    WriteError(String),
    PatchError(String),
    InvalidLineNumbers(String),
    RegexError(String),
}

} // verus!

verus! {

/// The kind of a [`FileIoError`], without its detail text.
#[derive(Debug, Clone, Copy, PartialEq, Eq, Structural)]
pub enum ErrorKind {
    NotFound,
    PermissionDenied,
    InvalidPath,
    InvalidMode,
    ReadError,
    WriteError,
    PatchError,
    InvalidLineNumbers,
    RegexError,
}

pub open spec fn kind_of(e: FileIoError) -> ErrorKind {
    match e {
        FileIoError::NotFound(_) => ErrorKind::NotFound,
        FileIoError::PermissionDenied(_) => ErrorKind::PermissionDenied,
        FileIoError::InvalidPath(_) => ErrorKind::InvalidPath,
        FileIoError::InvalidMode(_) => ErrorKind::InvalidMode,
        FileIoError::ReadError(_) => ErrorKind::ReadError,
        FileIoError::WriteError(_) => ErrorKind::WriteError,
        FileIoError::PatchError(_) => ErrorKind::PatchError,
        FileIoError::InvalidLineNumbers(_) => ErrorKind::InvalidLineNumbers,
        FileIoError::RegexError(_) => ErrorKind::RegexError,
    }
}

impl FileIoError {
    pub fn kind(&self) -> (k: ErrorKind)
        ensures
            k == kind_of(*self),
    {
        match self {
            FileIoError::NotFound(_) => ErrorKind::NotFound,
            FileIoError::PermissionDenied(_) => ErrorKind::PermissionDenied,
            FileIoError::InvalidPath(_) => ErrorKind::InvalidPath,
            FileIoError::InvalidMode(_) => ErrorKind::InvalidMode,
            FileIoError::ReadError(_) => ErrorKind::ReadError,
            FileIoError::WriteError(_) => ErrorKind::WriteError,
            FileIoError::PatchError(_) => ErrorKind::PatchError,
            FileIoError::InvalidLineNumbers(_) => ErrorKind::InvalidLineNumbers,
            FileIoError::RegexError(_) => ErrorKind::RegexError,
        }
    }
}

/// Heading of each kind of error in its display text.
pub open spec fn error_heading(e: FileIoError) -> Seq<char> {
    match e {
        FileIoError::NotFound(_) => "File not found: "@,
        FileIoError::PermissionDenied(_) => "Permission denied: "@,
        FileIoError::InvalidPath(_) => "Invalid path: "@,
        FileIoError::InvalidMode(_) => "Invalid file mode: "@,
        FileIoError::ReadError(_) => "Read error: "@,
        FileIoError::WriteError(_) => "Write error: "@,
        FileIoError::PatchError(_) => "Patch application error: "@,
        FileIoError::InvalidLineNumbers(_) => "Invalid line numbers: "@,
        FileIoError::RegexError(_) => "Regex compilation error: "@,
    }
}

/// The detail text that an error carries.
pub open spec fn error_detail(e: FileIoError) -> Seq<char> {
    match e {
        FileIoError::NotFound(m) => m@,
        FileIoError::PermissionDenied(m) => m@,
        FileIoError::InvalidPath(m) => m@,
        FileIoError::InvalidMode(m) => m@,
        FileIoError::ReadError(m) => m@,
        FileIoError::WriteError(m) => m@,
        FileIoError::PatchError(m) => m@,
        FileIoError::InvalidLineNumbers(m) => m@,
        FileIoError::RegexError(m) => m@,
    }
}

/// Display text of an error as a file-operation failure.
pub open spec fn error_text(e: FileIoError) -> Seq<char> {
    "File I/O error: "@ + error_heading(e) + error_detail(e)
}

impl FileIoError {
    /// The human-readable text of this error.
    pub fn describe(&self) -> (r: String)
        ensures
            r@ == error_text(*self),
    {
        let (heading, detail): (&str, &String) = match self {
            FileIoError::NotFound(m) => ("File not found: ", m),
            FileIoError::PermissionDenied(m) => ("Permission denied: ", m),
            FileIoError::InvalidPath(m) => ("Invalid path: ", m),
            FileIoError::InvalidMode(m) => ("Invalid file mode: ", m),
            FileIoError::ReadError(m) => ("Read error: ", m),
            FileIoError::WriteError(m) => ("Write error: ", m),
            FileIoError::PatchError(m) => ("Patch application error: ", m),
            FileIoError::InvalidLineNumbers(m) => ("Invalid line numbers: ", m),
            FileIoError::RegexError(m) => ("Regex compilation error: ", m),
        };
        let mut r = String::from_str("File I/O error: ");
        r.append(heading);
        r.append(detail.as_str());
        r
    }
}

/// The kinds of operating-system I/O failure that get an error of their own.
#[derive(Debug, Clone, Copy, PartialEq, Eq, Structural)]
pub enum IoFailure {
    NotFound,
    PermissionDenied,
    AlreadyExists,
    InvalidInput,
    Other,
}

/// The error reported when `operation` on `path` failed with an I/O error of kind
/// `kind` whose text is `detail`.
pub open spec fn io_error_of(operation: Seq<char>, path: Seq<char>, kind: IoFailure, detail: Seq<char>) -> (ErrorKind, Seq<char>) {
    match kind {
        IoFailure::NotFound => (ErrorKind::NotFound, operation + " not found: "@ + path),
        IoFailure::PermissionDenied => (ErrorKind::PermissionDenied, "Permission denied when "@ + operation + ": "@ + path),
        IoFailure::AlreadyExists => (ErrorKind::WriteError, operation + " already exists: "@ + path),
        IoFailure::InvalidInput => (ErrorKind::InvalidPath, "Invalid input for "@ + operation + ": "@ + path + " ("@ + detail + ")"@),
        IoFailure::Other => (ErrorKind::WriteError, "Failed to "@ + operation + " "@ + path + ": "@ + detail),
    }
}

impl FileIoError {
    /// Maps an I/O failure of `operation` on `path` to a file operation error.
    pub fn from_io_error(operation: &str, path: &str, kind: IoFailure, detail: &str) -> (e: FileIoError)
        ensures
            (kind_of(e), error_detail(e)) == io_error_of(operation@, path@, kind, detail@),
    {
        match kind {
            IoFailure::NotFound => {
                let mut m = String::from_str(operation);
                m.append(" not found: ");
                m.append(path);
                FileIoError::NotFound(m)
            },
            IoFailure::PermissionDenied => {
                let mut m = String::from_str("Permission denied when ");
                m.append(operation);
                m.append(": ");
                m.append(path);
                FileIoError::PermissionDenied(m)
            },
            IoFailure::AlreadyExists => {
                let mut m = String::from_str(operation);
                m.append(" already exists: ");
                m.append(path);
                FileIoError::WriteError(m)
            },
            IoFailure::InvalidInput => {
                let mut m = String::from_str("Invalid input for ");
                m.append(operation);
                m.append(": ");
                m.append(path);
                m.append(" (");
                m.append(detail);
                m.append(")");
                FileIoError::InvalidPath(m)
            },
            IoFailure::Other => {
                let mut m = String::from_str("Failed to ");
                m.append(operation);
                m.append(" ");
                m.append(path);
                m.append(": ");
                m.append(detail);
                FileIoError::WriteError(m)
            },
        }
    }
}

} // verus!
