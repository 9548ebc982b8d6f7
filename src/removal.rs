use vstd::prelude::*;
use vstd::string::*;

use crate::error::{error_text, io_error_of, kind_of, error_detail, FileIoError, IoFailure};

verus! {

/// What removing one path does, from what is known of it.
#[derive(Debug, Clone, Copy, PartialEq, Eq, Structural)]
pub enum Removal {
    /// Nothing to remove.
    Nothing,
    /// Remove a file or a symbolic link.
    File,
    /// Remove a directory with everything in it.
    Tree,
    /// Remove a directory that must be empty.
    EmptyDir,
}

/// The removal of a path: a missing path is an error unless `force` is set; files
/// and symbolic links are unlinked; directories go whole when `recursive`, else
/// only when empty; anything else is left alone.
pub open spec fn removal_of(exists: bool, is_file: bool, is_symlink: bool, is_dir: bool, recursive: bool, force: bool) -> Option<Removal> {
    if !exists {
        if force { Some(Removal::Nothing) } else { None }
    } else if is_file || is_symlink {
        Some(Removal::File)
    } else if is_dir {
        Some(if recursive { Removal::Tree } else { Removal::EmptyDir })
    } else {
        Some(Removal::Nothing)
    }
}

/// Decides how to remove `path`; a missing path without `force` is NotFound.
pub fn removal_plan(path: &str, exists: bool, is_file: bool, is_symlink: bool, is_dir: bool, recursive: bool, force: bool) -> (r: Result<Removal, FileIoError>)
    ensures
        match removal_of(exists, is_file, is_symlink, is_dir, recursive, force) {
            Some(a) => r == Ok::<Removal, FileIoError>(a),
            None => r matches Err(FileIoError::NotFound(m)) && m@ == path@,
        },
{
    if !exists {
        if force {
            return Ok(Removal::Nothing);
        }
        return Err(FileIoError::NotFound(String::from_str(path)));
    }
    if is_file || is_symlink {
        Ok(Removal::File)
    } else if is_dir {
        Ok(if recursive { Removal::Tree } else { Removal::EmptyDir })
    } else {
        Ok(Removal::Nothing)
    }
}

/// The error reported when a removal of `path` failed with an I/O error.
pub open spec fn removal_failure(path: Seq<char>, action: Removal, kind: IoFailure, detail: Seq<char>) -> (crate::error::ErrorKind, Seq<char>) {
    if action != Removal::File && kind == IoFailure::PermissionDenied {
        (crate::error::ErrorKind::PermissionDenied, "Permission denied when removing directory: "@ + path)
    } else if action == Removal::EmptyDir && kind == IoFailure::InvalidInput {
        (crate::error::ErrorKind::WriteError, "Directory is not empty: "@ + path + ". Use recursive=true to remove non-empty directories"@)
    } else if action == Removal::File {
        io_error_of("remove file"@, path, kind, detail)
    } else {
        io_error_of("remove directory"@, path, kind, detail)
    }
}

/// Maps an I/O failure of removing `path` to a file operation error.
pub fn removal_error(path: &str, action: Removal, kind: IoFailure, detail: &str) -> (e: FileIoError)
    ensures
        (kind_of(e), error_detail(e)) == removal_failure(path@, action, kind, detail@),
{
    if action != Removal::File && kind == IoFailure::PermissionDenied {
        let mut m = String::from_str("Permission denied when removing directory: ");
        m.append(path);
        FileIoError::PermissionDenied(m)
    } else if action == Removal::EmptyDir && kind == IoFailure::InvalidInput {
        let mut m = String::from_str("Directory is not empty: ");
        m.append(path);
        m.append(". Use recursive=true to remove non-empty directories");
        FileIoError::WriteError(m)
    } else if action == Removal::File {
        FileIoError::from_io_error("remove file", path, kind, detail)
    } else {
        FileIoError::from_io_error("remove directory", path, kind, detail)
    }
}

/// Checks of a directory removal: the path must exist and be a directory, and
/// without `recursive` it must have no entries.
pub open spec fn directory_check(path: Seq<char>, exists: bool, is_dir: bool, has_entries: bool, recursive: bool) -> Option<(crate::error::ErrorKind, Seq<char>)> {
    if !exists {
        Some((crate::error::ErrorKind::NotFound, path))
    } else if !is_dir {
        Some((crate::error::ErrorKind::InvalidPath, "Path is not a directory: "@ + path))
    } else if !recursive && has_entries {
        Some((crate::error::ErrorKind::WriteError, "Directory is not empty: "@ + path + ". Use recursive=true to remove non-empty directories"@))
    } else {
        None
    }
}

/// Whether `path` may be removed as a directory (see `directory_check`).
pub fn rmdir_check(path: &str, exists: bool, is_dir: bool, has_entries: bool, recursive: bool) -> (r: Result<(), FileIoError>)
    ensures
        match directory_check(path@, exists, is_dir, has_entries, recursive) {
            None => r is Ok,
            Some(k) => r matches Err(e) && (kind_of(e), error_detail(e)) == k,
        },
{
    if !exists {
        return Err(FileIoError::NotFound(String::from_str(path)));
    }
    if !is_dir {
        let mut m = String::from_str("Path is not a directory: ");
        m.append(path);
        return Err(FileIoError::InvalidPath(m));
    }
    if !recursive && has_entries {
        let mut m = String::from_str("Directory is not empty: ");
        m.append(path);
        m.append(". Use recursive=true to remove non-empty directories");
        return Err(FileIoError::WriteError(m));
    }
    Ok(())
}

/// The error of a directory whose removal failed with `e`.
pub fn rmdir_failure(path: &str, e: &FileIoError) -> (r: FileIoError)
    ensures
        r matches FileIoError::WriteError(m) && m@ == "Removal failed: "@ + path@ + ": error: "@ + error_text(*e),
{
    let mut m = String::from_str("Removal failed: ");
    m.append(path);
    m.append(": error: ");
    m.append(e.describe().as_str());
    FileIoError::WriteError(m)
}

} // verus!
