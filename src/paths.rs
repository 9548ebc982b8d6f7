use vstd::prelude::*;
use vstd::string::*;

use crate::error::FileIoError;

verus! {

/// `Path::file_name` of the path `p`: its final component, if it is a name.
pub uninterp spec fn path_file_name(p: Seq<char>) -> Option<Seq<char>>;

/// `Path::parent` of the path `p`: the path without its final component, if any.
pub uninterp spec fn path_parent(p: Seq<char>) -> Option<Seq<char>>;

pub open spec fn text_of(o: Option<String>) -> Option<Seq<char>> {
    match o {
        Some(s) => Some(s@),
        None => None,
    }
}

/// Relies on std::path::Path::file_name; a component of a `&str` path is always
/// valid UTF-8, so `to_str` only converts.
#[verifier::external_body]
fn file_name_of(p: &str) -> (r: Option<String>)
    ensures
        text_of(r) == path_file_name(p@),
{
    std::path::Path::new(p).file_name().and_then(|n| n.to_str()).map(|n| n.to_string())
}

/// Relies on std::path::Path::parent; the parent of a `&str` path is valid UTF-8,
/// so the lossy conversion only converts.
#[verifier::external_body]
fn parent_of(p: &str) -> (r: Option<String>)
    ensures
        text_of(r) == path_parent(p@),
{
    std::path::Path::new(p).parent().map(|d| d.to_string_lossy().to_string())
}

/// The final component of `path`.
pub fn basename(path: &str) -> (r: Result<String, FileIoError>)
    ensures
        match path_file_name(path@) {
            Some(n) => r matches Ok(s) && s@ == n,
            None => r matches Err(FileIoError::InvalidPath(m)) && m@ == "Cannot extract basename from path: "@ + path@,
        },
{
    match file_name_of(path) {
        Some(n) => Ok(n),
        None => {
            let mut m = String::from_str("Cannot extract basename from path: ");
            m.append(path);
            Err(FileIoError::InvalidPath(m))
        },
    }
}

/// `path` without its final component.
pub fn dirname(path: &str) -> (r: Result<String, FileIoError>)
    ensures
        match path_parent(path@) {
            Some(d) => r matches Ok(s) && s@ == d,
            None => r matches Err(FileIoError::InvalidPath(m)) && m@ == "Cannot extract dirname from path: "@ + path@,
        },
{
    match parent_of(path) {
        Some(d) => Ok(d),
        None => {
            let mut m = String::from_str("Cannot extract dirname from path: ");
            m.append(path);
            Err(FileIoError::InvalidPath(m))
        },
    }
}

} // verus!
