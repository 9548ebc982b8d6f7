use vstd::prelude::*;
use vstd::string::*;

use crate::error::FileIoError;

verus! {

/// Whether `pattern` is a valid glob whose regular expression compiles within
/// globset's limits.
pub uninterp spec fn glob_compiles(pattern: Seq<char>) -> bool;

/// Whether the file name `name` matches the glob `pattern`.
pub uninterp spec fn glob_matches(pattern: Seq<char>, name: Seq<char>) -> bool;

/// Relies on globset::Glob::new to parse `pattern`, on GlobMatcher::is_match to
/// test each name, and on regex::bytes::RegexBuilder to compile the glob's regex
/// first with the settings of globset's own compiler (byte mode, `.` matching
/// newlines, 10 MiB limits), so that a regex that cannot compile is an error here
/// rather than a panic in Glob::compile_matcher.
#[verifier::external_body]
fn glob_match_names(pattern: &str, names: &Vec<String>) -> (r: Result<Vec<bool>, String>)
    ensures
        r is Ok <==> glob_compiles(pattern@),
        r matches Ok(v) ==> v@.len() == names@.len() && forall|i: int|
            0 <= i < v@.len() ==> #[trigger] v@[i] == glob_matches(pattern@, names@[i]@),
{
    let glob = globset::Glob::new(pattern).map_err(|e| e.to_string())?;
    regex::bytes::RegexBuilder::new(glob.regex())
        .dot_matches_new_line(true)
        .dfa_size_limit(10 * (1 << 20))
        .build()
        .map_err(|e| e.to_string())?;
    let matcher = glob.compile_matcher();
    Ok(names.iter().map(|n| matcher.is_match(n)).collect())
}

/// Paths of the first `n` entries (file name, path) whose name matches `pattern`.
pub open spec fn glob_hits(pattern: Seq<char>, entries: Seq<(String, String)>, n: int) -> Seq<Seq<char>>
    decreases n,
{
    if n <= 0 {
        Seq::empty()
    } else if glob_matches(pattern, entries[n - 1].0@) {
        glob_hits(pattern, entries, n - 1).push(entries[n - 1].1@)
    } else {
        glob_hits(pattern, entries, n - 1)
    }
}

/// The paths of the directory entries (file name, path) whose name matches the glob
/// `pattern`, in the order given.
pub fn glob_entries(pattern: &str, entries: &Vec<(String, String)>) -> (r: Result<Vec<String>, FileIoError>)
    ensures
        !glob_compiles(pattern@) ==> r matches Err(FileIoError::InvalidPath(_)),
        glob_compiles(pattern@) ==> (r matches Ok(v)
            && v@.map_values(|p: String| p@) == glob_hits(pattern@, entries@, entries@.len() as int)),
{
    let mut names: Vec<String> = Vec::new();
    let mut k: usize = 0;
    while k < entries.len()
        invariant
            k <= entries@.len(),
            names@.len() == k,
            forall|j: int| 0 <= j < k ==> (#[trigger] names@[j])@ == entries@[j].0@,
        decreases entries@.len() - k,
    {
        names.push(entries[k].0.clone());
        k = k + 1;
    }
    let hits = match glob_match_names(pattern, &names) {
        Ok(v) => v,
        Err(msg) => {
            let mut m = String::from_str("Invalid glob pattern ");
            m.append(pattern);
            m.append(": ");
            m.append(msg.as_str());
            return Err(FileIoError::InvalidPath(m));
        },
    };
    let mut out: Vec<String> = Vec::new();
    let mut i: usize = 0;
    while i < entries.len()
        invariant
            names@.len() == entries@.len(),
            hits@.len() == names@.len(),
            forall|j: int| 0 <= j < entries@.len() ==> (#[trigger] names@[j])@ == entries@[j].0@,
            forall|j: int| 0 <= j < hits@.len() ==> #[trigger] hits@[j] == glob_matches(pattern@, names@[j]@),
            i <= entries@.len(),
            out@.map_values(|p: String| p@) == glob_hits(pattern@, entries@, i as int),
        decreases entries@.len() - i,
    {
        assert(hits@[i as int] == glob_matches(pattern@, entries@[i as int].0@));
        if hits[i] {
            let p = entries[i].1.clone();
            let ghost prev = out@;
            out.push(p);
            assert(out@.map_values(|p: String| p@) =~= prev.map_values(|p: String| p@).push(p@));
        }
        i = i + 1;
    }
    Ok(out)
}

} // verus!
