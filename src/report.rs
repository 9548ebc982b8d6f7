use vstd::prelude::*;
use vstd::string::*;

use crate::error::{error_text, FileIoError};

verus! {

/// Outcome of a file operation on one path.
#[derive(Debug)]
pub struct OpResult {
    pub path: String,
    pub status: String,
    pub exists: bool,
}

/// Text of one failed operation: the path and its error.
pub open spec fn path_failure(path: Seq<char>, e: FileIoError) -> Seq<char> {
    path + ": "@ + error_text(e)
}

/// Failures among the first `n` outcomes, joined by `"; "`.
pub open spec fn failures_text<T>(paths: Seq<String>, outs: Seq<Result<T, FileIoError>>, n: int) -> Seq<char>
    decreases n,
{
    if n <= 0 {
        Seq::empty()
    } else {
        let before = failures_text(paths, outs, n - 1);
        match outs[n - 1] {
            Ok(_) => before,
            Err(e) => if before.len() == 0 {
                path_failure(paths[n - 1]@, e)
            } else {
                before + "; "@ + path_failure(paths[n - 1]@, e)
            },
        }
    }
}

pub open spec fn any_failed<T>(outs: Seq<Result<T, FileIoError>>) -> bool {
    exists|i: int| 0 <= i < outs.len() && #[trigger] outs[i] is Err
}

/// Appends the failure of `path` to the `"; "`-separated list `failures`.
pub fn add_failure(failures: &mut String, path: &String, e: &FileIoError)
    ensures
        final(failures)@ == if old(failures)@.len() == 0 {
            path_failure(path@, *e)
        } else {
            old(failures)@ + "; "@ + path_failure(path@, *e)
        },
        final(failures)@.len() > 0,
{
    proof { reveal_strlit(": "); }
    if failures.as_str().is_empty() == false {
        failures.append("; ");
    }
    failures.append(path.as_str());
    failures.append(": ");
    failures.append(e.describe().as_str());
}

/// Status text of an operation outcome.
pub open spec fn op_status(out: Result<(), FileIoError>) -> Seq<char> {
    match out {
        Ok(()) => "ok"@,
        Err(e) => "error: "@ + error_text(e),
    }
}

/// `r` reports outcome `out` of the operation on `path`.
pub open spec fn op_reports(r: OpResult, path: Seq<char>, out: Result<(), FileIoError>) -> bool {
    &&& r.path@ == path
    &&& r.status@ == op_status(out)
    &&& r.exists == !(out matches Err(FileIoError::NotFound(_)))
}

/// One result per path, from the outcome of the operation on it.
pub fn op_results(paths: &Vec<String>, outcomes: &Vec<Result<(), FileIoError>>) -> (r: Vec<OpResult>)
    requires
        paths@.len() == outcomes@.len(),
    ensures
        r@.len() == paths@.len(),
        forall|i: int| 0 <= i < r@.len() ==> op_reports(#[trigger] r@[i], paths@[i]@, outcomes@[i]),
{
    let mut out: Vec<OpResult> = Vec::new();
    let mut i: usize = 0;
    while i < paths.len()
        invariant
            paths@.len() == outcomes@.len(),
            i <= paths@.len(),
            out@.len() == i,
            forall|j: int| 0 <= j < i ==> op_reports(#[trigger] out@[j], paths@[j]@, outcomes@[j]),
        decreases paths@.len() - i,
    {
        let entry = match &outcomes[i] {
            Ok(()) => OpResult { path: paths[i].clone(), status: String::from_str("ok"), exists: true },
            Err(e) => {
                let mut status = String::from_str("error: ");
                status.append(e.describe().as_str());
                OpResult {
                    path: paths[i].clone(),
                    status,
                    exists: !(e.kind() == crate::error::ErrorKind::NotFound),
                }
            },
        };
        out.push(entry);
        i = i + 1;
    }
    out
}

/// Combines the outcomes of touching each path: success, or one error that lists
/// every failure.
pub fn touch(paths: &Vec<String>, outcomes: &Vec<Result<(), FileIoError>>) -> (r: Result<(), FileIoError>)
    requires
        paths@.len() == outcomes@.len(),
    ensures
        !any_failed(outcomes@) ==> r is Ok,
        any_failed(outcomes@) ==> (r matches Err(FileIoError::WriteError(m))
            && m@ == "Some touch operations failed: "@ + failures_text(paths@, outcomes@, paths@.len() as int)),
{
    let mut failures = String::new();
    let mut failed = false;
    let mut i: usize = 0;
    while i < paths.len()
        invariant
            paths@.len() == outcomes@.len(),
            i <= paths@.len(),
            failed == exists|j: int| 0 <= j < i && #[trigger] outcomes@[j] is Err,
            failures@ == failures_text(paths@, outcomes@, i as int),
            failed == (failures@.len() > 0),
        decreases paths@.len() - i,
    {
        if let Err(e) = &outcomes[i] {
            add_failure(&mut failures, &paths[i], e);
            failed = true;
        }
        i = i + 1;
    }
    if failed {
        let mut m = String::from_str("Some touch operations failed: ");
        m.append(failures.as_str());
        return Err(FileIoError::WriteError(m));
    }
    Ok(())
}

/// Does `s` hold a glob metacharacter (`*`, `?`, `[` or `{`)?
pub open spec fn has_glob_char(s: Seq<char>) -> bool {
    exists|i: int| 0 <= i < s.len() && (s[i] == '*' || s[i] == '?' || s[i] == '[' || s[i] == '{')
}

/// Whether `s` is a glob pattern rather than a plain path.
pub fn is_glob_pattern(s: &str) -> (r: bool)
    ensures
        r == has_glob_char(s@),
{
    let cs = crate::text::chars_of(s);
    let mut i: usize = 0;
    while i < cs.len()
        invariant
            cs@ == s@,
            i <= cs@.len(),
            forall|j: int| 0 <= j < i ==> !(cs@[j] == '*' || cs@[j] == '?' || cs@[j] == '[' || cs@[j] == '{'),
        decreases cs@.len() - i,
    {
        let c = cs[i];
        if c == '*' || c == '?' || c == '[' || c == '{' {
            return true;
        }
        i = i + 1;
    }
    false
}

/// The paths that a removal acts on: each plain path as given, each glob pattern
/// replaced by the paths it matched (`matches[i]`).
pub open spec fn targets_of(paths: Seq<String>, matches: Seq<Vec<String>>, n: int) -> Seq<Seq<char>>
    decreases n,
{
    if n <= 0 {
        Seq::empty()
    } else if has_glob_char(paths[n - 1]@) {
        targets_of(paths, matches, n - 1) + matches[n - 1]@.map_values(|p: String| p@)
    } else {
        targets_of(paths, matches, n - 1).push(paths[n - 1]@)
    }
}

/// Index of the first glob pattern that matched nothing, if any.
pub open spec fn unmatched_glob(paths: Seq<String>, matches: Seq<Vec<String>>, i: int) -> bool {
    0 <= i < paths.len() && has_glob_char(paths[i]@) && matches[i]@.len() == 0
}

/// Index `i` holds the first glob pattern that matched nothing.
pub open spec fn first_unmatched_glob(paths: Seq<String>, matches: Seq<Vec<String>>, i: int) -> bool {
    unmatched_glob(paths, matches, i) && forall|j: int| 0 <= j < i ==> !unmatched_glob(paths, matches, j)
}

/// Expands the paths of a removal. A glob pattern that matched nothing fails with
/// NotFound unless `force` is set, in which case it is skipped.
pub fn removal_targets(paths: &Vec<String>, matches: &Vec<Vec<String>>, force: bool) -> (r: Result<Vec<String>, FileIoError>)
    requires
        paths@.len() == matches@.len(),
    ensures
        !force && (exists|i: int| unmatched_glob(paths@, matches@, i)) ==> (r matches Err(FileIoError::NotFound(m))
            && exists|i: int| #[trigger] first_unmatched_glob(paths@, matches@, i)
                && m@ == "No files match pattern: "@ + paths@[i]@),
        force || !(exists|i: int| unmatched_glob(paths@, matches@, i)) ==> (r matches Ok(v)
            && v@.map_values(|p: String| p@) == targets_of(paths@, matches@, paths@.len() as int)),
{
    let mut out: Vec<String> = Vec::new();
    let mut i: usize = 0;
    while i < paths.len()
        invariant
            paths@.len() == matches@.len(),
            i <= paths@.len(),
            out@.map_values(|p: String| p@) == targets_of(paths@, matches@, i as int),
            !force ==> forall|j: int| 0 <= j < i ==> !unmatched_glob(paths@, matches@, j),
        decreases paths@.len() - i,
    {
        if is_glob_pattern(paths[i].as_str()) {
            let found = &matches[i];
            if found.len() == 0 && !force {
                assert(unmatched_glob(paths@, matches@, i as int));
                assert(first_unmatched_glob(paths@, matches@, i as int));
                let mut m = String::from_str("No files match pattern: ");
                m.append(paths[i].as_str());
                return Err(FileIoError::NotFound(m));
            }
            let ghost before = out@;
            let mut k: usize = 0;
            while k < found.len()
                invariant
                    k <= found@.len(),
                    out@.map_values(|p: String| p@) == before.map_values(|p: String| p@)
                        + found@.subrange(0, k as int).map_values(|p: String| p@),
                decreases found@.len() - k,
            {
                let c = found[k].clone();
                let ghost prev = out@;
                out.push(c);
                assert(out@.map_values(|p: String| p@) =~= prev.map_values(|p: String| p@).push(c@));
                assert(found@.subrange(0, k + 1).map_values(|p: String| p@)
                    =~= found@.subrange(0, k as int).map_values(|p: String| p@).push(found@[k as int]@));
                assert(out@.map_values(|p: String| p@) =~= before.map_values(|p: String| p@)
                    + found@.subrange(0, k + 1).map_values(|p: String| p@));
                k = k + 1;
            }
            assert(found@.subrange(0, found@.len() as int) =~= found@);
        } else {
            let c = paths[i].clone();
            let ghost prev = out@;
            out.push(c);
            assert(out@.map_values(|p: String| p@) =~= prev.map_values(|p: String| p@).push(c@));
            assert(out@.map_values(|p: String| p@) =~= targets_of(paths@, matches@, i as int).push(paths@[i as int]@));
        }
        i = i + 1;
    }
    Ok(out)
}

} // verus!
