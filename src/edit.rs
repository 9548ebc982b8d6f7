use vstd::prelude::*;
use vstd::string::*;
use vstd::utf8::*;

use crate::bytes::{same_bytes, splice, splice_bytes, string_from_utf8};
use crate::error::{kind_of, ErrorKind, FileIoError};
use crate::lines::{line_range_offsets, line_range_spec, line_start_offset, line_start_spec};
use crate::lines::lemma_line_starts_bounds;
use crate::search::{find_nth_span, span_outcome};
use crate::validity::{lemma_line_starts_are_boundaries, lemma_splice_valid};

verus! {

/// One structured edit. Anchor edits locate text by a literal or regex search and
/// act on its `occurrence`-th match; line edits address 1-based lines.
#[derive(Debug)]
pub enum EditOperation {
    InsertAfter { search: String, text: String, use_regex: bool, occurrence: u32, require_match: bool },
    InsertBefore { search: String, text: String, use_regex: bool, occurrence: u32, require_match: bool },
    Replace { search: String, text: String, use_regex: bool, occurrence: u32, require_match: bool },
    Delete { search: String, use_regex: bool, occurrence: u32, require_match: bool },
    InsertAtLine { line: u64, text: String },
    ReplaceLines { start_line: u64, end_line: u64, text: String },
    DeleteLines { start_line: u64, end_line: u64 },
}

/// A request to apply an ordered list of edits to one file.
#[derive(Debug)]
pub struct EditFileRequest {
    pub path: String,
    pub edits: Vec<EditOperation>,
    pub create_if_missing: bool,
    pub dry_run: bool,
    pub return_content: bool,
}

/// What an edit request did.
#[derive(Debug, PartialEq, Eq)]
pub struct EditFileResult {
    pub path: String,
    pub changed: bool,
    pub applied_edits: usize,
    pub dry_run: bool,
    pub content: Option<String>,
}

/// Where an anchor edit puts its text relative to the matched span.
pub enum Placement {
    After,
    Before,
    Over,
}

/// UTF-8 bytes of a string.
pub open spec fn utf8(s: String) -> Seq<u8> {
    encode_utf8(s@)
}

/// The span that an anchor search selects, or the kind of error it raises.
pub open spec fn anchor_span(buf: Seq<u8>, search: Seq<char>, use_regex: bool, occurrence: u32) -> Result<Option<(usize, usize)>, ErrorKind> {
    if occurrence == 0 {
        Err(ErrorKind::InvalidLineNumbers)
    } else if search.len() == 0 && !use_regex {
        Err(ErrorKind::InvalidPath)
    } else {
        span_outcome(buf, search, use_regex, occurrence as nat)
    }
}

pub open spec fn anchored_edit(
    buf: Seq<u8>,
    search: Seq<char>,
    use_regex: bool,
    occurrence: u32,
    require_match: bool,
    place: Placement,
    text: Seq<u8>,
) -> Result<Seq<u8>, ErrorKind> {
    match anchor_span(buf, search, use_regex, occurrence) {
        Err(k) => Err(k),
        Ok(None) => if require_match {
            Err(ErrorKind::InvalidPath)
        } else {
            Ok(buf)
        },
        Ok(Some((s, e))) => Ok(
            match place {
                Placement::After => splice(buf, e as int, e as int, text),
                Placement::Before => splice(buf, s as int, s as int, text),
                Placement::Over => splice(buf, s as int, e as int, text),
            },
        ),
    }
}

/// Replacement text for whole lines: a newline is added when the removed span
/// ended with one and the text does not.
pub open spec fn line_replacement(removed: Seq<u8>, text: Seq<u8>) -> Seq<u8> {
    if removed.len() > 0 && removed.last() == 10u8 && !(text.len() > 0 && text.last() == 10u8) {
        text.push(10u8)
    } else {
        text
    }
}

/// A 1-based line number given as `u64`, when it fits the platform's `usize`.
pub open spec fn line_arg(v: u64) -> Option<nat> {
    if v <= usize::MAX {
        Some(v as nat)
    } else {
        None
    }
}

/// The buffer after one edit, or the kind of error the edit raises.
pub open spec fn edit_step(buf: Seq<u8>, op: EditOperation) -> Result<Seq<u8>, ErrorKind> {
    match op {
        EditOperation::InsertAfter { search, text, use_regex, occurrence, require_match } =>
            anchored_edit(buf, search@, use_regex, occurrence, require_match, Placement::After, utf8(text)),
        EditOperation::InsertBefore { search, text, use_regex, occurrence, require_match } =>
            anchored_edit(buf, search@, use_regex, occurrence, require_match, Placement::Before, utf8(text)),
        EditOperation::Replace { search, text, use_regex, occurrence, require_match } =>
            anchored_edit(buf, search@, use_regex, occurrence, require_match, Placement::Over, utf8(text)),
        EditOperation::Delete { search, use_regex, occurrence, require_match } =>
            anchored_edit(buf, search@, use_regex, occurrence, require_match, Placement::Over, Seq::empty()),
        EditOperation::InsertAtLine { line, text } => match line_arg(line) {
            None => Err(ErrorKind::InvalidLineNumbers),
            Some(l) => match line_start_spec(buf, l, true) {
                None => Err(ErrorKind::InvalidLineNumbers),
                Some(off) => Ok(splice(buf, off as int, off as int, utf8(text))),
            },
        },
        EditOperation::ReplaceLines { start_line, end_line, text } => match (line_arg(start_line), line_arg(end_line)) {
            (Some(a), Some(b)) => match line_range_spec(buf, a, b) {
                None => Err(ErrorKind::InvalidLineNumbers),
                Some((s, e)) => Ok(splice(buf, s as int, e as int, line_replacement(buf.subrange(s as int, e as int), utf8(text)))),
            },
            _ => Err(ErrorKind::InvalidLineNumbers),
        },
        EditOperation::DeleteLines { start_line, end_line } => match (line_arg(start_line), line_arg(end_line)) {
            (Some(a), Some(b)) => match line_range_spec(buf, a, b) {
                None => Err(ErrorKind::InvalidLineNumbers),
                Some((s, e)) => Ok(splice(buf, s as int, e as int, Seq::empty())),
            },
            _ => Err(ErrorKind::InvalidLineNumbers),
        },
    }
}

/// Search text, label and `require_match` of an anchor edit.
pub open spec fn anchor_parts(op: EditOperation) -> Option<(Seq<char>, Seq<char>, bool)> {
    match op {
        EditOperation::InsertAfter { search, require_match, .. } => Some((search@, "insert_after"@, require_match)),
        EditOperation::InsertBefore { search, require_match, .. } => Some((search@, "insert_before"@, require_match)),
        EditOperation::Replace { search, require_match, .. } => Some((search@, "replace"@, require_match)),
        EditOperation::Delete { search, require_match, .. } => Some((search@, "delete"@, require_match)),
        _ => None,
    }
}

/// Is `op` an anchor edit whose search found no match?
pub open spec fn anchor_missing(buf: Seq<u8>, op: EditOperation) -> bool {
    match op {
        EditOperation::InsertAfter { search, use_regex, occurrence, .. } => anchor_span(buf, search@, use_regex, occurrence) == Ok::<Option<(usize, usize)>, ErrorKind>(None),
        EditOperation::InsertBefore { search, use_regex, occurrence, .. } => anchor_span(buf, search@, use_regex, occurrence) == Ok::<Option<(usize, usize)>, ErrorKind>(None),
        EditOperation::Replace { search, use_regex, occurrence, .. } => anchor_span(buf, search@, use_regex, occurrence) == Ok::<Option<(usize, usize)>, ErrorKind>(None),
        EditOperation::Delete { search, use_regex, occurrence, .. } => anchor_span(buf, search@, use_regex, occurrence) == Ok::<Option<(usize, usize)>, ErrorKind>(None),
        _ => false,
    }
}

/// Text of the error raised when a required anchor is not found.
pub open spec fn missing_anchor_text(label: Seq<char>, search: Seq<char>) -> Seq<char> {
    "Edit failed: search pattern not found ("@ + label + "): "@ + search
}

/// `e` is the error that names the unmatched search of anchor edit `op`.
pub open spec fn reports_missing_anchor(op: EditOperation, e: FileIoError) -> bool {
    match anchor_parts(op) {
        Some((search, label, _)) => e matches FileIoError::InvalidPath(m) && m@ == missing_anchor_text(label, search),
        None => false,
    }
}

fn missing_anchor_error(label: &str, search: &String) -> (e: FileIoError)
    ensures
        e == FileIoError::InvalidPath(e->InvalidPath_0),
        e->InvalidPath_0@ == missing_anchor_text(label@, search@),
{
    let mut m = String::from_str("Edit failed: search pattern not found (");
    m.append(label);
    m.append("): ");
    m.append(search.as_str());
    FileIoError::InvalidPath(m)
}

/// A line number as `usize`; one that does not fit is refused with a message that
/// names the field and the value.
fn u64_to_usize(v: u64, field: &str) -> (r: Result<usize, FileIoError>)
    ensures
        match line_arg(v) {
            Some(n) => r == Ok::<usize, FileIoError>(n as usize),
            None => r matches Err(FileIoError::InvalidLineNumbers(m))
                && m@ == field@ + " is too large: "@ + crate::text::decimal_chars(v as nat),
        },
{
    if v <= usize::MAX as u64 {
        Ok(v as usize)
    } else {
        let mut m = String::from_str(field);
        m.append(" is too large: ");
        m.append(crate::text::decimal(v).as_str());
        Err(FileIoError::InvalidLineNumbers(m))
    }
}

fn anchored(
    buf: &[u8],
    search: &String,
    use_regex: bool,
    occurrence: u32,
    require_match: bool,
    place: Placement,
    text: &[u8],
    label: &str,
) -> (r: Result<Vec<u8>, FileIoError>)
    ensures
        match anchored_edit(buf@, search@, use_regex, occurrence, require_match, place, text@) {
            Ok(b) => r matches Ok(v) && v@ == b,
            Err(k) => r matches Err(e) && kind_of(e) == k,
        },
        require_match && anchor_span(buf@, search@, use_regex, occurrence) == Ok::<Option<(usize, usize)>, ErrorKind>(None)
            ==> (r matches Err(FileIoError::InvalidPath(m)) && m@ == missing_anchor_text(label@, search@)),
        valid_utf8(buf@) && valid_utf8(text@) ==> (r matches Ok(v) ==> valid_utf8(v@)),
{
    match find_nth_span(buf, search.as_str(), use_regex, occurrence) {
        Err(e) => Err(e),
        Ok(None) => {
            if require_match {
                Err(missing_anchor_error(label, search))
            } else {
                let mut same: Vec<u8> = Vec::new();
                crate::bytes::push_range(&mut same, buf, 0, buf.len());
                assert(buf@.subrange(0, buf@.len() as int) =~= buf@);
                Ok(same)
            }
        },
        Ok(Some((s, e))) => {
            proof {
                if valid_utf8(buf@) && valid_utf8(text@) {
                    lemma_splice_valid(buf@, s as int, s as int, text@);
                    lemma_splice_valid(buf@, e as int, e as int, text@);
                    lemma_splice_valid(buf@, s as int, e as int, text@);
                }
            }
            match place {
                Placement::After => Ok(splice_bytes(buf, e, e, text)),
                Placement::Before => Ok(splice_bytes(buf, s, s, text)),
                Placement::Over => Ok(splice_bytes(buf, s, e, text)),
            }
        },
    }
}

/// Appends a newline to `text` when `removed` ended with one and `text` does not.
fn replacement_for(removed: &[u8], text: &[u8]) -> (r: Vec<u8>)
    ensures
        r@ == line_replacement(removed@, text@),
        valid_utf8(text@) ==> valid_utf8(r@),
{
    let mut out: Vec<u8> = Vec::new();
    crate::bytes::push_range(&mut out, text, 0, text.len());
    assert(text@.subrange(0, text@.len() as int) =~= text@);
    let removed_nl = removed.len() > 0 && removed[removed.len() - 1] == 10u8;
    let text_nl = text.len() > 0 && text[text.len() - 1] == 10u8;
    if removed_nl && !text_nl {
        let ghost before = out@;
        out.push(10u8);
        proof {
            lemma_newline_valid();
            if valid_utf8(text@) {
                assert(out@ =~= before + seq![10u8]);
                valid_utf8_concat(before, seq![10u8]);
            }
        }
    }
    out
}

proof fn lemma_newline_valid()
    ensures
        valid_utf8(seq![10u8]),
{
    let nl = seq![10u8];
    assert(pop_first_scalar(nl) =~= Seq::<u8>::empty());
    assert(valid_utf8(pop_first_scalar(nl)));
    assert(valid_first_scalar(nl));
}

/// Applies one edit to `buf`, returning the new buffer.
pub fn apply_edit(buf: &[u8], op: &EditOperation) -> (r: Result<Vec<u8>, FileIoError>)
    ensures
        match edit_step(buf@, *op) {
            Ok(b) => r matches Ok(v) && v@ == b,
            Err(k) => r matches Err(e) && kind_of(e) == k,
        },
        anchor_missing(buf@, *op) && (anchor_parts(*op) matches Some(parts) && parts.2)
            ==> (r matches Err(e) && reports_missing_anchor(*op, e)),
        valid_utf8(buf@) ==> (r matches Ok(v) ==> valid_utf8(v@)),
{
    let len = buf.len();
    proof {
        if valid_utf8(buf@) {
            lemma_line_starts_are_boundaries(buf@);
            lemma_line_starts_bounds(buf@);
            is_char_boundary_start_end_of_seq(buf@);
        }
        assert(valid_utf8(Seq::<u8>::empty()));
    }
    match op {
        EditOperation::InsertAfter { search, text, use_regex, occurrence, require_match } => {
            proof { encode_utf8_valid_utf8(text@); }
            anchored(buf, search, *use_regex, *occurrence, *require_match, Placement::After, text.as_str().as_bytes(), "insert_after")
        },
        EditOperation::InsertBefore { search, text, use_regex, occurrence, require_match } => {
            proof { encode_utf8_valid_utf8(text@); }
            anchored(buf, search, *use_regex, *occurrence, *require_match, Placement::Before, text.as_str().as_bytes(), "insert_before")
        },
        EditOperation::Replace { search, text, use_regex, occurrence, require_match } => {
            proof { encode_utf8_valid_utf8(text@); }
            anchored(buf, search, *use_regex, *occurrence, *require_match, Placement::Over, text.as_str().as_bytes(), "replace")
        },
        EditOperation::Delete { search, use_regex, occurrence, require_match } => {
            let empty: Vec<u8> = Vec::new();
            anchored(buf, search, *use_regex, *occurrence, *require_match, Placement::Over, empty.as_slice(), "delete")
        },
        EditOperation::InsertAtLine { line, text } => {
            let l = u64_to_usize(*line, "line")?;
            let at = line_start_offset(buf, l, true)?;
            proof {
                encode_utf8_valid_utf8(text@);
                if valid_utf8(buf@) {
                    lemma_splice_valid(buf@, at as int, at as int, utf8(*text));
                }
            }
            Ok(splice_bytes(buf, at, at, text.as_str().as_bytes()))
        },
        EditOperation::ReplaceLines { start_line, end_line, text } => {
            let a = u64_to_usize(*start_line, "start_line")?;
            let b = u64_to_usize(*end_line, "end_line")?;
            let (s, e) = line_range_offsets(buf, a, b)?;
            let removed = vstd::slice::slice_subrange(buf, s, e);
            let replacement = replacement_for(removed, text.as_str().as_bytes());
            proof {
                encode_utf8_valid_utf8(text@);
                if valid_utf8(buf@) {
                    lemma_splice_valid(buf@, s as int, e as int, replacement@);
                }
            }
            Ok(splice_bytes(buf, s, e, replacement.as_slice()))
        },
        EditOperation::DeleteLines { start_line, end_line } => {
            let a = u64_to_usize(*start_line, "start_line")?;
            let b = u64_to_usize(*end_line, "end_line")?;
            let (s, e) = line_range_offsets(buf, a, b)?;
            let empty: Vec<u8> = Vec::new();
            proof {
                if valid_utf8(buf@) {
                    lemma_splice_valid(buf@, s as int, e as int, empty@);
                }
            }
            Ok(splice_bytes(buf, s, e, empty.as_slice()))
        },
    }
}

/// The buffer after applying `ops` in order, with the number of edits that
/// changed it, or the kind of the first error.
pub open spec fn run_edits(buf: Seq<u8>, ops: Seq<EditOperation>) -> Result<(Seq<u8>, nat), ErrorKind>
    decreases ops.len(),
{
    if ops.len() == 0 {
        Ok((buf, 0))
    } else {
        match run_edits(buf, ops.drop_last()) {
            Err(k) => Err(k),
            Ok((b, n)) => match edit_step(b, ops.last()) {
                Err(k) => Err(k),
                Ok(b2) => Ok((b2, if b2 == b { n } else { n + 1 })),
            },
        }
    }
}

/// The buffer and the edit at which a failing run of `ops` stops, if it fails.
pub open spec fn failing_step(buf: Seq<u8>, ops: Seq<EditOperation>) -> Option<(Seq<u8>, EditOperation)>
    decreases ops.len(),
{
    if ops.len() == 0 {
        None
    } else {
        match run_edits(buf, ops.drop_last()) {
            Err(_) => failing_step(buf, ops.drop_last()),
            Ok((b, _)) => match edit_step(b, ops.last()) {
                Err(_) => Some((b, ops.last())),
                Ok(_) => None,
            },
        }
    }
}

/// The edited buffer and how many edits changed it.
pub struct EditOutcome {
    pub content: Vec<u8>,
    pub applied: usize,
}

/// Applies `edits` in order to `original`; the first failing edit aborts the run.
pub fn apply_edits(original: &[u8], edits: &Vec<EditOperation>) -> (r: Result<EditOutcome, FileIoError>)
    ensures
        match run_edits(original@, edits@) {
            Ok((b, n)) => r matches Ok(o) && o.content@ == b && o.applied == n,
            Err(k) => r matches Err(e) && kind_of(e) == k,
        },
        valid_utf8(original@) ==> (r matches Ok(o) ==> valid_utf8(o.content@)),
        failing_step(original@, edits@) matches Some((b, op)) ==> (anchor_missing(b, op)
            && (anchor_parts(op) matches Some(parts) && parts.2) ==> (r matches Err(e) && reports_missing_anchor(op, e))),
{
    let mut buf: Vec<u8> = Vec::new();
    crate::bytes::push_range(&mut buf, original, 0, original.len());
    assert(original@.subrange(0, original@.len() as int) =~= original@);
    let mut applied: usize = 0;
    let mut i: usize = 0;
    while i < edits.len()
        invariant
            i <= edits@.len(),
            applied <= i,
            run_edits(original@, edits@.subrange(0, i as int)) == Ok::<(Seq<u8>, nat), ErrorKind>((buf@, applied as nat)),
            valid_utf8(original@) ==> valid_utf8(buf@),
        decreases edits@.len() - i,
    {
        let ghost prefix = edits@.subrange(0, i + 1);
        assert(prefix.drop_last() =~= edits@.subrange(0, i as int));
        let next = apply_edit(buf.as_slice(), &edits[i]);
        match next {
            Err(e) => {
                assert(run_edits(original@, prefix) is Err);
                assert(prefix.last() == edits@[i as int]);
                assert(failing_step(original@, prefix) == Some((buf@, edits@[i as int])));
                proof { lemma_run_edits_err_sticks(original@, edits@, i + 1); }
                return Err(e);
            },
            Ok(nb) => {
                if !same_bytes(nb.as_slice(), buf.as_slice()) {
                    applied = applied + 1;
                }
                buf = nb;
            },
        }
        i = i + 1;
    }
    assert(edits@.subrange(0, edits@.len() as int) =~= edits@);
    Ok(EditOutcome { content: buf, applied })
}

/// Once a prefix of the edits fails, the whole list fails the same way.
proof fn lemma_run_edits_err_sticks(buf: Seq<u8>, ops: Seq<EditOperation>, i: int)
    requires
        0 <= i <= ops.len(),
        run_edits(buf, ops.subrange(0, i)) is Err,
    ensures
        run_edits(buf, ops) == run_edits(buf, ops.subrange(0, i)),
        failing_step(buf, ops) == failing_step(buf, ops.subrange(0, i)),
    decreases ops.len() - i,
{
    if i < ops.len() {
        let next = ops.subrange(0, i + 1);
        assert(next.drop_last() =~= ops.subrange(0, i));
        lemma_run_edits_err_sticks(buf, ops, i + 1);
    } else {
        assert(ops.subrange(0, i) =~= ops);
    }
}

/// The outcome of an edit request, and the text to persist if anything must be written.
#[derive(Debug)]
pub struct EditPlan {
    pub result: EditFileResult,
    pub write: Option<String>,
}

/// Bytes that an edit request starts from: the file's text, or nothing for a file
/// that is missing.
pub open spec fn starting_bytes(existing: Option<String>) -> Seq<u8> {
    match existing {
        Some(s) => utf8(s),
        None => Seq::empty(),
    }
}

/// `p` reports a successful run from `orig` to `b` with `n` changing edits.
pub open spec fn plan_reports(p: EditPlan, req: EditFileRequest, path: String, orig: Seq<u8>, b: Seq<u8>, n: nat) -> bool {
    &&& p.result.path@ == path@
    &&& p.result.changed == (b != orig)
    &&& p.result.applied_edits == n
    &&& p.result.dry_run == req.dry_run
    &&& (p.result.content is Some <==> req.return_content || req.dry_run)
    &&& (p.result.content matches Some(c) ==> utf8(c) == b)
    &&& (p.write is Some <==> b != orig && !req.dry_run)
    &&& (p.write matches Some(w) ==> utf8(w) == b)
}

/// Runs an edit request against the file's current text (`None` when the file does
/// not exist) and decides what to report and what to write back to `path`.
pub fn plan_edit(req: &EditFileRequest, path: String, existing: Option<String>) -> (r: Result<EditPlan, FileIoError>)
    ensures
        existing is None && !req.create_if_missing ==> r matches Err(FileIoError::NotFound(_)),
        existing is Some || req.create_if_missing ==> match run_edits(starting_bytes(existing), req.edits@) {
            Err(k) => r matches Err(e) && kind_of(e) == k,
            Ok((b, n)) => r matches Ok(p) && plan_reports(p, *req, path, starting_bytes(existing), b, n),
        },
        existing is Some || req.create_if_missing ==> (failing_step(starting_bytes(existing), req.edits@) matches Some((b, op))
            ==> (anchor_missing(b, op) && (anchor_parts(op) matches Some(parts) && parts.2)
            ==> (r matches Err(e) && reports_missing_anchor(op, e)))),
        req.dry_run ==> (r matches Ok(p) ==> p.write is None && p.result.content is Some),
        req.edits@.len() == 0 && (existing is Some || req.create_if_missing) ==> (r matches Ok(p) && !p.result.changed
            && p.result.applied_edits == 0 && p.write is None),
{
    let original: String = match existing {
        Some(s) => s,
        None => {
            if !req.create_if_missing {
                return Err(FileIoError::NotFound(path));
            }
            String::new()
        },
    };
    proof {
        assert(utf8(original) == starting_bytes(existing)) by {
            if existing is None {
                assert(original@ =~= Seq::<char>::empty());
            }
        }
        vstd::utf8::encode_utf8_valid_utf8(original@);
    }
    let orig_bytes = original.as_str().as_bytes();
    let outcome = apply_edits(orig_bytes, &req.edits)?;
    let changed = !same_bytes(outcome.content.as_slice(), orig_bytes);
    let applied = outcome.applied;
    let text = match string_from_utf8(outcome.content) {
        Some(t) => t,
        None => {
            return Err(FileIoError::WriteError("edited content is not valid UTF-8".to_string()));
        },
    };
    let write = if changed && !req.dry_run {
        Some(text.clone())
    } else {
        None
    };
    let content = if req.return_content || req.dry_run {
        Some(text)
    } else {
        None
    };
    Ok(EditPlan {
        result: EditFileResult { path, changed, applied_edits: applied, dry_run: req.dry_run, content },
        write,
    })
}

} // verus!
