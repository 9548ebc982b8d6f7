use vstd::prelude::*;

use crate::bytes::splice;
use crate::edit::{line_replacement, anchor_missing, anchor_parts, edit_step, run_edits, utf8, EditOperation};
use crate::error::ErrorKind;
use crate::window::window;
use crate::lines::{lemma_line_has_no_inner_newline, lemma_line_starts_bounds, line_bytes, line_count, line_range_spec};

verus! {

/// Line `n` without its trailing newline.
pub open spec fn line_text(s: Seq<u8>, n: nat) -> Seq<u8> {
    let l = line_bytes(s, n);
    if l.len() > 0 && l.last() == 10u8 {
        l.drop_last()
    } else {
        l
    }
}

proof fn lemma_same_line_replacement(removed: Seq<u8>, t: Seq<u8>)
    requires
        forall|i: int| 0 <= i < removed.len() - 1 ==> removed[i] != 10u8,
        t == (if removed.len() > 0 && removed.last() == 10u8 { removed.drop_last() } else { removed }),
    ensures
        line_replacement(removed, t) == removed,
{
    if removed.len() > 0 && removed.last() == 10u8 {
        if t.len() > 0 {
            assert(t.last() == removed[removed.len() - 2]);
        }
        assert(t.push(10u8) =~= removed);
    }
}

/// Replacing line `n` with the text it already holds leaves the buffer unchanged,
/// so a request made of that edit alone counts no applied edit.
pub proof fn law_replace_line_with_itself(buf: Seq<u8>, n: u64, text: String)
    requires
        buf.len() < usize::MAX,
        1 <= n <= line_count(buf),
        utf8(text) == line_text(buf, n as nat),
    ensures
        edit_step(buf, EditOperation::ReplaceLines { start_line: n, end_line: n, text })
            == Ok::<Seq<u8>, ErrorKind>(buf),
        run_edits(buf, seq![EditOperation::ReplaceLines { start_line: n, end_line: n, text }])
            == Ok::<(Seq<u8>, nat), ErrorKind>((buf, 0)),
{
    let op = EditOperation::ReplaceLines { start_line: n, end_line: n, text };
    assert(edit_step(buf, op) == Ok::<Seq<u8>, ErrorKind>(buf)) by {
        lemma_line_starts_bounds(buf);
        lemma_line_has_no_inner_newline(buf, n as nat);
        let (a, b) = line_range_spec(buf, n as nat, n as nat)->Some_0;
        let removed = buf.subrange(a as int, b as int);
        lemma_same_line_replacement(removed, utf8(text));
        assert(splice(buf, a as int, b as int, removed) =~= buf);
    }
    let ops = seq![op];
    assert(ops.drop_last() =~= Seq::<EditOperation>::empty());
    assert(ops.last() == op);
    assert(run_edits(buf, ops.drop_last()) == Ok::<(Seq<u8>, nat), ErrorKind>((buf, 0)));
    assert(run_edits(buf, ops) == Ok::<(Seq<u8>, nat), ErrorKind>((buf, 0)));
}

/// An anchor edit with occurrence 0 fails with InvalidLineNumbers, whatever its kind.
pub proof fn law_zero_occurrence_rejected(buf: Seq<u8>, op: EditOperation)
    requires
        match op {
            EditOperation::InsertAfter { occurrence, .. } => occurrence == 0,
            EditOperation::InsertBefore { occurrence, .. } => occurrence == 0,
            EditOperation::Replace { occurrence, .. } => occurrence == 0,
            EditOperation::Delete { occurrence, .. } => occurrence == 0,
            _ => false,
        },
    ensures
        edit_step(buf, op) == Err::<Seq<u8>, ErrorKind>(ErrorKind::InvalidLineNumbers),
{
}

/// An anchor edit whose search finds nothing leaves the buffer as it is when a match
/// is not required.
pub proof fn law_optional_anchor_missing_keeps_buffer(buf: Seq<u8>, op: EditOperation)
    requires
        anchor_missing(buf, op),
        anchor_parts(op) matches Some(parts) && !parts.2,
    ensures
        edit_step(buf, op) == Ok::<Seq<u8>, ErrorKind>(buf),
{
}

/// Applying no edit leaves the buffer unchanged with no applied edit.
pub proof fn law_no_edits(buf: Seq<u8>)
    ensures
        run_edits(buf, Seq::empty()) == Ok::<(Seq<u8>, nat), ErrorKind>((buf, 0)),
{
}

/// Line edits take line ranges exactly: a range that ends past the last line is
/// rejected, with no clamping.
pub proof fn law_line_range_not_clamped(buf: Seq<u8>, start: nat, end: nat)
    requires
        end > line_count(buf),
    ensures
        line_range_spec(buf, start, end) is None,
{
}

/// A windowed read clamps instead: lines `s..=e` of an `n`-line file with `e` past
/// the end yield the lines from `s` to the last one.
pub proof fn law_window_end_clamped(n: nat, s: u64, e: u64, line_count: Option<u64>, start_offset: Option<u64>)
    requires
        1 <= s <= e,
        s - 1 <= n,
        e > n,
    ensures
        window(n, Some(s), Some(e), line_count, start_offset) == Some(((s - 1) as nat, n)),
{
}

} // verus!
