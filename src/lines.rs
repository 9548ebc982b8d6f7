use vstd::prelude::*;

use vstd::string::*;

use crate::error::FileIoError;
use crate::text::decimal;

verus! {

/// Offsets just past each newline byte of `s`, in increasing order.
pub open spec fn newline_ends(s: Seq<u8>) -> Seq<usize>
    decreases s.len(),
{
    if s.len() == 0 {
        Seq::empty()
    } else {
        let rest = newline_ends(s.drop_last());
        if s.last() == 10u8 {
            rest.push(s.len() as usize)
        } else {
            rest
        }
    }
}

/// Byte offset of the start of every line: 0, then one past each newline.
pub open spec fn line_starts(s: Seq<u8>) -> Seq<usize> {
    seq![0usize] + newline_ends(s)
}

/// Number of lines, where an empty buffer counts as one empty line.
pub open spec fn line_count(s: Seq<u8>) -> nat {
    if s.len() == 0 {
        1
    } else {
        line_starts(s).len()
    }
}

pub open spec fn is_line_error<T>(r: Result<T, FileIoError>) -> bool {
    r matches Err(FileIoError::InvalidLineNumbers(_))
}

/// Offset at which 1-based line `line` begins; `count + 1` is the end of the buffer
/// when `allow_past_end` holds.
pub open spec fn line_start_spec(s: Seq<u8>, line: nat, allow_past_end: bool) -> Option<usize> {
    if line == 0 {
        None
    } else if allow_past_end && line == line_count(s) + 1 {
        Some(s.len() as usize)
    } else if line > line_count(s) {
        None
    } else if s.len() == 0 {
        Some(0usize)
    } else {
        Some(line_starts(s)[line - 1])
    }
}

/// Half-open byte span covering lines `start..=end`, with exact bounds.
pub open spec fn line_range_spec(s: Seq<u8>, start: nat, end: nat) -> Option<(usize, usize)> {
    if start == 0 || end == 0 || start > end || end > line_count(s) {
        None
    } else if s.len() == 0 {
        Some((0usize, 0usize))
    } else if end < line_starts(s).len() {
        Some((line_starts(s)[start - 1], line_starts(s)[end as int]))
    } else {
        Some((line_starts(s)[start - 1], s.len() as usize))
    }
}

pub proof fn lemma_newline_ends_bounds(s: Seq<u8>)
    requires
        s.len() <= usize::MAX,
    ensures
        forall|i: int|
            0 <= i < newline_ends(s).len() ==> 0 < newline_ends(s)[i] <= s.len() && s[newline_ends(s)[i] - 1] == 10u8,
        forall|i: int, j: int|
            0 <= i < j < newline_ends(s).len() ==> newline_ends(s)[i] < newline_ends(s)[j],
        newline_ends(s).len() <= s.len(),
    decreases s.len(),
{
    if s.len() > 0 {
        let p = s.drop_last();
        lemma_newline_ends_bounds(p);
        assert forall|i: int| 0 <= i < newline_ends(p).len() implies s[newline_ends(p)[i] - 1] == 10u8 by {
            assert(s[newline_ends(p)[i] - 1] == p[newline_ends(p)[i] - 1]);
        }
        if s.last() == 10u8 {
            let r = newline_ends(s);
            assert(r =~= newline_ends(p).push(s.len() as usize));
            assert forall|i: int, j: int| 0 <= i < j < r.len() implies r[i] < r[j] by {
                if j == r.len() - 1 {
                    assert(r[i] <= p.len());
                }
            }
        }
    }
}

/// Line starts are increasing, start at 0, and stay within the buffer.
pub proof fn lemma_line_starts_bounds(s: Seq<u8>)
    requires
        s.len() <= usize::MAX,
    ensures
        line_starts(s).len() >= 1,
        line_starts(s)[0] == 0,
        line_starts(s).len() <= s.len() + 1,
        forall|i: int| 0 <= i < line_starts(s).len() ==> line_starts(s)[i] <= s.len(),
        forall|i: int, j: int|
            0 <= i < j < line_starts(s).len() ==> line_starts(s)[i] < line_starts(s)[j],
{
    lemma_newline_ends_bounds(s);
}

fn line_error(line: usize, count: usize) -> (e: FileIoError)
    ensures
        e is InvalidLineNumbers,
{
    let mut m = String::from_str("Invalid line number: ");
    m.append(decimal(line as u64).as_str());
    m.append(" (file has ");
    m.append(decimal(count as u64).as_str());
    m.append(" lines)");
    FileIoError::InvalidLineNumbers(m)
}

fn range_order_error(start_line: usize, end_line: usize) -> (e: FileIoError)
    ensures
        e is InvalidLineNumbers,
{
    let mut m = String::from_str("start_line (");
    m.append(decimal(start_line as u64).as_str());
    m.append(") must be <= end_line (");
    m.append(decimal(end_line as u64).as_str());
    m.append(")");
    FileIoError::InvalidLineNumbers(m)
}

fn range_error(start_line: usize, end_line: usize, count: usize) -> (e: FileIoError)
    ensures
        e is InvalidLineNumbers,
{
    let mut m = String::from_str("Invalid line range: ");
    m.append(decimal(start_line as u64).as_str());
    m.append("..");
    m.append(decimal(end_line as u64).as_str());
    m.append(" (file has ");
    m.append(decimal(count as u64).as_str());
    m.append(" lines)");
    FileIoError::InvalidLineNumbers(m)
}

/// The start offset of every line of `content`.
pub fn compute_line_starts(content: &[u8]) -> (starts: Vec<usize>)
    ensures
        starts@ == line_starts(content@),
{
    let mut starts: Vec<usize> = vec![0usize];
    let mut i: usize = 0;
    while i < content.len()
        invariant
            i <= content@.len(),
            starts@ == line_starts(content@.subrange(0, i as int)),
        decreases content@.len() - i,
    {
        let ghost before = content@.subrange(0, i as int);
        let ghost after = content@.subrange(0, i + 1);
        assert(after.drop_last() =~= before);
        if content[i] == 10u8 {
            starts.push(i + 1);
            assert(starts@ =~= line_starts(after));
        } else {
            assert(starts@ =~= line_starts(after));
        }
        i = i + 1;
    }
    assert(content@.subrange(0, content@.len() as int) =~= content@);
    starts
}

/// Number of lines of `content`, an empty buffer being one line.
pub fn effective_line_count(content: &[u8]) -> (n: usize)
    ensures
        n == line_count(content@),
{
    if content.len() == 0 {
        1
    } else {
        compute_line_starts(content).len()
    }
}

/// Offset where 1-based `line` begins; with `allow_past_end`, the line just past
/// the last one resolves to the end of the buffer.
pub fn line_start_offset(content: &[u8], line: usize, allow_past_end: bool) -> (r: Result<usize, FileIoError>)
    ensures
        match line_start_spec(content@, line as nat, allow_past_end) {
            Some(off) => r == Ok::<usize, FileIoError>(off),
            None => is_line_error(r),
        },
        r matches Ok(off) ==> off <= content@.len(),
{
    if line == 0 {
        return Err(FileIoError::InvalidLineNumbers("line must be >= 1".to_string()));
    }
    let len = content.len();
    let starts = compute_line_starts(content);
    proof { lemma_line_starts_bounds(content@); }
    let count = if len == 0 { 1 } else { starts.len() };
    if allow_past_end && line - 1 == count {
        return Ok(content.len());
    }
    if line > count {
        return Err(line_error(line, count));
    }
    if content.len() == 0 {
        return Ok(0);
    }
    Ok(starts[line - 1])
}

/// Byte span of lines `start_line..=end_line`; bounds must lie within the buffer.
pub fn line_range_offsets(content: &[u8], start_line: usize, end_line: usize) -> (r: Result<(usize, usize), FileIoError>)
    ensures
        match line_range_spec(content@, start_line as nat, end_line as nat) {
            Some(span) => r == Ok::<(usize, usize), FileIoError>(span),
            None => is_line_error(r),
        },
        r matches Ok((a, b)) ==> a <= b <= content@.len(),
{
    if start_line == 0 || end_line == 0 {
        return Err(FileIoError::InvalidLineNumbers("line numbers must be >= 1".to_string()));
    }
    if start_line > end_line {
        return Err(range_order_error(start_line, end_line));
    }
    let count = effective_line_count(content);
    if start_line > count || end_line > count {
        return Err(range_error(start_line, end_line, count));
    }
    if content.len() == 0 {
        return Ok((0, 0));
    }
    let len = content.len();
    let starts = compute_line_starts(content);
    proof { lemma_line_starts_bounds(content@); }
    let start_off = starts[start_line - 1];
    let end_off = if end_line < starts.len() {
        starts[end_line]
    } else {
        content.len()
    };
    Ok((start_off, end_off))
}

} // verus!

verus! {

proof fn lemma_newline_ends_complete(s: Seq<u8>)
    requires
        s.len() <= usize::MAX,
    ensures
        forall|p: int|
            0 <= p < s.len() && s[p] == 10u8 ==> exists|k: int|
                0 <= k < newline_ends(s).len() && #[trigger] newline_ends(s)[k] == p + 1,
    decreases s.len(),
{
    if s.len() > 0 {
        let q = s.drop_last();
        lemma_newline_ends_complete(q);
        assert forall|p: int| 0 <= p < s.len() && s[p] == 10u8 implies exists|k: int|
            0 <= k < newline_ends(s).len() && #[trigger] newline_ends(s)[k] == p + 1 by {
            if p == s.len() - 1 {
                assert(newline_ends(s)[newline_ends(s).len() - 1] == p + 1);
            } else {
                assert(q[p] == 10u8);
                let k = choose|k: int| 0 <= k < newline_ends(q).len() && #[trigger] newline_ends(q)[k] == p + 1;
                assert(newline_ends(s)[k] == p + 1);
            }
        }
    }
}

/// The bytes of 1-based line `n` (with its newline, if it has one).
pub open spec fn line_bytes(s: Seq<u8>, n: nat) -> Seq<u8> {
    match line_range_spec(s, n, n) {
        Some((a, b)) => s.subrange(a as int, b as int),
        None => Seq::empty(),
    }
}

/// A line holds no newline but possibly its last byte.
pub proof fn lemma_line_has_no_inner_newline(s: Seq<u8>, n: nat)
    requires
        s.len() <= usize::MAX,
        1 <= n <= line_count(s),
    ensures
        forall|i: int| 0 <= i < line_bytes(s, n).len() - 1 ==> line_bytes(s, n)[i] != 10u8,
{
    lemma_line_starts_bounds(s);
    lemma_newline_ends_complete(s);
    if s.len() > 0 {
        let st = line_starts(s);
        let (a, b) = line_range_spec(s, n, n)->Some_0;
        assert forall|i: int| 0 <= i < line_bytes(s, n).len() - 1 implies line_bytes(s, n)[i] != 10u8 by {
            let p = a + i;
            if s[p] == 10u8 {
                let k = choose|k: int| 0 <= k < newline_ends(s).len() && #[trigger] newline_ends(s)[k] == p + 1;
                assert(st[k + 1] == p + 1);
                if k + 1 <= n - 1 {
                    assert(st[k + 1] <= st[n - 1]);
                } else if (n as int) < st.len() {
                    assert(st[n as int] <= st[k + 1]);
                }
            }
        }
    }
}

} // verus!
