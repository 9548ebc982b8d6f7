use vstd::prelude::*;

use vstd::string::*;

use crate::error::FileIoError;
use crate::text::decimal;

verus! {

/// The half-open range of lines that a windowed read of `n` lines returns, or
/// `None` when the request is invalid. A start line (1-based) wins over a start
/// offset (0-based); an end line wins over a line count. The end is clamped to the
/// last line, while a start past the end is an error.
pub open spec fn window(n: nat, start_line: Option<u64>, end_line: Option<u64>, line_count: Option<u64>, start_offset: Option<u64>) -> Option<(nat, nat)> {
    let start: int = match (start_line, start_offset) {
        (Some(s), _) => s - 1,
        (None, Some(o)) => o as int,
        (None, None) => 0,
    };
    let end: int = match (end_line, line_count) {
        (Some(e), _) => e as int,
        (None, Some(c)) => start + c,
        (None, None) => n as int,
    };
    let bad_end = match end_line {
        Some(e) => e == 0 || e < (match start_line { Some(s) => s, None => 1 }),
        None => false,
    };
    if start_line == Some(0u64) || bad_end || start > n {
        None
    } else {
        let clamped = if end < n { end } else { n as int };
        if start > clamped {
            None
        } else {
            Some((start as nat, clamped as nat))
        }
    }
}

/// The lines of a file that a windowed read returns (see `window`).
pub fn line_window(
    lines: &Vec<String>,
    start_line: Option<u64>,
    end_line: Option<u64>,
    line_count: Option<u64>,
    start_offset: Option<u64>,
) -> (r: Result<Vec<String>, FileIoError>)
    ensures
        match window(lines@.len(), start_line, end_line, line_count, start_offset) {
            Some((a, b)) => r matches Ok(v)
                && v@.map_values(|l: String| l@) == lines@.subrange(a as int, b as int).map_values(|l: String| l@),
            None => r matches Err(FileIoError::InvalidLineNumbers(_)),
        },
{
    let n = lines.len() as u64;
    if start_line == Some(0u64) {
        return Err(FileIoError::InvalidLineNumbers("Line numbers start at 1".to_string()));
    }
    let start: u64 = match (start_line, start_offset) {
        (Some(s), _) => s - 1,
        (None, Some(o)) => o,
        (None, None) => 0,
    };
    if let Some(e) = end_line {
        if e == 0 {
            return Err(FileIoError::InvalidLineNumbers("Line numbers start at 1".to_string()));
        }
        let first = match start_line {
            Some(s) => s,
            None => 1,
        };
        if e < first {
            return Err(FileIoError::InvalidLineNumbers("end_line must be >= start_line".to_string()));
        }
    }
    if start > n {
        let shown = if start < u64::MAX { start + 1 } else { start };
        let mut m = String::from_str("start_line ");
        m.append(decimal(shown).as_str());
        m.append(" exceeds file length ");
        m.append(decimal(n).as_str());
        return Err(FileIoError::InvalidLineNumbers(m));
    }
    let end: u64 = match (end_line, line_count) {
        (Some(e), _) => if e < n { e } else { n },
        (None, Some(c)) => if c < n - start { start + c } else { n },
        (None, None) => n,
    };
    if start > end {
        return Err(FileIoError::InvalidLineNumbers("start_line must be <= end_line".to_string()));
    }
    let a = start as usize;
    let b = end as usize;
    let mut out: Vec<String> = Vec::new();
    let mut i = a;
    while i < b
        invariant
            a <= i <= b <= lines@.len(),
            out@.map_values(|l: String| l@) == lines@.subrange(a as int, i as int).map_values(|l: String| l@),
        decreases b - i,
    {
        let l = lines[i].clone();
        let ghost prev = out@;
        out.push(l);
        assert(out@.map_values(|l: String| l@) =~= prev.map_values(|l: String| l@).push(l@));
        assert(lines@.subrange(a as int, i + 1).map_values(|l: String| l@)
            =~= lines@.subrange(a as int, i as int).map_values(|l: String| l@).push(lines@[i as int]@));
        i = i + 1;
    }
    Ok(out)
}

} // verus!
