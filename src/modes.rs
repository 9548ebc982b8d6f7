use vstd::prelude::*;
use vstd::string::*;

use crate::error::FileIoError;
use crate::report::{add_failure, any_failed, failures_text};
use crate::text::{chars_of, digit_char, digit_text, parse_unsigned, unsigned_value};

verus! {

/// `s` without its leading `'0'` characters.
pub open spec fn strip_leading_zeros(s: Seq<char>) -> Seq<char>
    decreases s.len(),
{
    if s.len() > 0 && s[0] == '0' {
        strip_leading_zeros(s.drop_first())
    } else {
        s
    }
}

/// A parsed value that fits `u32`.
pub open spec fn as_u32(v: Option<nat>) -> Option<u32> {
    match v {
        Some(n) => if n <= u32::MAX {
            Some(n as u32)
        } else {
            None
        },
        None => None,
    }
}

/// The permission bits that a mode string denotes: octal digits (leading zeros
/// ignored), else a plain decimal number that does not start with `0`.
pub open spec fn mode_value(s: Seq<char>) -> Option<u32> {
    match as_u32(unsigned_value(strip_leading_zeros(s), 8)) {
        Some(v) => Some(v),
        None => if !(s.len() > 0 && s[0] == '0') {
            as_u32(unsigned_value(s, 10))
        } else {
            None
        },
    }
}

fn parse_u32(cs: &Vec<char>, a: usize, b: usize, radix: u32) -> (r: Option<u32>)
    requires
        a <= b <= cs@.len(),
        2 <= radix <= 10,
    ensures
        r == as_u32(unsigned_value(cs@.subrange(a as int, b as int), radix as nat)),
{
    match parse_unsigned(cs, a, b, radix) {
        Some(v) => if v <= u32::MAX as usize {
            Some(v as u32)
        } else {
            None
        },
        None => None,
    }
}

/// Reads a permission mode such as `755` or `0644`.
pub fn parse_mode(mode_str: &str) -> (r: Result<u32, FileIoError>)
    ensures
        match mode_value(mode_str@) {
            Some(v) => r == Ok::<u32, FileIoError>(v),
            None => r matches Err(FileIoError::InvalidMode(_)),
        },
{
    let cs = chars_of(mode_str);
    let mut z: usize = 0;
    assert(cs@.subrange(0, cs@.len() as int) =~= cs@);
    while z < cs.len() && cs[z] == '0'
        invariant
            z <= cs@.len(),
            strip_leading_zeros(cs@) == strip_leading_zeros(cs@.subrange(z as int, cs@.len() as int)),
        decreases cs@.len() - z,
    {
        assert(cs@.subrange(z as int, cs@.len() as int).drop_first() =~= cs@.subrange(z + 1, cs@.len() as int));
        z = z + 1;
    }
    assert(cs@.subrange(0, cs@.len() as int) =~= cs@);
    if let Some(v) = parse_u32(&cs, z, cs.len(), 8) {
        return Ok(v);
    }
    let leading_zero = cs.len() > 0 && cs[0] == '0';
    if !leading_zero {
        if let Some(v) = parse_u32(&cs, 0, cs.len(), 10) {
            return Ok(v);
        }
    }
    Err(FileIoError::InvalidMode("expected an octal mode like 755 or 0644".to_string()))
}

/// Permission bits of `mode` as four octal digits.
pub open spec fn mode_text(mode: u32) -> Seq<char> {
    let m = mode as nat % 4096;
    seq![digit_char(m / 512), digit_char((m / 64) % 8), digit_char((m / 8) % 8), digit_char(m % 8)]
}

/// The permission bits of `mode` (`mode & 0o7777`) as four octal digits.
pub fn format_mode(mode: u32) -> (r: String)
    ensures
        r@ == mode_text(mode),
{
    let m = mode % 4096;
    let mut r = String::from_str(digit_text((m / 512) as u64));
    r.append(digit_text(((m / 64) % 8) as u64));
    r.append(digit_text(((m / 8) % 8) as u64));
    r.append(digit_text((m % 8) as u64));
    assert(r@ =~= mode_text(mode));
    r
}

/// The queries among the first `n` that succeeded, as path and mode text.
pub open spec fn mode_entries(paths: Seq<String>, modes: Seq<Result<u32, FileIoError>>, n: int) -> Seq<(Seq<char>, Seq<char>)>
    decreases n,
{
    if n <= 0 {
        Seq::empty()
    } else {
        let before = mode_entries(paths, modes, n - 1);
        match modes[n - 1] {
            Ok(m) => before.push((paths[n - 1]@, mode_text(m))),
            Err(_) => before,
        }
    }
}

/// Pairs of strings that read as the given pairs of texts.
pub open spec fn entries_match(v: Seq<(String, String)>, e: Seq<(Seq<char>, Seq<char>)>) -> bool {
    v.len() == e.len() && forall|j: int| 0 <= j < v.len() ==> (#[trigger] v[j]).0@ == e[j].0 && v[j].1@ == e[j].1
}

/// Permission text of each path, from the mode bits that were read for it; if any
/// query failed, a single error lists every failure.
pub fn get_file_mode(paths: &Vec<String>, modes: &Vec<Result<u32, FileIoError>>) -> (r: Result<Vec<(String, String)>, FileIoError>)
    requires
        paths@.len() == modes@.len(),
    ensures
        !any_failed(modes@) ==> (r matches Ok(v) && v@.len() == paths@.len()
            && entries_match(v@, mode_entries(paths@, modes@, paths@.len() as int))),
        any_failed(modes@) ==> (r matches Err(FileIoError::ReadError(m))
            && m@ == "Some permission queries failed: "@ + failures_text(paths@, modes@, paths@.len() as int)),
{
    let mut entries: Vec<(String, String)> = Vec::new();
    let mut failures = String::new();
    let mut failed = false;
    let mut i: usize = 0;
    while i < paths.len()
        invariant
            paths@.len() == modes@.len(),
            i <= paths@.len(),
            failed == exists|j: int| 0 <= j < i && #[trigger] modes@[j] is Err,
            failures@ == failures_text(paths@, modes@, i as int),
            failed == (failures@.len() > 0),
            entries_match(entries@, mode_entries(paths@, modes@, i as int)),
            !failed ==> entries@.len() == i,
        decreases paths@.len() - i,
    {
        match &modes[i] {
            Ok(m) => {
                entries.push((paths[i].clone(), format_mode(*m)));
            },
            Err(e) => {
                add_failure(&mut failures, &paths[i], e);
                failed = true;
            },
        }
        i = i + 1;
    }
    if failed {
        let mut m = String::from_str("Some permission queries failed: ");
        m.append(failures.as_str());
        return Err(FileIoError::ReadError(m));
    }
    Ok(entries)
}

} // verus!
