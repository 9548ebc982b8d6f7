use vstd::prelude::*;
use vstd::string::*;

use crate::text::{chars_of, parse_unsigned, trim_bounds, trim_ws, unsigned_decimal};

verus! {

pub open spec fn is_crlf(c: char) -> bool {
    c == '\r' || c == '\n'
}

/// `s` without its trailing carriage returns and line feeds.
pub open spec fn strip_crlf(s: Seq<char>) -> Seq<char>
    decreases s.len(),
{
    if s.len() > 0 && is_crlf(s.last()) {
        strip_crlf(s.drop_last())
    } else {
        s
    }
}

/// ASCII lower-casing of one character, as a code point.
pub open spec fn ascii_lower(c: char) -> u32 {
    let u = c as u32;
    if 65 <= u <= 90 {
        (u + 32) as u32
    } else {
        u
    }
}

/// `eq_ignore_ascii_case` on character sequences.
pub open spec fn eq_ignore_ascii_case(a: Seq<char>, b: Seq<char>) -> bool {
    a.len() == b.len() && forall|i: int| 0 <= i < a.len() ==> ascii_lower(#[trigger] a[i]) == ascii_lower(b[i])
}

/// Index of the first `c` in `s` at or after `i`.
pub open spec fn first_index_from(s: Seq<char>, c: char, i: int) -> Option<int>
    decreases s.len() - i,
{
    if i < 0 || i >= s.len() {
        None
    } else if s[i] == c {
        Some(i)
    } else {
        first_index_from(s, c, i + 1)
    }
}

proof fn lemma_first_index_bounds(s: Seq<char>, c: char, i: int)
    ensures
        first_index_from(s, c, i) matches Some(k) ==> i <= k < s.len() && s[k] == c,
    decreases s.len() - i,
{
    if !(i < 0 || i >= s.len()) && s[i] != c {
        lemma_first_index_bounds(s, c, i + 1);
    }
}

/// The header name that announces a message length.
pub open spec fn length_header_name() -> Seq<char> {
    seq!['c', 'o', 'n', 't', 'e', 'n', 't', '-', 'l', 'e', 'n', 'g', 't', 'h']
}

/// The length announced by a `Content-Length: N` header line: the name matched
/// without regard to ASCII case, whitespace around name and value ignored.
pub open spec fn content_length_of(line: Seq<char>) -> Option<usize> {
    let t = trim_ws(strip_crlf(line));
    match first_index_from(t, ':', 0) {
        None => None,
        Some(i) => if eq_ignore_ascii_case(trim_ws(t.subrange(0, i)), length_header_name()) {
            match unsigned_decimal(trim_ws(t.subrange(i + 1, t.len() as int))) {
                Some(v) => if v <= usize::MAX {
                    Some(v as usize)
                } else {
                    None
                },
                None => None,
            }
        } else {
            None
        },
    }
}

/// End of `cs` once trailing carriage returns and line feeds are dropped.
fn crlf_end(cs: &Vec<char>) -> (e: usize)
    ensures
        e <= cs@.len(),
        cs@.subrange(0, e as int) == strip_crlf(cs@),
{
    let mut e = cs.len();
    assert(cs@.subrange(0, e as int) =~= cs@);
    while e > 0 && (cs[e - 1] == '\r' || cs[e - 1] == '\n')
        invariant
            e <= cs@.len(),
            strip_crlf(cs@) == strip_crlf(cs@.subrange(0, e as int)),
        decreases e,
    {
        assert(cs@.subrange(0, e as int).drop_last() =~= cs@.subrange(0, e - 1));
        e = e - 1;
    }
    e
}

/// `s` without its trailing carriage returns and line feeds.
pub fn trim_crlf(s: &str) -> (r: &str)
    ensures
        r@ == strip_crlf(s@),
{
    let cs = chars_of(s);
    let e = crlf_end(&cs);
    s.substring_char(0, e)
}

fn lower_code(c: char) -> (r: u32)
    ensures
        r == ascii_lower(c),
{
    let u = c as u32;
    if 65 <= u && u <= 90 {
        u + 32
    } else {
        u
    }
}

/// Does `cs[a..b]` spell `content-length`, ignoring ASCII case?
fn is_length_name(cs: &Vec<char>, a: usize, b: usize) -> (r: bool)
    requires
        a <= b <= cs@.len(),
    ensures
        r == eq_ignore_ascii_case(cs@.subrange(a as int, b as int), length_header_name()),
{
    let name: Vec<char> = vec!['c', 'o', 'n', 't', 'e', 'n', 't', '-', 'l', 'e', 'n', 'g', 't', 'h'];
    assert(name@ =~= length_header_name());
    let ghost seg = cs@.subrange(a as int, b as int);
    if b - a != name.len() {
        return false;
    }
    let mut i: usize = 0;
    while i < name.len()
        invariant
            a <= b <= cs@.len(),
            seg == cs@.subrange(a as int, b as int),
            name@ == length_header_name(),
            b - a == name@.len(),
            i <= name@.len(),
            forall|t: int| 0 <= t < i ==> ascii_lower(#[trigger] seg[t]) == ascii_lower(name@[t]),
        decreases name@.len() - i,
    {
        if lower_code(cs[a + i]) != lower_code(name[i]) {
            assert(seg[i as int] == cs@[a + i]);
            return false;
        }
        i = i + 1;
    }
    true
}

/// Index of the first `:` in `cs[a..b]`, counted from `a`.
fn colon_index(cs: &Vec<char>, a: usize, b: usize) -> (r: Option<usize>)
    requires
        a <= b <= cs@.len(),
    ensures
        match first_index_from(cs@.subrange(a as int, b as int), ':', 0) {
            None => r is None,
            Some(i) => r == Some(i as usize),
        },
        r matches Some(k) ==> a + k < b,
        first_index_from(cs@.subrange(a as int, b as int), ':', 0) matches Some(k) ==> 0 <= k < b - a,
{
    let ghost seg = cs@.subrange(a as int, b as int);
    proof { lemma_first_index_bounds(seg, ':', 0); }
    let mut i: usize = 0;
    while i < b - a
        invariant
            a <= b <= cs@.len(),
            seg == cs@.subrange(a as int, b as int),
            i <= b - a,
            first_index_from(seg, ':', 0) == first_index_from(seg, ':', i as int),
        decreases b - a - i,
    {
        if cs[a + i] == ':' {
            return Some(i);
        }
        i = i + 1;
    }
    None
}

/// Reads the message length from a `Content-Length: N` header line.
pub fn parse_content_length_header(line: &str) -> (r: Option<usize>)
    ensures
        r == content_length_of(line@),
{
    let cs = chars_of(line);
    let e = crlf_end(&cs);
    let (a, b) = trim_bounds(&cs, 0, e);
    let ghost t = trim_ws(strip_crlf(line@));
    assert(cs@.subrange(0, e as int) == strip_crlf(line@));
    assert(cs@.subrange(a as int, b as int) == t);
    match colon_index(&cs, a, b) {
        None => None,
        Some(i) => {
            let c = a + i;
            let (na, nb) = trim_bounds(&cs, a, c);
            assert(cs@.subrange(a as int, c as int) =~= t.subrange(0, i as int));
            if !is_length_name(&cs, na, nb) {
                return None;
            }
            let (va, vb) = trim_bounds(&cs, c + 1, b);
            assert(cs@.subrange(c + 1, b as int) =~= t.subrange(i + 1, t.len() as int));
            parse_unsigned(&cs, va, vb, 10)
        },
    }
}

/// How a transport reads its messages: not yet known, one per line, or each
/// behind a `Content-Length` header.
#[derive(Debug, Clone, Copy, PartialEq, Eq, Structural)]
pub enum Framing {
    Auto,
    Newline,
    ContentLength,
}

/// What the first line read in automatic framing is.
#[derive(Debug, Clone, Copy, PartialEq, Eq, Structural)]
pub enum FirstLine {
    /// Only whitespace: skipped.
    Blank,
    /// A `Content-Length` header announcing a body of this many bytes.
    Header(usize),
    /// A newline-delimited message.
    Message,
}

pub open spec fn first_line_kind(line: Seq<char>) -> FirstLine {
    let t = strip_crlf(line);
    if trim_ws(t).len() == 0 {
        FirstLine::Blank
    } else {
        match content_length_of(t) {
            Some(n) => FirstLine::Header(n),
            None => FirstLine::Message,
        }
    }
}

/// Classifies a line read before the framing is known.
pub fn classify_first_line(line: &str) -> (r: FirstLine)
    ensures
        r == first_line_kind(line@),
{
    let t = trim_crlf(line);
    let cs = chars_of(t);
    let (a, b) = trim_bounds(&cs, 0, cs.len());
    assert(cs@.subrange(0, cs@.len() as int) =~= cs@);
    if a == b {
        return FirstLine::Blank;
    }
    match parse_content_length_header(t) {
        Some(n) => FirstLine::Header(n),
        None => FirstLine::Message,
    }
}

/// The framing that a transport in automatic mode adopts after `first`.
pub fn framing_after(first: FirstLine) -> (f: Framing)
    ensures
        f == match first {
            FirstLine::Blank => Framing::Auto,
            FirstLine::Header(_) => Framing::ContentLength,
            FirstLine::Message => Framing::Newline,
        },
{
    match first {
        FirstLine::Blank => Framing::Auto,
        FirstLine::Header(_) => Framing::ContentLength,
        FirstLine::Message => Framing::Newline,
    }
}

} // verus!
