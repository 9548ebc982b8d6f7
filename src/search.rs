use vstd::prelude::*;

use vstd::string::*;
use vstd::utf8::*;

use crate::bytes::{push_range, string_from_utf8};
use crate::error::{kind_of, ErrorKind, FileIoError};
use crate::find::{line_spans, pattern_compiles, regex_line_matches, spans_view};
use crate::lines::is_line_error;

verus! {

/// Does `needle` occur in `hay` starting at byte `p`?
pub open spec fn matches_at(hay: Seq<u8>, needle: Seq<u8>, p: int) -> bool {
    0 <= p && p + needle.len() <= hay.len() && hay.subrange(p, p + needle.len()) == needle
}

/// The leftmost occurrence of `needle` in `hay` at or after `from`.
pub open spec fn first_match_from(hay: Seq<u8>, needle: Seq<u8>, from: int) -> Option<int>
    decreases hay.len() + 1 - from,
{
    if from < 0 || from + needle.len() > hay.len() {
        None
    } else if matches_at(hay, needle, from) {
        Some(from)
    } else {
        first_match_from(hay, needle, from + 1)
    }
}

/// Start of the `k`-th (1-based) non-overlapping occurrence of `needle`,
/// scanning left to right from `from`.
pub open spec fn nth_match_from(hay: Seq<u8>, needle: Seq<u8>, from: int, k: nat) -> Option<int>
    decreases k,
{
    if k == 0 {
        None
    } else {
        match first_match_from(hay, needle, from) {
            None => None,
            Some(p) => if k == 1 {
                Some(p)
            } else {
                nth_match_from(hay, needle, p + needle.len(), (k - 1) as nat)
            },
        }
    }
}

/// Span of the `k`-th literal occurrence of `needle` in `hay`, if there is one.
pub open spec fn literal_span(hay: Seq<u8>, needle: Seq<u8>, k: nat) -> Option<(usize, usize)> {
    match nth_match_from(hay, needle, 0, k) {
        None => None,
        Some(p) => Some((p as usize, (p + needle.len()) as usize)),
    }
}

/// Span of the `k`-th match of `pattern` in the text `hay`, when the pattern compiles.
pub open spec fn regex_span(pattern: Seq<char>, hay: Seq<char>, k: nat) -> Option<Option<(usize, usize)>> {
    if !pattern_compiles(pattern, false, false) {
        None
    } else {
        let spans = line_spans(pattern, false, false, hay);
        Some(
            if 1 <= k <= spans.len() {
                Some((spans[k - 1].0, spans[k - 1].1))
            } else {
                None
            },
        )
    }
}

/// What searching for the `occurrence`-th match of `needle` in `hay` yields: the
/// span if any, or the kind of error. A regular expression is matched against the
/// text that `hay` encodes, so `hay` must be valid UTF-8.
pub open spec fn span_outcome(hay: Seq<u8>, needle: Seq<char>, use_regex: bool, occurrence: nat) -> Result<Option<(usize, usize)>, ErrorKind> {
    if use_regex {
        if !valid_utf8(hay) {
            Err(ErrorKind::ReadError)
        } else {
            match regex_span(needle, decode_utf8(hay), occurrence) {
                None => Err(ErrorKind::RegexError),
                Some(found) => Ok(found),
            }
        }
    } else {
        Ok(literal_span(hay, encode_utf8(needle), occurrence))
    }
}

/// A span that lies within a buffer of `len` bytes.
pub open spec fn span_within(span: (usize, usize), len: nat) -> bool {
    span.0 <= span.1 <= len
}

proof fn lemma_first_match_is_match(hay: Seq<u8>, needle: Seq<u8>, from: int)
    ensures
        first_match_from(hay, needle, from) matches Some(p) ==> from <= p && matches_at(hay, needle, p),
    decreases hay.len() + 1 - from,
{
    if !(from < 0 || from + needle.len() > hay.len()) && !matches_at(hay, needle, from) {
        lemma_first_match_is_match(hay, needle, from + 1);
    }
}

proof fn lemma_nth_match_is_match(hay: Seq<u8>, needle: Seq<u8>, from: int, k: nat)
    ensures
        nth_match_from(hay, needle, from, k) matches Some(p) ==> matches_at(hay, needle, p),
    decreases k,
{
    if k > 1 {
        lemma_first_match_is_match(hay, needle, from);
        if let Some(p) = first_match_from(hay, needle, from) {
            lemma_nth_match_is_match(hay, needle, p + needle.len(), (k - 1) as nat);
        }
    } else {
        lemma_first_match_is_match(hay, needle, from);
    }
}

proof fn lemma_nonempty_encoding(s: Seq<char>)
    ensures
        s.len() > 0 <==> encode_utf8(s).len() > 0,
{
    if s.len() > 0 {
        assert(encode_scalar(s[0] as u32).len() > 0);
    }
}

/// Leftmost occurrence of `needle` in `hay` at or after `from`.
fn find_from(hay: &[u8], needle: &[u8], from: usize) -> (r: Option<usize>)
    requires
        needle@.len() > 0,
    ensures
        match first_match_from(hay@, needle@, from as int) {
            None => r is None,
            Some(p) => r == Some(p as usize),
        },
{
    let hl = hay.len();
    let nl = needle.len();
    let mut p = from;
    while p < hl && nl <= hl - p
        invariant
            hl == hay@.len(),
            nl == needle@.len(),
            from <= p,
            needle@.len() > 0,
            first_match_from(hay@, needle@, from as int) == first_match_from(hay@, needle@, p as int),
        decreases hay@.len() - p,
    {
        let mut j: usize = 0;
        while j < nl && hay[p + j] == needle[j]
            invariant
                hl == hay@.len(),
                nl == needle@.len(),
                j <= needle@.len(),
                p + needle@.len() <= hay@.len(),
                forall|t: int| 0 <= t < j ==> hay@[p + t] == needle@[t],
            decreases needle@.len() - j,
        {
            j = j + 1;
        }
        if j == nl {
            assert(hay@.subrange(p as int, p + needle@.len()) =~= needle@);
            return Some(p);
        }
        assert(hay@.subrange(p as int, p + needle@.len())[j as int] != needle@[j as int]);
        p = p + 1;
    }
    None
}

/// Byte span of the `occurrence`-th (1-based) non-overlapping match of `needle` in
/// `hay`, literal or as a regular expression; `None` when there are fewer matches.
/// An empty literal is refused; an empty regular expression matches empty spans.
/// A regular expression is matched against the text that `hay` encodes, which
/// therefore has to be valid UTF-8.
pub fn find_nth_span(hay: &[u8], needle: &str, use_regex: bool, occurrence: u32) -> (r: Result<Option<(usize, usize)>, FileIoError>)
    ensures
        occurrence == 0 ==> is_line_error(r),
        occurrence != 0 && !use_regex && needle@.len() == 0 ==> r matches Err(FileIoError::InvalidPath(_)),
        occurrence != 0 && (use_regex || needle@.len() != 0) ==> match span_outcome(hay@, needle@, use_regex, occurrence as nat) {
            Err(k) => r matches Err(e) && kind_of(e) == k,
            Ok(found) => r == Ok::<Option<(usize, usize)>, FileIoError>(found),
        },
        r matches Ok(Some(span)) ==> span_within(span, hay@.len()),
        valid_utf8(hay@) ==> (r matches Ok(Some(span)) ==> is_char_boundary(hay@, span.0 as int)
            && is_char_boundary(hay@, span.1 as int)),
{
    if occurrence == 0 {
        return Err(FileIoError::InvalidLineNumbers("occurrence must be >= 1".to_string()));
    }
    if !use_regex && needle.is_empty() {
        return Err(FileIoError::InvalidPath("search must not be empty".to_string()));
    }
    if use_regex {
        let mut copy: Vec<u8> = Vec::new();
        push_range(&mut copy, hay, 0, hay.len());
        assert(hay@.subrange(0, hay@.len() as int) =~= hay@);
        let text = match string_from_utf8(copy) {
            Some(t) => t,
            None => {
                return Err(FileIoError::ReadError("content is not valid UTF-8".to_string()));
            },
        };
        proof { encode_utf8_decode_utf8(text@); }
        assert(text@ == decode_utf8(hay@));
        let mut texts: Vec<String> = Vec::new();
        texts.push(text);
        match regex_line_matches(needle, false, false, &texts) {
            Err(msg) => Err(FileIoError::RegexError(msg)),
            Ok(found) => {
                let spans = &found[0];
                assert(spans_view(*spans) == line_spans(needle@, false, false, decode_utf8(hay@)));
                let k = occurrence as usize;
                if k <= spans.len() {
                    let (a, b, _) = &spans[k - 1];
                    assert(spans_view(*spans)[k - 1] == (*a, *b, spans@[k - 1].2@));
                    assert(encode_utf8(texts@[0]@) == hay@);
                    assert(is_char_boundary(hay@, *a as int) && is_char_boundary(hay@, *b as int));
                    Ok(Some((*a, *b)))
                } else {
                    Ok(None)
                }
            },
        }
    } else {
        let hl = hay.len();
        let n = needle.as_bytes();
        proof { lemma_nonempty_encoding(needle@); }
        let mut start_from: usize = 0;
        let mut i: u32 = 1;
        loop
            invariant
                1 <= i <= occurrence,
                !use_regex,
                hl == hay@.len(),
                n@ == needle.spec_bytes(),
                n@.len() > 0,
                start_from <= hay@.len(),
                nth_match_from(hay@, n@, 0, occurrence as nat)
                    == nth_match_from(hay@, n@, start_from as int, (occurrence - i + 1) as nat),
            decreases hay@.len() - start_from,
        {
            let ghost k = (occurrence - i + 1) as nat;
            match find_from(hay, n, start_from) {
                None => {
                    assert(nth_match_from(hay@, n@, start_from as int, k) is None);
                    return Ok(None);
                },
                Some(pos) => {
                    proof { lemma_first_match_is_match(hay@, n@, start_from as int); }
                    if i == occurrence {
                        assert(nth_match_from(hay@, n@, start_from as int, k) == Some(pos as int));
                        proof {
                            if valid_utf8(hay@) {
                                encode_utf8_valid_utf8(needle@);
                                crate::validity::lemma_match_boundaries(hay@, n@, pos as int);
                            }
                        }
                        return Ok(Some((pos, pos + n.len())));
                    }
                    assert(nth_match_from(hay@, n@, start_from as int, k)
                        == nth_match_from(hay@, n@, pos + n@.len(), (k - 1) as nat));
                    start_from = pos + n.len();
                    i = i + 1;
                },
            }
        }
    }
}

} // verus!
