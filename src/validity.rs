use vstd::prelude::*;
use vstd::utf8::*;

use crate::bytes::splice;
use crate::lines::{lemma_newline_ends_bounds, line_starts, newline_ends};
use crate::search::matches_at;

verus! {

/// In valid UTF-8, a prefix that is itself valid ends on a character boundary.
pub proof fn lemma_valid_prefix_boundary(s: Seq<u8>, n: int)
    requires
        valid_utf8(s),
        0 <= n <= s.len(),
        valid_utf8(s.subrange(0, n)),
    ensures
        is_char_boundary(s, n),
    decreases s.len(),
{
    if n > 0 {
        let t = s.subrange(0, n);
        assert(t[0] == s[0]);
        let l = length_of_first_scalar(s);
        assert(length_of_first_scalar(t) == l);
        assert(pop_first_scalar(t) =~= pop_first_scalar(s).subrange(0, n - l));
        lemma_valid_prefix_boundary(pop_first_scalar(s), n - l);
    }
}

/// The position after a one-byte character that starts on a boundary is a boundary.
pub proof fn lemma_boundary_after_ascii(s: Seq<u8>, q: int)
    requires
        valid_utf8(s),
        0 <= q < s.len(),
        is_char_boundary(s, q),
        is_leading_byte_width_1(s[q]),
    ensures
        is_char_boundary(s, q + 1),
    decreases s.len(),
{
    let l = length_of_first_scalar(s);
    if q > 0 {
        assert(pop_first_scalar(s)[q - l] == s[q]);
        lemma_boundary_after_ascii(pop_first_scalar(s), q - l);
    } else {
        assert(is_char_boundary(pop_first_scalar(s), 0));
    }
}

/// Every line start of valid UTF-8 text, and its end, are character boundaries.
pub proof fn lemma_line_starts_are_boundaries(s: Seq<u8>)
    requires
        valid_utf8(s),
        s.len() <= usize::MAX,
    ensures
        forall|k: int| 0 <= k < line_starts(s).len() ==> is_char_boundary(s, #[trigger] line_starts(s)[k] as int),
        is_char_boundary(s, s.len() as int),
{
    is_char_boundary_start_end_of_seq(s);
    lemma_newline_ends_bounds(s);
    assert forall|k: int| 0 <= k < line_starts(s).len() implies is_char_boundary(s, #[trigger] line_starts(s)[k] as int) by {
        if k > 0 {
            let e = newline_ends(s)[k - 1] as int;
            assert(line_starts(s)[k] == newline_ends(s)[k - 1]);
            is_char_boundary_iff_not_is_continuation_byte(s, e - 1);
            lemma_boundary_after_ascii(s, e - 1);
        }
    }
}

/// Replacing a span between two boundaries by valid text keeps the text valid.
pub proof fn lemma_splice_valid(buf: Seq<u8>, a: int, b: int, text: Seq<u8>)
    requires
        valid_utf8(buf),
        0 <= a <= b <= buf.len(),
        is_char_boundary(buf, a),
        is_char_boundary(buf, b),
        valid_utf8(text),
    ensures
        valid_utf8(splice(buf, a, b, text)),
{
    valid_utf8_split(buf, a);
    valid_utf8_split(buf, b);
    valid_utf8_concat(buf.subrange(0, a), text);
    valid_utf8_concat(buf.subrange(0, a) + text, buf.subrange(b, buf.len() as int));
}

/// An occurrence of valid, non-empty text inside valid text starts and ends on
/// character boundaries.
pub proof fn lemma_match_boundaries(hay: Seq<u8>, needle: Seq<u8>, p: int)
    requires
        valid_utf8(hay),
        valid_utf8(needle),
        needle.len() > 0,
        matches_at(hay, needle, p),
    ensures
        is_char_boundary(hay, p),
        is_char_boundary(hay, p + needle.len()),
{
    is_char_boundary_start_end_of_seq(needle);
    is_char_boundary_iff_not_is_continuation_byte(needle, 0);
    assert(hay[p] == needle[0]);
    is_char_boundary_iff_not_is_continuation_byte(hay, p);
    valid_utf8_split(hay, p);
    let end = p + needle.len();
    assert(hay.subrange(0, end) =~= hay.subrange(0, p) + needle);
    valid_utf8_concat(hay.subrange(0, p), needle);
    lemma_valid_prefix_boundary(hay, end);
}

} // verus!
