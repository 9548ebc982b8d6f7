use vstd::prelude::*;

verus! {

/// `buf` with the bytes `start..end` replaced by `text`.
pub open spec fn splice(buf: Seq<u8>, start: int, end: int, text: Seq<u8>) -> Seq<u8> {
    buf.subrange(0, start) + text + buf.subrange(end, buf.len() as int)
}

/// Appends `src[from..to]` to `dst`.
pub fn push_range(dst: &mut Vec<u8>, src: &[u8], from: usize, to: usize)
    requires
        from <= to <= src@.len(),
    ensures
        final(dst)@ == old(dst)@ + src@.subrange(from as int, to as int),
{
    let mut i = from;
    while i < to
        invariant
            from <= i <= to,
            to <= src@.len(),
            dst@ == old(dst)@ + src@.subrange(from as int, i as int),
        decreases to - i,
    {
        dst.push(src[i]);
        assert(src@.subrange(from as int, i + 1) =~= src@.subrange(from as int, i as int).push(src@[i as int]));
        i = i + 1;
    }
}

/// A new buffer holding `buf` with `start..end` replaced by `text`.
pub fn splice_bytes(buf: &[u8], start: usize, end: usize, text: &[u8]) -> (r: Vec<u8>)
    requires
        start <= end <= buf@.len(),
    ensures
        r@ == splice(buf@, start as int, end as int, text@),
{
    let mut out: Vec<u8> = Vec::new();
    push_range(&mut out, buf, 0, start);
    push_range(&mut out, text, 0, text.len());
    push_range(&mut out, buf, end, buf.len());
    assert(text@.subrange(0, text@.len() as int) =~= text@);
    out
}

/// Whether two byte sequences are identical.
pub fn same_bytes(a: &[u8], b: &[u8]) -> (r: bool)
    ensures
        r == (a@ == b@),
{
    if a.len() != b.len() {
        return false;
    }
    let mut i: usize = 0;
    while i < a.len()
        invariant
            a@.len() == b@.len(),
            i <= a@.len(),
            forall|t: int| 0 <= t < i ==> a@[t] == b@[t],
        decreases a@.len() - i,
    {
        if a[i] != b[i] {
            return false;
        }
        i = i + 1;
    }
    assert(a@ =~= b@);
    true
}

/// Relies on String::from_utf8: it succeeds exactly on valid UTF-8, and the
/// string's encoding is then the given bytes.
#[verifier::external_body]
pub(crate) fn string_from_utf8(bytes: Vec<u8>) -> (r: Option<String>)
    ensures
        r is Some <==> vstd::utf8::valid_utf8(bytes@),
        r matches Some(s) ==> vstd::utf8::encode_utf8(s@) == bytes@,
{
    String::from_utf8(bytes).ok()
}

} // verus!
