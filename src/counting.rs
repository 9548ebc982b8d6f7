use vstd::prelude::*;
use vstd::string::*;

use crate::error::{error_text, FileIoError};
use crate::lines::newline_ends;
use crate::text::{char_is_whitespace, chars_of, is_whitespace};

verus! {

/// Number of lines as a line reader yields them: one per newline, plus a final
/// line that lacks one.
pub open spec fn lines_in(s: Seq<u8>) -> nat {
    newline_ends(s).len() + if s.len() > 0 && s.last() != 10u8 { 1nat } else { 0nat }
}

/// Number of maximal runs of non-whitespace characters.
pub open spec fn words_in(s: Seq<char>) -> nat
    decreases s.len(),
{
    if s.len() == 0 {
        0
    } else {
        words_in(s.drop_last()) + if !is_whitespace(s.last()) && (s.len() == 1 || is_whitespace(s[s.len() - 2])) {
            1nat
        } else {
            0nat
        }
    }
}

/// How many lines `content` holds.
pub fn count_lines_in(content: &[u8]) -> (n: u64)
    ensures
        n as nat == lines_in(content@),
{
    let mut newlines: usize = 0;
    let mut i: usize = 0;
    while i < content.len()
        invariant
            i <= content@.len(),
            newlines <= i,
            newlines as nat == newline_ends(content@.subrange(0, i as int)).len(),
        decreases content@.len() - i,
    {
        assert(content@.subrange(0, i + 1).drop_last() =~= content@.subrange(0, i as int));
        if content[i] == 10u8 {
            newlines = newlines + 1;
        }
        i = i + 1;
    }
    assert(content@.subrange(0, content@.len() as int) =~= content@);
    let len = content.len();
    let tail: u64 = if len > 0 && content[len - 1] != 10u8 { 1 } else { 0 };
    proof {
        if tail == 1 {
            crate::lines::lemma_newline_ends_bounds(content@.drop_last());
        }
    }
    newlines as u64 + tail
}

/// How many whitespace-separated words `text` holds.
pub fn count_words_in(text: &str) -> (n: u64)
    ensures
        n as nat == words_in(text@),
{
    let cs = chars_of(text);
    let mut words: usize = 0;
    let mut i: usize = 0;
    proof { lemma_words_le_len(cs@); }
    while i < cs.len()
        invariant
            i <= cs@.len(),
            words <= i,
            words as nat == words_in(cs@.subrange(0, i as int)),
        decreases cs@.len() - i,
    {
        let ghost next = cs@.subrange(0, i + 1);
        assert(next.drop_last() =~= cs@.subrange(0, i as int));
        proof { lemma_words_le_len(next); }
        let starts_word = !char_is_whitespace(cs[i]) && (i == 0 || char_is_whitespace(cs[i - 1]));
        if starts_word {
            words = words + 1;
        }
        i = i + 1;
    }
    assert(cs@.subrange(0, cs@.len() as int) =~= cs@);
    words as u64
}

proof fn lemma_words_le_len(s: Seq<char>)
    ensures
        words_in(s) <= s.len(),
    decreases s.len(),
{
    if s.len() > 0 {
        lemma_words_le_len(s.drop_last());
    }
}

/// Line count of one path, or why it could not be had.
#[derive(Debug)]
pub struct LineCountResult {
    pub path: String,
    pub status: String,
    pub lines: Option<u64>,
    pub exists: bool,
}

/// Word count of one path, or why it could not be had.
#[derive(Debug)]
pub struct WordCountResult {
    pub path: String,
    pub status: String,
    pub words: Option<u64>,
    pub exists: bool,
}

/// Status text of a path whose content could not be read.
pub open spec fn failure_status(e: FileIoError) -> Seq<char> {
    if e is NotFound {
        "error: not found"@
    } else {
        "error: "@ + error_text(e)
    }
}

fn failure_text(e: &FileIoError) -> (r: String)
    ensures
        r@ == failure_status(*e),
{
    if let FileIoError::NotFound(_) = e {
        String::from_str("error: not found")
    } else {
        let mut r = String::from_str("error: ");
        r.append(e.describe().as_str());
        r
    }
}

/// What a line count reports for `path`, given its content or the error met reading it.
pub open spec fn line_count_reports(r: LineCountResult, path: Seq<char>, read: Result<Vec<u8>, FileIoError>) -> bool {
    &&& r.path@ == path
    &&& match read {
        Ok(b) => r.status@ == "ok"@ && r.lines == Some(lines_in(b@) as u64) && r.exists,
        Err(e) => r.status@ == failure_status(e) && r.lines is None && r.exists == !(e is NotFound),
    }
}

/// What a word count reports for `path`, given its text or the error met reading it.
pub open spec fn word_count_reports(r: WordCountResult, path: Seq<char>, read: Result<String, FileIoError>) -> bool {
    &&& r.path@ == path
    &&& match read {
        Ok(t) => r.status@ == "ok"@ && r.words == Some(words_in(t@) as u64) && r.exists,
        Err(e) => r.status@ == failure_status(e) && r.words is None && r.exists == !(e is NotFound),
    }
}

/// Per-path line counts, from what reading each path gave.
pub fn count_lines(paths: &Vec<String>, reads: Vec<Result<Vec<u8>, FileIoError>>) -> (r: Vec<LineCountResult>)
    requires
        paths@.len() == reads@.len(),
    ensures
        r@.len() == paths@.len(),
        forall|i: int| 0 <= i < r@.len() ==> line_count_reports(#[trigger] r@[i], paths@[i]@, reads@[i]),
{
    let mut out: Vec<LineCountResult> = Vec::new();
    let mut i: usize = 0;
    while i < paths.len()
        invariant
            paths@.len() == reads@.len(),
            i <= paths@.len(),
            out@.len() == i,
            forall|j: int| 0 <= j < i ==> line_count_reports(#[trigger] out@[j], paths@[j]@, reads@[j]),
        decreases paths@.len() - i,
    {
        let path = paths[i].clone();
        let entry = match &reads[i] {
            Ok(b) => LineCountResult {
                path,
                status: String::from_str("ok"),
                lines: Some(count_lines_in(b.as_slice())),
                exists: true,
            },
            Err(e) => LineCountResult {
                path,
                status: failure_text(e),
                lines: None,
                exists: !(e.kind() == crate::error::ErrorKind::NotFound),
            },
        };
        out.push(entry);
        i = i + 1;
    }
    out
}

/// Per-path word counts, from what reading each path gave.
pub fn count_words(paths: &Vec<String>, reads: Vec<Result<String, FileIoError>>) -> (r: Vec<WordCountResult>)
    requires
        paths@.len() == reads@.len(),
    ensures
        r@.len() == paths@.len(),
        forall|i: int| 0 <= i < r@.len() ==> word_count_reports(#[trigger] r@[i], paths@[i]@, reads@[i]),
{
    let mut out: Vec<WordCountResult> = Vec::new();
    let mut i: usize = 0;
    while i < paths.len()
        invariant
            paths@.len() == reads@.len(),
            i <= paths@.len(),
            out@.len() == i,
            forall|j: int| 0 <= j < i ==> word_count_reports(#[trigger] out@[j], paths@[j]@, reads@[j]),
        decreases paths@.len() - i,
    {
        let path = paths[i].clone();
        let entry = match &reads[i] {
            Ok(t) => WordCountResult {
                path,
                status: String::from_str("ok"),
                words: Some(count_words_in(t.as_str())),
                exists: true,
            },
            Err(e) => WordCountResult {
                path,
                status: failure_text(e),
                words: None,
                exists: !(e.kind() == crate::error::ErrorKind::NotFound),
            },
        };
        out.push(entry);
        i = i + 1;
    }
    out
}

} // verus!
