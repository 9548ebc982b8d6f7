use vstd::prelude::*;
use vstd::string::*;
use vstd::utf8::*;

use crate::error::FileIoError;
use crate::patch::{content_lines, str_lines};
use crate::records::Match;

verus! {

/// The characters that have a meaning in a regular expression.
pub open spec fn is_regex_meta(c: char) -> bool {
    c == '\\' || c == '.' || c == '+' || c == '*' || c == '?' || c == '(' || c == ')' || c == '|'
        || c == '[' || c == ']' || c == '{' || c == '}' || c == '^' || c == '$' || c == '#'
        || c == '&' || c == '-' || c == '~'
}

/// `s` as a regex literal: a backslash before every metacharacter.
pub open spec fn escaped_literal(s: Seq<char>) -> Seq<char>
    decreases s.len(),
{
    if s.len() == 0 {
        Seq::empty()
    } else {
        escaped_literal(s.drop_last()) + if is_regex_meta(s.last()) {
            seq!['\\', s.last()]
        } else {
            seq![s.last()]
        }
    }
}

/// Whether `pattern` compiles with the given case and multi-line flags.
pub uninterp spec fn pattern_compiles(pattern: Seq<char>, case_insensitive: bool, multi_line: bool) -> bool;

/// Start, end and text of the successive non-overlapping matches of `pattern` in `line`.
pub uninterp spec fn line_spans(pattern: Seq<char>, case_insensitive: bool, multi_line: bool, line: Seq<char>) -> Seq<(usize, usize, Seq<char>)>;

/// Relies on regex::escape, which puts a backslash before each metacharacter.
#[verifier::external_body]
fn escape_literal(s: &str) -> (r: String)
    ensures
        r@ == escaped_literal(s@),
{
    regex::escape(s)
}

pub open spec fn spans_view(v: Vec<(usize, usize, String)>) -> Seq<(usize, usize, Seq<char>)> {
    v@.map_values(|t: (usize, usize, String)| (t.0, t.1, t.2@))
}

/// Relies on regex::RegexBuilder::build (with the case and multi-line flags) to
/// compile `pattern`, and on Regex::find_iter for the start and end byte offsets
/// and the text of the matches in each line: the matches come in order without
/// overlapping, each is a range of its line whose ends fall on character
/// boundaries, and its text is the line's text between them.
#[verifier::external_body]
pub(crate) fn regex_line_matches(pattern: &str, case_insensitive: bool, multi_line: bool, lines: &Vec<String>) -> (r: Result<Vec<Vec<(usize, usize, String)>>, String>)
    ensures
        r is Ok <==> pattern_compiles(pattern@, case_insensitive, multi_line),
        r matches Ok(v) ==> v@.len() == lines@.len() && forall|i: int|
            0 <= i < v@.len() ==> spans_view(#[trigger] v@[i]) == line_spans(pattern@, case_insensitive, multi_line, lines@[i]@),
        r matches Ok(v) ==> forall|i: int, j: int| 0 <= i < v@.len() && 0 <= j < v@[i]@.len()
            ==> #[trigger] v@[i]@[j].0 <= v@[i]@[j].1 <= encode_utf8(lines@[i]@).len()
                && is_char_boundary(encode_utf8(lines@[i]@), v@[i]@[j].0 as int)
                && is_char_boundary(encode_utf8(lines@[i]@), v@[i]@[j].1 as int)
                && encode_utf8(v@[i]@[j].2@) == encode_utf8(lines@[i]@).subrange(v@[i]@[j].0 as int, v@[i]@[j].1 as int)
                && (j + 1 < v@[i]@.len() ==> v@[i]@[j].1 <= v@[i]@[j + 1].0),
{
    let re = regex::RegexBuilder::new(pattern)
        .case_insensitive(case_insensitive)
        .multi_line(multi_line)
        .build()
        .map_err(|e| e.to_string())?;
    Ok(lines.iter().map(|l| re.find_iter(l).map(|m| (m.start(), m.end(), m.as_str().to_string())).collect()).collect())
}

/// The regular expression that a search uses: the text itself or its escaped
/// literal, wrapped in word boundaries for whole-word searches.
pub open spec fn search_regex(pattern: Seq<char>, use_regex: bool, whole_word: bool) -> Seq<char> {
    let p = if use_regex { pattern } else { escaped_literal(pattern) };
    if whole_word {
        "\\b"@ + p + "\\b"@
    } else {
        p
    }
}

/// One match as path, line number, byte columns and matched text.
pub type MatchView = (Seq<char>, nat, usize, usize, Seq<char>);

pub open spec fn match_view(m: Match) -> MatchView {
    (m.file_path@, m.line_number as nat, m.column_start, m.column_end, m.matched_text@)
}

/// Matches in the first `n` lines, in order, each with its 1-based line number.
pub open spec fn lines_matches(re: Seq<char>, ci: bool, ml: bool, path: Seq<char>, lines: Seq<Seq<char>>, n: int) -> Seq<MatchView>
    decreases n,
{
    if n <= 0 {
        Seq::empty()
    } else {
        lines_matches(re, ci, ml, path, lines, n - 1) + line_spans(re, ci, ml, lines[n - 1]).map_values(
            |t: (usize, usize, Seq<char>)| (path, n as nat, t.0, t.1, t.2),
        )
    }
}

/// At most `max` leading entries of `s`.
pub open spec fn capped<T>(s: Seq<T>, max: Option<u64>) -> Seq<T> {
    match max {
        Some(k) => if k < s.len() { s.take(k as int) } else { s },
        None => s,
    }
}

/// Matches in one file, at most `max` of them.
pub open spec fn file_matches(re: Seq<char>, ci: bool, ml: bool, path: Seq<char>, content: Seq<char>, max: Option<u64>) -> Seq<MatchView> {
    let lines = str_lines(content);
    capped(lines_matches(re, ci, ml, path, lines, lines.len() as int), max)
}

/// Matches in the first `n` files, file after file.
pub open spec fn files_matches(re: Seq<char>, ci: bool, ml: bool, files: Seq<(String, String)>, max: Option<u64>, n: int) -> Seq<MatchView>
    decreases n,
{
    if n <= 0 {
        Seq::empty()
    } else {
        files_matches(re, ci, ml, files, max, n - 1) + file_matches(re, ci, ml, files[n - 1].0@, files[n - 1].1@, max)
    }
}

/// Builds the regular expression of a search (see `search_regex`).
fn build_search_regex(pattern: &str, use_regex: bool, whole_word: bool) -> (r: String)
    ensures
        r@ == search_regex(pattern@, use_regex, whole_word),
{
    let p = if use_regex { String::from_str(pattern) } else { escape_literal(pattern) };
    if whole_word {
        let mut w = String::from_str("\\b");
        w.append(p.as_str());
        w.append("\\b");
        w
    } else {
        p
    }
}

/// The matches of one file, line after line, at most `max` of them.
fn file_match_list(
    path: &String,
    lines: &Vec<String>,
    spans: &Vec<Vec<(usize, usize, String)>>,
    max: Option<u64>,
    re: Ghost<Seq<char>>,
    ci: Ghost<bool>,
    ml: Ghost<bool>,
) -> (r: Vec<Match>)
    requires
        spans@.len() == lines@.len(),
        lines@.len() <= u64::MAX,
        forall|i: int| 0 <= i < spans@.len() ==> spans_view(#[trigger] spans@[i]) == line_spans(re@, ci@, ml@, lines@[i]@),
    ensures
        r@.map_values(|m: Match| match_view(m))
            == capped(lines_matches(re@, ci@, ml@, path@, lines@.map_values(|l: String| l@), lines@.len() as int), max),
{
    let ghost lv = lines@.map_values(|l: String| l@);
    let mut all: Vec<Match> = Vec::new();
    let mut i: usize = 0;
    while i < lines.len()
        invariant
            spans@.len() == lines@.len(),
            lines@.len() <= u64::MAX,
            lv == lines@.map_values(|l: String| l@),
            forall|k: int| 0 <= k < spans@.len() ==> spans_view(#[trigger] spans@[k]) == line_spans(re@, ci@, ml@, lines@[k]@),
            i <= lines@.len(),
            all@.map_values(|m: Match| match_view(m)) == lines_matches(re@, ci@, ml@, path@, lv, i as int),
        decreases lines@.len() - i,
    {
        let row = &spans[i];
        let ghost before = lines_matches(re@, ci@, ml@, path@, lv, i as int);
        let ghost here = line_spans(re@, ci@, ml@, lv[i as int]).map_values(
            |t: (usize, usize, Seq<char>)| (path@, (i + 1) as nat, t.0, t.1, t.2),
        );
        assert(lv[i as int] == lines@[i as int]@);
        assert(spans_view(*row) == line_spans(re@, ci@, ml@, lv[i as int]));
        let mut j: usize = 0;
        while j < row.len()
            invariant
                spans_view(*row) == line_spans(re@, ci@, ml@, lv[i as int]),
                here == line_spans(re@, ci@, ml@, lv[i as int]).map_values(
                    |t: (usize, usize, Seq<char>)| (path@, (i + 1) as nat, t.0, t.1, t.2),
                ),
                i < lines@.len() <= u64::MAX,
                j <= row@.len(),
                all@.map_values(|m: Match| match_view(m)) == before + here.take(j as int),
            decreases row@.len() - j,
        {
            let (s, e, ref text) = row[j];
            assert(spans_view(*row)[j as int] == (s, e, text@));
            let ghost prev = all@;
            let m = Match {
                file_path: path.clone(),
                line_number: i as u64 + 1,
                column_start: s,
                column_end: e,
                matched_text: text.clone(),
                context_before: None,
                context_after: None,
            };
            all.push(m);
            assert(here[j as int] == (path@, (i + 1) as nat, s, e, text@));
            assert(all@.map_values(|m: Match| match_view(m)) =~= prev.map_values(|m: Match| match_view(m)).push(here[j as int]));
            assert((before + here.take(j + 1)) =~= (before + here.take(j as int)).push(here[j as int]));
            j = j + 1;
        }
        assert(here.take(row@.len() as int) =~= here);
        i = i + 1;
    }
    let n = all.len();
    let keep: usize = match max {
        Some(k) => if k < n as u64 { k as usize } else { n },
        None => n,
    };
    let ghost whole = all@;
    all.truncate(keep);
    assert(all@.map_values(|m: Match| match_view(m)) =~= capped(whole.map_values(|m: Match| match_view(m)), max));
    all
}

/// Searches the given files (path and text) for `pattern`: as a regular expression
/// or a literal, optionally case-insensitive, whole-word or multi-line, with at most
/// `max_count` matches per file. Columns are byte offsets within the line.
pub fn find_in_files(
    pattern: &str,
    case_sensitive: bool,
    use_regex: bool,
    max_count: Option<u64>,
    whole_word: bool,
    multiline: bool,
    files: &Vec<(String, String)>,
) -> (r: Result<Vec<Match>, FileIoError>)
    ensures
        !pattern_compiles(search_regex(pattern@, use_regex, whole_word), !case_sensitive, multiline)
            ==> r matches Err(FileIoError::RegexError(_)),
        pattern_compiles(search_regex(pattern@, use_regex, whole_word), !case_sensitive, multiline) ==> (r matches Ok(v)
            && v@.map_values(|m: Match| match_view(m)) == files_matches(
                search_regex(pattern@, use_regex, whole_word), !case_sensitive, multiline, files@, max_count, files@.len() as int)),
{
    let re = build_search_regex(pattern, use_regex, whole_word);
    let ci = !case_sensitive;
    let none: Vec<String> = Vec::new();
    if let Err(msg) = regex_line_matches(re.as_str(), ci, multiline, &none) {
        return Err(FileIoError::RegexError(msg));
    }
    let mut out: Vec<Match> = Vec::new();
    let mut f: usize = 0;
    while f < files.len()
        invariant
            re@ == search_regex(pattern@, use_regex, whole_word),
            ci == !case_sensitive,
            pattern_compiles(re@, ci, multiline),
            f <= files@.len(),
            out@.map_values(|m: Match| match_view(m)) == files_matches(re@, ci, multiline, files@, max_count, f as int),
        decreases files@.len() - f,
    {
        let (path, content) = (&files[f].0, &files[f].1);
        let lines = content_lines(content.as_str());
        let spans = match regex_line_matches(re.as_str(), ci, multiline, &lines) {
            Ok(v) => v,
            Err(msg) => {
                return Err(FileIoError::RegexError(msg));
            },
        };
        let _n = lines.len();
        let ghost prev = out@;
        let mut found = file_match_list(path, &lines, &spans, max_count, Ghost(re@), Ghost(ci), Ghost(multiline));
        let ghost added = found@;
        out.append(&mut found);
        assert(out@.map_values(|m: Match| match_view(m)) =~= prev.map_values(|m: Match| match_view(m))
            + added.map_values(|m: Match| match_view(m)));
        f = f + 1;
    }
    Ok(out)
}

/// Regex text for one character of a file-name glob: `.` is escaped, `*` matches
/// any run, `?` any one character.
pub open spec fn glob_char_regex(c: char) -> Seq<char> {
    if c == '.' {
        seq!['\\', '.']
    } else if c == '*' {
        seq!['.', '*']
    } else if c == '?' {
        seq!['.']
    } else {
        seq![c]
    }
}

pub open spec fn glob_body(s: Seq<char>) -> Seq<char>
    decreases s.len(),
{
    if s.len() == 0 {
        Seq::empty()
    } else {
        glob_body(s.drop_last()) + glob_char_regex(s.last())
    }
}

pub open spec fn has_wildcard(s: Seq<char>) -> bool {
    exists|i: int| 0 <= i < s.len() && (s[i] == '*' || s[i] == '?')
}

/// The regex that file names are matched against: a glob with `*` or `?` must
/// match the whole name; other text is searched for literally.
pub open spec fn name_regex(pattern: Seq<char>) -> Seq<char> {
    if has_wildcard(pattern) {
        seq!['^'] + glob_body(pattern) + seq!['$']
    } else {
        escaped_literal(pattern)
    }
}

fn build_name_regex(pattern: &str) -> (r: String)
    ensures
        r@ == name_regex(pattern@),
{
    let cs = crate::text::chars_of(pattern);
    let mut wild = false;
    let mut k: usize = 0;
    while k < cs.len()
        invariant
            cs@ == pattern@,
            k <= cs@.len(),
            wild == exists|i: int| 0 <= i < k && (cs@[i] == '*' || cs@[i] == '?'),
        decreases cs@.len() - k,
    {
        if cs[k] == '*' || cs[k] == '?' {
            wild = true;
        }
        k = k + 1;
    }
    if !wild {
        return escape_literal(pattern);
    }
    proof {
        reveal_strlit("^");
        reveal_strlit("$");
    }
    let mut r = String::from_str("^");
    let mut i: usize = 0;
    while i < cs.len()
        invariant
            cs@ == pattern@,
            i <= cs@.len(),
            r@ == seq!['^'] + glob_body(cs@.subrange(0, i as int)),
        decreases cs@.len() - i,
    {
        assert(cs@.subrange(0, i + 1).drop_last() =~= cs@.subrange(0, i as int));
        let c = cs[i];
        assert(cs@.subrange(0, i + 1).last() == c);
        proof {
            reveal_strlit("\\.");
            reveal_strlit(".*");
            reveal_strlit(".");
        }
        if c == '.' {
            r.append("\\.");
        } else if c == '*' {
            r.append(".*");
        } else if c == '?' {
            r.append(".");
        } else {
            let one = pattern.substring_char(i, i + 1);
            assert(one@ =~= seq![c]);
            r.append(one);
        }
        assert(r@ =~= seq!['^'] + glob_body(cs@.subrange(0, i + 1)));
        i = i + 1;
    }
    r.append("$");
    assert(cs@.subrange(0, cs@.len() as int) =~= cs@);
    assert(r@ =~= name_regex(pattern@));
    r
}

/// A walked entry: its file name, its path, and whether it is a file, a directory
/// or a symbolic link.
#[derive(Debug)]
pub struct FoundEntry {
    pub name: String,
    pub path: String,
    pub is_file: bool,
    pub is_dir: bool,
    pub is_symlink: bool,
}

/// Whether an entry passes the `file_type` filter (`file`, `dir` or `directory`,
/// `symlink`; any other value keeps everything).
pub open spec fn type_allows(file_type: Option<&str>, e: FoundEntry) -> bool {
    match file_type {
        Some(t) => if t@ == "file"@ {
            e.is_file
        } else if t@ == "dir"@ || t@ == "directory"@ {
            e.is_dir
        } else if t@ == "symlink"@ {
            e.is_symlink
        } else {
            true
        },
        None => true,
    }
}

/// Paths of the first `n` entries whose name matches and whose type is allowed.
pub open spec fn found_paths(re: Seq<char>, entries: Seq<FoundEntry>, file_type: Option<&str>, n: int) -> Seq<Seq<char>>
    decreases n,
{
    if n <= 0 {
        Seq::empty()
    } else {
        let before = found_paths(re, entries, file_type, n - 1);
        let e = entries[n - 1];
        if line_spans(re, false, false, e.name@).len() > 0 && type_allows(file_type, e) {
            before.push(e.path@)
        } else {
            before
        }
    }
}

fn allows(file_type: Option<&str>, e: &FoundEntry) -> (b: bool)
    ensures
        b == type_allows(file_type, *e),
{
    match file_type {
        Some(t) => if crate::text::same_text(t, "file") {
            e.is_file
        } else if crate::text::same_text(t, "dir") || crate::text::same_text(t, "directory") {
            e.is_dir
        } else if crate::text::same_text(t, "symlink") {
            e.is_symlink
        } else {
            true
        },
        None => true,
    }
}

/// Selects the walked entries whose file name matches `pattern` (see `name_regex`)
/// and whose type passes `file_type`, in walking order.
pub fn file_find(pattern: &str, entries: &Vec<FoundEntry>, file_type: Option<&str>) -> (r: Result<Vec<String>, FileIoError>)
    ensures
        !pattern_compiles(name_regex(pattern@), false, false) ==> r matches Err(FileIoError::RegexError(_)),
        pattern_compiles(name_regex(pattern@), false, false) ==> (r matches Ok(v)
            && v@.map_values(|p: String| p@) == found_paths(name_regex(pattern@), entries@, file_type, entries@.len() as int)),
{
    let re = build_name_regex(pattern);
    let mut names: Vec<String> = Vec::new();
    let mut k: usize = 0;
    while k < entries.len()
        invariant
            k <= entries@.len(),
            names@.len() == k,
            forall|j: int| 0 <= j < k ==> (#[trigger] names@[j])@ == entries@[j].name@,
        decreases entries@.len() - k,
    {
        names.push(entries[k].name.clone());
        k = k + 1;
    }
    let spans = match regex_line_matches(re.as_str(), false, false, &names) {
        Ok(v) => v,
        Err(msg) => {
            return Err(FileIoError::RegexError(msg));
        },
    };
    let mut out: Vec<String> = Vec::new();
    let mut i: usize = 0;
    while i < entries.len()
        invariant
            re@ == name_regex(pattern@),
            names@.len() == entries@.len(),
            spans@.len() == names@.len(),
            forall|j: int| 0 <= j < entries@.len() ==> (#[trigger] names@[j])@ == entries@[j].name@,
            forall|j: int| 0 <= j < spans@.len() ==> spans_view(#[trigger] spans@[j]) == line_spans(re@, false, false, names@[j]@),
            i <= entries@.len(),
            out@.map_values(|p: String| p@) == found_paths(re@, entries@, file_type, i as int),
        decreases entries@.len() - i,
    {
        let e = &entries[i];
        assert(spans_view(spans@[i as int]) == line_spans(re@, false, false, e.name@));
        if spans[i].len() > 0 && allows(file_type, e) {
            let p = e.path.clone();
            let ghost prev = out@;
            out.push(p);
            assert(out@.map_values(|p: String| p@) =~= prev.map_values(|p: String| p@).push(p@));
        }
        i = i + 1;
    }
    Ok(out)
}

} // verus!
