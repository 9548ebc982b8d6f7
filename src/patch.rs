use vstd::prelude::*;
use serde_json::Value;
use vstd::string::*;

use crate::error::FileIoError;
use crate::text::{chars_of, same_text};

verus! {

/// The pieces of `s` between line feeds; there is always at least one.
pub open spec fn pieces(s: Seq<char>) -> Seq<Seq<char>>
    decreases s.len(),
{
    if s.len() == 0 {
        seq![Seq::empty()]
    } else {
        let p = pieces(s.drop_last());
        if s.last() == '\n' {
            p.push(Seq::empty())
        } else {
            p.update(p.len() - 1, p.last().push(s.last()))
        }
    }
}

/// A line without the carriage return that ended it.
pub open spec fn strip_cr(l: Seq<char>) -> Seq<char> {
    if l.len() > 0 && l.last() == '\r' {
        l.drop_last()
    } else {
        l
    }
}

/// `str::lines`: the lines of `s`, split at `\n` or `\r\n`; a final line ending
/// adds no empty line.
pub open spec fn str_lines(s: Seq<char>) -> Seq<Seq<char>> {
    let p = pieces(s);
    let n = if p.last().len() == 0 { p.len() - 1 } else { p.len() as int };
    Seq::new(n as nat, |i: int| if i < p.len() - 1 { strip_cr(p[i]) } else { p[i] })
}

proof fn lemma_pieces_nonempty(s: Seq<char>)
    ensures
        pieces(s).len() >= 1,
        pieces(s).len() <= s.len() + 1,
    decreases s.len(),
{
    if s.len() > 0 {
        lemma_pieces_nonempty(s.drop_last());
    }
}

/// Character ranges of the lines of `cs`, as `str::lines` yields them.
pub fn line_ranges(cs: &Vec<char>) -> (r: Vec<(usize, usize)>)
    ensures
        r@.len() == str_lines(cs@).len(),
        forall|i: int| 0 <= i < r@.len() ==> (#[trigger] r@[i]).0 <= r@[i].1 <= cs@.len()
            && cs@.subrange(r@[i].0 as int, r@[i].1 as int) == str_lines(cs@)[i],
{
    let mut done: Vec<(usize, usize)> = Vec::new();
    let mut start: usize = 0;
    let mut i: usize = 0;
    while i < cs.len()
        invariant
            start <= i <= cs@.len(),
            pieces(cs@.subrange(0, i as int)).len() == done@.len() + 1,
            pieces(cs@.subrange(0, i as int)).last() == cs@.subrange(start as int, i as int),
            forall|k: int| 0 <= k < done@.len() ==> (#[trigger] done@[k]).0 <= done@[k].1 <= start
                && cs@.subrange(done@[k].0 as int, done@[k].1 as int) == pieces(cs@.subrange(0, i as int))[k],
        decreases cs@.len() - i,
    {
        let ghost pre = cs@.subrange(0, i as int);
        let ghost next = cs@.subrange(0, i + 1);
        assert(next.drop_last() =~= pre);
        proof { lemma_pieces_nonempty(pre); }
        if cs[i] == '\n' {
            done.push((start, i));
            start = i + 1;
            assert(cs@.subrange(start as int, i + 1) =~= Seq::<char>::empty());
        } else {
            assert(cs@.subrange(start as int, i + 1) =~= cs@.subrange(start as int, i as int).push(cs@[i as int]));
        }
        i = i + 1;
    }
    assert(cs@.subrange(0, cs@.len() as int) =~= cs@);
    proof { lemma_pieces_nonempty(cs@); }
    let ghost p = pieces(cs@);
    let mut out: Vec<(usize, usize)> = Vec::new();
    let mut k: usize = 0;
    while k < done.len()
        invariant
            p == pieces(cs@),
            p.len() == done@.len() + 1,
            k <= done@.len(),
            out@.len() == k,
            forall|j: int| 0 <= j < done@.len() ==> (#[trigger] done@[j]).0 <= done@[j].1 <= start
                && cs@.subrange(done@[j].0 as int, done@[j].1 as int) == p[j],
            start <= cs@.len(),
            forall|j: int| 0 <= j < k ==> (#[trigger] out@[j]).0 <= out@[j].1 <= cs@.len()
                && cs@.subrange(out@[j].0 as int, out@[j].1 as int) == strip_cr(p[j]),
        decreases done@.len() - k,
    {
        let (a, b) = done[k];
        let piece = Ghost(cs@.subrange(a as int, b as int));
        if b > a && cs[b - 1] == '\r' {
            assert(cs@.subrange(a as int, b - 1) =~= piece@.drop_last());
            out.push((a, b - 1));
        } else {
            out.push((a, b));
        }
        k = k + 1;
    }
    if start < cs.len() {
        out.push((start, cs.len()));
    }
    assert forall|i: int| 0 <= i < out@.len() implies (#[trigger] out@[i]).0 <= out@[i].1 <= cs@.len()
        && cs@.subrange(out@[i].0 as int, out@[i].1 as int) == str_lines(cs@)[i] by {
        if i < done@.len() {
            assert(i < p.len() - 1);
        }
    }
    out
}

pub open spec fn is_hunk_header(l: Seq<char>) -> bool {
    l.len() >= 2 && l[0] == '@' && l[1] == '@'
}

pub open spec fn is_removal(l: Seq<char>) -> bool {
    l.len() >= 1 && l[0] == '-' && !(l.len() >= 3 && l[1] == '-' && l[2] == '-')
}

pub open spec fn is_addition(l: Seq<char>) -> bool {
    l.len() >= 1 && l[0] == '+' && !(l.len() >= 3 && l[1] == '+' && l[2] == '+')
}

pub open spec fn is_context(l: Seq<char>) -> bool {
    l.len() == 0 || l[0] == ' '
}

/// One diff line applied to the position `idx` in the old lines and the new lines
/// `out`: hunk headers are skipped, `-` drops an old line, `+` adds its text, a
/// context line keeps the next old line; anything else is ignored.
pub open spec fn diff_step(lines: Seq<Seq<char>>, state: (int, Seq<Seq<char>>), dl: Seq<char>) -> (int, Seq<Seq<char>>) {
    let (idx, out) = state;
    if is_hunk_header(dl) {
        state
    } else if is_removal(dl) {
        if idx < lines.len() { (idx + 1, out) } else { state }
    } else if is_addition(dl) {
        (idx, out.push(dl.drop_first()))
    } else if is_context(dl) {
        if idx < lines.len() { (idx + 1, out.push(lines[idx])) } else { state }
    } else {
        state
    }
}

pub open spec fn diff_run(lines: Seq<Seq<char>>, diff: Seq<Seq<char>>, n: int) -> (int, Seq<Seq<char>>)
    decreases n,
{
    if n <= 0 {
        (0, Seq::empty())
    } else {
        diff_step(lines, diff_run(lines, diff, n - 1), diff[n - 1])
    }
}

/// Lines joined by `\n`, with no final line feed.
pub open spec fn join_lines(ls: Seq<Seq<char>>) -> Seq<char>
    decreases ls.len(),
{
    if ls.len() == 0 {
        Seq::empty()
    } else if ls.len() == 1 {
        ls[0]
    } else {
        join_lines(ls.drop_last()) + seq!['\n'] + ls.last()
    }
}

/// Text of `content` after applying the unified diff `diff`: the lines that the
/// diff produces, then the old lines it did not reach.
pub open spec fn unified_patch(content: Seq<char>, diff: Seq<char>) -> Seq<char> {
    let lines = str_lines(content);
    let d = str_lines(diff);
    let (idx, out) = diff_run(lines, d, d.len() as int);
    join_lines(out + lines.subrange(idx, lines.len() as int))
}

proof fn lemma_diff_run_bounds(lines: Seq<Seq<char>>, diff: Seq<Seq<char>>, n: int)
    ensures
        0 <= diff_run(lines, diff, n).0 <= lines.len(),
    decreases n,
{
    if n > 0 {
        lemma_diff_run_bounds(lines, diff, n - 1);
    }
}

/// Appends line `src[a..b]` to the `\n`-joined text `out` of the lines `model`.
fn push_line(out: &mut String, model: Ghost<Seq<Seq<char>>>, nonempty: bool, src: &str, a: usize, b: usize)
    requires
        a <= b <= src@.len(),
        nonempty == (model@.len() > 0),
        old(out)@ == join_lines(model@),
    ensures
        final(out)@ == join_lines(model@.push(src@.subrange(a as int, b as int))),
{
    let l = src.substring_char(a, b);
    let ghost m2 = model@.push(l@);
    assert(m2.drop_last() =~= model@);
    if nonempty {
        proof { reveal_strlit("\n"); }
        out.append("\n");
    } else {
        assert(join_lines(model@) =~= Seq::<char>::empty());
    }
    out.append(l);
}

/// Applies a unified diff to `content`, line by line (see `unified_patch`).
pub fn apply_unified_diff(content: &str, diff: &str) -> (r: String)
    ensures
        r@ == unified_patch(content@, diff@),
{
    let cs = chars_of(content);
    let ds = chars_of(diff);
    let lines = line_ranges(&cs);
    let dls = line_ranges(&ds);
    let ghost lm = str_lines(content@);
    let ghost dm = str_lines(diff@);
    let mut out = String::new();
    let ghost mut outm: Seq<Seq<char>> = Seq::empty();
    let mut has_lines = false;
    let mut idx: usize = 0;
    let mut j: usize = 0;
    while j < dls.len()
        invariant
            cs@ == content@,
            ds@ == diff@,
            lm == str_lines(content@),
            dm == str_lines(diff@),
            lines@.len() == lm.len(),
            forall|i: int| 0 <= i < lines@.len() ==> (#[trigger] lines@[i]).0 <= lines@[i].1 <= cs@.len()
                && cs@.subrange(lines@[i].0 as int, lines@[i].1 as int) == lm[i],
            dls@.len() == dm.len(),
            forall|i: int| 0 <= i < dls@.len() ==> (#[trigger] dls@[i]).0 <= dls@[i].1 <= ds@.len()
                && ds@.subrange(dls@[i].0 as int, dls@[i].1 as int) == dm[i],
            j <= dls@.len(),
            diff_run(lm, dm, j as int) == (idx as int, outm),
            out@ == join_lines(outm),
            has_lines == (outm.len() > 0),
        decreases dls@.len() - j,
    {
        proof { lemma_diff_run_bounds(lm, dm, j as int); }
        let (a, b) = dls[j];
        let ghost dl = dm[j as int];
        assert(dl == ds@.subrange(a as int, b as int));
        let len = b - a;
        let hunk = len >= 2 && ds[a] == '@' && ds[a + 1] == '@';
        let removal = len >= 1 && ds[a] == '-' && !(len >= 3 && ds[a + 1] == '-' && ds[a + 2] == '-');
        let addition = len >= 1 && ds[a] == '+' && !(len >= 3 && ds[a + 1] == '+' && ds[a + 2] == '+');
        let context = len == 0 || ds[a] == ' ';
        assert(hunk == is_hunk_header(dl));
        assert(removal == is_removal(dl));
        assert(addition == is_addition(dl));
        assert(context == is_context(dl));
        if hunk {
        } else if removal {
            if idx < lines.len() {
                idx = idx + 1;
            }
        } else if addition {
            assert(ds@.subrange(a + 1, b as int) =~= dl.drop_first());
            push_line(&mut out, Ghost(outm), has_lines, diff, a + 1, b);
            proof { outm = outm.push(dl.drop_first()); }
            has_lines = true;
        } else if context {
            if idx < lines.len() {
                let (la, lb) = lines[idx];
                push_line(&mut out, Ghost(outm), has_lines, content, la, lb);
                proof { outm = outm.push(lm[idx as int]); }
                has_lines = true;
                idx = idx + 1;
            }
        }
        j = j + 1;
    }
    proof { lemma_diff_run_bounds(lm, dm, j as int); }
    let ghost start_idx = idx as int;
    let ghost prefix = outm;
    while idx < lines.len()
        invariant
            cs@ == content@,
            lm == str_lines(content@),
            lines@.len() == lm.len(),
            forall|i: int| 0 <= i < lines@.len() ==> (#[trigger] lines@[i]).0 <= lines@[i].1 <= cs@.len()
                && cs@.subrange(lines@[i].0 as int, lines@[i].1 as int) == lm[i],
            0 <= start_idx <= idx <= lines@.len(),
            outm == prefix + lm.subrange(start_idx, idx as int),
            out@ == join_lines(outm),
            has_lines == (outm.len() > 0),
        decreases lines@.len() - idx,
    {
        let (la, lb) = lines[idx];
        push_line(&mut out, Ghost(outm), has_lines, content, la, lb);
        proof {
            outm = outm.push(lm[idx as int]);
            assert(outm =~= prefix + lm.subrange(start_idx, idx + 1));
        }
        has_lines = true;
        idx = idx + 1;
    }
    assert(dm.len() == j);
    out
}

/// One operation of a line patch as read from JSON: `type`, `line` and `content`,
/// each `None` when absent or of another JSON type.
#[derive(Debug)]
pub struct RawPatchOp {
    pub op_type: Option<String>,
    pub line: Option<u64>,
    pub content: Option<String>,
}

/// What a line patch document holds.
#[derive(Debug)]
pub enum PatchOps {
    /// The text is not JSON; the parser's message.
    Malformed(String),
    /// The document has no `operations` array.
    NoOperations,
    Operations(Vec<RawPatchOp>),
}

pub open spec fn opt_view(o: Option<String>) -> Option<Seq<char>> {
    match o {
        Some(s) => Some(s@),
        None => None,
    }
}

pub open spec fn raw_view(o: RawPatchOp) -> (Option<Seq<char>>, Option<u64>, Option<Seq<char>>) {
    (opt_view(o.op_type), o.line, opt_view(o.content))
}

/// The operations of a line patch document: `None` when the text is not JSON,
/// `Some(None)` when it has no `operations` array, else the fields of each entry.
pub uninterp spec fn json_patch_ops(json: Seq<char>) -> Option<Option<Seq<(Option<Seq<char>>, Option<u64>, Option<Seq<char>>)>>>;

/// Relies on serde_json::from_str to parse the document, and on Value::get,
/// as_array, as_str and as_u64 to read the `operations` array and its fields.
#[verifier::external_body]
fn read_patch_ops(json: &str) -> (r: PatchOps)
    ensures
        r is Malformed <==> json_patch_ops(json@) is None,
        r is NoOperations <==> json_patch_ops(json@) == Some(None::<Seq<(Option<Seq<char>>, Option<u64>, Option<Seq<char>>)>>),
        r matches PatchOps::Operations(v) ==> json_patch_ops(json@) == Some(Some(v@.map_values(|o: RawPatchOp| raw_view(o)))),
{
    let doc: Value = match serde_json::from_str(json) {
        Ok(v) => v,
        Err(e) => return PatchOps::Malformed(e.to_string()),
    };
    let text = |v: &Value, k: &str| v.get(k)?.as_str().map(String::from);
    match doc.get("operations").and_then(|o| o.as_array()) {
        None => PatchOps::NoOperations,
        Some(ops) => PatchOps::Operations(ops.iter().map(|op| RawPatchOp {
            op_type: text(op, "type"),
            line: op.get("line").and_then(|l| l.as_u64()),
            content: text(op, "content"),
        }).collect()),
    }
}

/// Indices and line numbers of the first `n` operations that have both a type and
/// a line, in their original order.
pub open spec fn usable_ops(ops: Seq<(Option<Seq<char>>, Option<u64>, Option<Seq<char>>)>, n: int) -> Seq<(usize, u64)>
    decreases n,
{
    if n <= 0 {
        Seq::empty()
    } else {
        let before = usable_ops(ops, n - 1);
        match (ops[n - 1].0, ops[n - 1].1) {
            (Some(_), Some(l)) => before.push(((n - 1) as usize, l)),
            _ => before,
        }
    }
}

/// `x` placed into the descending `sorted` after every entry whose line is not
/// smaller, so that equal lines keep their order.
pub open spec fn insert_desc(sorted: Seq<(usize, u64)>, x: (usize, u64)) -> Seq<(usize, u64)>
    decreases sorted.len(),
{
    if sorted.len() == 0 {
        seq![x]
    } else if sorted.last().1 >= x.1 {
        sorted.push(x)
    } else {
        insert_desc(sorted.drop_last(), x).push(sorted.last())
    }
}

/// Stable sort by line number, largest first.
pub open spec fn sort_desc(s: Seq<(usize, u64)>) -> Seq<(usize, u64)>
    decreases s.len(),
{
    if s.len() == 0 {
        s
    } else {
        insert_desc(sort_desc(s.drop_last()), s.last())
    }
}

/// One operation applied to `lines`: an `add` inserts its content before line
/// `line`, a `remove` deletes line `line`; a bad line, missing content or unknown
/// type fails.
pub open spec fn line_op_step(lines: Seq<Seq<char>>, t: Seq<char>, line: u64, content: Option<Seq<char>>) -> Result<Seq<Seq<char>>, ()> {
    if line == 0 || line > lines.len() + 1 {
        Err(())
    } else if t == "add"@ {
        match content {
            Some(c) => Ok(lines.insert(line - 1, c)),
            None => Err(()),
        }
    } else if t == "remove"@ {
        if line > lines.len() {
            Err(())
        } else {
            Ok(lines.remove(line - 1))
        }
    } else {
        Err(())
    }
}

/// The first `n` of the ordered operations `order` applied to `lines`.
pub open spec fn line_ops_run(
    lines: Seq<Seq<char>>,
    ops: Seq<(Option<Seq<char>>, Option<u64>, Option<Seq<char>>)>,
    order: Seq<(usize, u64)>,
    n: int,
) -> Result<Seq<Seq<char>>, ()>
    decreases n,
{
    if n <= 0 {
        Ok(lines)
    } else {
        match line_ops_run(lines, ops, order, n - 1) {
            Err(()) => Err(()),
            Ok(ls) => {
                let op = ops[order[n - 1].0 as int];
                line_op_step(ls, op.0->Some_0, order[n - 1].1, op.2)
            },
        }
    }
}

/// Text of `content` after the line operations `ops`, applied from the largest
/// line number down, joined by `\n`.
pub open spec fn add_remove_patch(content: Seq<char>, ops: Seq<(Option<Seq<char>>, Option<u64>, Option<Seq<char>>)>) -> Result<Seq<char>, ()> {
    let order = sort_desc(usable_ops(ops, ops.len() as int));
    match line_ops_run(str_lines(content), ops, order, order.len() as int) {
        Ok(ls) => Ok(join_lines(ls)),
        Err(()) => Err(()),
    }
}

proof fn lemma_usable_ops_bounds(ops: Seq<(Option<Seq<char>>, Option<u64>, Option<Seq<char>>)>, n: int)
    requires
        n <= ops.len() <= usize::MAX,
    ensures
        forall|k: int| 0 <= k < usable_ops(ops, n).len() ==> {
            let e = #[trigger] usable_ops(ops, n)[k];
            0 <= e.0 < ops.len() && ops[e.0 as int].0 is Some && ops[e.0 as int].1 == Some(e.1)
        },
    decreases n,
{
    if n > 0 {
        lemma_usable_ops_bounds(ops, n - 1);
        let before = usable_ops(ops, n - 1);
        if let (Some(_), Some(l)) = (ops[n - 1].0, ops[n - 1].1) {
            let now = usable_ops(ops, n);
            assert(now == before.push(((n - 1) as usize, l)));
            assert forall|k: int| 0 <= k < now.len() implies {
                let e = #[trigger] now[k];
                0 <= e.0 < ops.len() && ops[e.0 as int].0 is Some && ops[e.0 as int].1 == Some(e.1)
            } by {
                if k < before.len() {
                    assert(now[k] == before[k]);
                }
            }
        }
    }
}

proof fn lemma_insert_desc_keeps(sorted: Seq<(usize, u64)>, x: (usize, u64))
    ensures
        insert_desc(sorted, x).len() == sorted.len() + 1,
        forall|k: int| 0 <= k < insert_desc(sorted, x).len() ==> {
            let e = #[trigger] insert_desc(sorted, x)[k];
            e == x || sorted.contains(e)
        },
    decreases sorted.len(),
{
    if sorted.len() > 0 && sorted.last().1 < x.1 {
        lemma_insert_desc_keeps(sorted.drop_last(), x);
        let r = insert_desc(sorted, x);
        assert forall|k: int| 0 <= k < r.len() implies {
            let e = #[trigger] r[k];
            e == x || sorted.contains(e)
        } by {
            if k < r.len() - 1 {
                let e = insert_desc(sorted.drop_last(), x)[k];
                if e != x {
                    let j = choose|j: int| 0 <= j < sorted.drop_last().len() && sorted.drop_last()[j] == e;
                    assert(sorted[j] == e);
                }
            } else {
                assert(sorted[sorted.len() - 1] == sorted.last());
            }
        }
    } else if sorted.len() > 0 {
        let r = insert_desc(sorted, x);
        assert forall|k: int| 0 <= k < r.len() implies {
            let e = #[trigger] r[k];
            e == x || sorted.contains(e)
        } by {
            if k < sorted.len() {
                assert(sorted[k] == r[k]);
            }
        }
    }
}

proof fn lemma_sort_desc_keeps(s: Seq<(usize, u64)>, bound: int)
    requires
        forall|k: int| 0 <= k < s.len() ==> (#[trigger] s[k]).0 < bound,
    ensures
        sort_desc(s).len() == s.len(),
        forall|k: int| 0 <= k < sort_desc(s).len() ==> s.contains(#[trigger] sort_desc(s)[k]),
    decreases s.len(),
{
    if s.len() > 0 {
        let p = s.drop_last();
        lemma_sort_desc_keeps(p, bound);
        lemma_insert_desc_keeps(sort_desc(p), s.last());
        assert forall|k: int| 0 <= k < sort_desc(s).len() implies s.contains(#[trigger] sort_desc(s)[k]) by {
            let e = sort_desc(s)[k];
            if e == s.last() {
                assert(s[s.len() - 1] == e);
            } else {
                let j = choose|j: int| 0 <= j < sort_desc(p).len() && sort_desc(p)[j] == e;
                let i = choose|i: int| 0 <= i < p.len() && p[i] == sort_desc(p)[j];
                assert(s[i] == e);
            }
        }
    }
}

/// Inserts `x` into the descending `sorted`, after the entries whose line is not smaller.
fn insert_sorted(sorted: &mut Vec<(usize, u64)>, x: (usize, u64))
    ensures
        final(sorted)@ == insert_desc(old(sorted)@, x),
{
    let ghost s = sorted@;
    let mut pos = sorted.len();
    assert(s.subrange(pos as int, s.len() as int) =~= Seq::<(usize, u64)>::empty());
    assert(s.subrange(0, pos as int) =~= s);
    while pos > 0 && sorted[pos - 1].1 < x.1
        invariant
            sorted@ == s,
            pos <= s.len(),
            insert_desc(s, x) == insert_desc(s.subrange(0, pos as int), x) + s.subrange(pos as int, s.len() as int),
        decreases pos,
    {
        let ghost pre = s.subrange(0, pos as int);
        assert(pre.drop_last() =~= s.subrange(0, pos - 1));
        assert(s.subrange(pos - 1, s.len() as int) =~= seq![pre.last()] + s.subrange(pos as int, s.len() as int));
        assert(insert_desc(pre, x) == insert_desc(s.subrange(0, pos - 1), x).push(pre.last()));
        assert(insert_desc(s.subrange(0, pos - 1), x).push(pre.last()) + s.subrange(pos as int, s.len() as int)
            =~= insert_desc(s.subrange(0, pos - 1), x) + s.subrange(pos - 1, s.len() as int));
        pos = pos - 1;
    }
    sorted.insert(pos, x);
    if pos == 0 {
        assert(sorted@ =~= seq![x] + s);
    } else {
        assert(sorted@ =~= s.subrange(0, pos as int).push(x) + s.subrange(pos as int, s.len() as int));
    }
}

/// The `\n`-joined text of `lines`.
fn join_strings(lines: &Vec<String>) -> (r: String)
    ensures
        r@ == join_lines(lines@.map_values(|l: String| l@)),
{
    let ghost m = lines@.map_values(|l: String| l@);
    let mut out = String::new();
    let mut i: usize = 0;
    while i < lines.len()
        invariant
            m == lines@.map_values(|l: String| l@),
            i <= lines@.len(),
            out@ == join_lines(m.subrange(0, i as int)),
        decreases lines@.len() - i,
    {
        let ghost pre = m.subrange(0, i as int);
        let ghost next = m.subrange(0, i + 1);
        assert(next.drop_last() =~= pre);
        if i > 0 {
            proof { reveal_strlit("\n"); }
            out.append("\n");
        } else {
            assert(out@ =~= Seq::<char>::empty());
        }
        out.append(lines[i].as_str());
        i = i + 1;
    }
    assert(m.subrange(0, lines@.len() as int) =~= m);
    out
}

/// The lines of `content` as strings.
pub fn content_lines(content: &str) -> (r: Vec<String>)
    ensures
        r@.map_values(|l: String| l@) == str_lines(content@),
{
    let cs = chars_of(content);
    let ranges = line_ranges(&cs);
    let mut out: Vec<String> = Vec::new();
    let mut i: usize = 0;
    while i < ranges.len()
        invariant
            cs@ == content@,
            ranges@.len() == str_lines(cs@).len(),
            forall|k: int| 0 <= k < ranges@.len() ==> (#[trigger] ranges@[k]).0 <= ranges@[k].1 <= cs@.len()
                && cs@.subrange(ranges@[k].0 as int, ranges@[k].1 as int) == str_lines(cs@)[k],
            i <= ranges@.len(),
            out@.map_values(|l: String| l@) == str_lines(cs@).subrange(0, i as int),
        decreases ranges@.len() - i,
    {
        let (a, b) = ranges[i];
        let l = String::from_str(content.substring_char(a, b));
        let ghost prev = out@;
        out.push(l);
        assert(out@.map_values(|l: String| l@) =~= prev.map_values(|l: String| l@).push(l@));
        assert(str_lines(cs@).subrange(0, i + 1) =~= str_lines(cs@).subrange(0, i as int).push(str_lines(cs@)[i as int]));
        i = i + 1;
    }
    assert(str_lines(cs@).subrange(0, ranges@.len() as int) =~= str_lines(cs@));
    out
}

/// Applies add/remove line operations to `content`, from the largest line number
/// down, and joins the lines with `\n`.
pub fn apply_line_ops(content: &str, ops: &Vec<RawPatchOp>) -> (r: Result<String, FileIoError>)
    ensures
        match add_remove_patch(content@, ops@.map_values(|o: RawPatchOp| raw_view(o))) {
            Ok(t) => r matches Ok(s) && s@ == t,
            Err(()) => r matches Err(FileIoError::PatchError(_)),
        },
{
    let ghost ov = ops@.map_values(|o: RawPatchOp| raw_view(o));
    let mut order: Vec<(usize, u64)> = Vec::new();
    let mut i: usize = 0;
    while i < ops.len()
        invariant
            ov == ops@.map_values(|o: RawPatchOp| raw_view(o)),
            i <= ops@.len(),
            order@ == sort_desc(usable_ops(ov, i as int)),
        decreases ops@.len() - i,
    {
        let ghost before = usable_ops(ov, i as int);
        if ops[i].op_type.is_some() {
            if let Some(l) = ops[i].line {
                let ghost now = usable_ops(ov, i + 1);
                assert(now == before.push((i, l)));
                assert(now.drop_last() =~= before);
                insert_sorted(&mut order, (i, l));
            }
        }
        i = i + 1;
    }
    let _count = ops.len();
    proof {
        lemma_usable_ops_bounds(ov, ov.len() as int);
        lemma_sort_desc_keeps(usable_ops(ov, ov.len() as int), ov.len() as int);
    }
    let ghost lines0 = str_lines(content@);
    let mut lines = content_lines(content);
    let mut k: usize = 0;
    while k < order.len()
        invariant
            ov == ops@.map_values(|o: RawPatchOp| raw_view(o)),
            order@ == sort_desc(usable_ops(ov, ov.len() as int)),
            forall|j: int| 0 <= j < order@.len() ==> usable_ops(ov, ov.len() as int).contains(#[trigger] order@[j]),
            forall|j: int| 0 <= j < usable_ops(ov, ov.len() as int).len() ==> {
                let e = #[trigger] usable_ops(ov, ov.len() as int)[j];
                0 <= e.0 < ov.len() && ov[e.0 as int].0 is Some && ov[e.0 as int].1 == Some(e.1)
            },
            lines0 == str_lines(content@),
            k <= order@.len(),
            line_ops_run(lines0, ov, order@, k as int) == Ok::<Seq<Seq<char>>, ()>(lines@.map_values(|l: String| l@)),
        decreases order@.len() - k,
    {
        let (idx, line) = order[k];
        assert(usable_ops(ov, ov.len() as int).contains(order@[k as int]));
        let op = &ops[idx];
        let ghost lm = lines@.map_values(|l: String| l@);
        let t: &String = match &op.op_type {
            Some(t) => t,
            None => {
                return Err(FileIoError::PatchError("operation without a type".to_string()));
            },
        };
        let n = lines.len();
        if line == 0 || line - 1 > n as u64 {
            proof { lemma_line_ops_fail_sticks(lines0, ov, order@, k as int + 1); }
            return Err(FileIoError::PatchError("Invalid line number".to_string()));
        }
        let at = (line - 1) as usize;
        proof { reveal_strlit("add"); reveal_strlit("remove"); }
        if same_text(t.as_str(), "add") {
            match &op.content {
                Some(c) => {
                    let ghost prev = lines@;
                    lines.insert(at, c.clone());
                    assert(lines@.map_values(|l: String| l@) =~= prev.map_values(|l: String| l@).insert(at as int, c@));
                },
                None => {
                    proof { lemma_line_ops_fail_sticks(lines0, ov, order@, k as int + 1); }
                    return Err(FileIoError::PatchError("Add operation must have 'content' field".to_string()));
                },
            }
        } else if same_text(t.as_str(), "remove") {
            if line > n as u64 {
                proof { lemma_line_ops_fail_sticks(lines0, ov, order@, k as int + 1); }
                return Err(FileIoError::PatchError("Cannot remove a line past the end".to_string()));
            }
            let ghost prev = lines@;
            lines.remove(at);
            assert(lines@.map_values(|l: String| l@) =~= prev.map_values(|l: String| l@).remove(at as int));
        } else {
            proof { lemma_line_ops_fail_sticks(lines0, ov, order@, k as int + 1); }
            return Err(FileIoError::PatchError("Unknown operation type".to_string()));
        }
        k = k + 1;
    }
    Ok(join_strings(&lines))
}

proof fn lemma_line_ops_fail_sticks(
    lines: Seq<Seq<char>>,
    ops: Seq<(Option<Seq<char>>, Option<u64>, Option<Seq<char>>)>,
    order: Seq<(usize, u64)>,
    n: int,
)
    requires
        0 <= n <= order.len(),
        line_ops_run(lines, ops, order, n) is Err,
    ensures
        line_ops_run(lines, ops, order, order.len() as int) is Err,
    decreases order.len() - n,
{
    if n < order.len() {
        lemma_line_ops_fail_sticks(lines, ops, order, n + 1);
    }
}

/// Name of the patch format asked for; unified diff when none is given.
pub open spec fn format_name(format: Option<&str>) -> Seq<char> {
    match format {
        Some(f) => f@,
        None => "unified_diff"@,
    }
}

pub open spec fn is_known_format(name: Seq<char>) -> bool {
    name == "unified_diff"@ || name == "add_remove_lines"@
}

/// New text of a file after `patch` in the given format, or `Err` when the format
/// is unknown or the patch cannot be applied.
pub open spec fn patch_outcome(content: Seq<char>, patch: Seq<char>, format: Option<&str>) -> Result<Seq<char>, ()> {
    if format_name(format) == "unified_diff"@ {
        Ok(unified_patch(content, patch))
    } else if format_name(format) == "add_remove_lines"@ {
        match json_patch_ops(patch) {
            Some(Some(ops)) => add_remove_patch(content, ops),
            _ => Err(()),
        }
    } else {
        Err(())
    }
}

/// Applies `patch` to the text `content` of a file: a unified diff, or a JSON list
/// of line additions and removals (`add_remove_lines`). Returns the new text.
pub fn patch_file(content: &str, patch: &str, format: Option<&str>) -> (r: Result<String, FileIoError>)
    ensures
        match patch_outcome(content@, patch@, format) {
            Ok(t) => r matches Ok(s) && s@ == t,
            Err(()) => r matches Err(FileIoError::PatchError(_)),
        },
        !is_known_format(format_name(format)) ==> (r matches Err(FileIoError::PatchError(m))
            && m@ == "Unknown patch format: "@ + format_name(format)),
{
    let name: &str = match format {
        Some(f) => f,
        None => "unified_diff",
    };
    if same_text(name, "unified_diff") {
        Ok(apply_unified_diff(content, patch))
    } else if same_text(name, "add_remove_lines") {
        match read_patch_ops(patch) {
            PatchOps::Malformed(m) => {
                let mut msg = String::from_str("Failed to parse patch JSON: ");
                msg.append(m.as_str());
                Err(FileIoError::PatchError(msg))
            },
            PatchOps::NoOperations => Err(FileIoError::PatchError("Patch JSON must contain 'operations' array".to_string())),
            PatchOps::Operations(ops) => apply_line_ops(content, &ops),
        }
    } else {
        Err(unknown_format_error(name))
    }
}

fn unknown_format_error(name: &str) -> (e: FileIoError)
    ensures
        e matches FileIoError::PatchError(m) && m@ == "Unknown patch format: "@ + name@,
{
    let mut msg = String::from_str("Unknown patch format: ");
    msg.append(name);
    FileIoError::PatchError(msg)
}

/// The failures that a patch shows before the file is read: an unknown format, or
/// a line patch that is not JSON.
pub fn check_patch(patch: &str, format: Option<&str>) -> (r: Result<(), FileIoError>)
    ensures
        !is_known_format(format_name(format)) ==> (r matches Err(FileIoError::PatchError(m))
            && m@ == "Unknown patch format: "@ + format_name(format)),
        format_name(format) == "add_remove_lines"@ && json_patch_ops(patch@) is None ==> r matches Err(FileIoError::PatchError(_)),
        format_name(format) == "unified_diff"@ || (format_name(format) == "add_remove_lines"@ && json_patch_ops(patch@) is Some)
            ==> r is Ok,
{
    proof {
        reveal_strlit("unified_diff");
        reveal_strlit("add_remove_lines");
    }
    let name: &str = match format {
        Some(f) => f,
        None => "unified_diff",
    };
    assert("unified_diff"@.len() != "add_remove_lines"@.len());
    if same_text(name, "unified_diff") {
        Ok(())
    } else if same_text(name, "add_remove_lines") {
        match read_patch_ops(patch) {
            PatchOps::Malformed(m) => {
                let mut msg = String::from_str("Failed to parse patch JSON: ");
                msg.append(m.as_str());
                Err(FileIoError::PatchError(msg))
            },
            _ => Ok(()),
        }
    } else {
        Err(unknown_format_error(name))
    }
}

} // verus!
