//! Conflict-marker parsing over text: turns a conflicted file into ordered
//! segments (context vs. hunk) and serializes them back byte-exactly.
//! Malformed blocks (nested markers, a missing separator or close) degrade to
//! context text instead of failing.

use vstd::prelude::*;
use crate::conflict::{ConflictHunk, ConflictSegment, HunkView, SegmentView, opt_view, opt_views, segment_views, views};
use crate::lines::{split_keeping_terminators, split_lines, string_of};
use crate::text::chars_of;

verus! {

// ---- the grammar ---------------------------------------------------------

/// A line with its trailing `\n` (or `\r\n`) removed.
pub open spec fn marker_text(l: Seq<char>) -> Seq<char> {
    if l.len() >= 2 && l[l.len() - 1] == '\n' && l[l.len() - 2] == '\r' {
        l.subrange(0, l.len() - 2)
    } else if l.len() >= 1 && l[l.len() - 1] == '\n' {
        l.subrange(0, l.len() - 1)
    } else {
        l
    }
}

/// `t` starts with seven copies of `c`.
pub open spec fn starts_with_marker(t: Seq<char>, c: char) -> bool {
    t.len() >= 7 && forall|k: int| 0 <= k < 7 ==> t[k] == c
}

/// Whether `l` is a marker line made of `c`; `allow_suffix` lets a label
/// follow the seven marker characters, otherwise the marker must be bare.
pub open spec fn is_marker(l: Seq<char>, c: char, allow_suffix: bool) -> bool {
    let t = marker_text(l);
    starts_with_marker(t, c) && (allow_suffix || t.len() == 7)
}

/// `<<<<<<<` opens a hunk.
pub open spec fn is_open(l: Seq<char>) -> bool {
    is_marker(l, '<', true)
}

/// `|||||||` starts a diff3 base section.
pub open spec fn is_base(l: Seq<char>) -> bool {
    is_marker(l, '|', true)
}

/// A bare `=======` separates ours from theirs.
pub open spec fn is_sep(l: Seq<char>) -> bool {
    is_marker(l, '=', false)
}

/// `>>>>>>>` closes a hunk.
pub open spec fn is_close(l: Seq<char>) -> bool {
    is_marker(l, '>', true)
}

/// A line that is none of the four markers.
pub open spec fn is_plain(l: Seq<char>) -> bool {
    !is_open(l) && !is_base(l) && !is_sep(l) && !is_close(l)
}

/// Unicode `White_Space`, the property `char::is_whitespace` tests.
pub open spec fn is_ws(c: char) -> bool {
    let u = c as u32;
    (9 <= u <= 13) || u == 32 || u == 0x85 || u == 0xA0 || u == 0x1680 || (0x2000 <= u <= 0x200A)
        || u == 0x2028 || u == 0x2029 || u == 0x202F || u == 0x205F || u == 0x3000
}

/// Index of the first non-whitespace character at or after `i`.
pub open spec fn trim_lo(s: Seq<char>, i: int) -> int
    decreases s.len() - i,
{
    if i < s.len() && is_ws(s[i]) {
        trim_lo(s, i + 1)
    } else {
        i
    }
}

/// Index just past the last non-whitespace character in `s[lo..j]`.
pub open spec fn trim_hi(s: Seq<char>, lo: int, j: int) -> int
    decreases j - lo,
{
    if j > lo && is_ws(s[j - 1]) {
        trim_hi(s, lo, j - 1)
    } else {
        j
    }
}

/// `s` without leading and trailing whitespace.
pub open spec fn trim(s: Seq<char>) -> Seq<char> {
    let lo = trim_lo(s, 0);
    s.subrange(lo, trim_hi(s, lo, s.len() as int))
}

/// The label after a marker (e.g. `HEAD`), or `None` when there is none.
pub open spec fn label(l: Seq<char>, c: char) -> Option<Seq<char>> {
    let t = marker_text(l);
    if !starts_with_marker(t, c) {
        None
    } else {
        let r = trim(t.subrange(7, t.len() as int));
        if r.len() == 0 {
            None
        } else {
            Some(r)
        }
    }
}

/// Index of the first marker line at or after `k`, or the line count.
pub open spec fn next_marker(ls: Seq<Seq<char>>, k: int) -> int
    decreases ls.len() - k,
{
    if k < 0 || k >= ls.len() {
        ls.len() as int
    } else if !is_plain(ls[k]) {
        k
    } else {
        next_marker(ls, k + 1)
    }
}

/// Index of the first `>>>>>>>` line at or after `k`, or the line count.
pub open spec fn next_close(ls: Seq<Seq<char>>, k: int) -> int
    decreases ls.len() - k,
{
    if k < 0 || k >= ls.len() {
        ls.len() as int
    } else if is_close(ls[k]) {
        k
    } else {
        next_close(ls, k + 1)
    }
}

/// The hunk built from an open line `s`, separator `a`, optional base marker
/// `b` (`None` for a two-way conflict) and close `c`.
pub open spec fn make_hunk(ls: Seq<Seq<char>>, s: int, b: Option<int>, a: int, c: int) -> HunkView {
    HunkView {
        start_line: s + 1,
        end_line: c + 1,
        raw: ls.subrange(s, c + 1),
        ours_label: label(ls[s], '<'),
        ours: ls.subrange(s + 1, match b { Some(b) => b, None => a }),
        base: match b {
            Some(b) => if a > b + 1 { Some(ls.subrange(b + 1, a)) } else { None },
            None => None,
        },
        base_label: match b {
            Some(b) => label(ls[b], '|'),
            None => None,
        },
        theirs: ls.subrange(a + 1, c),
        theirs_label: label(ls[c], '>'),
    }
}

/// The hunk whose `<<<<<<<` line is `ls[s]`, with the index just past its
/// `>>>>>>>` line: plain lines, then either a bare `=======` or a `|||||||`
/// base section followed by `=======`, then plain lines and `>>>>>>>`.
/// Anything else (a nested open, a second separator, no close) is `None`.
pub open spec fn hunk_at(ls: Seq<Seq<char>>, s: int) -> Option<(HunkView, int)> {
    let a = next_marker(ls, s + 1);
    if a >= ls.len() {
        None
    } else if is_sep(ls[a]) {
        let c = next_marker(ls, a + 1);
        if c < ls.len() && is_close(ls[c]) {
            Some((make_hunk(ls, s, None, a, c), c + 1))
        } else {
            None
        }
    } else if is_base(ls[a]) {
        let d = next_marker(ls, a + 1);
        if d < ls.len() && is_sep(ls[d]) {
            let c = next_marker(ls, d + 1);
            if c < ls.len() && is_close(ls[c]) {
                Some((make_hunk(ls, s, Some(a), d, c), c + 1))
            } else {
                None
            }
        } else {
            None
        }
    } else {
        None
    }
}

/// Where a malformed block opened at `i` ends: just past the next
/// `>>>>>>>` line, or the end of the file.
pub open spec fn poisoned_end(ls: Seq<Seq<char>>, i: int) -> int {
    let c = next_close(ls, i + 1);
    if c < ls.len() {
        c + 1
    } else {
        ls.len() as int
    }
}

/// A context segment for pending lines, if there are any.
pub open spec fn flush(ctx: Seq<Seq<char>>) -> Seq<SegmentView> {
    if ctx.len() > 0 {
        seq![SegmentView::Context(ctx)]
    } else {
        Seq::empty()
    }
}

pub proof fn lemma_next_marker_bounds(ls: Seq<Seq<char>>, k: int)
    requires
        0 <= k,
    ensures
        k <= ls.len() ==> k <= next_marker(ls, k) <= ls.len(),
        k > ls.len() ==> next_marker(ls, k) == ls.len(),
        next_marker(ls, k) < ls.len() ==> !is_plain(ls[next_marker(ls, k)]),
        forall|j: int| k <= j < next_marker(ls, k) ==> is_plain(#[trigger] ls[j]),
    decreases ls.len() - k,
{
    if k < ls.len() && is_plain(ls[k]) {
        lemma_next_marker_bounds(ls, k + 1);
    }
}

pub proof fn lemma_next_close_bounds(ls: Seq<Seq<char>>, k: int)
    requires
        0 <= k,
    ensures
        k <= ls.len() ==> k <= next_close(ls, k) <= ls.len(),
        k > ls.len() ==> next_close(ls, k) == ls.len(),
        next_close(ls, k) < ls.len() ==> is_close(ls[next_close(ls, k)]),
        forall|j: int| k <= j < next_close(ls, k) ==> !is_close(#[trigger] ls[j]),
    decreases ls.len() - k,
{
    if k < ls.len() && !is_close(ls[k]) {
        lemma_next_close_bounds(ls, k + 1);
    }
}

/// A parsed hunk ends after it starts, and inside the file.
pub proof fn lemma_hunk_at_advances(ls: Seq<Seq<char>>, s: int)
    requires
        0 <= s < ls.len(),
    ensures
        match hunk_at(ls, s) {
            Some((h, next)) => s < next <= ls.len() && h.raw == ls.subrange(s, next),
            None => true,
        },
{
    let a = next_marker(ls, s + 1);
    lemma_next_marker_bounds(ls, s + 1);
    if a < ls.len() {
        lemma_next_marker_bounds(ls, a + 1);
        let d = next_marker(ls, a + 1);
        if d < ls.len() {
            lemma_next_marker_bounds(ls, d + 1);
        }
    }
}

/// Segments for the lines from `i` on, with `ctx` pending context lines.
pub open spec fn parse_from(ls: Seq<Seq<char>>, i: int, ctx: Seq<Seq<char>>) -> Seq<SegmentView>
    decreases ls.len() - i,
{
    if i < 0 || i >= ls.len() {
        flush(ctx)
    } else if is_open(ls[i]) {
        proof {
            lemma_hunk_at_advances(ls, i);
            lemma_next_close_bounds(ls, i + 1);
        }
        match hunk_at(ls, i) {
            Some((h, next)) => flush(ctx) + seq![SegmentView::Conflict(h)] + parse_from(
                ls,
                next,
                Seq::empty(),
            ),
            None => {
                let e = poisoned_end(ls, i);
                parse_from(ls, e, ctx + ls.subrange(i, e))
            },
        }
    } else {
        parse_from(ls, i + 1, ctx.push(ls[i]))
    }
}

/// The segments of a conflicted text, in file order.
pub open spec fn parse_spec(text: Seq<char>) -> Seq<SegmentView> {
    parse_from(split_lines(text), 0, Seq::empty())
}

/// The verbatim lines a segment stands for.
pub open spec fn seg_lines(s: SegmentView) -> Seq<Seq<char>> {
    match s {
        SegmentView::Context(l) => l,
        SegmentView::Conflict(h) => h.raw,
    }
}

/// The verbatim lines of a sequence of segments.
pub open spec fn all_lines(segs: Seq<SegmentView>) -> Seq<Seq<char>> {
    segs.map_values(|s: SegmentView| seg_lines(s)).flatten()
}

/// The text segments stand for.
pub open spec fn segments_text(segs: Seq<SegmentView>) -> Seq<char> {
    all_lines(segs).flatten()
}

/// Number of conflict hunks among segments.
pub open spec fn count_conflicts(segs: Seq<SegmentView>) -> nat
    decreases segs.len(),
{
    if segs.len() == 0 {
        0
    } else {
        count_conflicts(segs.drop_last()) + match segs.last() {
            SegmentView::Conflict(_) => 1nat,
            SegmentView::Context(_) => 0nat,
        }
    }
}


// ---- executable parsing --------------------------------------------------

/// Whether `c` has the Unicode `White_Space` property.
pub fn is_whitespace(c: char) -> (b: bool)
    ensures
        b == is_ws(c),
{
    let u = c as u32;
    (9 <= u && u <= 13) || u == 32 || u == 0x85 || u == 0xA0 || u == 0x1680 || (0x2000 <= u && u
        <= 0x200A) || u == 0x2028 || u == 0x2029 || u == 0x202F || u == 0x205F || u == 0x3000
}

/// Length of a line's marker text: the line without `\n` or `\r\n`.
fn marker_text_end(cs: &Vec<char>) -> (n: usize)
    ensures
        n <= cs@.len(),
        marker_text(cs@) == cs@.subrange(0, n as int),
{
    let len = cs.len();
    if len >= 2 && cs[len - 1] == '\n' && cs[len - 2] == '\r' {
        len - 2
    } else if len >= 1 && cs[len - 1] == '\n' {
        len - 1
    } else {
        assert(cs@.subrange(0, len as int) =~= cs@);
        len
    }
}

/// Whether the first `n` characters start with seven copies of `c`.
fn starts_with_seven(cs: &Vec<char>, n: usize, c: char) -> (b: bool)
    requires
        n <= cs@.len(),
    ensures
        b == starts_with_marker(cs@.subrange(0, n as int), c),
{
    if n < 7 {
        return false;
    }
    let mut k: usize = 0;
    while k < 7
        invariant
            7 <= n <= cs@.len(),
            k <= 7,
            forall|j: int| 0 <= j < k ==> cs@[j] == c,
        decreases 7 - k,
    {
        if cs[k] != c {
            assert(cs@.subrange(0, n as int)[k as int] != c);
            return false;
        }
        k += 1;
    }
    true
}

/// Whether a line (as characters) is a marker line of `c`.
fn chars_are_marker(cs: &Vec<char>, c: char, allow_suffix: bool) -> (b: bool)
    ensures
        b == is_marker(cs@, c, allow_suffix),
{
    let n = marker_text_end(cs);
    starts_with_seven(cs, n, c) && (allow_suffix || n == 7)
}

/// Whether `line` is a git conflict marker of `c` (`<`, `|`, `=`, `>`).
/// `<<<<<<<`, `|||||||` and `>>>>>>>` may carry a label after them;
/// `=======` must be bare, so a content line like `========` is not taken
/// for the separator.
pub fn is_marker_line(line: &str, c: char, allow_suffix: bool) -> (b: bool)
    ensures
        b == is_marker(line@, c, allow_suffix),
{
    let cs = chars_of(line);
    chars_are_marker(&cs, c, allow_suffix)
}

/// Whether a line is none of the four markers.
fn is_plain_line(line: &String) -> (b: bool)
    ensures
        b == is_plain(line@),
{
    let cs = chars_of(line.as_str());
    !chars_are_marker(&cs, '<', true) && !chars_are_marker(&cs, '|', true) && !chars_are_marker(
        &cs,
        '=',
        false,
    ) && !chars_are_marker(&cs, '>', true)
}

/// The text after a labeled marker, e.g. `HEAD` for `<<<<<<< HEAD`.
pub fn marker_label(line: &str, c: char) -> (r: Option<String>)
    ensures
        opt_view(r) == label(line@, c),
{
    let cs = chars_of(line);
    let n = marker_text_end(&cs);
    if !starts_with_seven(&cs, n, c) {
        return None;
    }
    let ghost t = cs@.subrange(0, n as int);
    let ghost s = t.subrange(7, t.len() as int);
    let mut lo: usize = 7;
    while lo < n && is_whitespace(cs[lo])
        invariant
            7 <= lo <= n <= cs@.len(),
            s.len() == n - 7,
            forall|k: int| 0 <= k < s.len() ==> s[k] == cs@[k + 7],
            trim_lo(s, 0) == trim_lo(s, lo - 7),
        decreases n - lo,
    {
        lo += 1;
    }
    let mut hi: usize = n;
    while hi > lo && is_whitespace(cs[hi - 1])
        invariant
            7 <= lo <= hi <= n <= cs@.len(),
            s.len() == n - 7,
            forall|k: int| 0 <= k < s.len() ==> s[k] == cs@[k + 7],
            trim_lo(s, 0) == lo - 7,
            trim_hi(s, lo - 7, n - 7) == trim_hi(s, lo - 7, hi - 7),
        decreases hi - lo,
    {
        hi -= 1;
    }
    assert(trim(s) =~= cs@.subrange(lo as int, hi as int));
    if hi == lo {
        None
    } else {
        Some(string_of(&cs, lo, hi))
    }
}

/// Index of the first marker line at or after `k`.
fn next_marker_index(lines: &Vec<String>, k: usize) -> (r: usize)
    requires
        k <= lines@.len(),
    ensures
        r as int == next_marker(views(lines@), k as int),
        r <= lines@.len(),
{
    let ghost ls = views(lines@);
    let mut i = k;
    while i < lines.len()
        invariant
            k <= i <= lines@.len(),
            ls == views(lines@),
            next_marker(ls, k as int) == next_marker(ls, i as int),
        decreases lines.len() - i,
    {
        if !is_plain_line(&lines[i]) {
            return i;
        }
        i += 1;
    }
    i
}

/// Index of the first `>>>>>>>` line at or after `k`.
fn next_close_index(lines: &Vec<String>, k: usize) -> (r: usize)
    requires
        k <= lines@.len(),
    ensures
        r as int == next_close(views(lines@), k as int),
        r <= lines@.len(),
{
    let ghost ls = views(lines@);
    let mut i = k;
    while i < lines.len()
        invariant
            k <= i <= lines@.len(),
            ls == views(lines@),
            next_close(ls, k as int) == next_close(ls, i as int),
        decreases lines.len() - i,
    {
        if is_marker_line(lines[i].as_str(), '>', true) {
            return i;
        }
        i += 1;
    }
    i
}

/// Copies `lines[a..b]`.
fn clone_range(lines: &Vec<String>, a: usize, b: usize) -> (r: Vec<String>)
    requires
        a <= b <= lines@.len(),
    ensures
        views(r@) == views(lines@).subrange(a as int, b as int),
{
    let mut r: Vec<String> = Vec::new();
    let mut k = a;
    while k < b
        invariant
            a <= k <= b <= lines@.len(),
            views(r@) == views(lines@).subrange(a as int, k as int),
        decreases b - k,
    {
        let line = lines[k].clone();
        let ghost old_r = r@;
        r.push(line);
        assert(r@ == old_r.push(line));
        assert(views(r@) =~= views(old_r).push(lines@[k as int]@));
        assert(views(r@) =~= views(lines@).subrange(a as int, k + 1));
        k += 1;
    }
    r
}

/// Builds the hunk whose lines are `s` (open), `b` (optional base marker),
/// `a` (separator) and `c` (close).
fn build_hunk(lines: &Vec<String>, s: usize, b: Option<usize>, a: usize, c: usize) -> (h:
    ConflictHunk)
    requires
        s < a < c < lines@.len(),
        match b {
            Some(b) => s < b < a,
            None => true,
        },
    ensures
        h@ == make_hunk(views(lines@), s as int, match b {
            Some(b) => Some(b as int),
            None => None,
        }, a as int, c as int),
{
    let ghost ls = views(lines@);
    let _n = lines.len();
    let ours_end = match b {
        Some(b) => b,
        None => a,
    };
    let base = match b {
        Some(b) => if a > b + 1 {
            Some(clone_range(lines, b + 1, a))
        } else {
            None
        },
        None => None,
    };
    let base_label = match b {
        Some(b) => marker_label(lines[b].as_str(), '|'),
        None => None,
    };
    let h = ConflictHunk {
        start_line: s + 1,
        end_line: c + 1,
        raw: clone_range(lines, s, c + 1),
        ours_label: marker_label(lines[s].as_str(), '<'),
        ours: clone_range(lines, s + 1, ours_end),
        base,
        base_label,
        theirs: clone_range(lines, a + 1, c),
        theirs_label: marker_label(lines[c].as_str(), '>'),
    };
    let ghost mb = match b {
        Some(b) => Some(b as int),
        None => None::<int>,
    };
    assert(h@.base == make_hunk(ls, s as int, mb, a as int, c as int).base);
    h
}

/// Parses the conflict hunk whose `<<<<<<<` line is `lines[start]`,
/// returning it with the index just past its `>>>>>>>` line, or `None` for a
/// malformed block (nested markers, missing separator, missing close).
pub fn parse_hunk(lines: &Vec<String>, start: usize) -> (r: Option<(ConflictHunk, usize)>)
    requires
        start < lines@.len(),
    ensures
        match r {
            Some((h, next)) => hunk_at(views(lines@), start as int) == Some((h@, next as int)),
            None => hunk_at(views(lines@), start as int) is None,
        },
{
    let ghost ls = views(lines@);
    let _n = lines.len();
    let a = next_marker_index(lines, start + 1);
    proof {
        lemma_next_marker_bounds(ls, start + 1);
    }
    if a >= lines.len() {
        return None;
    }
    if is_marker_line(lines[a].as_str(), '=', false) {
        let c = next_marker_index(lines, a + 1);
        proof {
            lemma_next_marker_bounds(ls, a + 1);
        }
        if c < lines.len() && is_marker_line(lines[c].as_str(), '>', true) {
            let h = build_hunk(lines, start, None, a, c);
            return Some((h, c + 1));
        }
        None
    } else if is_marker_line(lines[a].as_str(), '|', true) {
        let d = next_marker_index(lines, a + 1);
        proof {
            lemma_next_marker_bounds(ls, a + 1);
        }
        if d < lines.len() && is_marker_line(lines[d].as_str(), '=', false) {
            let c = next_marker_index(lines, d + 1);
            proof {
                lemma_next_marker_bounds(ls, d + 1);
            }
            if c < lines.len() && is_marker_line(lines[c].as_str(), '>', true) {
                let h = build_hunk(lines, start, Some(a), d, c);
                return Some((h, c + 1));
            }
        }
        None
    } else {
        None
    }
}


// ---- whole-file parsing and serialization --------------------------------

/// Parses `text` into ordered segments. Context and conflict blocks come in
/// file order, so a caller can render every pane in one walk.
pub fn parse_conflicts(text: &str) -> (segs: Vec<ConflictSegment>)
    ensures
        segment_views(segs@) == parse_spec(text@),
{
    let lines = split_keeping_terminators(text);
    let ghost ls = views(lines@);
    let n = lines.len();
    let mut segments: Vec<ConflictSegment> = Vec::new();
    let mut context: Vec<String> = Vec::new();
    let mut i: usize = 0;
    assert(segment_views(segments@) =~= Seq::<SegmentView>::empty());
    assert(views(context@) =~= Seq::<Seq<char>>::empty());
    assert(Seq::<SegmentView>::empty() + parse_from(ls, 0, Seq::empty()) =~= parse_from(ls, 0, Seq::empty()));
    while i < n
        invariant
            n == lines@.len(),
            ls == views(lines@),
            ls == split_lines(text@),
            i <= n,
            parse_spec(text@) == segment_views(segments@) + parse_from(ls, i as int, views(context@)),
        decreases n - i,
    {
        let ghost ctx = views(context@);
        let ghost before = segment_views(segments@);
        if is_marker_line(lines[i].as_str(), '<', true) {
            proof {
                lemma_hunk_at_advances(ls, i as int);
            }
            match parse_hunk(&lines, i) {
                Some((hunk, next)) => {
                    let ghost hv = hunk@;
                    assert(parse_from(ls, i as int, ctx) == flush(ctx) + seq![SegmentView::Conflict(hv)] + parse_from(ls, next as int, Seq::empty()));
                    if context.len() > 0 {
                        let pending = context;
                        context = Vec::new();
                        let seg = ConflictSegment::Context { lines: pending };
                        segments.push(seg);
                        assert(segment_views(segments@) =~= before + flush(ctx));
                    } else {
                        assert(flush(ctx) =~= Seq::<SegmentView>::empty());
                        assert(before + flush(ctx) =~= before);
                    }
                    let ghost mid = segment_views(segments@);
                    segments.push(ConflictSegment::Conflict { hunk });
                    assert(segment_views(segments@) =~= mid.push(SegmentView::Conflict(hv)));
                    assert(views(context@) =~= Seq::<Seq<char>>::empty());
                    assert(segment_views(segments@) + parse_from(ls, next as int, views(context@))
                        =~= before + parse_from(ls, i as int, ctx));
                    i = next;
                },
                None => {
                    let c = next_close_index(&lines, i + 1);
                    proof {
                        lemma_next_close_bounds(ls, i + 1);
                    }
                    let e = if c < n {
                        c + 1
                    } else {
                        n
                    };
                    assert(e as int == poisoned_end(ls, i as int));
                    let mut k = i;
                    while k < e
                        invariant
                            i <= k <= e <= n,
                            n == lines@.len(),
                            ls == views(lines@),
                            views(context@) == ctx + ls.subrange(i as int, k as int),
                        decreases e - k,
                    {
                        let line = lines[k].clone();
                        let ghost old_c = context@;
                        context.push(line);
                        assert(views(context@) =~= views(old_c).push(ls[k as int]));
                        assert(ctx + ls.subrange(i as int, k + 1) =~= (ctx + ls.subrange(i as int, k as int)).push(ls[k as int]));
                        k += 1;
                    }
                    i = e;
                },
            }
        } else {
            let line = lines[i].clone();
            let ghost old_c = context@;
            context.push(line);
            assert(views(context@) =~= views(old_c).push(ls[i as int]));
            i += 1;
        }
    }
    if context.len() > 0 {
        let ghost before = segment_views(segments@);
        let ghost ctx = views(context@);
        segments.push(ConflictSegment::Context { lines: context });
        assert(segment_views(segments@) =~= before + flush(ctx));
    } else {
        assert(segment_views(segments@) + parse_from(ls, i as int, views(context@)) =~= segment_views(segments@));
    }
    segments
}

/// The lines of concatenated segments are the concatenated lines.
pub proof fn lemma_all_lines_concat(a: Seq<SegmentView>, b: Seq<SegmentView>)
    ensures
        all_lines(a + b) == all_lines(a) + all_lines(b),
{
    let f = |s: SegmentView| seg_lines(s);
    assert((a + b).map_values(f) =~= a.map_values(f) + b.map_values(f));
    vstd::seq_lib::lemma_flatten_concat(a.map_values(f), b.map_values(f));
}

/// The lines of one segment.
pub proof fn lemma_all_lines_one(x: SegmentView)
    ensures
        all_lines(seq![x]) == seg_lines(x),
{
    let f = |s: SegmentView| seg_lines(s);
    assert(seq![x].map_values(f) =~= seq![seg_lines(x)]);
    seq![seg_lines(x)].lemma_flatten_one_element();
}

/// Parsing from `i` accounts for every line from `i`, verbatim and in
/// order, after the pending context.
pub proof fn lemma_parse_from_lines(ls: Seq<Seq<char>>, i: int, ctx: Seq<Seq<char>>)
    requires
        0 <= i <= ls.len(),
    ensures
        all_lines(parse_from(ls, i, ctx)) == ctx + ls.subrange(i, ls.len() as int),
    decreases ls.len() - i,
{
    if i >= ls.len() {
        if ctx.len() > 0 {
            lemma_all_lines_one(SegmentView::Context(ctx));
        } else {
            assert(all_lines(Seq::<SegmentView>::empty()) =~= Seq::<Seq<char>>::empty());
        }
        assert(ctx + ls.subrange(i, ls.len() as int) =~= ctx);
    } else if is_open(ls[i]) {
        lemma_hunk_at_advances(ls, i);
        lemma_next_close_bounds(ls, i + 1);
        match hunk_at(ls, i) {
            Some((h, next)) => {
                lemma_parse_from_lines(ls, next, Seq::empty());
                let rest = parse_from(ls, next, Seq::empty());
                let f = flush(ctx);
                if ctx.len() > 0 {
                    lemma_all_lines_one(SegmentView::Context(ctx));
                } else {
                    assert(all_lines(Seq::<SegmentView>::empty()) =~= Seq::<Seq<char>>::empty());
                }
                assert(all_lines(f) == ctx);
                lemma_all_lines_one(SegmentView::Conflict(h));
                lemma_all_lines_concat(f, seq![SegmentView::Conflict(h)]);
                lemma_all_lines_concat(f + seq![SegmentView::Conflict(h)], rest);
                assert(ls.subrange(i, ls.len() as int) =~= ls.subrange(i, next) + ls.subrange(next, ls.len() as int));
                assert(Seq::<Seq<char>>::empty() + ls.subrange(next, ls.len() as int) =~= ls.subrange(next, ls.len() as int));
                assert(ctx + ls.subrange(i, ls.len() as int) =~= ctx + h.raw + ls.subrange(next, ls.len() as int));
            },
            None => {
                let e = poisoned_end(ls, i);
                lemma_parse_from_lines(ls, e, ctx + ls.subrange(i, e));
                assert(ls.subrange(i, ls.len() as int) =~= ls.subrange(i, e) + ls.subrange(e, ls.len() as int));
                assert(ctx + ls.subrange(i, ls.len() as int) =~= ctx + ls.subrange(i, e) + ls.subrange(e, ls.len() as int));
            },
        }
    } else {
        lemma_parse_from_lines(ls, i + 1, ctx.push(ls[i]));
        assert(ctx + ls.subrange(i, ls.len() as int) =~= ctx.push(ls[i]) + ls.subrange(i + 1, ls.len() as int));
    }
}

/// Serializing a parse reproduces the text byte for byte: context lines and
/// each hunk's verbatim block, concatenated, are exactly the input — CRLF,
/// missing final newline and malformed blocks included.
pub proof fn lemma_parse_round_trip(text: Seq<char>)
    ensures
        segments_text(parse_spec(text)) == text,
{
    let ls = split_lines(text);
    lemma_parse_from_lines(ls, 0, Seq::empty());
    assert(Seq::<Seq<char>>::empty() + ls.subrange(0, ls.len() as int) =~= ls);
    crate::lines::lemma_split_lines_flatten(text);
}

/// Appending one segment appends its lines.
pub proof fn lemma_all_lines_push(s: Seq<SegmentView>, x: SegmentView)
    ensures
        all_lines(s.push(x)) == all_lines(s) + seg_lines(x),
{
    lemma_all_lines_concat(s, seq![x]);
    lemma_all_lines_one(x);
    assert(s.push(x) =~= s + seq![x]);
}

/// Serializes segments back to text: context lines and each hunk's verbatim
/// block, concatenated as-is.
pub fn serialize(segments: &[ConflictSegment]) -> (out: String)
    ensures
        out@ == segments_text(segment_views(segments@)),
{
    let mut out = String::new();
    let ghost sv = segment_views(segments@);
    let mut k: usize = 0;
    assert(all_lines(sv.subrange(0, 0)) =~= Seq::<Seq<char>>::empty()) by {
        assert(sv.subrange(0, 0).map_values(|s: SegmentView| seg_lines(s)) =~= Seq::<Seq<Seq<char>>>::empty());
    }
    while k < segments.len()
        invariant
            k <= segments@.len(),
            sv == segment_views(segments@),
            out@ == all_lines(sv.subrange(0, k as int)).flatten(),
        decreases segments.len() - k,
    {
        let seg_lines_vec = match &segments[k] {
            ConflictSegment::Context { lines } => lines,
            ConflictSegment::Conflict { hunk } => &hunk.raw,
        };
        let ghost done = all_lines(sv.subrange(0, k as int)).flatten();
        let ghost cur = views(seg_lines_vec@);
        assert(cur == seg_lines(sv[k as int]));
        let mut j: usize = 0;
        while j < seg_lines_vec.len()
            invariant
                j <= seg_lines_vec@.len(),
                cur == views(seg_lines_vec@),
                out@ == done + cur.subrange(0, j as int).flatten(),
            decreases seg_lines_vec.len() - j,
        {
            let ghost before = out@;
            out.append(seg_lines_vec[j].as_str());
            proof {
                assert(cur.subrange(0, j + 1) =~= cur.subrange(0, j as int).push(cur[j as int]));
                cur.subrange(0, j as int).lemma_flatten_push(cur[j as int]);
            }
            j += 1;
        }
        proof {
            assert(cur.subrange(0, cur.len() as int) =~= cur);
            lemma_all_lines_push(sv.subrange(0, k as int), sv[k as int]);
            assert(sv.subrange(0, k + 1) =~= sv.subrange(0, k as int).push(sv[k as int]));
            vstd::seq_lib::lemma_flatten_concat(all_lines(sv.subrange(0, k as int)), cur);
        }
        k += 1;
    }
    assert(sv.subrange(0, segments@.len() as int) =~= sv);
    out
}

/// Counts conflict hunks in `text` — the "3 of 5 resolved" progress number.
pub fn conflict_count(text: &str) -> (n: usize)
    ensures
        n == count_conflicts(parse_spec(text@)),
{
    let segs = parse_conflicts(text);
    let ghost sv = segment_views(segs@);
    let mut n: usize = 0;
    let mut k: usize = 0;
    while k < segs.len()
        invariant
            k <= segs@.len(),
            sv == segment_views(segs@),
            n == count_conflicts(sv.subrange(0, k as int)),
            n <= k,
        decreases segs.len() - k,
    {
        assert(sv.subrange(0, k + 1).drop_last() =~= sv.subrange(0, k as int));
        match &segs[k] {
            ConflictSegment::Conflict { .. } => {
                n += 1;
            },
            ConflictSegment::Context { .. } => {},
        }
        k += 1;
    }
    assert(sv.subrange(0, segs@.len() as int) =~= sv);
    n
}

// ---- line endings do not decide what is a marker -------------------------

/// Two line sequences whose lines read the same once their line endings
/// are set aside ([`marker_text`]), line for line.
pub open spec fn same_marker_lines(ls1: Seq<Seq<char>>, ls2: Seq<Seq<char>>) -> bool {
    ls1.len() == ls2.len() && forall|k: int| 0 <= k < ls1.len() ==> marker_text(#[trigger] ls1[k]) == marker_text(ls2[k])
}

proof fn lemma_next_marker_same(ls1: Seq<Seq<char>>, ls2: Seq<Seq<char>>, k: int)
    requires
        same_marker_lines(ls1, ls2),
    ensures
        next_marker(ls1, k) == next_marker(ls2, k),
    decreases ls1.len() - k,
{
    if 0 <= k < ls1.len() {
        assert(marker_text(ls1[k]) == marker_text(ls2[k]));
        lemma_next_marker_same(ls1, ls2, k + 1);
    }
}

proof fn lemma_next_close_same(ls1: Seq<Seq<char>>, ls2: Seq<Seq<char>>, k: int)
    requires
        same_marker_lines(ls1, ls2),
    ensures
        next_close(ls1, k) == next_close(ls2, k),
    decreases ls1.len() - k,
{
    if 0 <= k < ls1.len() {
        assert(marker_text(ls1[k]) == marker_text(ls2[k]));
        lemma_next_close_same(ls1, ls2, k + 1);
    }
}

/// Where parsing resumes after a hunk found by [`hunk_at`].
pub open spec fn hunk_next(o: Option<(HunkView, int)>) -> int {
    match o {
        Some((_, n)) => n,
        None => 0,
    }
}

proof fn lemma_hunk_at_same(ls1: Seq<Seq<char>>, ls2: Seq<Seq<char>>, s: int)
    requires
        same_marker_lines(ls1, ls2),
        0 <= s,
    ensures
        hunk_at(ls1, s) is Some <==> hunk_at(ls2, s) is Some,
        hunk_next(hunk_at(ls1, s)) == hunk_next(hunk_at(ls2, s)),
{
    lemma_next_marker_same(ls1, ls2, s + 1);
    let a = next_marker(ls1, s + 1);
    lemma_next_marker_bounds(ls1, s + 1);
    if a < ls1.len() {
        assert(marker_text(ls1[a]) == marker_text(ls2[a]));
        lemma_next_marker_same(ls1, ls2, a + 1);
        lemma_next_marker_bounds(ls1, a + 1);
        let d = next_marker(ls1, a + 1);
        if d < ls1.len() {
            assert(marker_text(ls1[d]) == marker_text(ls2[d]));
            lemma_next_marker_same(ls1, ls2, d + 1);
            lemma_next_marker_bounds(ls1, d + 1);
            let c = next_marker(ls1, d + 1);
            if c < ls1.len() {
                assert(marker_text(ls1[c]) == marker_text(ls2[c]));
            }
        }
    }
}

/// Conflicts in concatenated segments add up.
pub proof fn lemma_count_conflicts_concat(a: Seq<SegmentView>, b: Seq<SegmentView>)
    ensures
        count_conflicts(a + b) == count_conflicts(a) + count_conflicts(b),
    decreases b.len(),
{
    if b.len() > 0 {
        lemma_count_conflicts_concat(a, b.drop_last());
        assert((a + b).drop_last() =~= a + b.drop_last());
    } else {
        assert(a + b =~= a);
    }
}

proof fn lemma_flush_no_conflicts(ctx: Seq<Seq<char>>)
    ensures
        count_conflicts(flush(ctx)) == 0,
{
    assert(count_conflicts(Seq::<SegmentView>::empty()) == 0);
    if ctx.len() > 0 {
        assert(flush(ctx).drop_last() =~= Seq::<SegmentView>::empty());
    }
}

/// Line sequences that agree line for line as markers hold the same number
/// of conflict hunks, from any line on and whatever context is pending.
proof fn lemma_parse_from_same_count(
    ls1: Seq<Seq<char>>,
    ls2: Seq<Seq<char>>,
    i: int,
    c1: Seq<Seq<char>>,
    c2: Seq<Seq<char>>,
)
    requires
        same_marker_lines(ls1, ls2),
    ensures
        count_conflicts(parse_from(ls1, i, c1)) == count_conflicts(parse_from(ls2, i, c2)),
    decreases ls1.len() - i,
{
    if i < 0 || i >= ls1.len() {
        lemma_flush_no_conflicts(c1);
        lemma_flush_no_conflicts(c2);
    } else {
        assert(marker_text(ls1[i]) == marker_text(ls2[i]));
        if is_open(ls1[i]) {
            lemma_hunk_at_advances(ls1, i);
            lemma_hunk_at_advances(ls2, i);
            lemma_next_close_bounds(ls1, i + 1);
            lemma_hunk_at_same(ls1, ls2, i);
            match hunk_at(ls1, i) {
                Some((h1, next)) => {
                    let h2 = match hunk_at(ls2, i) {
                        Some((h, _)) => h,
                        None => h1,
                    };
                    lemma_parse_from_same_count(ls1, ls2, next, Seq::empty(), Seq::empty());
                    let r1 = parse_from(ls1, next, Seq::empty());
                    let r2 = parse_from(ls2, next, Seq::empty());
                    lemma_flush_no_conflicts(c1);
                    lemma_flush_no_conflicts(c2);
                    lemma_count_conflicts_concat(flush(c1), seq![SegmentView::Conflict(h1)]);
                    lemma_count_conflicts_concat(flush(c1) + seq![SegmentView::Conflict(h1)], r1);
                    lemma_count_conflicts_concat(flush(c2), seq![SegmentView::Conflict(h2)]);
                    lemma_count_conflicts_concat(flush(c2) + seq![SegmentView::Conflict(h2)], r2);
                    assert(seq![SegmentView::Conflict(h1)].drop_last() =~= Seq::<SegmentView>::empty());
                    assert(seq![SegmentView::Conflict(h2)].drop_last() =~= Seq::<SegmentView>::empty());
                },
                None => {
                    lemma_next_close_same(ls1, ls2, i + 1);
                    let e = poisoned_end(ls1, i);
                    lemma_parse_from_same_count(ls1, ls2, e, c1 + ls1.subrange(i, e), c2 + ls2.subrange(i, e));
                },
            }
        } else {
            lemma_parse_from_same_count(ls1, ls2, i + 1, c1.push(ls1[i]), c2.push(ls2[i]));
        }
    }
}

/// `t` with every `\n` written as `\r\n`: the same text with Windows line
/// endings.
pub open spec fn crlf_text(t: Seq<char>) -> Seq<char>
    decreases t.len(),
{
    if t.len() == 0 {
        Seq::empty()
    } else {
        (if t[0] == '\n' {
            seq!['\r', '\n']
        } else {
            seq![t[0]]
        }) + crlf_text(t.drop_first())
    }
}

/// One line with its final `\n` written as `\r\n`.
pub open spec fn crlf_line(l: Seq<char>) -> Seq<char> {
    if l.len() > 0 && l.last() == '\n' {
        l.drop_last() + seq!['\r', '\n']
    } else {
        l
    }
}

proof fn lemma_crlf_concat(a: Seq<char>, b: Seq<char>)
    ensures
        crlf_text(a + b) == crlf_text(a) + crlf_text(b),
    decreases a.len(),
{
    if a.len() == 0 {
        assert(a + b =~= b);
        assert(crlf_text(a) =~= Seq::<char>::empty());
        assert(crlf_text(a) + crlf_text(b) =~= crlf_text(b));
    } else {
        assert((a + b)[0] == a[0]);
        assert((a + b).drop_first() =~= a.drop_first() + b);
        lemma_crlf_concat(a.drop_first(), b);
    }
}

proof fn lemma_crlf_plain(b: Seq<char>)
    requires
        forall|j: int| 0 <= j < b.len() ==> b[j] != '\n',
    ensures
        crlf_text(b) == b,
    decreases b.len(),
{
    if b.len() > 0 {
        lemma_crlf_plain(b.drop_first());
        assert(seq![b[0]] + b.drop_first() =~= b);
    } else {
        assert(crlf_text(b) =~= b);
    }
}

proof fn lemma_crlf_of_line(l: Seq<char>)
    requires
        forall|j: int| 0 <= j < l.len() - 1 ==> l[j] != '\n',
    ensures
        crlf_text(l) == crlf_line(l),
{
    if l.len() > 0 && l.last() == '\n' {
        let b = l.drop_last();
        lemma_crlf_plain(b);
        lemma_crlf_concat(b, seq!['\n']);
        assert(b + seq!['\n'] =~= l);
        let nl = seq!['\n'];
        assert(nl.drop_first() =~= Seq::<char>::empty());
        assert(crlf_text(nl.drop_first()) =~= Seq::<char>::empty());
        assert(crlf_text(nl) == seq!['\r', '\n'] + crlf_text(nl.drop_first()));
        assert(seq!['\r', '\n'] + Seq::<char>::empty() =~= seq!['\r', '\n']);
    } else if l.len() > 0 {
        lemma_crlf_plain(l);
    } else {
        assert(crlf_text(l) =~= l);
    }
}

proof fn lemma_crlf_flatten(ls: Seq<Seq<char>>)
    requires
        crate::lines::well_formed_lines(ls),
    ensures
        crlf_text(ls.flatten()) == ls.map_values(|l: Seq<char>| crlf_line(l)).flatten(),
    decreases ls.len(),
{
    let f = |l: Seq<char>| crlf_line(l);
    if ls.len() > 0 {
        let rest = ls.drop_first();
        assert(crate::lines::well_formed_lines(rest)) by {
            assert forall|k: int| 0 <= k < rest.len() implies {
                &&& (#[trigger] rest[k]).len() > 0
                &&& forall|j: int| 0 <= j < rest[k].len() - 1 ==> rest[k][j] != '\n'
                &&& k < rest.len() - 1 ==> rest[k].last() == '\n'
            } by {
                assert(rest[k] == ls[k + 1]);
            }
        }
        lemma_crlf_flatten(rest);
        assert(ls[0].len() > 0);
        lemma_crlf_of_line(ls[0]);
        lemma_crlf_concat(ls[0], rest.flatten());
        assert(ls.map_values(f).drop_first() =~= rest.map_values(f));
        assert(ls.map_values(f)[0] == crlf_line(ls[0]));
    } else {
        assert(ls.flatten() =~= Seq::<char>::empty());
        assert(crlf_text(ls.flatten()) =~= Seq::<char>::empty());
        assert(ls.map_values(f).flatten() =~= Seq::<char>::empty());
    }
}

/// Windows line endings do not change what a file's conflicts are: for any
/// text (written with `\n` line endings, no `\r`), the same text with
/// every `\n` written as `\r\n` parses into the same number of conflict
/// hunks. A `\r\n`-terminated line is a marker exactly when the same line
/// ending in `\n` is.
pub proof fn lemma_crlf_same_conflicts(t: Seq<char>)
    requires
        forall|j: int| 0 <= j < t.len() ==> t[j] != '\r',
    ensures
        count_conflicts(parse_spec(crlf_text(t))) == count_conflicts(parse_spec(t)),
{
    let f = |l: Seq<char>| crlf_line(l);
    let ls = split_lines(t);
    let ls2 = ls.map_values(f);
    crate::lines::lemma_split_lines_well_formed(t);
    crate::lines::lemma_split_lines_flatten(t);
    crate::lines::lemma_split_from_avoids(t, 0, '\r');
    lemma_crlf_flatten(ls);
    assert(crate::lines::well_formed_lines(ls2)) by {
        assert forall|k: int| 0 <= k < ls2.len() implies {
            &&& (#[trigger] ls2[k]).len() > 0
            &&& forall|j: int| 0 <= j < ls2[k].len() - 1 ==> ls2[k][j] != '\n'
            &&& k < ls2.len() - 1 ==> ls2[k].last() == '\n'
        } by {
            assert(ls2[k] == crlf_line(ls[k]));
            assert(ls[k].len() > 0);
        }
    }
    crate::lines::lemma_split_joined_lines(ls2);
    assert(split_lines(crlf_text(t)) == ls2);
    assert(same_marker_lines(ls2, ls)) by {
        assert forall|k: int| 0 <= k < ls2.len() implies marker_text(#[trigger] ls2[k]) == marker_text(ls[k]) by {
            let l = ls[k];
            assert(ls2[k] == crlf_line(l));
            if l.len() > 0 && l.last() == '\n' {
                let c = crlf_line(l);
                if l.len() >= 2 {
                    assert(l[l.len() - 2] != '\r');
                }
                assert(c.subrange(0, c.len() - 2) =~= l.subrange(0, l.len() - 1));
            } else {
                if l.len() > 0 {
                    assert(l.last() != '\n');
                }
            }
        }
    }
    lemma_parse_from_same_count(ls2, ls, 0, Seq::empty(), Seq::empty());
}

} // verus!
