//! Line splitting that keeps every line's terminator, so that joining the
//! lines back reproduces the text exactly.

use vstd::prelude::*;
use crate::text::chars_of;

verus! {

/// Index just past the line that starts at `i`: past its `\n`, or the end.
pub open spec fn line_end(t: Seq<char>, i: int) -> int
    decreases t.len() - i,
{
    if i >= t.len() {
        t.len() as int
    } else if t[i] == '\n' {
        i + 1
    } else {
        line_end(t, i + 1)
    }
}

/// A line that starts before the end ends after it starts.
pub proof fn lemma_line_end_bounds(t: Seq<char>, i: int)
    requires
        0 <= i,
    ensures
        i < t.len() ==> i < line_end(t, i) <= t.len(),
        i >= t.len() ==> line_end(t, i) == t.len(),
    decreases t.len() - i,
{
    if i < t.len() && t[i] != '\n' {
        lemma_line_end_bounds(t, i + 1);
    }
}

/// The lines of `t` from position `i`, each keeping its terminator.
pub open spec fn split_from(t: Seq<char>, i: int) -> Seq<Seq<char>>
    decreases t.len() - i,
{
    if i < 0 || i >= t.len() {
        Seq::empty()
    } else {
        let e = line_end(t, i);
        proof {
            lemma_line_end_bounds(t, i);
        }
        seq![t.subrange(i, e)] + split_from(t, e)
    }
}

/// The lines of `t`, each keeping its terminator; a text without a final
/// newline ends in an unterminated line, and the empty text has no lines.
pub open spec fn split_lines(t: Seq<char>) -> Seq<Seq<char>> {
    split_from(t, 0)
}

/// Skipping over characters that are not newlines does not move a line's end.
pub proof fn lemma_line_end_skip(t: Seq<char>, a: int, b: int)
    requires
        0 <= a <= b <= t.len(),
        forall|k: int| a <= k < b ==> t[k] != '\n',
    ensures
        line_end(t, a) == line_end(t, b),
    decreases b - a,
{
    if a < b {
        lemma_line_end_skip(t, a + 1, b);
    }
}

/// Joining the lines from `i` gives back the text from `i`.
pub proof fn lemma_split_from_flatten(t: Seq<char>, i: int)
    requires
        0 <= i <= t.len(),
    ensures
        split_from(t, i).flatten() == t.subrange(i, t.len() as int),
    decreases t.len() - i,
{
    if i < t.len() {
        let e = line_end(t, i);
        lemma_line_end_bounds(t, i);
        lemma_split_from_flatten(t, e);
        let rest = split_from(t, e);
        assert(split_from(t, i) == seq![t.subrange(i, e)] + rest);
        assert((seq![t.subrange(i, e)] + rest).drop_first() =~= rest);
        assert(t.subrange(i, t.len() as int) =~= t.subrange(i, e) + t.subrange(e, t.len() as int));
    } else {
        assert(t.subrange(i, t.len() as int) =~= Seq::<char>::empty());
    }
}

/// Joining the lines of `t` gives back `t` exactly.
pub proof fn lemma_split_lines_flatten(t: Seq<char>)
    ensures
        split_lines(t).flatten() == t,
{
    lemma_split_from_flatten(t, 0);
    assert(t.subrange(0, t.len() as int) =~= t);
}

/// Inside the line from `i`, only its last character may be `\n`, and it is
/// one unless the line runs to the end of the text.
pub proof fn lemma_line_end_shape(t: Seq<char>, i: int)
    requires
        0 <= i < t.len(),
    ensures
        forall|j: int| i <= j < line_end(t, i) - 1 ==> t[j] != '\n',
        line_end(t, i) < t.len() ==> t[line_end(t, i) - 1] == '\n',
        t[line_end(t, i) - 1] == '\n' || line_end(t, i) == t.len(),
    decreases t.len() - i,
{
    lemma_line_end_bounds(t, i);
    if t[i] != '\n' && i + 1 < t.len() {
        lemma_line_end_shape(t, i + 1);
    }
}

/// Lines as [`split_lines`] makes them: none is empty, a `\n` can only end
/// a line, and every line but the last ends in one.
pub open spec fn well_formed_lines(ls: Seq<Seq<char>>) -> bool {
    forall|k: int| 0 <= k < ls.len() ==> {
        &&& (#[trigger] ls[k]).len() > 0
        &&& forall|j: int| 0 <= j < ls[k].len() - 1 ==> ls[k][j] != '\n'
        &&& k < ls.len() - 1 ==> ls[k].last() == '\n'
    }
}

proof fn lemma_split_from_well_formed(t: Seq<char>, i: int)
    requires
        0 <= i <= t.len(),
    ensures
        well_formed_lines(split_from(t, i)),
    decreases t.len() - i,
{
    if i < t.len() {
        let e = line_end(t, i);
        lemma_line_end_bounds(t, i);
        lemma_line_end_shape(t, i);
        lemma_split_from_well_formed(t, e);
        let l = t.subrange(i, e);
        let rest = split_from(t, e);
        let ls = seq![l] + rest;
        assert(split_from(t, i) == ls);
        assert forall|k: int| 0 <= k < ls.len() implies {
            &&& (#[trigger] ls[k]).len() > 0
            &&& forall|j: int| 0 <= j < ls[k].len() - 1 ==> ls[k][j] != '\n'
            &&& k < ls.len() - 1 ==> ls[k].last() == '\n'
        } by {
            if k == 0 {
                assert(ls[0] == l);
                if ls.len() > 1 {
                    assert(e < t.len());
                }
            } else {
                assert(ls[k] == rest[k - 1]);
            }
        }
    }
}

/// The lines of any text are well formed.
pub proof fn lemma_split_lines_well_formed(t: Seq<char>)
    ensures
        well_formed_lines(split_lines(t)),
{
    lemma_split_from_well_formed(t, 0);
}

/// Putting a prefix in front of a text moves every line end by its length.
proof fn lemma_line_end_shift(p: Seq<char>, r: Seq<char>, j: int)
    requires
        0 <= j,
    ensures
        line_end(p + r, p.len() + j) == p.len() + line_end(r, j),
    decreases r.len() - j,
{
    if j < r.len() {
        assert((p + r)[p.len() + j] == r[j]);
        if r[j] != '\n' {
            lemma_line_end_shift(p, r, j + 1);
        }
    }
}

/// Putting a prefix in front of a text leaves the lines after it alone.
proof fn lemma_split_from_shift(p: Seq<char>, r: Seq<char>, j: int)
    requires
        0 <= j,
    ensures
        split_from(p + r, p.len() + j) == split_from(r, j),
    decreases r.len() - j,
{
    if j < r.len() {
        lemma_line_end_shift(p, r, j);
        lemma_line_end_bounds(r, j);
        let e = line_end(r, j);
        lemma_split_from_shift(p, r, e);
        assert((p + r).subrange(p.len() + j, p.len() + e) =~= r.subrange(j, e));
    }
}

/// Well-formed lines, joined and split again, come back unchanged.
pub proof fn lemma_split_joined_lines(ls: Seq<Seq<char>>)
    requires
        well_formed_lines(ls),
    ensures
        split_lines(ls.flatten()) == ls,
    decreases ls.len(),
{
    if ls.len() > 0 {
        let l = ls[0];
        let rest = ls.drop_first();
        assert(ls[0].len() > 0);
        assert(well_formed_lines(rest)) by {
            assert forall|k: int| 0 <= k < rest.len() implies {
                &&& (#[trigger] rest[k]).len() > 0
                &&& forall|j: int| 0 <= j < rest[k].len() - 1 ==> rest[k][j] != '\n'
                &&& k < rest.len() - 1 ==> rest[k].last() == '\n'
            } by {
                assert(rest[k] == ls[k + 1]);
            }
        }
        lemma_split_joined_lines(rest);
        let r = rest.flatten();
        let t = l + r;
        assert(ls.flatten() == t);
        // The first line ends where `l` does.
        assert forall|j: int| 0 <= j < l.len() - 1 implies t[j] != '\n' by {
            assert(t[j] == l[j]);
        }
        if rest.len() > 0 {
            assert(l.last() == '\n');
            lemma_line_end_skip(t, 0, l.len() - 1);
            assert(t[l.len() - 1] == '\n');
        } else {
            assert(r =~= Seq::<char>::empty());
            lemma_line_end_skip(t, 0, l.len() - 1);
            if t[l.len() - 1] != '\n' {
                assert(line_end(t, l.len() - 1) == line_end(t, l.len() as int));
            }
        }
        assert(line_end(t, 0) == l.len());
        assert(t.subrange(0, l.len() as int) =~= l);
        lemma_split_from_shift(l, r, 0);
        assert(split_from(t, 0) == seq![l] + split_from(r, 0));
        assert(seq![l] + rest =~= ls);
    } else {
        assert(ls.flatten() =~= Seq::<char>::empty());
        assert(ls =~= Seq::<Seq<char>>::empty());
    }
}

/// A character absent from a text is absent from each of its lines.
pub proof fn lemma_split_from_avoids(t: Seq<char>, i: int, c: char)
    requires
        0 <= i <= t.len(),
        forall|j: int| 0 <= j < t.len() ==> t[j] != c,
    ensures
        forall|k: int, j: int| 0 <= k < split_from(t, i).len() && 0 <= j < split_from(t, i)[k].len()
            ==> #[trigger] split_from(t, i)[k][j] != c,
    decreases t.len() - i,
{
    if i < t.len() {
        let e = line_end(t, i);
        lemma_line_end_bounds(t, i);
        lemma_split_from_avoids(t, e, c);
        let ls = split_from(t, i);
        assert(ls == seq![t.subrange(i, e)] + split_from(t, e));
        assert forall|k: int, j: int| 0 <= k < ls.len() && 0 <= j < ls[k].len() implies #[trigger] ls[k][j] != c by {
            if k == 0 {
                assert(ls[0][j] == t[i + j]);
            } else {
                assert(ls[k] == split_from(t, e)[k - 1]);
            }
        }
    }
}

/// A `String` holding the characters `cs[lo..hi]`.
pub fn string_of(cs: &Vec<char>, lo: usize, hi: usize) -> (s: String)
    requires
        lo <= hi <= cs@.len(),
    ensures
        s@ == cs@.subrange(lo as int, hi as int),
{
    let mut s = String::new();
    let mut k = lo;
    while k < hi
        invariant
            lo <= k <= hi <= cs@.len(),
            s@ == cs@.subrange(lo as int, k as int),
        decreases hi - k,
    {
        s.push(cs[k]);
        assert(cs@.subrange(lo as int, k + 1) =~= cs@.subrange(lo as int, k as int).push(cs@[k as int]));
        k += 1;
    }
    s
}

/// Splits text into lines, keeping each line's terminator. A file that does
/// not end with a newline gets an unterminated final line.
pub fn split_keeping_terminators(text: &str) -> (lines: Vec<String>)
    ensures
        crate::conflict::views(lines@) == split_lines(text@),
{
    let cs = chars_of(text);
    let ghost t = text@;
    let mut lines: Vec<String> = Vec::new();
    let mut start: usize = 0;
    let mut i: usize = 0;
    while i < cs.len()
        invariant
            cs@ == t,
            start <= i <= cs@.len(),
            forall|k: int| start <= k < i ==> t[k] != '\n',
            split_lines(t) == crate::conflict::views(lines@) + split_from(t, start as int),
        decreases cs.len() - i,
    {
        if cs[i] == '\n' {
            let line = string_of(&cs, start, i + 1);
            proof {
                lemma_line_end_skip(t, start as int, i as int);
                assert(line_end(t, i as int) == i + 1);
                assert(split_from(t, start as int) == seq![t.subrange(start as int, i + 1)] + split_from(t, i + 1));
                assert(crate::conflict::views(lines@.push(line)) =~= crate::conflict::views(lines@).push(line@));
                assert(crate::conflict::views(lines@) + split_from(t, start as int)
                    =~= crate::conflict::views(lines@.push(line)) + split_from(t, i + 1));
            }
            lines.push(line);
            start = i + 1;
        }
        i += 1;
    }
    if start < cs.len() {
        let line = string_of(&cs, start, cs.len());
        proof {
            lemma_line_end_skip(t, start as int, t.len() as int);
            assert(line_end(t, t.len() as int) == t.len());
            assert(split_from(t, t.len() as int) == Seq::<Seq<char>>::empty());
            assert(split_from(t, start as int) == seq![t.subrange(start as int, t.len() as int)] + split_from(t, t.len() as int));
            assert(crate::conflict::views(lines@.push(line)) =~= crate::conflict::views(lines@).push(line@));
            assert(crate::conflict::views(lines@) + split_from(t, start as int)
                =~= crate::conflict::views(lines@.push(line)));
        }
        lines.push(line);
    } else {
        assert(crate::conflict::views(lines@) + split_from(t, start as int) =~= crate::conflict::views(lines@));
    }
    lines
}

} // verus!
