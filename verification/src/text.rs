//! Character-level helpers the parsers and formatters share.

use vstd::prelude::*;
use vstd::std_specs::iter::IteratorSpec;

verus! {

broadcast use vstd::string::group_string_axioms;

/// `String::push` appends one character.
pub assume_specification[ String::push ](s: &mut String, ch: char)
    ensures
        final(s)@ == old(s)@.push(ch),
;

/// The characters of `s`, in order.
pub fn chars_of(s: &str) -> (v: Vec<char>)
    ensures
        v@ == s@,
{
    let mut v: Vec<char> = Vec::new();
    let mut it = s.chars();
    loop
        invariant
            it.obeys_prophetic_iter_laws(),
            it.decrease() is Some,
            s@ == v@ + it.remaining(),
        decreases it.decrease()->0,
    {
        match it.next() {
            Some(c) => {
                v.push(c);
            },
            None => {
                assert(s@ =~= v@);
                return v;
            },
        }
    }
}

/// Lexicographic order on characters by code point — the order of Rust's
/// `str`/`String` comparison (UTF-8 byte order is code point order).
pub open spec fn lex_lt(a: Seq<char>, b: Seq<char>) -> bool
    decreases a.len(),
{
    if a.len() == 0 {
        b.len() > 0
    } else if b.len() == 0 {
        false
    } else if a[0] != b[0] {
        (a[0] as u32) < (b[0] as u32)
    } else {
        lex_lt(a.drop_first(), b.drop_first())
    }
}

/// Whether `a` sorts strictly before `b`.
pub fn str_lt(a: &str, b: &str) -> (r: bool)
    ensures
        r == lex_lt(a@, b@),
{
    let ca = chars_of(a);
    let cb = chars_of(b);
    let mut k: usize = 0;
    assert(a@.skip(0) =~= a@);
    assert(b@.skip(0) =~= b@);
    while k < ca.len() && k < cb.len() && ca[k] == cb[k]
        invariant
            k <= ca@.len(),
            k <= cb@.len(),
            ca@ == a@,
            cb@ == b@,
            lex_lt(a@, b@) == lex_lt(a@.skip(k as int), b@.skip(k as int)),
        decreases ca.len() - k,
    {
        assert(a@.skip(k as int).drop_first() =~= a@.skip(k + 1));
        assert(b@.skip(k as int).drop_first() =~= b@.skip(k + 1));
        k += 1;
    }
    if k == ca.len() {
        k < cb.len()
    } else if k == cb.len() {
        false
    } else {
        (ca[k] as u32) < (cb[k] as u32)
    }
}

/// Whether two strings hold the same characters.
pub fn str_eq(a: &str, b: &str) -> (r: bool)
    ensures
        r == (a@ == b@),
{
    let ca = chars_of(a);
    let cb = chars_of(b);
    if ca.len() != cb.len() {
        return false;
    }
    let mut k: usize = 0;
    while k < ca.len()
        invariant
            ca@ == a@,
            cb@ == b@,
            ca@.len() == cb@.len(),
            k <= ca@.len(),
            forall|j: int| 0 <= j < k ==> ca@[j] == cb@[j],
        decreases ca.len() - k,
    {
        if ca[k] != cb[k] {
            return false;
        }
        k += 1;
    }
    assert(a@ =~= b@);
    true
}

/// The decimal digit character for `d` (`0 <= d < 10`).
pub open spec fn digit_char(d: nat) -> char {
    ((48 + d) as u8) as char
}

/// The decimal form of `n`, without sign or leading zeros.
pub open spec fn decimal(n: nat) -> Seq<char>
    decreases n,
{
    if n < 10 {
        seq![digit_char(n)]
    } else {
        decimal(n / 10).push(digit_char(n % 10))
    }
}

/// `n` written in decimal (what `u64::to_string` gives).
pub fn u64_decimal(n: u64) -> (s: String)
    ensures
        s@ == decimal(n as nat),
    decreases n,
{
    let d: u8 = (n % 10) as u8;
    let c: char = (48u8 + d) as char;
    if n < 10 {
        let mut s = String::new();
        s.push(c);
        s
    } else {
        let mut s = u64_decimal(n / 10);
        s.push(c);
        s
    }
}

/// Index of the first `c` in `s`, or `s.len()` when there is none.
pub open spec fn first_index_of(s: Seq<char>, c: char) -> int
    decreases s.len(),
{
    if s.len() == 0 {
        0
    } else if s[0] == c {
        0
    } else {
        1 + first_index_of(s.drop_first(), c)
    }
}

/// Facts about [`first_index_of`]: in range, a hit when below the length,
/// and no earlier hit.
pub proof fn lemma_first_index_of(s: Seq<char>, c: char)
    ensures
        0 <= first_index_of(s, c) <= s.len(),
        first_index_of(s, c) < s.len() ==> s[first_index_of(s, c)] == c,
        forall|j: int| 0 <= j < first_index_of(s, c) ==> s[j] != c,
    decreases s.len(),
{
    if s.len() > 0 && s[0] != c {
        lemma_first_index_of(s.drop_first(), c);
        assert forall|j: int| 0 <= j < first_index_of(s, c) implies s[j] != c by {
            if j > 0 {
                assert(s[j] == s.drop_first()[j - 1]);
            }
        }
    }
}

/// Index of the first `c` in `text`, or its length.
pub fn find_char(text: &str, c: char) -> (r: usize)
    ensures
        r as int == first_index_of(text@, c),
{
    let cs = chars_of(text);
    proof {
        lemma_first_index_of(text@, c);
    }
    let mut k: usize = 0;
    while k < cs.len()
        invariant
            cs@ == text@,
            k <= cs@.len(),
            forall|j: int| 0 <= j < k ==> cs@[j] != c,
            0 <= first_index_of(text@, c) <= text@.len(),
            first_index_of(text@, c) < text@.len() ==> text@[first_index_of(text@, c)] == c,
            forall|j: int| 0 <= j < first_index_of(text@, c) ==> text@[j] != c,
        decreases cs.len() - k,
    {
        if cs[k] == c {
            return k;
        }
        k += 1;
    }
    k
}

/// The pieces of `s` between occurrences of `c`, as `str::split` yields
/// them: one piece more than there are separators, empty pieces kept.
pub open spec fn split_on(s: Seq<char>, c: char) -> Seq<Seq<char>>
    decreases s.len(),
{
    let p = first_index_of(s, c);
    if p >= s.len() {
        seq![s]
    } else {
        proof {
            lemma_first_index_of(s, c);
        }
        seq![s.subrange(0, p)] + split_on(s.subrange(p + 1, s.len() as int), c)
    }
}

/// `s` begins with `p`.
pub open spec fn starts_with(s: Seq<char>, p: Seq<char>) -> bool {
    p.len() <= s.len() && s.subrange(0, p.len() as int) == p
}

/// Whether `s` begins with `p`.
pub fn str_starts_with(s: &str, p: &str) -> (b: bool)
    ensures
        b == starts_with(s@, p@),
{
    let cs = chars_of(s);
    let cp = chars_of(p);
    if cp.len() > cs.len() {
        return false;
    }
    let mut k: usize = 0;
    while k < cp.len()
        invariant
            cs@ == s@,
            cp@ == p@,
            cp@.len() <= cs@.len(),
            k <= cp@.len(),
            forall|j: int| 0 <= j < k ==> cs@[j] == cp@[j],
        decreases cp.len() - k,
    {
        if cs[k] != cp[k] {
            assert(s@.subrange(0, p@.len() as int)[k as int] != p@[k as int]);
            return false;
        }
        k += 1;
    }
    assert(s@.subrange(0, p@.len() as int) =~= p@);
    true
}

/// Splitting always yields at least one piece.
pub proof fn lemma_split_on_nonempty(s: Seq<char>, c: char)
    ensures
        split_on(s, c).len() >= 1,
{
    lemma_first_index_of(s, c);
}

/// Splits `text` at every `c`.
pub fn split_char(text: &str, c: char) -> (parts: Vec<String>)
    ensures
        crate::conflict::views(parts@) == split_on(text@, c),
{
    let cs = chars_of(text);
    let mut parts: Vec<String> = Vec::new();
    let mut lo: usize = 0;
    let mut k: usize = 0;
    assert(text@.subrange(0, text@.len() as int) =~= text@);
    assert(crate::conflict::views(parts@) + split_on(text@, c) =~= split_on(text@, c));
    while k < cs.len()
        invariant
            cs@ == text@,
            lo <= k <= cs@.len(),
            forall|j: int| lo <= j < k ==> cs@[j] != c,
            crate::conflict::views(parts@) + split_on(text@.subrange(lo as int, text@.len() as int), c)
                == split_on(text@, c),
        decreases cs.len() - k,
    {
        if cs[k] == c {
            let ghost rest = text@.subrange(lo as int, text@.len() as int);
            proof {
                lemma_first_index_of(rest, c);
                assert forall|j: int| 0 <= j < k - lo implies rest[j] != c by {
                    assert(rest[j] == cs@[lo + j]);
                }
                assert(rest[k - lo] == c);
                assert(first_index_of(rest, c) == k - lo);
                assert(rest.subrange(0, k - lo) =~= text@.subrange(lo as int, k as int));
                assert(rest.subrange(k - lo + 1, rest.len() as int) =~= text@.subrange(k + 1, text@.len() as int));
            }
            let piece = crate::lines::string_of(&cs, lo, k);
            let ghost before = crate::conflict::views(parts@);
            parts.push(piece);
            assert(crate::conflict::views(parts@) =~= before.push(text@.subrange(lo as int, k as int)));
            lo = k + 1;
        }
        k += 1;
    }
    let ghost rest = text@.subrange(lo as int, text@.len() as int);
    proof {
        lemma_first_index_of(rest, c);
        assert forall|j: int| 0 <= j < rest.len() implies rest[j] != c by {
            assert(rest[j] == cs@[lo + j]);
        }
        if first_index_of(rest, c) < rest.len() {
            assert(rest[first_index_of(rest, c)] == c);
        }
    }
    let piece = crate::lines::string_of(&cs, lo, cs.len());
    let ghost before = crate::conflict::views(parts@);
    parts.push(piece);
    assert(crate::conflict::views(parts@) =~= before.push(rest));
    parts
}

/// Whether `c` is an ASCII decimal digit.
pub open spec fn is_digit(c: char) -> bool {
    '0' <= c && c <= '9'
}

/// The value of a digit character.
pub open spec fn digit_value(c: char) -> nat {
    ((c as u32) - 48) as nat
}

/// The value of a string of decimal digits.
pub open spec fn digits_value(s: Seq<char>) -> nat
    decreases s.len(),
{
    if s.len() == 0 {
        0
    } else {
        digits_value(s.drop_last()) * 10 + digit_value(s.last())
    }
}

/// The text after an optional leading `+`.
pub open spec fn unsigned_digits(s: Seq<char>) -> Seq<char> {
    if s.len() > 0 && s[0] == '+' {
        s.drop_first()
    } else {
        s
    }
}

/// Every character is an ASCII digit.
pub open spec fn all_digits(d: Seq<char>) -> bool {
    forall|k: int| 0 <= k < d.len() ==> is_digit(#[trigger] d[k])
}

/// What `str::parse::<u64>` gives: an optional `+`, then one or more ASCII
/// digits whose value fits in a `u64`.
pub open spec fn parse_u64_spec(s: Seq<char>) -> Option<u64> {
    let d = unsigned_digits(s);
    if d.len() == 0 || !all_digits(d) {
        None
    } else if digits_value(d) > u64::MAX {
        None
    } else {
        Some(digits_value(d) as u64)
    }
}

/// A longer digit string is worth at least as much as its prefix.
pub proof fn lemma_digits_value_prefix(s: Seq<char>, k: int)
    requires
        0 <= k <= s.len(),
    ensures
        digits_value(s.subrange(0, k)) <= digits_value(s),
    decreases s.len() - k,
{
    if k < s.len() {
        lemma_digits_value_prefix(s, k + 1);
        assert(s.subrange(0, k + 1).drop_last() =~= s.subrange(0, k));
    } else {
        assert(s.subrange(0, k) =~= s);
    }
}

/// Parses a decimal `u64` as `str::parse::<u64>` does.
pub fn parse_u64(text: &str) -> (r: Option<u64>)
    ensures
        r == parse_u64_spec(text@),
{
    let cs = chars_of(text);
    let start: usize = if cs.len() > 0 && cs[0] == '+' { 1 } else { 0 };
    let ghost d = unsigned_digits(text@);
    assert(d =~= text@.subrange(start as int, text@.len() as int));
    if start == cs.len() {
        return None;
    }
    let mut k: usize = start;
    while k < cs.len()
        invariant
            cs@ == text@,
            start <= k <= cs@.len(),
            d == text@.subrange(start as int, text@.len() as int),
            d == unsigned_digits(text@),
            forall|j: int| 0 <= j < k - start ==> is_digit(#[trigger] d[j]),
        decreases cs.len() - k,
    {
        if !('0' <= cs[k] && cs[k] <= '9') {
            assert(!is_digit(d[k - start]));
            return None;
        }
        k += 1;
    }
    let mut v: u64 = 0;
    let mut k: usize = start;
    while k < cs.len()
        invariant
            cs@ == text@,
            start <= k <= cs@.len(),
            d == text@.subrange(start as int, text@.len() as int),
            d == unsigned_digits(text@),
            forall|j: int| 0 <= j < d.len() ==> is_digit(#[trigger] d[j]),
            v as nat == digits_value(d.subrange(0, k - start)),
        decreases cs.len() - k,
    {
        assert(d.subrange(0, k - start + 1).drop_last() =~= d.subrange(0, k - start));
        assert(is_digit(d[k - start]));
        let dv: u64 = ((cs[k] as u32) - 48) as u64;
        proof {
            vstd::utf8::char_u32_cast(cs@[k as int], cs@[k as int] as u32);
        }
        match v.checked_mul(10) {
            None => {
                proof {
                    lemma_digits_value_prefix(d, k - start + 1);
                }
                return None;
            },
            Some(m) => match m.checked_add(dv) {
                None => {
                    proof {
                        lemma_digits_value_prefix(d, k - start + 1);
                    }
                    return None;
                },
                Some(w) => {
                    v = w;
                },
            },
        }
        k += 1;
    }
    assert(d.subrange(0, d.len() as int) =~= d);
    Some(v)
}

/// `text` without leading and trailing Unicode whitespace (`str::trim`).
pub fn trim_text(text: &str) -> (r: String)
    ensures
        r@ == crate::parse::trim(text@),
{
    let cs = chars_of(text);
    let n = cs.len();
    let mut lo: usize = 0;
    while lo < n && crate::parse::is_whitespace(cs[lo])
        invariant
            cs@ == text@,
            n == cs@.len(),
            lo <= n,
            crate::parse::trim_lo(text@, 0) == crate::parse::trim_lo(text@, lo as int),
        decreases n - lo,
    {
        lo += 1;
    }
    let mut hi: usize = n;
    while hi > lo && crate::parse::is_whitespace(cs[hi - 1])
        invariant
            cs@ == text@,
            n == cs@.len(),
            lo <= hi <= n,
            crate::parse::trim_lo(text@, 0) == lo,
            crate::parse::trim_hi(text@, lo as int, n as int) == crate::parse::trim_hi(text@, lo as int, hi as int),
        decreases hi - lo,
    {
        hi -= 1;
    }
    crate::lines::string_of(&cs, lo, hi)
}

/// Every character of a decimal form is a digit, none is `+`.
pub proof fn lemma_decimal_digits(n: nat)
    ensures
        decimal(n).len() > 0,
        all_digits(decimal(n)),
        digits_value(decimal(n)) == n,
    decreases n,
{
    assert(digit_value(digit_char(n % 10)) == n % 10);
    if n < 10 {
        assert(decimal(n).drop_last() =~= Seq::<char>::empty());
        assert(digits_value(Seq::<char>::empty()) == 0);
        assert(decimal(n).last() == digit_char(n));
        assert(digits_value(decimal(n)) == n);
    }
    if n >= 10 {
        lemma_decimal_digits(n / 10);
        let d = decimal(n);
        assert(d.drop_last() == decimal(n / 10));
        assert((n / 10) * 10 + n % 10 == n) by (nonlinear_arith);
        assert(d.last() == digit_char(n % 10));
        assert(digits_value(d) == digits_value(decimal(n / 10)) * 10 + digit_value(d.last()));
        assert forall|k: int| 0 <= k < d.len() implies is_digit(#[trigger] d[k]) by {
            if k < d.len() - 1 {
                assert(d[k] == decimal(n / 10)[k]);
            }
        }
    }
}

/// Decimal text parses back to the number it was written from.
pub proof fn lemma_decimal_parses_back(n: u64)
    ensures
        parse_u64_spec(decimal(n as nat)) == Some(n),
{
    lemma_decimal_digits(n as nat);
    let d = decimal(n as nat);
    assert(is_digit(d[0]));
    assert(unsigned_digits(d) == d);
}

/// No sequence sorts before itself.
pub proof fn lemma_lex_irreflexive(a: Seq<char>)
    ensures
        !lex_lt(a, a),
    decreases a.len(),
{
    if a.len() > 0 {
        lemma_lex_irreflexive(a.drop_first());
    }
}

/// The order is transitive.
pub proof fn lemma_lex_transitive(a: Seq<char>, b: Seq<char>, c: Seq<char>)
    requires
        lex_lt(a, b),
        lex_lt(b, c),
    ensures
        lex_lt(a, c),
    decreases a.len(),
{
    if a.len() > 0 && b.len() > 0 && c.len() > 0 && a[0] == b[0] && b[0] == c[0] {
        lemma_lex_transitive(a.drop_first(), b.drop_first(), c.drop_first());
    }
}

/// Any two sequences are ordered one way or the other, or equal.
pub proof fn lemma_lex_total(a: Seq<char>, b: Seq<char>)
    ensures
        lex_lt(a, b) || lex_lt(b, a) || a == b,
    decreases a.len(),
{
    if a.len() > 0 && b.len() > 0 {
        if a[0] == b[0] {
            lemma_lex_total(a.drop_first(), b.drop_first());
            if a.drop_first() == b.drop_first() {
                assert(a =~= seq![a[0]] + a.drop_first());
                assert(b =~= seq![b[0]] + b.drop_first());
            }
        } else {
            vstd::utf8::char_u32_cast(a[0], a[0] as u32);
            vstd::utf8::char_u32_cast(b[0], b[0] as u32);
            assert((a[0] as u32) != (b[0] as u32));
        }
    } else if a.len() == 0 && b.len() == 0 {
        assert(a =~= b);
    }
}

/// `Path::join` on unix: an absolute `name` replaces `base`; otherwise
/// `name` follows `base`, with a `/` between them unless `base` is empty or
/// already ends in one.
pub open spec fn path_join(base: Seq<char>, name: Seq<char>) -> Seq<char> {
    if name.len() > 0 && name[0] == '/' {
        name
    } else if base.len() == 0 || base.last() == '/' {
        base + name
    } else {
        base + "/"@ + name
    }
}

/// Joins two unix paths as `Path::join` does.
pub fn join_path(base: &str, name: &str) -> (s: String)
    ensures
        s@ == path_join(base@, name@),
{
    let nc = chars_of(name);
    if nc.len() > 0 && nc[0] == '/' {
        return String::from_str(name);
    }
    let bc = chars_of(base);
    let mut s = String::from_str(base);
    if !(bc.len() == 0 || bc[bc.len() - 1] == '/') {
        s.append("/");
    }
    s.append(name);
    s
}

/// Where `c` first occurs in a concatenation: in `x` if it occurs there,
/// else past `x` in `z`.
pub proof fn lemma_first_index_of_append(x: Seq<char>, z: Seq<char>, c: char)
    ensures
        first_index_of(x, c) < x.len() ==> first_index_of(x + z, c) == first_index_of(x, c),
        first_index_of(x, c) >= x.len() ==> first_index_of(x + z, c) == x.len() + first_index_of(z, c),
    decreases x.len(),
{
    if x.len() > 0 {
        assert((x + z)[0] == x[0]);
        if x[0] != c {
            assert((x + z).drop_first() =~= x.drop_first() + z);
            lemma_first_index_of_append(x.drop_first(), z, c);
        }
    } else {
        assert(x + z =~= z);
    }
}

/// A piece without `c` splits into itself alone.
pub proof fn lemma_split_on_plain(s: Seq<char>, c: char)
    requires
        !s.contains(c),
    ensures
        split_on(s, c) == seq![s],
{
    lemma_first_index_of(s, c);
    if first_index_of(s, c) < s.len() {
        assert(s[first_index_of(s, c)] == c);
    }
}

/// Splitting around one separator splits each side: the pieces of
/// `x + [c] + y` are the pieces of `x` followed by the pieces of `y`.
pub proof fn lemma_split_on_concat(x: Seq<char>, y: Seq<char>, c: char)
    ensures
        split_on(x + seq![c] + y, c) == split_on(x, c) + split_on(y, c),
    decreases x.len(),
{
    let w = x + seq![c] + y;
    lemma_first_index_of(x, c);
    lemma_first_index_of_append(x, seq![c] + y, c);
    assert(w =~= x + (seq![c] + y));
    let p = first_index_of(x, c);
    if p >= x.len() {
        assert(first_index_of(seq![c] + y, c) == 0);
        assert(first_index_of(w, c) == x.len());
        assert(w.subrange(0, x.len() as int) =~= x);
        assert(w.subrange(x.len() as int + 1, w.len() as int) =~= y);
        assert(split_on(x, c) == seq![x]);
        assert(split_on(w, c) == seq![x] + split_on(y, c));
    } else {
        assert(first_index_of(w, c) == p);
        let rest = x.subrange(p + 1, x.len() as int);
        assert(w.subrange(0, p) =~= x.subrange(0, p));
        assert(w.subrange(p + 1, w.len() as int) =~= rest + seq![c] + y);
        lemma_split_on_concat(rest, y, c);
        assert(split_on(x, c) == seq![x.subrange(0, p)] + split_on(rest, c));
        assert(split_on(w, c) == seq![x.subrange(0, p)] + split_on(rest + seq![c] + y, c));
        assert(split_on(w, c) =~= split_on(x, c) + split_on(y, c));
    }
}

/// `text` occurs in `s` at some position.
pub open spec fn contains_text(s: Seq<char>, text: Seq<char>) -> bool {
    exists|i: int| 0 <= i && i + text.len() <= s.len() && #[trigger] s.subrange(i, i + text.len()) == text
}

/// Whether `text` occurs in `s` (`str::contains` with a `&str`).
pub fn contains_str(s: &str, text: &str) -> (b: bool)
    ensures
        b == contains_text(s@, text@),
{
    let u = chars_of(s);
    let r = chars_of(text);
    if r.len() > u.len() {
        proof {
            assert forall|i: int| !(0 <= i && i + text@.len() <= s@.len() && #[trigger] s@.subrange(i, i + text@.len()) == text@) by {}
        }
        return false;
    }
    if r.len() == 0 {
        assert(s@.subrange(0int, 0int + text@.len()) =~= text@);
        return true;
    }
    let last = u.len() - r.len();
    let mut i: usize = 0;
    while i <= last
        invariant
            u@ == s@,
            r@ == text@,
            last + r@.len() == u@.len(),
            u@.len() <= usize::MAX,
            r@.len() > 0,
            i <= last + 1,
            forall|j: int| 0 <= j < i ==> #[trigger] s@.subrange(j, j + text@.len()) != text@,
        decreases last + 1 - i,
    {
        let mut k: usize = 0;
        let mut same = true;
        while k < r.len()
            invariant
                u@ == s@,
                r@ == text@,
                last + r@.len() == u@.len(),
                u@.len() <= usize::MAX,
                r@.len() > 0,
                i <= last,
                k <= r@.len(),
                same == forall|q: int| 0 <= q < k ==> u@[i + q] == r@[q],
            decreases r.len() - k,
        {
            if u[i + k] != r[k] {
                same = false;
            }
            k += 1;
        }
        if same {
            assert(s@.subrange(i as int, i + text@.len()) =~= text@);
            return true;
        }
        proof {
            let q = choose|q: int| 0 <= q < r@.len() && u@[i + q] != r@[q];
            assert(s@.subrange(i as int, i + text@.len())[q] != text@[q]);
        }
        i += 1;
    }
    false
}

/// `pat` occurs in `s` starting at `i`.
pub open spec fn occurs_at(s: Seq<char>, pat: Seq<char>, i: int) -> bool {
    0 <= i && i + pat.len() <= s.len() && s.subrange(i, i + pat.len()) == pat
}

/// Where `pat` first occurs in `s` at or after `from` (as `str::find` on
/// `&s[from..]` finds it), or `None`.
#[verifier::opaque]
pub open spec fn first_occurrence(s: Seq<char>, pat: Seq<char>, from: int) -> Option<int> {
    if exists|i: int| from <= i && #[trigger] occurs_at(s, pat, i) {
        Some(choose|i: int| from <= i && #[trigger] occurs_at(s, pat, i)
            && forall|j: int| from <= j < i ==> !#[trigger] occurs_at(s, pat, j))
    } else {
        None
    }
}

/// Whether `pat` occurs in `cs` at `i`.
fn occurs_at_exec(cs: &Vec<char>, pat: &Vec<char>, i: usize) -> (b: bool)
    ensures
        b == occurs_at(cs@, pat@, i as int),
{
    if i > cs.len() || pat.len() > cs.len() - i {
        return false;
    }
    let mut k: usize = 0;
    while k < pat.len()
        invariant
            i + pat@.len() <= cs@.len(),
            cs@.len() <= usize::MAX,
            k <= pat@.len(),
            forall|j: int| 0 <= j < k ==> cs@[i + j] == pat@[j],
        decreases pat.len() - k,
    {
        if cs[i + k] != pat[k] {
            assert(cs@.subrange(i as int, i + pat@.len())[k as int] != pat@[k as int]);
            return false;
        }
        k += 1;
    }
    assert(cs@.subrange(i as int, i + pat@.len()) =~= pat@);
    true
}

/// [`first_occurrence`] of `pat` in `cs` at or after `from`.
pub fn find_from(cs: &Vec<char>, pat: &Vec<char>, from: usize) -> (r: Option<usize>)
    ensures
        match r {
            Some(i) => first_occurrence(cs@, pat@, from as int) == Some(i as int)
                && from <= i && i + pat@.len() <= cs@.len(),
            None => first_occurrence(cs@, pat@, from as int) is None,
        },
{
    reveal(first_occurrence);
    let mut i = from;
    while i < cs.len()
        invariant
            from <= i,
            forall|j: int| from <= j < i ==> !#[trigger] occurs_at(cs@, pat@, j),
        decreases cs.len() - i,
    {
        if occurs_at_exec(cs, pat, i) {
            proof {
                reveal(first_occurrence);
                let k = choose|k: int| from <= k && #[trigger] occurs_at(cs@, pat@, k)
                    && forall|j: int| from <= j < k ==> !#[trigger] occurs_at(cs@, pat@, j);
                assert(k == i as int) by {
                    if k < i as int {
                        assert(!occurs_at(cs@, pat@, k));
                    } else if k > i as int {
                        assert(!occurs_at(cs@, pat@, i as int));
                    }
                }
            }
            return Some(i);
        }
        i += 1;
    }
    if i == cs.len() && occurs_at_exec(cs, pat, i) {
        proof {
            let k = choose|k: int| from <= k && #[trigger] occurs_at(cs@, pat@, k)
                && forall|j: int| from <= j < k ==> !#[trigger] occurs_at(cs@, pat@, j);
            assert(k == i as int) by {
                if k < i as int {
                    assert(!occurs_at(cs@, pat@, k));
                } else if k > i as int {
                    assert(!occurs_at(cs@, pat@, i as int));
                }
            }
        }
        return Some(i);
    }
    assert forall|j: int| from <= j implies !#[trigger] occurs_at(cs@, pat@, j) by {
        if j > cs@.len() {
            assert(j + pat@.len() > cs@.len());
        } else if j >= i {
            assert(j == i || j + pat@.len() > cs@.len() || j < i);
        }
    }
    None
}

} // verus!
