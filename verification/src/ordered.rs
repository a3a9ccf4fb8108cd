//! Ordered sets and their comma-joined text form: ids (`u64`) listed in
//! `BTreeSet` order, and strings kept as strictly increasing vectors (in
//! `str` order).

use vstd::prelude::*;
use std::collections::BTreeSet;
use vstd::std_specs::iter::IteratorSpec;
use vstd::std_specs::cmp::OrdSpec;
use crate::conflict::views;
use crate::text::{decimal, lex_lt, lemma_lex_irreflexive, lemma_lex_transitive, lemma_lex_total,
    str_lt, u64_decimal, split_on, lemma_split_on_concat, lemma_split_on_plain, lemma_decimal_digits, is_digit};

verus! {

/// Strictly increasing.
pub open spec fn sorted_u64(s: Seq<u64>) -> bool {
    forall|i: int, j: int| 0 <= i < j < s.len() ==> s[i] < s[j]
}

/// Strictly increasing in `str` order.
pub open spec fn sorted_strs(s: Seq<Seq<char>>) -> bool {
    forall|i: int, j: int| 0 <= i < j < s.len() ==> lex_lt(s[i], s[j])
}

/// The elements of a finite set of ids in increasing order.
pub open spec fn ordered_u64(set: Set<u64>) -> Seq<u64> {
    choose|s: Seq<u64>| sorted_u64(s) && s.to_set() == set
}

/// The elements of a finite set of strings in increasing order.
pub open spec fn ordered_strs(set: Set<Seq<char>>) -> Seq<Seq<char>> {
    choose|s: Seq<Seq<char>>| sorted_strs(s) && s.to_set() == set
}

/// Ids in decimal, separated by `,`.
pub open spec fn join_decimal(s: Seq<u64>) -> Seq<char>
    decreases s.len(),
{
    if s.len() == 0 {
        Seq::empty()
    } else if s.len() == 1 {
        decimal(s[0] as nat)
    } else {
        join_decimal(s.drop_last()) + ","@ + decimal(s.last() as nat)
    }
}

/// Strings separated by `,`.
pub open spec fn join_strs(s: Seq<Seq<char>>) -> Seq<char>
    decreases s.len(),
{
    if s.len() == 0 {
        Seq::empty()
    } else if s.len() == 1 {
        s[0]
    } else {
        join_strs(s.drop_last()) + ","@ + s.last()
    }
}

/// Two strictly increasing id sequences with the same elements are equal.
pub proof fn lemma_sorted_u64_unique(a: Seq<u64>, b: Seq<u64>)
    requires
        sorted_u64(a),
        sorted_u64(b),
        a.to_set() == b.to_set(),
    ensures
        a == b,
    decreases a.len(),
{
    if a.len() == 0 {
        if b.len() > 0 {
            assert(b.to_set().contains(b[0]));
        }
        assert(a =~= b);
    } else if b.len() == 0 {
        assert(a.to_set().contains(a[0]));
    } else {
        assert(a.to_set().contains(b[0]));
        assert(b.to_set().contains(a[0]));
        let i = choose|i: int| 0 <= i < a.len() && a[i] == b[0];
        let j = choose|j: int| 0 <= j < b.len() && b[j] == a[0];
        assert(a[0] <= a[i]);
        assert(b[0] <= b[j]);
        assert(a[0] == b[0]);
        let ta = a.drop_first();
        let tb = b.drop_first();
        assert forall|x: u64| ta.to_set().contains(x) implies tb.to_set().contains(x) by {
            let p = choose|p: int| 0 <= p < ta.len() && ta[p] == x;
            assert(a[p + 1] == x);
            assert(a.to_set().contains(x));
            let q = choose|q: int| 0 <= q < b.len() && b[q] == x;
            assert(q != 0);
            assert(tb[q - 1] == x);
        }
        assert forall|x: u64| tb.to_set().contains(x) implies ta.to_set().contains(x) by {
            let p = choose|p: int| 0 <= p < tb.len() && tb[p] == x;
            assert(b[p + 1] == x);
            assert(b.to_set().contains(x));
            let q = choose|q: int| 0 <= q < a.len() && a[q] == x;
            assert(q != 0);
            assert(ta[q - 1] == x);
        }
        assert(ta.to_set() =~= tb.to_set());
        lemma_sorted_u64_unique(ta, tb);
        assert(a =~= seq![a[0]] + ta);
        assert(b =~= seq![b[0]] + tb);
    }
}

/// Two strictly increasing string sequences with the same elements are equal.
pub proof fn lemma_sorted_strs_unique(a: Seq<Seq<char>>, b: Seq<Seq<char>>)
    requires
        sorted_strs(a),
        sorted_strs(b),
        a.to_set() == b.to_set(),
    ensures
        a == b,
    decreases a.len(),
{
    if a.len() == 0 {
        if b.len() > 0 {
            assert(b.to_set().contains(b[0]));
        }
        assert(a =~= b);
    } else if b.len() == 0 {
        assert(a.to_set().contains(a[0]));
    } else {
        assert(a.to_set().contains(b[0]));
        assert(b.to_set().contains(a[0]));
        let i = choose|i: int| 0 <= i < a.len() && a[i] == b[0];
        let j = choose|j: int| 0 <= j < b.len() && b[j] == a[0];
        if a[0] != b[0] {
            assert(i != 0 && j != 0);
            assert(lex_lt(a[0], a[i]));
            assert(lex_lt(b[0], b[j]));
            lemma_lex_transitive(a[0], b[0], a[0]);
            lemma_lex_irreflexive(a[0]);
        }
        let ta = a.drop_first();
        let tb = b.drop_first();
        assert forall|x: Seq<char>| ta.to_set().contains(x) implies tb.to_set().contains(x) by {
            let p = choose|p: int| 0 <= p < ta.len() && ta[p] == x;
            assert(a[p + 1] == x);
            assert(a.to_set().contains(x));
            let q = choose|q: int| 0 <= q < b.len() && b[q] == x;
            if q == 0 {
                assert(lex_lt(a[0], a[p + 1]));
                lemma_lex_irreflexive(a[0]);
            }
            assert(tb[q - 1] == x);
        }
        assert forall|x: Seq<char>| tb.to_set().contains(x) implies ta.to_set().contains(x) by {
            let p = choose|p: int| 0 <= p < tb.len() && tb[p] == x;
            assert(b[p + 1] == x);
            assert(b.to_set().contains(x));
            let q = choose|q: int| 0 <= q < a.len() && a[q] == x;
            if q == 0 {
                assert(lex_lt(b[0], b[p + 1]));
                lemma_lex_irreflexive(b[0]);
            }
            assert(ta[q - 1] == x);
        }
        assert(ta.to_set() =~= tb.to_set());
        lemma_sorted_strs_unique(ta, tb);
        assert(a =~= seq![a[0]] + ta);
        assert(b =~= seq![b[0]] + tb);
    }
}

/// A strictly increasing sequence is the ordering of its own elements.
pub proof fn lemma_ordered_u64_of(s: Seq<u64>)
    requires
        sorted_u64(s),
    ensures
        ordered_u64(s.to_set()) == s,
{
    let o = ordered_u64(s.to_set());
    assert(sorted_u64(o) && o.to_set() == s.to_set());
    lemma_sorted_u64_unique(o, s);
}

/// A strictly increasing string sequence is the ordering of its elements.
pub proof fn lemma_ordered_strs_of(s: Seq<Seq<char>>)
    requires
        sorted_strs(s),
    ensures
        ordered_strs(s.to_set()) == s,
{
    let o = ordered_strs(s.to_set());
    assert(sorted_strs(o) && o.to_set() == s.to_set());
    lemma_sorted_strs_unique(o, s);
}

/// Adds `x` to a strictly increasing vector of strings, keeping it strictly
/// increasing in `str` order.
pub fn insert_sorted_str(v: &mut Vec<String>, x: &str)
    requires
        sorted_strs(views(old(v)@)),
    ensures
        sorted_strs(views(final(v)@)),
        views(final(v)@).to_set() == views(old(v)@).to_set().insert(x@),
{
    let mut i: usize = 0;
    while i < v.len() && str_lt(v[i].as_str(), x)
        invariant
            i <= v@.len(),
            forall|j: int| 0 <= j < i ==> lex_lt(#[trigger] v@[j]@, x@),
        decreases v.len() - i,
    {
        i += 1;
    }
    let ghost before = views(v@);
    if i < v.len() && !str_lt(x, v[i].as_str()) {
        proof {
            lemma_lex_total(v@[i as int]@, x@);
            assert(before[i as int] == x@);
            assert(before.to_set().contains(x@));
            assert(before.to_set().insert(x@) =~= before.to_set());
        }
        return;
    }
    proof {
        if i < v@.len() {
            assert(lex_lt(x@, before[i as int]));
        }
    }
    v.insert(i, x.to_owned());
    let ghost after = views(v@);
    assert(after =~= before.subrange(0, i as int).push(x@) + before.subrange(i as int, before.len() as int));
    assert forall|a: int, b: int| 0 <= a < b < after.len() implies lex_lt(after[a], after[b]) by {
        if a < i && b == i {
            assert(lex_lt(before[a], x@));
        } else if a < i && b > i {
            assert(lex_lt(before[a], before[b - 1]));
        } else if a == i && b > i {
            if b - 1 > i {
                assert(lex_lt(before[i as int], before[b - 1]));
                lemma_lex_transitive(x@, before[i as int], before[b - 1]);
            }
        } else if a > i {
            assert(lex_lt(before[a - 1], before[b - 1]));
        }
    }
    assert forall|y: Seq<char>| after.to_set().contains(y) <==> before.to_set().insert(x@).contains(y) by {
        if after.to_set().contains(y) {
            let p = choose|p: int| 0 <= p < after.len() && after[p] == y;
            if p < i {
                assert(before[p] == y);
            } else if p > i {
                assert(before[p - 1] == y);
            }
        }
        if before.to_set().contains(y) {
            let p = choose|p: int| 0 <= p < before.len() && before[p] == y;
            if p < i {
                assert(after[p] == y);
            } else {
                assert(after[p + 1] == y);
            }
        }
        if y == x@ {
            assert(after[i as int] == x@);
        }
    }
    assert(after.to_set() =~= before.to_set().insert(x@));
}

/// Ids in decimal, separated by `,`.
pub fn join_ids(v: &Vec<u64>) -> (s: String)
    ensures
        s@ == join_decimal(v@),
{
    let mut s = String::new();
    let mut k: usize = 0;
    while k < v.len()
        invariant
            k <= v@.len(),
            s@ == join_decimal(v@.subrange(0, k as int)),
        decreases v.len() - k,
    {
        assert(v@.subrange(0, k + 1).drop_last() =~= v@.subrange(0, k as int));
        if k > 0 {
            s.append(",");
        }
        let d = u64_decimal(v[k]);
        s.append(d.as_str());
        k += 1;
    }
    assert(v@.subrange(0, v@.len() as int) =~= v@);
    s
}

/// Strings separated by `,`.
pub fn join_texts(v: &Vec<String>) -> (s: String)
    ensures
        s@ == join_strs(views(v@)),
{
    let mut s = String::new();
    let mut k: usize = 0;
    while k < v.len()
        invariant
            k <= v@.len(),
            s@ == join_strs(views(v@).subrange(0, k as int)),
        decreases v.len() - k,
    {
        assert(views(v@).subrange(0, k + 1).drop_last() =~= views(v@).subrange(0, k as int));
        if k > 0 {
            s.append(",");
        }
        s.append(v[k].as_str());
        k += 1;
    }
    assert(views(v@).subrange(0, v@.len() as int) =~= views(v@));
    s
}

/// Splitting joined ids at `,` gives back each id's decimal form (and one
/// empty piece for no ids).
pub proof fn lemma_split_join_decimal(s: Seq<u64>)
    ensures
        s.len() == 0 ==> split_on(join_decimal(s), ',') == seq![Seq::<char>::empty()],
        s.len() > 0 ==> split_on(join_decimal(s), ',') == s.map_values(|n: u64| decimal(n as nat)),
    decreases s.len(),
{
    reveal_strlit(",");
    if s.len() == 0 {
        lemma_split_on_plain(Seq::<char>::empty(), ',');
    } else {
        let d = decimal(s.last() as nat);
        lemma_decimal_digits(s.last() as nat);
        if d.contains(',') {
            let k = choose|k: int| 0 <= k < d.len() && d[k] == ',';
            assert(is_digit(d[k]));
        }
        lemma_split_on_plain(d, ',');
        if s.len() == 1 {
            assert(s.map_values(|n: u64| decimal(n as nat)) =~= seq![d]);
        } else {
            lemma_split_join_decimal(s.drop_last());
            assert(join_decimal(s) == join_decimal(s.drop_last()) + seq![','] + d);
            lemma_split_on_concat(join_decimal(s.drop_last()), d, ',');
            assert(s.map_values(|n: u64| decimal(n as nat))
                =~= s.drop_last().map_values(|n: u64| decimal(n as nat)) + seq![d]);
        }
    }
}

/// Splitting joined strings that hold no `,` at `,` gives them back (and
/// one empty piece for none).
pub proof fn lemma_split_join_strs(s: Seq<Seq<char>>)
    requires
        forall|i: int| 0 <= i < s.len() ==> !(#[trigger] s[i]).contains(','),
    ensures
        s.len() == 0 ==> split_on(join_strs(s), ',') == seq![Seq::<char>::empty()],
        s.len() > 0 ==> split_on(join_strs(s), ',') == s,
    decreases s.len(),
{
    reveal_strlit(",");
    if s.len() == 0 {
        lemma_split_on_plain(Seq::<char>::empty(), ',');
    } else {
        assert(!s[s.len() - 1].contains(','));
        lemma_split_on_plain(s.last(), ',');
        if s.len() == 1 {
            assert(seq![s[0]] =~= s);
        } else {
            assert forall|i: int| 0 <= i < s.drop_last().len() implies !(#[trigger] s.drop_last()[i]).contains(',') by {
                assert(s.drop_last()[i] == s[i]);
            }
            lemma_split_join_strs(s.drop_last());
            assert(join_strs(s) == join_strs(s.drop_last()) + seq![','] + s.last());
            lemma_split_on_concat(join_strs(s.drop_last()), s.last(), ',');
            assert(s =~= s.drop_last() + seq![s.last()]);
        }
    }
}

/// Joined ids hold only digits and commas.
pub proof fn lemma_join_decimal_chars(s: Seq<u64>)
    ensures
        forall|k: int| 0 <= k < join_decimal(s).len() ==> #[trigger] join_decimal(s)[k] == ',' || is_digit(join_decimal(s)[k]),
    decreases s.len(),
{
    reveal_strlit(",");
    if s.len() > 0 {
        lemma_decimal_digits(s.last() as nat);
        if s.len() > 1 {
            lemma_join_decimal_chars(s.drop_last());
            let a = join_decimal(s.drop_last());
            let d = decimal(s.last() as nat);
            assert(join_decimal(s) == a + seq![','] + d);
            assert forall|k: int| 0 <= k < join_decimal(s).len() implies #[trigger] join_decimal(s)[k] == ','
                || is_digit(join_decimal(s)[k]) by {
                if k < a.len() {
                    assert(join_decimal(s)[k] == a[k]);
                } else if k > a.len() {
                    assert(join_decimal(s)[k] == d[k - a.len() - 1]);
                }
            }
        }
    }
}

/// Joined strings hold a character other than `,` only where one of them
/// does.
pub proof fn lemma_join_strs_avoids(s: Seq<Seq<char>>, c: char)
    requires
        c != ',',
        forall|i: int| 0 <= i < s.len() ==> !(#[trigger] s[i]).contains(c),
    ensures
        !join_strs(s).contains(c),
    decreases s.len(),
{
    reveal_strlit(",");
    if s.len() > 0 {
        assert(!s[s.len() - 1].contains(c));
        if s.len() > 1 {
            assert forall|i: int| 0 <= i < s.drop_last().len() implies !(#[trigger] s.drop_last()[i]).contains(c) by {
                assert(s.drop_last()[i] == s[i]);
            }
            lemma_join_strs_avoids(s.drop_last(), c);
            let a = join_strs(s.drop_last());
            let j = join_strs(s);
            assert(j == a + seq![','] + s.last());
            if j.contains(c) {
                let k = choose|k: int| 0 <= k < j.len() && j[k] == c;
                if k < a.len() {
                    assert(a[k] == c);
                } else if k > a.len() {
                    assert(s.last()[k - a.len() - 1] == c);
                }
            }
        } else {
            assert(join_strs(s) == s[0]);
        }
    }
}

/// Every finite set of ids can be listed in increasing order, so
/// [`ordered_u64`] of it is such a listing.
pub proof fn lemma_ordered_u64_exists(set: Set<u64>)
    requires
        set.finite(),
    ensures
        sorted_u64(ordered_u64(set)),
        ordered_u64(set).to_set() == set,
{
    let q = sorted_listing_u64(set);
    assert(sorted_u64(q) && q.to_set() == set);
}

proof fn sorted_listing_u64(set: Set<u64>) -> (q: Seq<u64>)
    requires
        set.finite(),
    ensures
        sorted_u64(q),
        q.to_set() == set,
    decreases set.len(),
{
    if set.len() == 0 {
        assert(set =~= Set::<u64>::empty());
        assert(Seq::<u64>::empty().to_set() =~= set);
        Seq::empty()
    } else {
        let r = |a: u64, b: u64| a <= b;
        assert(vstd::relations::total_ordering(r));
        set.find_unique_maximal_ensures(r);
        let m = set.find_unique_maximal(r);
        let rest = set.remove(m);
        let q0 = sorted_listing_u64(rest);
        let q = q0.push(m);
        assert forall|x: u64| rest.contains(x) implies x < m by {
            assert(r(m, x) ==> r(x, m));
            assert(x != m);
        }
        assert forall|i: int, j: int| 0 <= i < j < q.len() implies q[i] < q[j] by {
            if j == q.len() - 1 {
                assert(q0.to_set().contains(q0[i]));
            } else {
                assert(q[i] == q0[i] && q[j] == q0[j]);
            }
        }
        assert forall|x: u64| #[trigger] q.to_set().contains(x) <==> set.contains(x) by {
            if set.contains(x) && x != m {
                assert(q0.to_set().contains(x));
                let k = choose|k: int| 0 <= k < q0.len() && q0[k] == x;
                assert(q[k] == x);
            }
            if x == m {
                assert(q[q.len() - 1] == x);
            }
            if q.contains(x) {
                let k = choose|k: int| 0 <= k < q.len() && q[k] == x;
                if k < q0.len() {
                    assert(q0[k] == x);
                    assert(q0.to_set().contains(x));
                }
            }
        }
        assert(q.to_set() =~= set);
        q
    }
}

/// Every finite set of strings can be listed in increasing `str` order,
/// so [`ordered_strs`] of it is such a listing.
pub proof fn lemma_ordered_strs_exists(set: Set<Seq<char>>)
    requires
        set.finite(),
    ensures
        sorted_strs(ordered_strs(set)),
        ordered_strs(set).to_set() == set,
{
    let q = sorted_listing_strs(set);
    assert(sorted_strs(q) && q.to_set() == set);
}

proof fn sorted_listing_strs(set: Set<Seq<char>>) -> (q: Seq<Seq<char>>)
    requires
        set.finite(),
    ensures
        sorted_strs(q),
        q.to_set() == set,
    decreases set.len(),
{
    if set.len() == 0 {
        assert(set =~= Set::<Seq<char>>::empty());
        assert(Seq::<Seq<char>>::empty().to_set() =~= set);
        Seq::empty()
    } else {
        let r = |a: Seq<char>, b: Seq<char>| a == b || lex_lt(a, b);
        assert forall|x: Seq<char>, y: Seq<char>| #[trigger] r(x, y) && #[trigger] r(y, x) implies x == y by {
            if x != y {
                lemma_lex_transitive(x, y, x);
                lemma_lex_irreflexive(x);
            }
        }
        assert forall|x: Seq<char>, y: Seq<char>, z: Seq<char>| #[trigger] r(x, y) && #[trigger] r(y, z) implies r(x, z) by {
            if x != y && y != z {
                lemma_lex_transitive(x, y, z);
            }
        }
        assert forall|x: Seq<char>, y: Seq<char>| #[trigger] r(x, y) || #[trigger] r(y, x) by {
            lemma_lex_total(x, y);
        }
        assert(vstd::relations::total_ordering(r));
        set.find_unique_maximal_ensures(r);
        let m = set.find_unique_maximal(r);
        let rest = set.remove(m);
        let q0 = sorted_listing_strs(rest);
        let q = q0.push(m);
        assert forall|x: Seq<char>| rest.contains(x) implies lex_lt(x, m) by {
            lemma_lex_total(x, m);
            assert(r(m, x) ==> r(x, m));
            if lex_lt(m, x) {
                lemma_lex_transitive(m, x, m);
                lemma_lex_irreflexive(m);
            }
        }
        assert forall|i: int, j: int| 0 <= i < j < q.len() implies lex_lt(q[i], q[j]) by {
            if j == q.len() - 1 {
                assert(q0.to_set().contains(q0[i]));
            } else {
                assert(q[i] == q0[i] && q[j] == q0[j]);
            }
        }
        assert forall|x: Seq<char>| #[trigger] q.to_set().contains(x) <==> set.contains(x) by {
            if set.contains(x) && x != m {
                assert(q0.to_set().contains(x));
                let k = choose|k: int| 0 <= k < q0.len() && q0[k] == x;
                assert(q[k] == x);
            }
            if x == m {
                assert(q[q.len() - 1] == x);
            }
            if q.contains(x) {
                let k = choose|k: int| 0 <= k < q.len() && q[k] == x;
                if k < q0.len() {
                    assert(q0[k] == x);
                    assert(q0.to_set().contains(x));
                }
            }
        }
        assert(q.to_set() =~= set);
        q
    }
}

/// `u64`'s order, and that of references to it, obeys the laws that
/// vstd's `BTreeSet` specifications rest on.
pub proof fn lemma_u64_ordered()
    ensures
        vstd::laws_cmp::obeys_cmp::<u64>(),
        vstd::laws_cmp::obeys_cmp::<&u64>(),
{
    broadcast use vstd::laws_cmp::group_laws_cmp;
}

/// A sequence of ids in `BTreeSet` order is strictly increasing.
pub proof fn lemma_btree_order_ids(s: Seq<&u64>)
    requires
        vstd::std_specs::btree::increasing_seq(s),
    ensures
        sorted_u64(s.unref()),
{
    broadcast use vstd::std_specs::btree::group_btree_axioms;
    lemma_u64_ordered();
    assert forall|i: int, j: int| 0 <= i < j < s.unref().len() implies s.unref()[i] < s.unref()[j] by {
        assert(OrdSpec::cmp_spec(&s[i], &s[j]) is Less);
    }
}

/// The ids of `set`, in increasing order.
pub fn ids_in_order(set: &BTreeSet<u64>) -> (v: Vec<u64>)
    ensures
        sorted_u64(v@),
        v@.to_set() == set@,
{
    broadcast use vstd::std_specs::btree::group_btree_axioms;
    proof {
        lemma_u64_ordered();
    }
    let ghost all = set.iter().remaining();
    proof {
        lemma_btree_order_ids(all);
    }
    let mut v: Vec<u64> = Vec::new();
    for x in it: set.iter()
        invariant
            it.seq() == all,
            all.unref().to_set() == set@,
            sorted_u64(all.unref()),
            v@ == all.unref().subrange(0, it.index() as int),
    {
        v.push(*x);
        assert(v@ =~= all.unref().subrange(0, it.index() + 1));
    }
    assert(v@ =~= all.unref());
    v
}

} // verus!
