//! Most-urgent-first ordering of scored items: by score, highest first, and
//! (for lists) by `updated_at`, newest first; and pull requests most recently
//! updated first. Ties keep their input order.

use vstd::prelude::*;
use crate::severity::ScoredItem;
use crate::pr::PullRequestSummary;
use crate::text::{lex_lt, lemma_lex_irreflexive, lemma_lex_total, lemma_lex_transitive, str_lt};

verus! {

/// `a` ranks strictly before `b`: a higher score, or (when `by_recency`) an
/// equal score and a newer `updated_at`.
pub open spec fn ranks_before(a: ScoredItem, b: ScoredItem, by_recency: bool) -> bool {
    a.score > b.score || (by_recency && a.score == b.score && lex_lt(
        b.item.updated_at@,
        a.item.updated_at@,
    ))
}

/// `a` and `b` tie: neither ranks before the other.
pub open spec fn ties(a: ScoredItem, b: ScoredItem, by_recency: bool) -> bool {
    a.score == b.score && (by_recency ==> a.item.updated_at@ == b.item.updated_at@)
}

/// `out` is `input` reordered most-urgent first, with tied items in their
/// input order: `idx` says where each output item came from.
pub open spec fn stably_sorted_by(
    input: Seq<ScoredItem>,
    out: Seq<ScoredItem>,
    idx: Seq<int>,
    by_recency: bool,
) -> bool {
    &&& idx.len() == out.len() == input.len()
    &&& forall|k: int| 0 <= k < idx.len() ==> 0 <= #[trigger] idx[k] < input.len()
    &&& forall|p: int, q: int| 0 <= p < q < idx.len() ==> idx[p] != idx[q]
    &&& forall|k: int| 0 <= k < out.len() ==> #[trigger] out[k] == input[idx[k]]
    &&& forall|p: int, q: int|
        0 <= p < q < out.len() ==> ranks_before(out[p], out[q], by_recency) || (ties(
            out[p],
            out[q],
            by_recency,
        ) && idx[p] < idx[q])
}

/// An index map of `n` distinct positions into `0..n` hits every position.
pub proof fn lemma_idx_onto(idx: Seq<int>, n: int)
    requires
        idx.len() == n,
        forall|k: int| 0 <= k < idx.len() ==> 0 <= #[trigger] idx[k] < n,
        forall|p: int, q: int| 0 <= p < q < idx.len() ==> idx[p] != idx[q],
    ensures
        forall|k: int| 0 <= k < n ==> #[trigger] idx.contains(k),
{
    assert(idx.no_duplicates()) by {
        assert forall|i: int, j: int| 0 <= i < idx.len() && 0 <= j < idx.len() && i != j
            implies idx[i] != idx[j] by {
            if i > j {
                assert(idx[j] != idx[i]);
            }
        }
    }
    idx.unique_seq_to_set();
    vstd::set_lib::lemma_int_range(0, n);
    let range = vstd::set_lib::set_int_range(0, n);
    assert(idx.to_set().subset_of(range));
    vstd::set_lib::lemma_len_subset(idx.to_set(), range);
    vstd::set_lib::lemma_subset_equality(idx.to_set(), range);
    assert forall|k: int| 0 <= k < n implies #[trigger] idx.contains(k) by {
        assert(range.contains(k));
        assert(idx.to_set().contains(k));
    }
}

/// Two items either rank one before the other or tie.
pub proof fn lemma_rank_total(a: ScoredItem, b: ScoredItem, by_recency: bool)
    ensures
        ranks_before(a, b, by_recency) || ranks_before(b, a, by_recency) || ties(a, b, by_recency),
        !(ranks_before(a, b, by_recency) && ranks_before(b, a, by_recency)),
        ties(a, b, by_recency) ==> !ranks_before(a, b, by_recency),
{
    lemma_lex_total(a.item.updated_at@, b.item.updated_at@);
    lemma_lex_irreflexive(a.item.updated_at@);
    if lex_lt(a.item.updated_at@, b.item.updated_at@) && lex_lt(b.item.updated_at@, a.item.updated_at@) {
        lemma_lex_transitive(a.item.updated_at@, b.item.updated_at@, a.item.updated_at@);
    }
}

/// Ranking before is transitive, and a tie can stand in for either side.
pub proof fn lemma_rank_transitive(a: ScoredItem, b: ScoredItem, c: ScoredItem, by_recency: bool)
    ensures
        ranks_before(a, b, by_recency) && ranks_before(b, c, by_recency) ==> ranks_before(a, c, by_recency),
        ranks_before(a, b, by_recency) && ties(b, c, by_recency) ==> ranks_before(a, c, by_recency),
{
    if ranks_before(a, b, by_recency) && ranks_before(b, c, by_recency) && a.score == b.score && b.score == c.score && by_recency {
        lemma_lex_transitive(c.item.updated_at@, b.item.updated_at@, a.item.updated_at@);
    }
}

/// Whether `a` ranks strictly before `b`.
pub fn scored_ranks_before(a: &ScoredItem, b: &ScoredItem, by_recency: bool) -> (r: bool)
    ensures
        r == ranks_before(*a, *b, by_recency),
{
    if a.score != b.score {
        a.score > b.score
    } else {
        by_recency && str_lt(b.item.updated_at.as_str(), a.item.updated_at.as_str())
    }
}

/// Sorts scored items most-urgent first, stably. With `by_recency`, equal
/// scores order newest `updated_at` first.
pub fn sort_scored(items: Vec<ScoredItem>, by_recency: bool) -> (out: Vec<ScoredItem>)
    ensures
        exists|idx: Seq<int>| stably_sorted_by(items@, out@, idx, by_recency),
{
    let ghost input = items@;
    let mut out: Vec<ScoredItem> = Vec::new();
    let ghost mut idx: Seq<int> = Seq::empty();
    let mut rest = items;
    let mut taken: usize = 0;
    let n = rest.len();
    assert(rest@ =~= input.subrange(0, n as int));
    while taken < n
        invariant
            n == input.len(),
            taken <= n,
            rest@ == input.subrange(taken as int, n as int),
            idx.len() == out@.len() == taken,
            forall|k: int| 0 <= k < idx.len() ==> 0 <= #[trigger] idx[k] < taken,
            forall|p: int, q: int| 0 <= p < q < idx.len() ==> idx[p] != idx[q],
            forall|k: int| 0 <= k < out@.len() ==> #[trigger] out@[k] == input[idx[k]],
            forall|p: int, q: int|
                0 <= p < q < out@.len() ==> ranks_before(out@[p], out@[q], by_recency) || (ties(
                    out@[p],
                    out@[q],
                    by_recency,
                ) && idx[p] < idx[q]),
        decreases n - taken,
    {
        let x = rest.remove(0);
        assert(rest@ =~= input.subrange(taken + 1, n as int));
        assert(x == input[taken as int]);
        let mut j: usize = 0;
        while j < out.len() && !scored_ranks_before(&x, &out[j], by_recency)
            invariant
                j <= out@.len(),
                forall|k: int| 0 <= k < j ==> !ranks_before(x, #[trigger] out@[k], by_recency),
            decreases out.len() - j,
        {
            j += 1;
        }
        let ghost old_out = out@;
        let ghost old_idx = idx;
        proof {
            assert forall|q: int| j <= q < old_out.len() implies ranks_before(x, #[trigger] old_out[q], by_recency) by {
                if q > j {
                    lemma_rank_transitive(x, old_out[j as int], old_out[q], by_recency);
                }
            }
            assert forall|p: int| 0 <= p < j implies ranks_before(#[trigger] old_out[p], x, by_recency) || ties(old_out[p], x, by_recency) by {
                lemma_rank_total(old_out[p], x, by_recency);
            }
        }
        out.insert(j, x);
        proof {
            idx = old_idx.insert(j as int, taken as int);
            assert forall|k: int| 0 <= k < out@.len() implies #[trigger] out@[k] == input[idx[k]] by {
                if k < j {
                } else if k == j {
                } else {
                    assert(out@[k] == old_out[k - 1]);
                }
            }
            assert forall|p: int, q: int| 0 <= p < q < idx.len() implies idx[p] != idx[q] by {
                if q < j {
                } else if p < j && q == j {
                    assert(0 <= old_idx[p] < taken);
                } else if p < j {
                    assert(idx[q] == old_idx[q - 1]);
                } else if p == j {
                    assert(idx[q] == old_idx[q - 1]);
                    assert(0 <= old_idx[q - 1] < taken);
                } else {
                    assert(idx[p] == old_idx[p - 1]);
                    assert(idx[q] == old_idx[q - 1]);
                }
            }
            assert forall|p: int, q: int|
                0 <= p < q < out@.len() implies ranks_before(out@[p], out@[q], by_recency) || (ties(
                    out@[p],
                    out@[q],
                    by_recency,
                ) && idx[p] < idx[q]) by {
                if q < j {
                } else if p < j && q == j {
                    assert(0 <= old_idx[p] < taken);
                    lemma_rank_total(old_out[p], x, by_recency);
                } else if p < j {
                    assert(out@[q] == old_out[q - 1]);
                    assert(idx[q] == old_idx[q - 1]);
                } else if p == j {
                    assert(out@[q] == old_out[q - 1]);
                } else {
                    assert(out@[p] == old_out[p - 1]);
                    assert(out@[q] == old_out[q - 1]);
                    assert(idx[p] == old_idx[p - 1]);
                    assert(idx[q] == old_idx[q - 1]);
                }
            }
            assert forall|k: int| 0 <= k < idx.len() implies 0 <= #[trigger] idx[k] < taken + 1 by {
                if k < j {
                } else if k == j {
                } else {
                    assert(idx[k] == old_idx[k - 1]);
                }
            }
        }
        taken += 1;
    }
    assert(stably_sorted_by(input, out@, idx, by_recency));
    out
}

/// `a` was updated strictly after `b`.
pub open spec fn newer(a: PullRequestSummary, b: PullRequestSummary) -> bool {
    lex_lt(b.updated_at@, a.updated_at@)
}

/// `a` and `b` were updated at the same time.
pub open spec fn same_time(a: PullRequestSummary, b: PullRequestSummary) -> bool {
    a.updated_at@ == b.updated_at@
}

/// `out` is `input` reordered most recently updated first, with equal
/// times in their input order: `idx` says where each output row came from.
pub open spec fn recency_sorted(input: Seq<PullRequestSummary>, out: Seq<PullRequestSummary>, idx: Seq<int>) -> bool {
    &&& idx.len() == out.len() == input.len()
    &&& forall|k: int| 0 <= k < idx.len() ==> 0 <= #[trigger] idx[k] < input.len()
    &&& forall|p: int, q: int| 0 <= p < q < idx.len() ==> idx[p] != idx[q]
    &&& forall|k: int| 0 <= k < out.len() ==> #[trigger] out[k] == input[idx[k]]
    &&& forall|p: int, q: int|
        0 <= p < q < out.len() ==> newer(out[p], out[q]) || (same_time(out[p], out[q]) && idx[p] < idx[q])
}

proof fn lemma_newer_total(a: PullRequestSummary, b: PullRequestSummary)
    ensures
        newer(a, b) || newer(b, a) || same_time(a, b),
        !(newer(a, b) && newer(b, a)),
        same_time(a, b) ==> !newer(a, b),
{
    lemma_lex_total(a.updated_at@, b.updated_at@);
    lemma_lex_irreflexive(a.updated_at@);
    if lex_lt(a.updated_at@, b.updated_at@) && lex_lt(b.updated_at@, a.updated_at@) {
        lemma_lex_transitive(a.updated_at@, b.updated_at@, a.updated_at@);
    }
}

proof fn lemma_newer_transitive(a: PullRequestSummary, b: PullRequestSummary, c: PullRequestSummary)
    ensures
        newer(a, b) && newer(b, c) ==> newer(a, c),
        newer(a, b) && same_time(b, c) ==> newer(a, c),
{
    if newer(a, b) && newer(b, c) {
        lemma_lex_transitive(c.updated_at@, b.updated_at@, a.updated_at@);
    }
}

/// Sorts pull requests most recently updated first, stably (equal
/// `updated_at` keeps the input order).
pub fn sort_by_recency(items: Vec<PullRequestSummary>) -> (out: Vec<PullRequestSummary>)
    ensures
        exists|idx: Seq<int>| recency_sorted(items@, out@, idx),
{
    let ghost input = items@;
    let mut out: Vec<PullRequestSummary> = Vec::new();
    let ghost mut idx: Seq<int> = Seq::empty();
    let mut rest = items;
    let mut taken: usize = 0;
    let n = rest.len();
    assert(rest@ =~= input.subrange(0, n as int));
    while taken < n
        invariant
            n == input.len(),
            taken <= n,
            rest@ == input.subrange(taken as int, n as int),
            idx.len() == out@.len() == taken,
            forall|k: int| 0 <= k < idx.len() ==> 0 <= #[trigger] idx[k] < taken,
            forall|p: int, q: int| 0 <= p < q < idx.len() ==> idx[p] != idx[q],
            forall|k: int| 0 <= k < out@.len() ==> #[trigger] out@[k] == input[idx[k]],
            forall|p: int, q: int|
                0 <= p < q < out@.len() ==> newer(out@[p], out@[q]) || (same_time(out@[p], out@[q]) && idx[p] < idx[q]),
        decreases n - taken,
    {
        let x = rest.remove(0);
        assert(rest@ =~= input.subrange(taken + 1, n as int));
        assert(x == input[taken as int]);
        let mut j: usize = 0;
        while j < out.len() && !str_lt(out[j].updated_at.as_str(), x.updated_at.as_str())
            invariant
                j <= out@.len(),
                forall|k: int| 0 <= k < j ==> !newer(x, #[trigger] out@[k]),
            decreases out.len() - j,
        {
            j += 1;
        }
        let ghost old_out = out@;
        let ghost old_idx = idx;
        proof {
            assert forall|q: int| j <= q < old_out.len() implies newer(x, #[trigger] old_out[q]) by {
                if q > j {
                    lemma_newer_transitive(x, old_out[j as int], old_out[q]);
                }
            }
            assert forall|p: int| 0 <= p < j implies newer(#[trigger] old_out[p], x) || same_time(old_out[p], x) by {
                lemma_newer_total(old_out[p], x);
            }
        }
        out.insert(j, x);
        proof {
            idx = old_idx.insert(j as int, taken as int);
            assert forall|k: int| 0 <= k < out@.len() implies #[trigger] out@[k] == input[idx[k]] by {
                if k < j {
                } else if k == j {
                } else {
                    assert(out@[k] == old_out[k - 1]);
                }
            }
            assert forall|p: int, q: int| 0 <= p < q < idx.len() implies idx[p] != idx[q] by {
                if q < j {
                } else if p < j && q == j {
                    assert(0 <= old_idx[p] < taken);
                } else if p < j {
                    assert(idx[q] == old_idx[q - 1]);
                } else if p == j {
                    assert(idx[q] == old_idx[q - 1]);
                    assert(0 <= old_idx[q - 1] < taken);
                } else {
                    assert(idx[p] == old_idx[p - 1]);
                    assert(idx[q] == old_idx[q - 1]);
                }
            }
            assert forall|p: int, q: int|
                0 <= p < q < out@.len() implies newer(out@[p], out@[q]) || (same_time(out@[p], out@[q]) && idx[p] < idx[q]) by {
                if q < j {
                } else if p < j && q == j {
                    assert(0 <= old_idx[p] < taken);
                    lemma_newer_total(old_out[p], x);
                } else if p < j {
                    assert(out@[q] == old_out[q - 1]);
                    assert(idx[q] == old_idx[q - 1]);
                } else if p == j {
                    assert(out@[q] == old_out[q - 1]);
                } else {
                    assert(out@[p] == old_out[p - 1]);
                    assert(out@[q] == old_out[q - 1]);
                    assert(idx[p] == old_idx[p - 1]);
                    assert(idx[q] == old_idx[q - 1]);
                }
            }
            assert forall|k: int| 0 <= k < idx.len() implies 0 <= #[trigger] idx[k] < taken + 1 by {
                if k < j {
                } else if k == j {
                } else {
                    assert(idx[k] == old_idx[k - 1]);
                }
            }
        }
        taken += 1;
    }
    assert(recency_sorted(input, out@, idx));
    out
}

} // verus!
