//! Diff between a stored snapshot and a freshly fetched one: every fetched
//! item is tagged new, updated or carried, and stored items that are no
//! longer fetched are reported resolved.

use vstd::prelude::*;
use crate::conflict::views;
use crate::item::{ActionItem, clone_item};

verus! {

/// How a fetched item compares to what was previously stored.
#[derive(Debug, Clone, Copy, PartialEq, Eq, Structural)]
pub enum ChangeKind {
    /// Not seen in a previous poll.
    New,
    /// Seen before, but GitHub's `updated_at` moved.
    Updated,
    /// Seen before, unchanged. Never re-triggers a notification.
    Carried,
}

/// The result of comparing a previous snapshot to a fetched one.
#[derive(Debug, Clone, Default, PartialEq, Eq)]
pub struct Diff {
    /// Every fetched item, in fetched order, tagged with how it compares.
    pub changes: Vec<(ChangeKind, ActionItem)>,
    /// Ids stored before but absent from the fetch — resolved upstream.
    pub resolved_ids: Vec<String>,
}

/// Index of the last stored item with id `id`, or -1. (When ids repeat the
/// last one stands, as in a map built from the list.)
pub open spec fn last_with_id(prev: Seq<ActionItem>, id: Seq<char>) -> int
    decreases prev.len(),
{
    if prev.len() == 0 {
        -1
    } else if prev.last().id@ == id {
        prev.len() - 1
    } else {
        last_with_id(prev.drop_last(), id)
    }
}

/// How `item` compares to the stored snapshot.
pub open spec fn change_kind_of(prev: Seq<ActionItem>, item: ActionItem) -> ChangeKind {
    let j = last_with_id(prev, item.id@);
    if j < 0 {
        ChangeKind::New
    } else if prev[j].updated_at@ != item.updated_at@ {
        ChangeKind::Updated
    } else {
        ChangeKind::Carried
    }
}

/// Whether some fetched item has id `id`.
pub open spec fn fetched_has(fetched: Seq<ActionItem>, id: Seq<char>) -> bool {
    exists|k: int| 0 <= k < fetched.len() && (#[trigger] fetched[k]).id@ == id
}

/// Ids of stored items absent from the fetch, in stored order.
pub open spec fn resolved_spec(prev: Seq<ActionItem>, fetched: Seq<ActionItem>) -> Seq<Seq<char>>
    decreases prev.len(),
{
    if prev.len() == 0 {
        Seq::empty()
    } else {
        let rest = resolved_spec(prev.drop_last(), fetched);
        if fetched_has(fetched, prev.last().id@) {
            rest
        } else {
            rest.push(prev.last().id@)
        }
    }
}

pub proof fn lemma_last_with_id_bounds(prev: Seq<ActionItem>, id: Seq<char>)
    ensures
        -1 <= last_with_id(prev, id) < prev.len(),
        last_with_id(prev, id) >= 0 ==> prev[last_with_id(prev, id)].id@ == id,
        last_with_id(prev, id) < 0 ==> forall|k: int| 0 <= k < prev.len() ==> (#[trigger] prev[k]).id@ != id,
    decreases prev.len(),
{
    if prev.len() > 0 && prev.last().id@ != id {
        lemma_last_with_id_bounds(prev.drop_last(), id);
        assert forall|k: int| 0 <= k < prev.len() - 1 implies prev[k] == prev.drop_last()[k] by {}
    }
}

/// Index of the last stored item with the id `id`, or `None`.
fn find_last(previous: &[ActionItem], id: &String) -> (r: Option<usize>)
    ensures
        match r {
            Some(j) => j as int == last_with_id(previous@, id@),
            None => last_with_id(previous@, id@) == -1,
        },
{
    let mut k = previous.len();
    assert(previous@.subrange(0, k as int) =~= previous@);
    while k > 0
        invariant
            k <= previous@.len(),
            last_with_id(previous@, id@) == last_with_id(previous@.subrange(0, k as int), id@),
        decreases k,
    {
        assert(previous@.subrange(0, k as int).drop_last() =~= previous@.subrange(0, k - 1));
        if previous[k - 1].id == *id {
            return Some(k - 1);
        }
        k -= 1;
    }
    None
}

/// Whether some fetched item has the id `id`.
fn fetched_contains(fetched: &[ActionItem], id: &String) -> (b: bool)
    ensures
        b == fetched_has(fetched@, id@),
{
    let mut k: usize = 0;
    while k < fetched.len()
        invariant
            k <= fetched@.len(),
            forall|j: int| 0 <= j < k ==> (#[trigger] fetched@[j]).id@ != id@,
        decreases fetched.len() - k,
    {
        if fetched[k].id == *id {
            return true;
        }
        k += 1;
    }
    false
}

/// Compares `previous` (what's stored for this account) against `fetched`
/// (this poll's results) and classifies every item. Dismissed items are not
/// special here: the caller decides what a carried or updated dismissed item
/// means.
pub fn diff(previous: &[ActionItem], fetched: &[ActionItem]) -> (d: Diff)
    ensures
        d.changes@.len() == fetched@.len(),
        forall|k: int|
            0 <= k < fetched@.len() ==> #[trigger] d.changes@[k] == (
                change_kind_of(previous@, fetched@[k]),
                fetched@[k],
            ),
        views(d.resolved_ids@) == resolved_spec(previous@, fetched@),
{
    let mut changes: Vec<(ChangeKind, ActionItem)> = Vec::new();
    let mut k: usize = 0;
    while k < fetched.len()
        invariant
            k <= fetched@.len(),
            changes@.len() == k,
            forall|j: int|
                0 <= j < k ==> #[trigger] changes@[j] == (
                    change_kind_of(previous@, fetched@[j]),
                    fetched@[j],
                ),
        decreases fetched.len() - k,
    {
        let item = &fetched[k];
        proof {
            lemma_last_with_id_bounds(previous@, item.id@);
        }
        let kind = match find_last(previous, &item.id) {
            None => ChangeKind::New,
            Some(j) => if previous[j].updated_at != item.updated_at {
                ChangeKind::Updated
            } else {
                ChangeKind::Carried
            },
        };
        changes.push((kind, clone_item(item)));
        k += 1;
    }
    let mut resolved_ids: Vec<String> = Vec::new();
    let mut p: usize = 0;
    assert(views(resolved_ids@) =~= resolved_spec(previous@.subrange(0, 0), fetched@));
    while p < previous.len()
        invariant
            p <= previous@.len(),
            views(resolved_ids@) == resolved_spec(previous@.subrange(0, p as int), fetched@),
        decreases previous.len() - p,
    {
        assert(previous@.subrange(0, p + 1).drop_last() =~= previous@.subrange(0, p as int));
        if !fetched_contains(fetched, &previous[p].id) {
            let ghost before = resolved_ids@;
            resolved_ids.push(previous[p].id.clone());
            assert(views(resolved_ids@) =~= views(before).push(previous@[p as int].id@));
        }
        p += 1;
    }
    assert(previous@.subrange(0, previous@.len() as int) =~= previous@);
    Diff { changes, resolved_ids }
}

/// With nothing stored, every fetched item is new and nothing resolves.
pub proof fn lemma_empty_previous_all_new(fetched: Seq<ActionItem>)
    ensures
        forall|k: int| 0 <= k < fetched.len() ==> change_kind_of(Seq::empty(), #[trigger] fetched[k]) == ChangeKind::New,
        resolved_spec(Seq::empty(), fetched).len() == 0,
{
}

/// The resolved ids are exactly the stored ids that the fetch no longer
/// has: an item still fetched (carried or updated) is never resolved.
pub proof fn lemma_resolved_exactly(previous: Seq<ActionItem>, fetched: Seq<ActionItem>, id: Seq<char>)
    ensures
        resolved_spec(previous, fetched).contains(id) <==>
            (exists|j: int| 0 <= j < previous.len() && (#[trigger] previous[j]).id@ == id) && !fetched_has(fetched, id),
    decreases previous.len(),
{
    if previous.len() > 0 {
        let rest = previous.drop_last();
        lemma_resolved_exactly(rest, fetched, id);
        let r = resolved_spec(previous, fetched);
        let rr = resolved_spec(rest, fetched);
        if (exists|j: int| 0 <= j < previous.len() && (#[trigger] previous[j]).id@ == id) && !fetched_has(fetched, id) {
            let j = choose|j: int| 0 <= j < previous.len() && (#[trigger] previous[j]).id@ == id;
            if j < previous.len() - 1 {
                assert(rest[j] == previous[j]);
                assert(rr.contains(id));
                let q = choose|q: int| 0 <= q < rr.len() && rr[q] == id;
                assert(r.contains(id)) by {
                    if !fetched_has(fetched, previous.last().id@) {
                        assert(r[q] == rr[q]);
                    }
                }
            } else {
                assert(r[r.len() - 1] == id);
            }
        }
        if r.contains(id) {
            let q = choose|q: int| 0 <= q < r.len() && r[q] == id;
            if q < rr.len() {
                assert(rr[q] == id);
                assert(rr.contains(id));
                let j = choose|j: int| 0 <= j < rest.len() && (#[trigger] rest[j]).id@ == id;
                assert(previous[j] == rest[j]);
            } else {
                assert(previous[previous.len() - 1].id@ == id);
            }
        }
    }
}

/// An item fetched with the same id and `updated_at` as the stored row is
/// carried; a different `updated_at` makes it updated; an unknown id new.
pub proof fn lemma_change_kinds(previous: Seq<ActionItem>, item: ActionItem)
    ensures
        (forall|j: int| 0 <= j < previous.len() ==> (#[trigger] previous[j]).id@ != item.id@)
            <==> change_kind_of(previous, item) == ChangeKind::New,
        last_with_id(previous, item.id@) >= 0 ==> (change_kind_of(previous, item) == ChangeKind::Carried
            <==> previous[last_with_id(previous, item.id@)].updated_at@ == item.updated_at@),
{
    lemma_last_with_id_bounds(previous, item.id@);
}

} // verus!
