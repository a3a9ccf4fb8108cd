//! What a desktop notification says: one message per item, or a single
//! summary when a poll brings a burst. Whether to notify at all is the
//! priority engine's gate; showing the messages is the caller's job.

use vstd::prelude::*;
use crate::item::ItemKind;
use crate::severity::ScoredItem;
use crate::text::{decimal, u64_decimal};

verus! {

/// Above this many notifications in one poll, a single summary is sent
/// instead.
pub const BURST_COLLAPSE_THRESHOLD: usize = 3;

/// Human label of a kind.
pub open spec fn kind_label_spec(kind: ItemKind) -> Seq<char> {
    match kind {
        ItemKind::ReviewRequested => "Review requested"@,
        ItemKind::Assigned => "Assigned"@,
        ItemKind::Mentioned => "Mentioned"@,
        ItemKind::Participating => "Participating"@,
        ItemKind::CiFailed => "CI failed"@,
        ItemKind::ReviewStateChanged => "Changes requested"@,
        ItemKind::ReadyToMerge => "Ready to merge"@,
        ItemKind::Authored => "Your PR"@,
        ItemKind::ReviewedByMe => "PR you reviewed"@,
    }
}

/// The label shown for an item's kind.
pub fn kind_label(scored: &ScoredItem) -> (s: &'static str)
    ensures
        s@ == kind_label_spec(scored.item.kind),
{
    match scored.item.kind {
        ItemKind::ReviewRequested => "Review requested",
        ItemKind::Assigned => "Assigned",
        ItemKind::Mentioned => "Mentioned",
        ItemKind::Participating => "Participating",
        ItemKind::CiFailed => "CI failed",
        ItemKind::ReviewStateChanged => "Changes requested",
        ItemKind::ReadyToMerge => "Ready to merge",
        ItemKind::Authored => "Your PR",
        ItemKind::ReviewedByMe => "PR you reviewed",
    }
}

/// `<label> · <repo>#<number>`, or `<label> · <repo>` without a number.
pub open spec fn describe_spec(scored: ScoredItem) -> Seq<char> {
    let location = match scored.item.number {
        Some(n) => scored.item.repo@ + "#"@ + decimal(n as nat),
        None => scored.item.repo@,
    };
    kind_label_spec(scored.item.kind) + " · "@ + location
}

/// One-line identification of an item: what kind it is and where it lives.
pub fn describe(scored: &ScoredItem) -> (s: String)
    ensures
        s@ == describe_spec(*scored),
{
    let mut s = String::from_str(kind_label(scored));
    s.append(" · ");
    s.append(scored.item.repo.as_str());
    match scored.item.number {
        Some(n) => {
            s.append("#");
            let d = u64_decimal(n);
            s.append(d.as_str());
        },
        None => {},
    }
    s
}

/// The messages (summary, body) for a gated, sorted batch: nothing for an
/// empty batch; above the threshold, one `"<n> new items"` summary naming
/// the first (most urgent) item; otherwise one message per item with its
/// title as body.
pub open spec fn messages_spec(items: Seq<ScoredItem>) -> Seq<(Seq<char>, Seq<char>)> {
    if items.len() == 0 {
        Seq::empty()
    } else if items.len() > BURST_COLLAPSE_THRESHOLD {
        seq![(decimal(items.len()) + " new items"@, "Highest priority: "@ + describe_spec(items[0]))]
    } else {
        Seq::new(items.len(), |k: int| (describe_spec(items[k]), items[k].item.title@))
    }
}

/// A poll never raises a burst: three or fewer new items get one message
/// each, and more than three collapse into a single summary message.
pub proof fn lemma_burst_collapses(items: Seq<ScoredItem>)
    ensures
        messages_spec(items).len() <= BURST_COLLAPSE_THRESHOLD,
        items.len() <= BURST_COLLAPSE_THRESHOLD ==> messages_spec(items).len() == items.len(),
        items.len() > BURST_COLLAPSE_THRESHOLD ==> messages_spec(items).len() == 1,
{
}

/// Below the burst threshold every item gets its own message, in order:
/// the `k`-th message names the `k`-th item — its kind, its repository
/// verbatim, and its number last (the repository last when it has none) —
/// and carries that item's title. Above it, the single summary names the first, most urgent, item.
pub proof fn lemma_each_message_names_its_item(items: Seq<ScoredItem>, k: int)
    ensures
        items.len() <= BURST_COLLAPSE_THRESHOLD && 0 <= k < items.len() ==> {
            let m = messages_spec(items)[k];
            let repo = items[k].item.repo@;
            &&& m.0 == describe_spec(items[k])
            &&& m.1 == items[k].item.title@
            &&& m.0.subrange(0, kind_label_spec(items[k].item.kind).len() as int)
                == kind_label_spec(items[k].item.kind)
            &&& crate::text::contains_text(m.0, repo)
            &&& items[k].item.number is None ==> m.0.subrange(m.0.len() - repo.len(), m.0.len() as int) == repo
            &&& items[k].item.number matches Some(n) ==> {
                let tail = "#"@ + decimal(n as nat);
                m.0.subrange(m.0.len() - tail.len(), m.0.len() as int) == tail
            }
        },
        items.len() > BURST_COLLAPSE_THRESHOLD ==> messages_spec(items)[0].1
            == "Highest priority: "@ + describe_spec(items[0]),
{
    if items.len() <= BURST_COLLAPSE_THRESHOLD && 0 <= k < items.len() {
        let it = items[k];
        let label = kind_label_spec(it.item.kind);
        let repo = it.item.repo@;
        let loc = match it.item.number {
            Some(n) => repo + "#"@ + decimal(n as nat),
            None => repo,
        };
        let d = label + " · "@ + loc;
        assert(describe_spec(it) == d);
        assert(messages_spec(items)[k] == (describe_spec(items[k]), items[k].item.title@));
        assert(d.subrange(0, label.len() as int) =~= label);
        let at = (label.len() + " · "@.len()) as int;
        assert(d.subrange(at, at + repo.len()) =~= repo);
        if it.item.number is None {
            assert(d.subrange(d.len() - repo.len(), d.len() as int) =~= repo);
        } else {
            let tail = "#"@ + decimal(it.item.number->0 as nat);
            assert(d.subrange(d.len() - tail.len(), d.len() as int) =~= tail);
        }
    }
}

/// The views of a list of messages.
pub open spec fn message_views(v: Seq<(String, String)>) -> Seq<(Seq<char>, Seq<char>)> {
    v.map_values(|m: (String, String)| (m.0@, m.1@))
}

/// The desktop messages for `items`, which the caller has already gated
/// and sorted most urgent first.
pub fn dispatch_batch(items: &[ScoredItem]) -> (msgs: Vec<(String, String)>)
    ensures
        message_views(msgs@) == messages_spec(items@),
{
    let mut msgs: Vec<(String, String)> = Vec::new();
    if items.len() == 0 {
        assert(message_views(msgs@) =~= messages_spec(items@));
        return msgs;
    }
    if items.len() > BURST_COLLAPSE_THRESHOLD {
        let mut summary = u64_decimal(items.len() as u64);
        summary.append(" new items");
        let mut body = String::from_str("Highest priority: ");
        let top = describe(&items[0]);
        body.append(top.as_str());
        msgs.push((summary, body));
        assert(message_views(msgs@) =~= messages_spec(items@));
        return msgs;
    }
    let mut k: usize = 0;
    while k < items.len()
        invariant
            k <= items@.len(),
            msgs@.len() == k,
            forall|j: int| 0 <= j < k ==> (#[trigger] msgs@[j]).0@ == describe_spec(items@[j])
                && msgs@[j].1@ == items@[j].item.title@,
        decreases items.len() - k,
    {
        let d = describe(&items[k]);
        msgs.push((d, items[k].item.title.clone()));
        k += 1;
    }
    assert(message_views(msgs@) =~= messages_spec(items@));
    msgs
}

} // verus!
