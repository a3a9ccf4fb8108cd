//! The decisions of a poll cycle: which fetched items to keep, which stored
//! rows to write or retire, and which changes may interrupt the user. The
//! fetching, storing and sleeping are done by the caller.

use vstd::prelude::*;
use std::collections::BTreeSet;
use vstd::std_specs::iter::IteratorSpec;
use crate::conflict::{opt_view, views};
use crate::diff::{ChangeKind, Diff, diff, change_kind_of, last_with_id, resolved_spec,
    lemma_last_with_id_bounds};
use crate::item::{ActionItem, CiStatus, ItemKind, clone_item};
use crate::ordered::{sorted_u64, sorted_strs, insert_sorted_str, join_decimal, join_strs,
    lemma_ordered_u64_of, lemma_ordered_strs_of, lemma_split_join_decimal, lemma_split_join_strs,
    lemma_join_decimal_chars, lemma_join_strs_avoids, lemma_ordered_u64_exists, lemma_ordered_strs_exists,
    ordered_u64, ordered_strs};
use crate::github::fingerprint_text;
use crate::priority::{Rule, score_item, scored_as, should_notify, should_notify_spec, score_all, clamp_score,
    raw_score};
use crate::order::{sort_scored, stably_sorted_by, ranks_before, ties, lemma_idx_onto};
use crate::severity::ScoredItem;
use crate::clock::UnixTime;
use crate::text::{split_on, split_char, parse_u64, parse_u64_spec, chars_of, lemma_split_on_nonempty,
    starts_with, str_starts_with, lemma_split_on_concat, lemma_split_on_plain, decimal, lemma_decimal_parses_back};
use crate::lines::string_of;

verus! {

/// The number of a PR or issue at the end of an API URL's path
/// (`…/pulls/{number}`, `…/issues/{number}`), ignoring any query.
pub open spec fn pull_number_spec(url: Seq<char>) -> Option<u64> {
    let path = split_on(url, '?')[0];
    parse_u64_spec(split_on(path, '/').last())
}

/// Extracts the PR/issue number from a GitHub API `subject.url`. `None` for
/// URLs whose last path segment is not a number.
pub fn pull_number_from_url(url: &str) -> (r: Option<u64>)
    ensures
        r == pull_number_spec(url@),
{
    let q = split_char(url, '?');
    proof {
        lemma_split_on_nonempty(url@, '?');
    }
    assert(views(q@)[0] == q@[0]@);
    let parts = split_char(q[0].as_str(), '/');
    proof {
        lemma_split_on_nonempty(q@[0]@, '/');
    }
    let last = parts.len() - 1;
    assert(views(parts@).last() == parts@[last as int]@);
    parse_u64(parts[last].as_str())
}

/// The parsed `activity` fingerprint of an `Authored` item: the ids of
/// comments by people other than the account user, and the ids of the
/// unresolved review threads.
///
/// The thread ids are a strictly increasing vector rather than a
/// `BTreeSet<String>`: vstd gives `String` no ordering specification, so
/// such a set's `insert` and iteration would promise nothing. The vector
/// carries the same invariant (no duplicates, ascending) in
/// [`ActivityFingerprint::wf`].
#[derive(Debug, Clone, Default, PartialEq, Eq)]
pub struct ActivityFingerprint {
    /// Comment ids.
    pub comment_ids: BTreeSet<u64>,
    /// Unresolved thread ids, strictly increasing in `str` order.
    pub unresolved_thread_ids: Vec<String>,
}

impl ActivityFingerprint {
    /// The thread ids are strictly increasing (a set, in order).
    pub open spec fn wf(&self) -> bool {
        sorted_strs(views(self.unresolved_thread_ids@))
    }

    /// The two sets this fingerprint holds.
    pub open spec fn sets(&self) -> (Set<u64>, Set<Seq<char>>) {
        (self.comment_ids@, views(self.unresolved_thread_ids@).to_set())
    }
}

/// `p` begins with the two characters `a`, `b`.
pub open spec fn has_tag(p: Seq<char>, a: char, b: char) -> bool {
    p.len() >= 2 && p[0] == a && p[1] == b
}

/// The ids that parse among the comma-separated pieces of `s`.
pub open spec fn id_set(s: Seq<char>) -> Set<u64> {
    Set::new(|x: u64|
        exists|k: int| 0 <= k < split_on(s, ',').len() && parse_u64_spec(#[trigger] split_on(s, ',')[k]) == Some(x))
}

/// The non-empty comma-separated pieces of `s`.
pub open spec fn piece_set(s: Seq<char>) -> Set<Seq<char>> {
    Set::new(|x: Seq<char>| x.len() > 0 && split_on(s, ',').contains(x))
}

/// The sets named by `;`-separated parts: the last `c:` part gives the
/// comment ids, the last `u:` part the thread ids; other parts are ignored.
pub open spec fn fingerprint_parts(parts: Seq<Seq<char>>) -> (Set<u64>, Set<Seq<char>>)
    decreases parts.len(),
{
    if parts.len() == 0 {
        (Set::empty(), Set::empty())
    } else {
        let (c, u) = fingerprint_parts(parts.drop_last());
        let p = parts.last();
        if has_tag(p, 'c', ':') {
            (id_set(p.skip(2)), u)
        } else if has_tag(p, 'u', ':') {
            (c, piece_set(p.skip(2)))
        } else {
            (c, u)
        }
    }
}

/// What [`ActivityFingerprint::parse`] reads from an optional encoding.
pub open spec fn parse_fingerprint_spec(encoded: Option<Seq<char>>) -> (Set<u64>, Set<Seq<char>>) {
    match encoded {
        Some(e) => fingerprint_parts(split_on(e, ';')),
        None => (Set::empty(), Set::empty()),
    }
}

/// The ids that parse among `pieces`.
fn collect_ids(pieces: &Vec<String>) -> (v: BTreeSet<u64>)
    ensures
        forall|x: u64| v@.contains(x) <==>
            exists|k: int| 0 <= k < pieces@.len() && parse_u64_spec(#[trigger] views(pieces@)[k]) == Some(x),
{
    broadcast use vstd::std_specs::btree::group_btree_axioms;
    proof {
        crate::ordered::lemma_u64_ordered();
    }
    let mut v: BTreeSet<u64> = BTreeSet::new();
    let mut k: usize = 0;
    while k < pieces.len()
        invariant
            k <= pieces@.len(),
            forall|x: u64| v@.contains(x) <==>
                exists|j: int| 0 <= j < k && parse_u64_spec(#[trigger] views(pieces@)[j]) == Some(x),
        decreases pieces.len() - k,
    {
        match parse_u64(pieces[k].as_str()) {
            Some(id) => {
                v.insert(id);
            },
            None => {},
        }
        assert forall|x: u64| v@.contains(x) <==>
            exists|j: int| 0 <= j < k + 1 && parse_u64_spec(#[trigger] views(pieces@)[j]) == Some(x) by {
            if parse_u64_spec(views(pieces@)[k as int]) == Some(x) {
                assert(v@.contains(x));
            }
        }
        k += 1;
    }
    v
}

/// The non-empty strings among `pieces`.
fn collect_pieces(pieces: &Vec<String>) -> (v: Vec<String>)
    ensures
        sorted_strs(views(v@)),
        forall|x: Seq<char>| #[trigger] views(v@).to_set().contains(x) <==> (x.len() > 0 && views(pieces@).contains(x)),
{
    let mut v: Vec<String> = Vec::new();
    let mut k: usize = 0;
    while k < pieces.len()
        invariant
            k <= pieces@.len(),
            sorted_strs(views(v@)),
            forall|x: Seq<char>| views(v@).to_set().contains(x) <==>
                (x.len() > 0 && exists|j: int| 0 <= j < k && #[trigger] views(pieces@)[j] == x),
        decreases pieces.len() - k,
    {
        if !pieces[k].as_str().is_empty() {
            insert_sorted_str(&mut v, pieces[k].as_str());
        }
        proof {
            assert forall|x: Seq<char>| views(v@).to_set().contains(x) <==>
                (x.len() > 0 && exists|j: int| 0 <= j < k + 1 && #[trigger] views(pieces@)[j] == x) by {
                if x.len() > 0 && views(pieces@)[k as int] == x {
                    assert(views(v@).to_set().contains(x));
                }
            }
        }
        k += 1;
    }
    v
}

impl ActivityFingerprint {
    /// Parses the `c:<ids>;u:<ids>` string stored on an `Authored` item. An
    /// absent or unrecognized value parses to the empty fingerprint.
    pub fn parse(encoded: Option<&str>) -> (f: ActivityFingerprint)
        ensures
            f.wf(),
            f.sets() == parse_fingerprint_spec(match encoded {
                Some(e) => Some(e@),
                None => None,
            }),
    {
        let mut f = ActivityFingerprint { comment_ids: BTreeSet::new(), unresolved_thread_ids: Vec::new() };
        let e = match encoded {
            Some(e) => e,
            None => {
                assert(f.sets().0 =~= Set::empty());
                assert(f.sets().1 =~= Set::empty());
                return f;
            },
        };
        let parts = split_char(e, ';');
        let ghost ps = views(parts@);
        let mut k: usize = 0;
        assert(f.sets().0 =~= Set::empty());
        assert(f.sets().1 =~= Set::empty());
        assert(ps.subrange(0, 0) =~= Seq::<Seq<char>>::empty());
        while k < parts.len()
            invariant
                ps == views(parts@),
                ps == split_on(e@, ';'),
                k <= parts@.len(),
                f.wf(),
                f.sets() == fingerprint_parts(ps.subrange(0, k as int)),
            decreases parts.len() - k,
        {
            assert(ps.subrange(0, k + 1).drop_last() =~= ps.subrange(0, k as int));
            let cs = chars_of(parts[k].as_str());
            if cs.len() >= 2 && cs[0] == 'c' && cs[1] == ':' {
                let rest = string_of(&cs, 2, cs.len());
                assert(rest@ =~= ps[k as int].skip(2));
                let pieces = split_char(rest.as_str(), ',');
                let ids = collect_ids(&pieces);
                f.comment_ids = ids;
                assert(f.sets().0 =~= id_set(ps[k as int].skip(2)));
            } else if cs.len() >= 2 && cs[0] == 'u' && cs[1] == ':' {
                let rest = string_of(&cs, 2, cs.len());
                assert(rest@ =~= ps[k as int].skip(2));
                let pieces = split_char(rest.as_str(), ',');
                let ts = collect_pieces(&pieces);
                f.unresolved_thread_ids = ts;
                assert forall|x: Seq<char>| f.sets().1.contains(x) <==> piece_set(ps[k as int].skip(2)).contains(x) by {
                    assert(views(ts@).to_set().contains(x) <==> (x.len() > 0 && views(pieces@).contains(x)));
                }
                assert(f.sets().1 =~= piece_set(ps[k as int].skip(2)));
            }
            k += 1;
        }
        assert(ps.subrange(0, ps.len() as int) =~= ps);
        f
    }
}

/// Whether the stored row must be left untouched: archived items never
/// come back, and carried items keep their local state.
pub open spec fn preserve_spec(change_kind: ChangeKind, prev_archived: bool) -> bool {
    prev_archived || change_kind == ChangeKind::Carried
}

/// Whether the poller must leave an item's stored row untouched: `Carried`
/// items (the local dismiss marker wins) and archived items (cleared for
/// good, never resurrected).
pub fn should_preserve_local_state(change_kind: ChangeKind, prev_archived: bool) -> (b: bool)
    ensures
        b == preserve_spec(change_kind, prev_archived),
{
    prev_archived || change_kind == ChangeKind::Carried
}

/// The item behind an optional reference.
pub open spec fn deref_opt(o: Option<&ActionItem>) -> Option<ActionItem> {
    match o {
        Some(p) => Some(*p),
        None => None,
    }
}

/// CI has just turned to failing.
pub open spec fn ci_turned_failing(item: ActionItem, prev: Option<ActionItem>) -> bool {
    item.ci_status == CiStatus::Failing && !(prev is Some && prev->0.ci_status == CiStatus::Failing)
}

/// The stored activity of the previous row, if any.
pub open spec fn prev_activity(prev: Option<ActionItem>) -> Option<Seq<char>> {
    match prev {
        Some(p) => opt_view(p.activity),
        None => None,
    }
}

/// A new comment by someone else, or a newly unresolved thread, between
/// two fingerprints.
pub open spec fn fingerprint_grew(now: (Set<u64>, Set<Seq<char>>), before: (Set<u64>, Set<Seq<char>>)) -> bool {
    (exists|x: u64| now.0.contains(x) && !before.0.contains(x))
        || (exists|y: Seq<char>| now.1.contains(y) && !before.1.contains(y))
}

/// Whether a diffed item may interrupt: new items always; carried items
/// never; updated items when CI just broke, and — for `Authored` — also on a
/// new comment by someone else or a newly unresolved thread, while every
/// `ReviewedByMe` update (a new reply) counts.
pub open spec fn newly_relevant_spec(change_kind: ChangeKind, item: ActionItem, prev: Option<ActionItem>) -> bool {
    match change_kind {
        ChangeKind::New => true,
        ChangeKind::Carried => false,
        ChangeKind::Updated => match item.kind {
            ItemKind::Authored => fingerprint_grew(
                parse_fingerprint_spec(opt_view(item.activity)),
                parse_fingerprint_spec(prev_activity(prev)),
            ) || ci_turned_failing(item, prev),
            ItemKind::ReviewedByMe => true,
            _ => ci_turned_failing(item, prev),
        },
    }
}

/// Some id of `now` is missing from `before`.
fn ids_grew(now: &BTreeSet<u64>, before: &BTreeSet<u64>) -> (b: bool)
    ensures
        b == exists|x: u64| now@.contains(x) && !before@.contains(x),
{
    broadcast use vstd::std_specs::btree::group_btree_axioms;
    proof {
        crate::ordered::lemma_u64_ordered();
    }
    let ghost all = now.iter().remaining().unref();
    assert(all.to_set() == now@);
    for x in it: now.iter()
        invariant
            it.seq().unref() == all,
            all.to_set() == now@,
            forall|j: int| 0 <= j < it.index() ==> before@.contains(#[trigger] all[j]),
    {
        if !before.contains(x) {
            assert(all.contains(*x));
            assert(now@.contains(*x));
            return true;
        }
    }
    assert forall|x: u64| now@.contains(x) implies before@.contains(x) by {
        assert(all.to_set().contains(x));
        let j = choose|j: int| 0 <= j < all.len() && all[j] == x;
    }
    false
}

/// Some string of `now` is missing from `before`.
fn texts_grew(now: &Vec<String>, before: &Vec<String>) -> (b: bool)
    ensures
        b == exists|x: Seq<char>| views(now@).to_set().contains(x) && !views(before@).to_set().contains(x),
{
    let mut k: usize = 0;
    while k < now.len()
        invariant
            k <= now@.len(),
            forall|j: int| 0 <= j < k ==> views(before@).contains(#[trigger] views(now@)[j]),
        decreases now.len() - k,
    {
        let x = &now[k];
        let mut found = false;
        let mut j: usize = 0;
        while j < before.len()
            invariant
                j <= before@.len(),
                found == exists|i: int| 0 <= i < j && views(before@)[i] == x@,
            decreases before.len() - j,
        {
            assert(views(before@)[j as int] == before@[j as int]@);
            if before[j] == *x {
                found = true;
            }
            j += 1;
        }
        if !found {
            assert(views(now@)[k as int] == x@);
            assert(views(now@).to_set().contains(x@));
            return true;
        }
        k += 1;
    }
    assert forall|x: Seq<char>| views(now@).to_set().contains(x) implies views(before@).to_set().contains(x) by {
        let p = choose|p: int| 0 <= p < views(now@).len() && views(now@)[p] == x;
        assert(views(before@).contains(views(now@)[p]));
    }
    false
}

/// Whether CI has just turned to failing.
fn ci_just_failed(item: &ActionItem, prev: Option<&ActionItem>) -> (b: bool)
    ensures
        b == ci_turned_failing(*item, deref_opt(prev)),
{
    item.ci_status == CiStatus::Failing && match prev {
        Some(p) => p.ci_status != CiStatus::Failing,
        None => true,
    }
}

/// Whether a diffed item is worth considering for a notification.
pub fn newly_relevant(change_kind: ChangeKind, item: &ActionItem, prev: Option<&ActionItem>) -> (b: bool)
    ensures
        b == newly_relevant_spec(change_kind, *item, deref_opt(prev)),
{
    match change_kind {
        ChangeKind::New => true,
        ChangeKind::Carried => false,
        ChangeKind::Updated => match item.kind {
            ItemKind::Authored => {
                let prev_encoded: Option<&str> = match prev {
                    Some(p) => match &p.activity {
                        Some(a) => Some(a.as_str()),
                        None => None,
                    },
                    None => None,
                };
                let before = ActivityFingerprint::parse(prev_encoded);
                let now_encoded: Option<&str> = match &item.activity {
                    Some(a) => Some(a.as_str()),
                    None => None,
                };
                let fp = ActivityFingerprint::parse(now_encoded);
                ids_grew(&fp.comment_ids, &before.comment_ids)
                    || texts_grew(&fp.unresolved_thread_ids, &before.unresolved_thread_ids)
                    || ci_just_failed(item, prev)
            },
            ItemKind::ReviewedByMe => true,
            _ => ci_just_failed(item, prev),
        },
    }
}

/// `(repo, number)` is among `keys`.
pub open spec fn has_key(keys: Seq<(String, u64)>, repo: Seq<char>, number: u64) -> bool {
    exists|j: int| 0 <= j < keys.len() && (#[trigger] keys[j]).0@ == repo && keys[j].1 == number
}

/// A `/notifications` review request that the search already covers: the
/// search is authoritative for review requests, so a feed item for a PR it
/// lists (as still requested, or as already reviewed) is a duplicate or
/// stale. Feed items without a PR number are never dropped.
pub open spec fn superseded(
    item: ActionItem,
    account: Seq<char>,
    requested: Seq<(String, u64)>,
    reviewed: Seq<(String, u64)>,
) -> bool {
    &&& item.kind == ItemKind::ReviewRequested
    &&& starts_with(item.id@, account + ":notif:"@)
    &&& match pull_number_spec(item.url@) {
        Some(n) => has_key(requested, item.repo@, n) || has_key(reviewed, item.repo@, n),
        None => false,
    }
}

/// The fetched items that are not superseded, in order.
pub open spec fn kept_items(
    items: Seq<ActionItem>,
    account: Seq<char>,
    requested: Seq<(String, u64)>,
    reviewed: Seq<(String, u64)>,
) -> Seq<ActionItem>
    decreases items.len(),
{
    if items.len() == 0 {
        Seq::empty()
    } else {
        let rest = kept_items(items.drop_last(), account, requested, reviewed);
        if superseded(items.last(), account, requested, reviewed) {
            rest
        } else {
            rest.push(items.last())
        }
    }
}

/// Whether `(repo, number)` is among `keys`.
fn contains_key(keys: &[(String, u64)], repo: &String, number: u64) -> (b: bool)
    ensures
        b == has_key(keys@, repo@, number),
{
    let mut k: usize = 0;
    while k < keys.len()
        invariant
            k <= keys@.len(),
            forall|j: int| 0 <= j < k ==> !((#[trigger] keys@[j]).0@ == repo@ && keys@[j].1 == number),
        decreases keys.len() - k,
    {
        if keys[k].1 == number && keys[k].0 == *repo {
            return true;
        }
        k += 1;
    }
    false
}

/// Drops the `/notifications` review requests the search supersedes.
pub fn drop_superseded_requests(
    fetched: &[ActionItem],
    account_id: &str,
    review_requested_keys: &[(String, u64)],
    reviewed_by_me_keys: &[(String, u64)],
) -> (kept: Vec<ActionItem>)
    ensures
        kept@ == kept_items(fetched@, account_id@, review_requested_keys@, reviewed_by_me_keys@),
{
    let mut prefix = String::from_str(account_id);
    prefix.append(":notif:");
    let mut kept: Vec<ActionItem> = Vec::new();
    let mut k: usize = 0;
    while k < fetched.len()
        invariant
            k <= fetched@.len(),
            prefix@ == account_id@ + ":notif:"@,
            kept@ == kept_items(fetched@.subrange(0, k as int), account_id@, review_requested_keys@,
                reviewed_by_me_keys@),
        decreases fetched.len() - k,
    {
        assert(fetched@.subrange(0, k + 1).drop_last() =~= fetched@.subrange(0, k as int));
        let item = &fetched[k];
        let drop = if item.kind == ItemKind::ReviewRequested && str_starts_with(item.id.as_str(), prefix.as_str()) {
            match pull_number_from_url(item.url.as_str()) {
                Some(n) => contains_key(review_requested_keys, &item.repo, n)
                    || contains_key(reviewed_by_me_keys, &item.repo, n),
                None => false,
            }
        } else {
            false
        };
        if !drop {
            kept.push(clone_item(item));
        }
        k += 1;
    }
    assert(fetched@.subrange(0, fetched@.len() as int) =~= fetched@);
    kept
}

/// The stored row with id `id` (the last one, should ids repeat).
pub open spec fn prev_of(previous: Seq<ActionItem>, id: Seq<char>) -> Option<ActionItem> {
    let j = last_with_id(previous, id);
    if j < 0 {
        None
    } else {
        Some(previous[j])
    }
}

/// Whether the stored row exists and is archived.
pub open spec fn prev_archived(prev: Option<ActionItem>) -> bool {
    prev is Some && prev->0.archived
}

/// The fetched item with the stored `first_seen_at` carried over (for
/// every change but `New`).
pub open spec fn with_first_seen(change_kind: ChangeKind, item: ActionItem, prev: Option<ActionItem>) -> ActionItem {
    if change_kind != ChangeKind::New && prev is Some {
        ActionItem { first_seen_at: prev->0.first_seen_at, ..item }
    } else {
        item
    }
}

/// Whether the repository is muted for the account.
pub open spec fn is_muted(muted: Seq<String>, repo: Seq<char>) -> bool {
    exists|j: int| 0 <= j < muted.len() && (#[trigger] muted[j])@ == repo
}

/// The rows to write, in fetched order: every change that need not be
/// preserved, with `first_seen_at` carried over and `last_seen_at` = `now`.
pub open spec fn planned_upserts(previous: Seq<ActionItem>, kept: Seq<ActionItem>, now: String) -> Seq<ActionItem>
    decreases kept.len(),
{
    if kept.len() == 0 {
        Seq::empty()
    } else {
        let rest = planned_upserts(previous, kept.drop_last(), now);
        let it = kept.last();
        let ck = change_kind_of(previous, it);
        let prev = prev_of(previous, it.id@);
        if preserve_spec(ck, prev_archived(prev)) {
            rest
        } else {
            rest.push(ActionItem { last_seen_at: now, ..with_first_seen(ck, it, prev) })
        }
    }
}

/// The items eligible to notify, in fetched order: not preserved, newly
/// relevant, in an unmuted repository and of an enabled kind.
pub open spec fn candidate_items(
    previous: Seq<ActionItem>,
    kept: Seq<ActionItem>,
    muted: Seq<String>,
    disabled: Seq<ItemKind>,
) -> Seq<ActionItem>
    decreases kept.len(),
{
    if kept.len() == 0 {
        Seq::empty()
    } else {
        let rest = candidate_items(previous, kept.drop_last(), muted, disabled);
        let it = kept.last();
        let ck = change_kind_of(previous, it);
        let prev = prev_of(previous, it.id@);
        let adj = with_first_seen(ck, it, prev);
        if !preserve_spec(ck, prev_archived(prev)) && newly_relevant_spec(ck, adj, prev)
            && !is_muted(muted, adj.repo@) && !disabled.contains(adj.kind) {
            rest.push(adj)
        } else {
            rest
        }
    }
}

/// The resolved ids to mark done: all but those of archived rows.
pub open spec fn planned_done(resolved: Seq<Seq<char>>, previous: Seq<ActionItem>) -> Seq<Seq<char>>
    decreases resolved.len(),
{
    if resolved.len() == 0 {
        Seq::empty()
    } else {
        let rest = planned_done(resolved.drop_last(), previous);
        if prev_archived(prev_of(previous, resolved.last())) {
            rest
        } else {
            rest.push(resolved.last())
        }
    }
}

/// What one account's poll does to the store, and what it may notify.
#[derive(Debug, Clone, PartialEq, Eq)]
pub struct AccountPollPlan {
    /// Rows to upsert, in order.
    pub upserts: Vec<ActionItem>,
    /// Scored items eligible for a notification, before gating.
    pub candidates: Vec<ScoredItem>,
    /// Ids of rows resolved upstream, to mark done.
    pub mark_done: Vec<String>,
}

/// The stored row with id `id`, if any.
fn find_prev<'a>(previous: &'a [ActionItem], id: &String) -> (r: Option<&'a ActionItem>)
    ensures
        deref_opt(r) == prev_of(previous@, id@),
{
    proof {
        lemma_last_with_id_bounds(previous@, id@);
    }
    let mut k = previous.len();
    assert(previous@.subrange(0, k as int) =~= previous@);
    while k > 0
        invariant
            k <= previous@.len(),
            last_with_id(previous@, id@) == last_with_id(previous@.subrange(0, k as int), id@),
        decreases k,
    {
        assert(previous@.subrange(0, k as int).drop_last() =~= previous@.subrange(0, k - 1));
        if previous[k - 1].id == *id {
            return Some(&previous[k - 1]);
        }
        k -= 1;
    }
    None
}

/// Decides one account's poll: drops the feed's superseded review
/// requests, diffs the rest against the stored rows, and lists the rows to
/// write (local state preserved for carried and archived rows), the
/// notification candidates (scored as of `now`), and the resolved rows to
/// mark done (archived rows stay archived).
pub fn plan_account_poll(
    account_id: &str,
    fetched: &[ActionItem],
    review_requested_keys: &[(String, u64)],
    reviewed_by_me_keys: &[(String, u64)],
    muted_repos: &[String],
    disabled_kinds: &[ItemKind],
    previous: &[ActionItem],
    rules: &[Rule],
    now: UnixTime,
    now_text: String,
) -> (plan: AccountPollPlan)
    requires
        rules@.len() < 0x8000_0000_0000_0000,
    ensures
        ({
            let kept = kept_items(fetched@, account_id@, review_requested_keys@, reviewed_by_me_keys@);
            let cands = candidate_items(previous@, kept, muted_repos@, disabled_kinds@);
            &&& plan.upserts@ == planned_upserts(previous@, kept, now_text)
            &&& plan.candidates@.len() == cands.len()
            &&& forall|k: int| 0 <= k < cands.len()
                ==> scored_as(#[trigger] plan.candidates@[k], cands[k], rules@, now)
            &&& views(plan.mark_done@) == planned_done(resolved_spec(previous@, kept), previous@)
        }),
{
    let kept = drop_superseded_requests(fetched, account_id, review_requested_keys, reviewed_by_me_keys);
    let d: Diff = diff(previous, kept.as_slice());
    let ghost kv = kept@;
    let mut upserts: Vec<ActionItem> = Vec::new();
    let mut candidates: Vec<ScoredItem> = Vec::new();
    let mut k: usize = 0;
    while k < d.changes.len()
        invariant
            rules@.len() < 0x8000_0000_0000_0000,
            kv == kept@,
            d.changes@.len() == kv.len(),
            forall|j: int| 0 <= j < kv.len() ==> #[trigger] d.changes@[j] == (change_kind_of(previous@, kv[j]), kv[j]),
            k <= kv.len(),
            upserts@ == planned_upserts(previous@, kv.subrange(0, k as int), now_text),
            candidates@.len() == candidate_items(previous@, kv.subrange(0, k as int), muted_repos@, disabled_kinds@).len(),
            forall|j: int| 0 <= j < candidates@.len() ==> scored_as(#[trigger] candidates@[j],
                candidate_items(previous@, kv.subrange(0, k as int), muted_repos@, disabled_kinds@)[j], rules@, now),
        decreases d.changes.len() - k,
    {
        let ghost sub = kv.subrange(0, k + 1);
        assert(sub.drop_last() =~= kv.subrange(0, k as int));
        assert(sub.last() == kv[k as int]);
        let ghost before_c = candidate_items(previous@, kv.subrange(0, k as int), muted_repos@, disabled_kinds@);
        let change_kind = d.changes[k].0;
        let mut item = clone_item(&d.changes[k].1);
        let prev = find_prev(previous, &item.id);
        let archived = match prev {
            Some(p) => p.archived,
            None => false,
        };
        let preserve = should_preserve_local_state(change_kind, archived);
        if change_kind != ChangeKind::New {
            match prev {
                Some(p) => {
                    item.first_seen_at = p.first_seen_at.clone();
                },
                None => {},
            }
        }
        assert(item == with_first_seen(change_kind, kv[k as int], deref_opt(prev)));
        if !preserve && newly_relevant(change_kind, &item, prev) && !repo_muted(muted_repos, &item.repo)
            && !kind_disabled(disabled_kinds, item.kind) {
            candidates.push(score_item(&item, rules, now));
            assert(candidate_items(previous@, sub, muted_repos@, disabled_kinds@) == before_c.push(item));
        } else {
            assert(candidate_items(previous@, sub, muted_repos@, disabled_kinds@) == before_c);
        }
        item.last_seen_at = now_text.clone();
        if !preserve {
            upserts.push(item);
        }
        k += 1;
    }
    assert(kv.subrange(0, kv.len() as int) =~= kv);
    let mut mark_done: Vec<String> = Vec::new();
    let ghost rs = views(d.resolved_ids@);
    let mut k: usize = 0;
    assert(rs.subrange(0, 0) =~= Seq::<Seq<char>>::empty());
    while k < d.resolved_ids.len()
        invariant
            rs == views(d.resolved_ids@),
            k <= rs.len(),
            views(mark_done@) == planned_done(rs.subrange(0, k as int), previous@),
        decreases d.resolved_ids.len() - k,
    {
        assert(rs.subrange(0, k + 1).drop_last() =~= rs.subrange(0, k as int));
        assert(rs[k as int] == d.resolved_ids@[k as int]@);
        let id = &d.resolved_ids[k];
        let archived = match find_prev(previous, id) {
            Some(p) => p.archived,
            None => false,
        };
        if !archived {
            let ghost before = views(mark_done@);
            mark_done.push(id.clone());
            assert(views(mark_done@) =~= before.push(rs[k as int]));
        }
        k += 1;
    }
    assert(rs.subrange(0, rs.len() as int) =~= rs);
    AccountPollPlan { upserts, candidates, mark_done }
}

/// Whether `repo` is among the muted repositories.
fn repo_muted(muted: &[String], repo: &String) -> (b: bool)
    ensures
        b == is_muted(muted@, repo@),
{
    let mut k: usize = 0;
    while k < muted.len()
        invariant
            k <= muted@.len(),
            forall|j: int| 0 <= j < k ==> (#[trigger] muted@[j])@ != repo@,
        decreases muted.len() - k,
    {
        if muted[k] == *repo {
            return true;
        }
        k += 1;
    }
    false
}

/// Whether notifications are disabled for `kind`.
fn kind_disabled(disabled: &[ItemKind], kind: ItemKind) -> (b: bool)
    ensures
        b == disabled@.contains(kind),
{
    let mut k: usize = 0;
    while k < disabled.len()
        invariant
            k <= disabled@.len(),
            forall|j: int| 0 <= j < k ==> disabled@[j] != kind,
        decreases disabled.len() - k,
    {
        if disabled[k] == kind {
            return true;
        }
        k += 1;
    }
    false
}

/// The candidates allowed to notify, in order.
pub open spec fn gated(prev_top_score: Option<u32>, candidates: Seq<ScoredItem>) -> Seq<ScoredItem>
    decreases candidates.len(),
{
    if candidates.len() == 0 {
        Seq::empty()
    } else {
        let rest = gated(prev_top_score, candidates.drop_last());
        if should_notify_spec(prev_top_score, candidates.last()) {
            rest.push(candidates.last())
        } else {
            rest
        }
    }
}

/// The notifications of a cycle: the candidates of every account that pass
/// the notification check against the top score before the poll, highest score first,
/// ties in candidate order.
pub fn select_notifications(prev_top_score: Option<u32>, candidates: Vec<ScoredItem>) -> (out: Vec<ScoredItem>)
    ensures
        exists|idx: Seq<int>| stably_sorted_by(gated(prev_top_score, candidates@), out@, idx, false),
{
    let mut passed: Vec<ScoredItem> = Vec::new();
    let mut k: usize = 0;
    while k < candidates.len()
        invariant
            k <= candidates@.len(),
            passed@ == gated(prev_top_score, candidates@.subrange(0, k as int)),
        decreases candidates.len() - k,
    {
        assert(candidates@.subrange(0, k + 1).drop_last() =~= candidates@.subrange(0, k as int));
        if should_notify(prev_top_score, &candidates[k]) {
            let c = &candidates[k];
            passed.push(ScoredItem { item: clone_item(&c.item), score: c.score, severity: c.severity, muted: c.muted });
        }
        k += 1;
    }
    assert(candidates@.subrange(0, candidates@.len() as int) =~= candidates@);
    sort_scored(passed, false)
}

/// The score the engine gives an item.
pub open spec fn engine_score(item: ActionItem, rules: Seq<Rule>, now: UnixTime) -> int {
    clamp_score(raw_score(item, rules, now))
}

/// The top score across the open items before a poll: the highest score
/// the engine gives any of them, `None` when nothing is open.
pub fn prev_top_score(open_items: &[ActionItem], rules: &[Rule], now: UnixTime) -> (r: Option<u32>)
    requires
        rules@.len() < 0x8000_0000_0000_0000,
    ensures
        r is None <==> open_items@.len() == 0,
        r matches Some(top) ==> {
            &&& exists|k: int| 0 <= k < open_items@.len()
                && top as int == engine_score(#[trigger] open_items@[k], rules@, now)
            &&& forall|k: int| 0 <= k < open_items@.len()
                ==> engine_score(#[trigger] open_items@[k], rules@, now) <= top
        },
{
    let scored = score_all(open_items, rules, now);
    let ghost (sc, idx) = choose|sc: Seq<ScoredItem>, idx: Seq<int>| {
        &&& sc.len() == open_items@.len()
        &&& forall|k: int| 0 <= k < open_items@.len() ==> scored_as(#[trigger] sc[k], open_items@[k], rules@, now)
        &&& stably_sorted_by(sc, scored@, idx, true)
    };
    if scored.len() == 0 {
        return None;
    }
    let top = scored[0].score;
    proof {
        assert(scored@[0] == sc[idx[0]]);
        assert(scored_as(sc[idx[0]], open_items@[idx[0]], rules@, now));
        lemma_idx_onto(idx, sc.len() as int);
        assert forall|k: int| 0 <= k < open_items@.len()
            implies engine_score(#[trigger] open_items@[k], rules@, now) <= top by {
            assert(scored_as(sc[k], open_items@[k], rules@, now));
            // `k` sits somewhere in the output; everything after the head ranks no higher.
            assert(idx.contains(k));
            let p = choose|p: int| 0 <= p < idx.len() && idx[p] == k;
            if p > 0 {
                assert(ranks_before(scored@[0], scored@[p], true) || ties(scored@[0], scored@[p], true));
            }
        }
    }
    Some(top)
}

/// The interval a cycle asks for: the rate-limit backoff when any account
/// hit the limit, otherwise the largest interval any account requested.
pub open spec fn cycle_interval_spec(hit_rate_limit: bool, requested: Seq<Option<u64>>) -> Option<u64>
    decreases requested.len(),
{
    if hit_rate_limit {
        Some(RATE_LIMIT_BACKOFF_SECS)
    } else if requested.len() == 0 {
        None
    } else {
        let rest = cycle_interval_spec(false, requested.drop_last());
        match (rest, requested.last()) {
            (Some(a), Some(b)) => Some(if a < b { b } else { a }),
            (None, b) => b,
            (a, None) => a,
        }
    }
}

/// Backoff, in seconds, after a poll hits a GitHub rate limit.
pub const RATE_LIMIT_BACKOFF_SECS: u64 = 300;

/// The interval a cycle asks for, from each account's requested interval.
pub fn cycle_interval(hit_rate_limit: bool, requested: &[Option<u64>]) -> (r: Option<u64>)
    ensures
        r == cycle_interval_spec(hit_rate_limit, requested@),
{
    if hit_rate_limit {
        return Some(RATE_LIMIT_BACKOFF_SECS);
    }
    let mut best: Option<u64> = None;
    let mut k: usize = 0;
    while k < requested.len()
        invariant
            k <= requested@.len(),
            best == cycle_interval_spec(false, requested@.subrange(0, k as int)),
        decreases requested.len() - k,
    {
        assert(requested@.subrange(0, k + 1).drop_last() =~= requested@.subrange(0, k as int));
        best = match (best, requested[k]) {
            (Some(a), Some(b)) => Some(if a < b { b } else { a }),
            (None, b) => b,
            (a, None) => a,
        };
        k += 1;
    }
    assert(requested@.subrange(0, requested@.len() as int) =~= requested@);
    best
}

/// The sleep before the next cycle: raised (never lowered) to what GitHub
/// asked for.
pub fn next_interval(current: u64, requested: Option<u64>) -> (r: u64)
    ensures
        r == match requested {
            Some(q) => if current < q { q } else { current },
            None => current,
        },
{
    match requested {
        Some(q) => if current < q { q } else { current },
        None => current,
    }
}

/// Archived rows are always left alone, and so are carried ones.
pub proof fn lemma_preserve_cases(change_kind: ChangeKind, prev_archived: bool)
    ensures
        prev_archived ==> preserve_spec(change_kind, prev_archived),
        change_kind == ChangeKind::Carried ==> preserve_spec(change_kind, prev_archived),
        !prev_archived && change_kind != ChangeKind::Carried ==> !preserve_spec(change_kind, prev_archived),
{
}

/// New items always count for a notification; carried ones never do.
pub proof fn lemma_new_and_carried_relevance(item: ActionItem, prev: Option<ActionItem>)
    ensures
        newly_relevant_spec(ChangeKind::New, item, prev),
        !newly_relevant_spec(ChangeKind::Carried, item, prev),
{
}

/// A poll never writes over an archived row: no planned upsert has the id
/// of an archived stored row, and every planned upsert is stamped `now`.
pub proof fn lemma_upserts_spare_archived(previous: Seq<ActionItem>, kept: Seq<ActionItem>, now: String)
    ensures
        forall|i: int| 0 <= i < planned_upserts(previous, kept, now).len() ==> {
            &&& !prev_archived(prev_of(previous, (#[trigger] planned_upserts(previous, kept, now)[i]).id@))
            &&& planned_upserts(previous, kept, now)[i].last_seen_at == now
        },
    decreases kept.len(),
{
    if kept.len() > 0 {
        lemma_upserts_spare_archived(previous, kept.drop_last(), now);
        let rest = planned_upserts(previous, kept.drop_last(), now);
        let up = planned_upserts(previous, kept, now);
        assert forall|i: int| 0 <= i < up.len() implies {
            &&& !prev_archived(prev_of(previous, (#[trigger] up[i]).id@))
            &&& up[i].last_seen_at == now
        } by {
            if i < rest.len() {
                assert(up[i] == rest[i]);
            }
        }
    }
}

/// A resolved row that is archived stays archived: it is never marked done.
pub proof fn lemma_done_spares_archived(resolved: Seq<Seq<char>>, previous: Seq<ActionItem>)
    ensures
        forall|i: int| 0 <= i < planned_done(resolved, previous).len()
            ==> !prev_archived(prev_of(previous, #[trigger] planned_done(resolved, previous)[i])),
    decreases resolved.len(),
{
    if resolved.len() > 0 {
        lemma_done_spares_archived(resolved.drop_last(), previous);
        let rest = planned_done(resolved.drop_last(), previous);
        let d = planned_done(resolved, previous);
        assert forall|i: int| 0 <= i < d.len() implies !prev_archived(prev_of(previous, #[trigger] d[i])) by {
            if i < rest.len() {
                assert(d[i] == rest[i]);
            }
        }
    }
}

/// Everything the cycle notifies was allowed to notify and was a candidate.
pub proof fn lemma_gated_pass(prev_top_score: Option<u32>, candidates: Seq<ScoredItem>)
    ensures
        forall|i: int| 0 <= i < gated(prev_top_score, candidates).len() ==> {
            &&& should_notify_spec(prev_top_score, #[trigger] gated(prev_top_score, candidates)[i])
            &&& candidates.contains(gated(prev_top_score, candidates)[i])
        },
    decreases candidates.len(),
{
    if candidates.len() > 0 {
        let rest_c = candidates.drop_last();
        lemma_gated_pass(prev_top_score, rest_c);
        let rest = gated(prev_top_score, rest_c);
        let g = gated(prev_top_score, candidates);
        assert forall|i: int| 0 <= i < g.len() implies {
            &&& should_notify_spec(prev_top_score, #[trigger] g[i])
            &&& candidates.contains(g[i])
        } by {
            if i < rest.len() {
                assert(g[i] == rest[i]);
                assert(rest_c.contains(rest[i]));
                let j = choose|j: int| 0 <= j < rest_c.len() && rest_c[j] == rest[i];
                assert(candidates[j] == rest_c[j]);
            } else {
                assert(candidates[candidates.len() - 1] == g[i]);
            }
        }
    }
}

/// The round trip for sets given by increasing listings.
proof fn fingerprint_round_trip_listed(cs: Seq<u64>, us: Seq<Seq<char>>)
    requires
        sorted_u64(cs),
        sorted_strs(us),
        forall|i: int| 0 <= i < us.len() ==> (#[trigger] us[i]).len() > 0 && !us[i].contains(',') && !us[i].contains(';'),
    ensures
        parse_fingerprint_spec(Some(fingerprint_text(cs.to_set(), us.to_set()))) == (cs.to_set(), us.to_set()),
{
    reveal_strlit("c:");
    reveal_strlit(";u:");
    lemma_ordered_u64_of(cs);
    lemma_ordered_strs_of(us);
    let jd = join_decimal(cs);
    let js = join_strs(us);
    let p1 = "c:"@ + jd;
    let p2 = "u:"@ + js;
    reveal_strlit("u:");
    let text = fingerprint_text(cs.to_set(), us.to_set());
    assert(text =~= p1 + seq![';'] + p2);
    lemma_join_decimal_chars(cs);
    if p1.contains(';') {
        let k = choose|k: int| 0 <= k < p1.len() && p1[k] == ';';
        assert(jd[k - 2] == ';');
    }
    lemma_join_strs_avoids(us, ';');
    if p2.contains(';') {
        let k = choose|k: int| 0 <= k < p2.len() && p2[k] == ';';
        assert(js.contains(';')) by {
            assert(js[k - 2] == ';');
        }
    }
    lemma_split_on_concat(p1, p2, ';');
    lemma_split_on_plain(p1, ';');
    lemma_split_on_plain(p2, ';');
    let parts = split_on(text, ';');
    assert(parts =~= seq![p1, p2]);
    assert(parts.drop_last() =~= seq![p1]);
    assert(seq![p1].drop_last() =~= Seq::<Seq<char>>::empty());
    assert(p1.skip(2) =~= jd);
    assert(p2.skip(2) =~= js);
    assert(has_tag(p1, 'c', ':'));
    assert(!has_tag(p2, 'c', ':') && has_tag(p2, 'u', ':'));
    assert(fingerprint_parts(Seq::<Seq<char>>::empty()) == (Set::<u64>::empty(), Set::<Seq<char>>::empty()));
    assert(seq![p1].last() == p1);
    assert(fingerprint_parts(seq![p1]) == (id_set(jd), Set::<Seq<char>>::empty()));
    assert(parts.last() == p2);
    assert(fingerprint_parts(parts) == (id_set(jd), piece_set(js)));
    lemma_split_join_decimal(cs);
    assert forall|x: u64| #[trigger] id_set(jd).contains(x) <==> cs.to_set().contains(x) by {
        if cs.len() == 0 {
            assert(parse_u64_spec(Seq::<char>::empty()) is None);
        } else {
            if cs.contains(x) {
                let k = choose|k: int| 0 <= k < cs.len() && cs[k] == x;
                lemma_decimal_parses_back(x);
                assert(split_on(jd, ',')[k] == decimal(x as nat));
            }
            if id_set(jd).contains(x) {
                let k = choose|k: int| 0 <= k < split_on(jd, ',').len() && parse_u64_spec(#[trigger] split_on(jd, ',')[k]) == Some(x);
                lemma_decimal_parses_back(cs[k]);
                assert(split_on(jd, ',')[k] == decimal(cs[k] as nat));
                assert(cs.contains(x));
            }
        }
    }
    assert(id_set(jd) =~= cs.to_set());
    assert forall|i: int| 0 <= i < us.len() implies !(#[trigger] us[i]).contains(',') by {}
    lemma_split_join_strs(us);
    assert forall|x: Seq<char>| #[trigger] piece_set(js).contains(x) <==> us.to_set().contains(x) by {
        if us.len() == 0 {
            if split_on(js, ',').contains(x) {
                let k = choose|k: int| 0 <= k < split_on(js, ',').len() && split_on(js, ',')[k] == x;
                assert(x.len() == 0);
            }
        } else {
            if us.contains(x) {
                let k = choose|k: int| 0 <= k < us.len() && us[k] == x;
                assert(x.len() > 0);
            }
        }
    }
    assert(piece_set(js) =~= us.to_set());
}

/// An activity fingerprint reads back as the sets it was written from:
/// for any finite set of comment ids and finite set of unresolved-thread
/// ids, each thread id non-empty and free of `,` and `;`, parsing the text
/// written for them yields exactly those two sets.
pub proof fn lemma_fingerprint_round_trip(comment_ids: Set<u64>, thread_ids: Set<Seq<char>>)
    requires
        comment_ids.finite(),
        thread_ids.finite(),
        forall|t: Seq<char>| #[trigger] thread_ids.contains(t) ==> t.len() > 0 && !t.contains(',') && !t.contains(';'),
    ensures
        parse_fingerprint_spec(Some(fingerprint_text(comment_ids, thread_ids))) == (comment_ids, thread_ids),
{
    lemma_ordered_u64_exists(comment_ids);
    lemma_ordered_strs_exists(thread_ids);
    let cs = ordered_u64(comment_ids);
    let us = ordered_strs(thread_ids);
    assert forall|i: int| 0 <= i < us.len() implies (#[trigger] us[i]).len() > 0 && !us[i].contains(',')
        && !us[i].contains(';') by {
        assert(us.to_set().contains(us[i]));
    }
    fingerprint_round_trip_listed(cs, us);
}

/// Notification preferences only silence: no notification candidate is of
/// a kind whose notifications are turned off, or from a muted repository.
/// (The rows written, [`planned_upserts`], do not depend on either list.)
pub proof fn lemma_candidates_respect_preferences(
    previous: Seq<ActionItem>,
    kept: Seq<ActionItem>,
    muted: Seq<String>,
    disabled: Seq<ItemKind>,
)
    ensures
        forall|j: int| 0 <= j < candidate_items(previous, kept, muted, disabled).len() ==> {
            let c = #[trigger] candidate_items(previous, kept, muted, disabled)[j];
            !disabled.contains(c.kind) && !is_muted(muted, c.repo@)
        },
    decreases kept.len(),
{
    if kept.len() > 0 {
        lemma_candidates_respect_preferences(previous, kept.drop_last(), muted, disabled);
    }
}

/// Activity already seen never notifies twice: an authored PR updated with
/// the same activity fingerprint as its stored row, and CI not just turned
/// failing, is not newly relevant.
pub proof fn lemma_seen_activity_is_quiet(item: ActionItem, prev: ActionItem)
    requires
        item.kind == ItemKind::Authored,
        opt_view(item.activity) == opt_view(prev.activity),
        !ci_turned_failing(item, Some(prev)),
    ensures
        !newly_relevant_spec(ChangeKind::Updated, item, Some(prev)),
{
}

/// An error reads as GitHub's rate limit when its message, lowercased,
/// says `rate limit exceeded` (GitHub's wording once the hourly quota is
/// spent).
pub open spec fn rate_limit_spec(message: Seq<char>) -> bool {
    crate::text::contains_text(crate::pr::lowercase(message), "rate limit exceeded"@)
}

/// Whether a failed poll's error message is a rate-limit refusal.
pub fn is_rate_limit_message(message: &str) -> (b: bool)
    ensures
        b == rate_limit_spec(message@),
{
    let lower = crate::pr::to_lower(message);
    crate::text::contains_str(lower.as_str(), "rate limit exceeded")
}

} // verus!
