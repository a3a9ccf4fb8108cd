//! The priority engine: base score per kind, plus every matching rule's
//! modifier, plus age escalation, mapped to a severity band. Also the
//! notification gate: you are interrupted only by something that outranks
//! what was already at the top of your list.

use vstd::prelude::*;
use crate::clock::{elapsed_hours, hours_since, UnixTime};
use crate::item::{ActionItem, ItemKind, clone_item};
use crate::severity::{Severity, ScoredItem, band_of, rank, severity_rank};
use crate::text::chars_of;
use crate::order::{sort_scored, stably_sorted_by};

verus! {

/// Base score per item kind, before rules and age.
pub open spec fn base_score(kind: ItemKind) -> int {
    match kind {
        ItemKind::CiFailed => 100,
        ItemKind::ReviewRequested => 80,
        ItemKind::ReviewStateChanged => 70,
        ItemKind::ReadyToMerge => 65,
        ItemKind::Mentioned => 50,
        ItemKind::ReviewedByMe => 45,
        ItemKind::Assigned => 40,
        ItemKind::Authored => 30,
        ItemKind::Participating => 20,
    }
}

/// Base score per item kind, before rules and age.
pub fn kind_base_score(kind: ItemKind) -> (s: i64)
    ensures
        s as int == base_score(kind),
{
    match kind {
        ItemKind::CiFailed => 100,
        ItemKind::ReviewRequested => 80,
        ItemKind::ReviewStateChanged => 70,
        ItemKind::ReadyToMerge => 65,
        ItemKind::Mentioned => 50,
        ItemKind::ReviewedByMe => 45,
        ItemKind::Assigned => 40,
        ItemKind::Authored => 30,
        ItemKind::Participating => 20,
    }
}

/// An item gains a point every four hours it stays open…
pub const AGE_POINTS_PER_HOURS: i64 = 4;

/// …up to this cap.
pub const MAX_AGE_BONUS: i64 = 30;

/// What an item must look like for a [`Rule`] to apply. Every present field
/// must match; absent fields don't constrain.
#[derive(Debug, Clone, Default)]
pub struct RuleMatch {
    /// Match any of these kinds.
    pub kind: Option<Vec<ItemKind>>,
    /// Match a repository, optionally with a trailing `*` wildcard.
    pub repo: Option<String>,
    /// Match any of these author logins.
    pub author: Option<Vec<String>>,
}

/// What a matching [`Rule`] does to an item.
#[derive(Debug, Clone, Default)]
pub struct RuleEffect {
    /// Added to the score; may be negative.
    pub add: Option<i64>,
    /// Forces the severity band regardless of score.
    pub pin_severity: Option<Severity>,
    /// Silences desktop notifications for matching items.
    pub mute_notifications: Option<bool>,
}

/// One user-configurable priority rule.
#[derive(Debug, Clone)]
pub struct Rule {
    /// Stable identifier.
    pub id: String,
    /// Disabled rules are kept in config but skipped.
    pub enabled: bool,
    /// Conditions.
    pub match_: RuleMatch,
    /// Consequences.
    pub effect: RuleEffect,
}

/// Whether an absent `enabled` key means enabled: it does.
pub fn default_true() -> (b: bool)
    ensures
        b,
{
    true
}

/// The rules shipped when the user has no config of their own: mute
/// `Participating` items (they stay listed).
pub fn default_rules() -> (rules: Vec<Rule>)
    ensures
        rules@.len() == 1,
        rules@[0].id@ == "mute-participating"@,
        rules@[0].enabled,
        rules@[0].match_.kind matches Some(ks) && ks@ == seq![ItemKind::Participating],
        rules@[0].match_.repo is None,
        rules@[0].match_.author is None,
        rules@[0].effect.add is None,
        rules@[0].effect.pin_severity is None,
        rules@[0].effect.mute_notifications == Some(true),
{
    let mut kinds = Vec::new();
    kinds.push(ItemKind::Participating);
    let mut rules = Vec::new();
    rules.push(
        Rule {
            id: String::from_str("mute-participating"),
            enabled: true,
            match_: RuleMatch { kind: Some(kinds), repo: None, author: None },
            effect: RuleEffect { add: None, pin_severity: None, mute_notifications: Some(true) },
        },
    );
    assert(rules@[0].match_.kind->0@ =~= seq![ItemKind::Participating]);
    rules
}

/// A repository pattern matches: a trailing `*` matches by prefix, anything
/// else must be equal.
pub open spec fn repo_matches_spec(pattern: Seq<char>, repo: Seq<char>) -> bool {
    if pattern.len() > 0 && pattern.last() == '*' {
        let prefix = pattern.drop_last();
        prefix.len() <= repo.len() && repo.subrange(0, prefix.len() as int) == prefix
    } else {
        pattern == repo
    }
}

/// Matches a repo against a pattern that may end in `*`.
pub fn repo_matches(pattern: &str, repo: &str) -> (b: bool)
    ensures
        b == repo_matches_spec(pattern@, repo@),
{
    let p = chars_of(pattern);
    let r = chars_of(repo);
    if p.len() > 0 && p[p.len() - 1] == '*' {
        let plen = p.len() - 1;
        if plen > r.len() {
            return false;
        }
        let mut k: usize = 0;
        while k < plen
            invariant
                p@ == pattern@,
                r@ == repo@,
                p@.len() > 0,
                plen == p@.len() - 1,
                plen <= r@.len(),
                k <= plen,
                forall|j: int| 0 <= j < k ==> r@[j] == p@[j],
            decreases plen - k,
        {
            if p[k] != r[k] {
                assert(r@.subrange(0, plen as int)[k as int] != pattern@.drop_last()[k as int]);
                return false;
            }
            k += 1;
        }
        assert(repo@.subrange(0, plen as int) =~= pattern@.drop_last());
        true
    } else {
        let mut same = p.len() == r.len();
        let mut k: usize = 0;
        while same && k < p.len()
            invariant
                p@ == pattern@,
                r@ == repo@,
                k <= p@.len(),
                same ==> p@.len() == r@.len(),
                same ==> forall|j: int| 0 <= j < k ==> r@[j] == p@[j],
                !same ==> pattern@ != repo@,
            decreases p.len() - k,
        {
            if p[k] != r[k] {
                same = false;
            }
            k += 1;
        }
        if same {
            assert(pattern@ =~= repo@);
        }
        same
    }
}

/// Whether a rule applies to an item: enabled, and every present condition
/// holds.
pub open spec fn rule_applies_spec(rule: Rule, item: ActionItem) -> bool {
    &&& rule.enabled
    &&& match rule.match_.kind {
        Some(ks) => ks@.contains(item.kind),
        None => true,
    }
    &&& match rule.match_.repo {
        Some(p) => repo_matches_spec(p@, item.repo@),
        None => true,
    }
    &&& match rule.match_.author {
        Some(a) => exists|k: int| 0 <= k < a@.len() && a@[k]@ == item.author@,
        None => true,
    }
}

/// Whether `rule` applies to `item`.
pub fn rule_applies(rule: &Rule, item: &ActionItem) -> (b: bool)
    ensures
        b == rule_applies_spec(*rule, *item),
{
    if !rule.enabled {
        return false;
    }
    match &rule.match_.kind {
        Some(kinds) => {
            let mut found = false;
            let mut k: usize = 0;
            while k < kinds.len()
                invariant
                    k <= kinds@.len(),
                    found == exists|j: int| 0 <= j < k && kinds@[j] == item.kind,
                decreases kinds.len() - k,
            {
                if kinds[k] == item.kind {
                    found = true;
                }
                k += 1;
            }
            if !found {
                return false;
            }
        },
        None => {},
    }
    match &rule.match_.repo {
        Some(pattern) => {
            if !repo_matches(pattern.as_str(), item.repo.as_str()) {
                return false;
            }
        },
        None => {},
    }
    match &rule.match_.author {
        Some(authors) => {
            let mut found = false;
            let mut k: usize = 0;
            while k < authors.len()
                invariant
                    k <= authors@.len(),
                    found == exists|j: int| 0 <= j < k && authors@[j]@ == item.author@,
                decreases authors.len() - k,
            {
                if authors[k] == item.author {
                    found = true;
                }
                k += 1;
            }
            if !found {
                return false;
            }
        },
        None => {},
    }
    true
}

/// Sum of the `add` modifiers of the rules that apply.
pub open spec fn rules_add(item: ActionItem, rules: Seq<Rule>) -> int
    decreases rules.len(),
{
    if rules.len() == 0 {
        0
    } else {
        rules_add(item, rules.drop_last()) + if rule_applies_spec(rules.last(), item) {
            match rules.last().effect.add {
                Some(a) => a as int,
                None => 0,
            }
        } else {
            0
        }
    }
}

/// The pinned severity of the last applying rule that pins one.
pub open spec fn rules_pin(item: ActionItem, rules: Seq<Rule>) -> Option<Severity>
    decreases rules.len(),
{
    if rules.len() == 0 {
        None
    } else if rule_applies_spec(rules.last(), item) && rules.last().effect.pin_severity is Some {
        rules.last().effect.pin_severity
    } else {
        rules_pin(item, rules.drop_last())
    }
}

/// Whether some applying rule mutes notifications.
pub open spec fn rules_mute(item: ActionItem, rules: Seq<Rule>) -> bool {
    exists|k: int|
        0 <= k < rules.len() && rule_applies_spec(#[trigger] rules[k], item)
            && rules[k].effect.mute_notifications == Some(true)
}

/// Age bonus: a point per four whole hours since `created_at`, capped; an
/// unparseable or future timestamp gives none.
pub open spec fn age_bonus_spec(now: UnixTime, created: Seq<char>) -> int {
    match elapsed_hours(now, created) {
        Some(h) => if h <= 0 {
            0
        } else if h / 4 < 30 {
            h / 4
        } else {
            30
        },
        None => 0,
    }
}

/// Base plus age plus rule modifiers, before clamping.
pub open spec fn raw_score(item: ActionItem, rules: Seq<Rule>, now: UnixTime) -> int {
    base_score(item.kind) + age_bonus_spec(now, item.created_at@) + rules_add(item, rules)
}

/// A score clamped to `1..=u32::MAX`: a rule may demote an item but never
/// make it score zero, which is reserved for "nothing open".
pub open spec fn clamp_score(s: int) -> int {
    if s < 1 {
        1
    } else if s > u32::MAX {
        u32::MAX as int
    } else {
        s
    }
}

/// What the engine says of one item.
pub open spec fn scored_as(r: ScoredItem, item: ActionItem, rules: Seq<Rule>, now: UnixTime) -> bool {
    &&& r.item == item
    &&& r.score as int == clamp_score(raw_score(item, rules, now))
    &&& r.severity == match rules_pin(item, rules) {
        Some(s) => s,
        None => band_of(r.score as int),
    }
    &&& r.muted == rules_mute(item, rules)
}

/// Age bonus for an item as of `now`.
pub fn age_bonus(item: &ActionItem, now: UnixTime) -> (b: i64)
    ensures
        b as int == age_bonus_spec(now, item.created_at@),
        0 <= b <= 30,
{
    match hours_since(now, item.created_at.as_str()) {
        None => 0,
        Some(hours) => {
            if hours <= 0 {
                0
            } else {
                let points = hours / AGE_POINTS_PER_HOURS;
                if points < MAX_AGE_BONUS {
                    points
                } else {
                    MAX_AGE_BONUS
                }
            }
        },
    }
}

/// Scores one item against `rules` as of `now`. Pure: same
/// inputs, same output.
pub fn score_item(item: &ActionItem, rules: &[Rule], now: UnixTime) -> (r: ScoredItem)
    requires
        rules@.len() < 0x8000_0000_0000_0000,
    ensures
        scored_as(r, *item, rules@, now),
{
    let mut score: i128 = (kind_base_score(item.kind) + age_bonus(item, now)) as i128;
    let mut pinned: Option<Severity> = None;
    let mut muted = false;
    let mut k: usize = 0;
    while k < rules.len()
        invariant
            k <= rules@.len() < 0x8000_0000_0000_0000,
            score as int == base_score(item.kind) + age_bonus_spec(now, item.created_at@)
                + rules_add(*item, rules@.subrange(0, k as int)),
            -0x8000_0000_0000_0000 * (k as int) <= score as int - base_score(item.kind)
                - age_bonus_spec(now, item.created_at@),
            score as int - base_score(item.kind) - age_bonus_spec(now, item.created_at@)
                <= 0x8000_0000_0000_0000 * (k as int),
            0 <= age_bonus_spec(now, item.created_at@) <= 30,
            pinned == rules_pin(*item, rules@.subrange(0, k as int)),
            muted == exists|j: int|
                0 <= j < k && rule_applies_spec(#[trigger] rules@[j], *item)
                    && rules@[j].effect.mute_notifications == Some(true),
        decreases rules.len() - k,
    {
        let rule = &rules[k];
        assert(rules@.subrange(0, k + 1).drop_last() =~= rules@.subrange(0, k as int));
        if rule_applies(rule, item) {
            match rule.effect.add {
                Some(add) => {
                    assert(-0x8000_0000_0000_0000 * (k as int) - 0x8000_0000_0000_0000 == -0x8000_0000_0000_0000 * (k + 1)) by (nonlinear_arith);
                    assert(0x8000_0000_0000_0000 * (k as int) + 0x8000_0000_0000_0000 == 0x8000_0000_0000_0000 * (k + 1)) by (nonlinear_arith);
                    assert(0x8000_0000_0000_0000 * (k as int) < 0x8000_0000_0000_0000 * 0x8000_0000_0000_0000) by (nonlinear_arith)
                        requires k < 0x8000_0000_0000_0000;
                    score = score + add as i128;
                },
                None => {
                    assert(0x8000_0000_0000_0000 * (k as int) <= 0x8000_0000_0000_0000 * (k + 1)) by (nonlinear_arith);
                },
            }
            match rule.effect.pin_severity {
                Some(s) => {
                    pinned = Some(s);
                },
                None => {},
            }
            if rule.effect.mute_notifications == Some(true) {
                muted = true;
            }
        } else {
            assert(0x8000_0000_0000_0000 * (k as int) <= 0x8000_0000_0000_0000 * (k + 1)) by (nonlinear_arith);
        }
        k += 1;
    }
    assert(rules@.subrange(0, rules@.len() as int) =~= rules@);
    let clamped: u32 = if score < 1 {
        1
    } else if score > 0xffff_ffff {
        0xffff_ffff
    } else {
        score as u32
    };
    let severity = match pinned {
        Some(s) => s,
        None => Severity::from_score(clamped),
    };
    ScoredItem { item: clone_item(item), score: clamped, severity, muted }
}

/// The severity the tray should show: the most urgent band among the
/// items, or `Idle` when there are none. Muted items still count.
pub open spec fn top_severity_spec(scored: Seq<ScoredItem>) -> Severity
    decreases scored.len(),
{
    if scored.len() == 0 {
        Severity::Idle
    } else {
        let rest = top_severity_spec(scored.drop_last());
        if rank(scored.last().severity) > rank(rest) {
            scored.last().severity
        } else {
            rest
        }
    }
}

/// The severity the tray icon should show: that of the most urgent item, or
/// [`Severity::Idle`] when nothing is open. Muted items still count.
pub fn top_severity(scored: &[ScoredItem]) -> (s: Severity)
    ensures
        s == top_severity_spec(scored@),
{
    let mut top = Severity::Idle;
    let mut k: usize = 0;
    while k < scored.len()
        invariant
            k <= scored@.len(),
            top == top_severity_spec(scored@.subrange(0, k as int)),
        decreases scored.len() - k,
    {
        assert(scored@.subrange(0, k + 1).drop_last() =~= scored@.subrange(0, k as int));
        if severity_rank(scored[k].severity) > severity_rank(top) {
            top = scored[k].severity;
        }
        k += 1;
    }
    assert(scored@.subrange(0, scored@.len() as int) =~= scored@);
    top
}

/// The notification gate: a muted item never interrupts; a critical one
/// always does; anything else only when it outranks the previous top score
/// (`None` meaning nothing was open).
pub open spec fn should_notify_spec(prev_top_score: Option<u32>, candidate: ScoredItem) -> bool {
    if candidate.muted {
        false
    } else if candidate.severity == Severity::Critical {
        true
    } else {
        match prev_top_score {
            None => true,
            Some(top) => candidate.score > top,
        }
    }
}

/// Decides whether a new or newly-urgent item earns a desktop notification.
pub fn should_notify(prev_top_score: Option<u32>, candidate: &ScoredItem) -> (b: bool)
    ensures
        b == should_notify_spec(prev_top_score, *candidate),
{
    if candidate.muted {
        return false;
    }
    if candidate.severity == Severity::Critical {
        return true;
    }
    match prev_top_score {
        None => true,
        Some(top) => candidate.score > top,
    }
}

/// Scores every item and returns them most urgent first; equal scores order
/// newest `updated_at` first, and full ties keep their input order.
pub fn score_all(items: &[ActionItem], rules: &[Rule], now: UnixTime) -> (r: Vec<ScoredItem>)
    requires
        rules@.len() < 0x8000_0000_0000_0000,
    ensures
        exists|scored: Seq<ScoredItem>, idx: Seq<int>|
            {
                &&& scored.len() == items@.len()
                &&& forall|k: int|
                    0 <= k < items@.len() ==> scored_as(#[trigger] scored[k], items@[k], rules@, now)
                &&& stably_sorted_by(scored, r@, idx, true)
            },
{
    let mut scored: Vec<ScoredItem> = Vec::new();
    let mut k: usize = 0;
    while k < items.len()
        invariant
            k <= items@.len(),
            rules@.len() < 0x8000_0000_0000_0000,
            scored@.len() == k,
            forall|j: int| 0 <= j < k ==> scored_as(#[trigger] scored@[j], items@[j], rules@, now),
        decreases items.len() - k,
    {
        scored.push(score_item(&items[k], rules, now));
        k += 1;
    }
    let ghost s = scored@;
    let out = sort_scored(scored, true);
    let ghost idx = choose|idx: Seq<int>| stably_sorted_by(s, out@, idx, true);
    assert(stably_sorted_by(s, out@, idx, true));
    out
}

/// Muting is sticky: if any enabled rule that applies to the item asks to
/// mute its notifications, the scored item is muted, whatever rules come
/// before or after it; and an item is muted only because some applying rule
/// asked for it.
pub proof fn lemma_any_muting_rule_mutes(r: ScoredItem, item: ActionItem, rules: Seq<Rule>, now: UnixTime, k: int)
    requires
        scored_as(r, item, rules, now),
    ensures
        0 <= k < rules.len() && rule_applies_spec(rules[k], item) && rules[k].effect.mute_notifications
            == Some(true) ==> r.muted,
        r.muted ==> exists|j: int|
            0 <= j < rules.len() && rule_applies_spec(#[trigger] rules[j], item)
                && rules[j].effect.mute_notifications == Some(true),
{
}

/// Adding rules never unmutes: an item muted under `rules` is still muted
/// under `rules` followed by any `more`.
pub proof fn lemma_more_rules_keep_mute(
    r1: ScoredItem,
    r2: ScoredItem,
    item: ActionItem,
    rules: Seq<Rule>,
    more: Seq<Rule>,
    now: UnixTime,
)
    requires
        scored_as(r1, item, rules, now),
        scored_as(r2, item, rules + more, now),
    ensures
        r1.muted ==> r2.muted,
{
    if r1.muted {
        let j = choose|j: int|
            0 <= j < rules.len() && rule_applies_spec(#[trigger] rules[j], item)
                && rules[j].effect.mute_notifications == Some(true);
        assert((rules + more)[j] == rules[j]);
        lemma_any_muting_rule_mutes(r2, item, rules + more, now, j);
    }
}

/// A muted item never interrupts, whatever its score or band.
pub proof fn lemma_muted_never_notifies(prev_top_score: Option<u32>, candidate: ScoredItem)
    requires
        candidate.muted,
    ensures
        !should_notify_spec(prev_top_score, candidate),
{
}

/// A critical item that is not muted always interrupts, even below the
/// current top score.
pub proof fn lemma_critical_always_notifies(prev_top_score: Option<u32>, candidate: ScoredItem)
    requires
        !candidate.muted,
        candidate.severity == Severity::Critical,
    ensures
        should_notify_spec(prev_top_score, candidate),
{
}

/// Anything unmuted interrupts when nothing was open.
pub proof fn lemma_notifies_when_nothing_open(candidate: ScoredItem)
    requires
        !candidate.muted,
    ensures
        should_notify_spec(None, candidate),
{
}

/// Below the critical band, an unmuted item interrupts exactly when it
/// outranks the top of the list.
pub proof fn lemma_notifies_only_when_outranking(top: u32, candidate: ScoredItem)
    requires
        !candidate.muted,
        candidate.severity != Severity::Critical,
    ensures
        should_notify_spec(Some(top), candidate) <==> candidate.score > top,
{
}

/// Every scored item has a score of at least one and at most `u32::MAX`;
/// without a pinning rule its band is the band of its score.
pub proof fn lemma_score_in_range(r: ScoredItem, item: ActionItem, rules: Seq<Rule>, now: UnixTime)
    requires
        scored_as(r, item, rules, now),
    ensures
        1 <= r.score,
        rules_pin(item, rules) is None ==> r.severity == band_of(r.score as int),
{
}

/// The tray's band is at least that of every item, and is one of theirs
/// (or `Idle` for none).
pub proof fn lemma_top_severity_is_max(scored: Seq<ScoredItem>)
    ensures
        forall|k: int| 0 <= k < scored.len() ==> rank(#[trigger] scored[k].severity) <= rank(top_severity_spec(scored)),
        top_severity_spec(scored) == Severity::Idle <==> forall|k: int| 0 <= k < scored.len() ==> #[trigger] scored[k].severity == Severity::Idle,
        scored.len() > 0 ==> exists|k: int| 0 <= k < scored.len() && #[trigger] scored[k].severity == top_severity_spec(scored),
    decreases scored.len(),
{
    if scored.len() > 0 {
        let rest = scored.drop_last();
        lemma_top_severity_is_max(rest);
        assert forall|k: int| 0 <= k < scored.len() implies rank(#[trigger] scored[k].severity) <= rank(top_severity_spec(scored)) by {
            if k < scored.len() - 1 {
                assert(scored[k] == rest[k]);
            }
        }
        if rank(scored.last().severity) > rank(top_severity_spec(rest)) {
            assert(scored[scored.len() - 1].severity == top_severity_spec(scored));
        } else if rest.len() > 0 {
            let k = choose|k: int| 0 <= k < rest.len() && #[trigger] rest[k].severity == top_severity_spec(rest);
            assert(scored[k] == rest[k]);
        } else {
            assert(rank(scored.last().severity) <= 0);
            assert(scored[0].severity == Severity::Idle);
        }
        if top_severity_spec(scored) == Severity::Idle {
            assert forall|k: int| 0 <= k < scored.len() implies #[trigger] scored[k].severity == Severity::Idle by {
                assert(rank(scored[k].severity) <= rank(top_severity_spec(scored)));
            }
        }
    }
}

/// Rules that do not apply to an item leave its score, band and
/// notifications alone.
proof fn lemma_no_rule_applies(item: ActionItem, rules: Seq<Rule>)
    requires
        forall|k: int| 0 <= k < rules.len() ==> !rule_applies_spec(#[trigger] rules[k], item),
    ensures
        rules_add(item, rules) == 0,
        rules_pin(item, rules) is None,
        !rules_mute(item, rules),
    decreases rules.len(),
{
    if rules.len() > 0 {
        let rest = rules.drop_last();
        assert forall|k: int| 0 <= k < rest.len() implies !rule_applies_spec(#[trigger] rest[k], item) by {
            assert(rest[k] == rules[k]);
        }
        lemma_no_rule_applies(item, rest);
        assert(!rule_applies_spec(rules[rules.len() - 1], item));
    }
}

/// A failing build always interrupts: a `CiFailed` item that no rule
/// touches lands in the critical band and notifies whatever was on top.
pub proof fn lemma_failing_build_interrupts(
    prev_top_score: Option<u32>,
    r: ScoredItem,
    item: ActionItem,
    rules: Seq<Rule>,
    now: UnixTime,
)
    requires
        scored_as(r, item, rules, now),
        item.kind == ItemKind::CiFailed,
        forall|k: int| 0 <= k < rules.len() ==> !rule_applies_spec(#[trigger] rules[k], item),
    ensures
        r.severity == Severity::Critical,
        should_notify_spec(prev_top_score, r),
{
    lemma_no_rule_applies(item, rules);
    assert(age_bonus_spec(now, item.created_at@) >= 0);
}

} // verus!
