use std::collections::BTreeSet;
use gitsurveil::clock::UnixTime;
use gitsurveil::diff::{diff, ChangeKind};
use gitsurveil::item::{ActionItem, CiStatus, ItemKind, ItemState};
use gitsurveil::poller::{
    cycle_interval, drop_superseded_requests, is_rate_limit_message, newly_relevant, next_interval, plan_account_poll,
    prev_top_score, pull_number_from_url, select_notifications, should_preserve_local_state,
    ActivityFingerprint,
};
use gitsurveil::priority::score_item;

fn item(kind: ItemKind, ci_status: CiStatus) -> ActionItem {
    ActionItem {
        id: "id".into(),
        account_id: "acc-1".into(),
        kind,
        state: ItemState::Open,
        repo: "acme/api".into(),
        number: Some(1),
        title: "t".into(),
        url: "https://github.com/acme/api/pull/1".into(),
        author: "a".into(),
        created_at: "2026-08-01T00:00:00Z".into(),
        updated_at: "2026-08-01T00:00:00Z".into(),
        first_seen_at: "2026-08-01T00:00:00Z".into(),
        last_seen_at: "2026-08-01T00:00:00Z".into(),
        ci_status,
        raw_kind: "x".into(),
        dismissed_updated_at: None,
        dismissed_at: None,
        dismissed_ci_status: None,
        activity: None,
        archived: false,
    }
}

fn with_activity(item: ActionItem, activity: &str) -> ActionItem {
    let mut item = item;
    item.activity = Some(activity.into());
    item
}

#[test]
fn new_items_are_always_relevant() {
    assert!(newly_relevant(ChangeKind::New, &item(ItemKind::ReviewRequested, CiStatus::NoChecks), None));
}

#[test]
fn carried_items_are_never_relevant() {
    assert!(!newly_relevant(ChangeKind::Carried, &item(ItemKind::ReviewRequested, CiStatus::Failing), None));
}

#[test]
fn ordinary_kinds_only_update_on_a_ci_failure_transition() {
    let prev = item(ItemKind::ReviewRequested, CiStatus::Passing);
    let now_failing = item(ItemKind::ReviewRequested, CiStatus::Failing);
    assert!(newly_relevant(ChangeKind::Updated, &now_failing, Some(&prev)));

    let prev_failing = item(ItemKind::ReviewRequested, CiStatus::Failing);
    assert!(!newly_relevant(ChangeKind::Updated, &now_failing, Some(&prev_failing)));

    let now_comment = item(ItemKind::ReviewRequested, CiStatus::Passing);
    assert!(!newly_relevant(ChangeKind::Updated, &now_comment, Some(&prev)));
}

#[test]
fn authored_updates_only_count_for_qualifying_transitions() {
    let prev = with_activity(item(ItemKind::Authored, CiStatus::Passing), "c:1;u:");
    let commit_only = with_activity(item(ItemKind::Authored, CiStatus::Passing), "c:1;u:");
    assert!(
        !newly_relevant(ChangeKind::Updated, &commit_only, Some(&prev)),
        "a commit that doesn't change the fingerprint must not notify"
    );

    let new_comment = with_activity(item(ItemKind::Authored, CiStatus::Passing), "c:1,2;u:");
    assert!(newly_relevant(ChangeKind::Updated, &new_comment, Some(&prev)));

    let newly_unresolved = with_activity(item(ItemKind::Authored, CiStatus::Passing), "c:1;u:t1");
    assert!(newly_relevant(ChangeKind::Updated, &newly_unresolved, Some(&prev)));

    let now_failing = with_activity(item(ItemKind::Authored, CiStatus::Failing), "c:1;u:");
    assert!(newly_relevant(ChangeKind::Updated, &now_failing, Some(&prev)));

    let prev_unresolved = with_activity(item(ItemKind::Authored, CiStatus::Passing), "c:;u:t1");
    let resolved = with_activity(item(ItemKind::Authored, CiStatus::Passing), "c:;u:");
    assert!(!newly_relevant(ChangeKind::Updated, &resolved, Some(&prev_unresolved)));
}

#[test]
fn reviewed_by_me_updates_always_count() {
    let prev = item(ItemKind::ReviewedByMe, CiStatus::Passing);
    let updated = item(ItemKind::ReviewedByMe, CiStatus::Passing);
    assert!(newly_relevant(ChangeKind::Updated, &updated, Some(&prev)));
}

#[test]
fn fingerprint_parses_absent_legacy_and_partial_values() {
    assert_eq!(ActivityFingerprint::parse(None), ActivityFingerprint::default());
    assert_eq!(
        ActivityFingerprint::parse(Some("c:1,2;u:t1,t2")),
        ActivityFingerprint {
            comment_ids: BTreeSet::from([1, 2]),
            unresolved_thread_ids: vec!["t1".into(), "t2".into()],
        }
    );
    assert_eq!(ActivityFingerprint::parse(Some("c:;u:")), ActivityFingerprint::default());
}

#[test]
fn fingerprint_parse_sorts_and_skips_junk() {
    let f = ActivityFingerprint::parse(Some("u:b,,a;x:9;c:3,x,1,3"));
    assert_eq!(f.comment_ids, BTreeSet::from([1, 3]));
    assert_eq!(f.unresolved_thread_ids, vec!["a".to_string(), "b".to_string()]);
}

#[test]
fn preserve_local_state_cases() {
    assert!(should_preserve_local_state(ChangeKind::Carried, false), "carried keeps its row");
    assert!(should_preserve_local_state(ChangeKind::Carried, true), "carried archived stays archived");
    assert!(should_preserve_local_state(ChangeKind::Updated, true), "archived is immune to new activity");
    assert!(should_preserve_local_state(ChangeKind::New, true), "archived never becomes New again");
    assert!(!should_preserve_local_state(ChangeKind::Updated, false), "activity resurrects a dismissed item");
    assert!(!should_preserve_local_state(ChangeKind::New, false), "brand-new items are written");
}

#[test]
fn pull_numbers_come_from_the_last_path_segment() {
    assert_eq!(pull_number_from_url("https://api.github.com/repos/acme/api/pulls/482"), Some(482));
    assert_eq!(pull_number_from_url("https://api.github.com/repos/acme/api/issues/7?x=1"), Some(7));
    assert_eq!(pull_number_from_url("https://api.github.com/repos/acme/api"), None);
    assert_eq!(pull_number_from_url("https://x/+12"), Some(12));
    assert_eq!(pull_number_from_url("https://x/99999999999999999999"), None);
    assert_eq!(pull_number_from_url(""), None);
}

fn feed_request(id: &str, url: &str) -> ActionItem {
    let mut i = item(ItemKind::ReviewRequested, CiStatus::NoChecks);
    i.id = id.into();
    i.url = url.into();
    i
}

#[test]
fn feed_review_requests_the_search_covers_are_dropped() {
    let fetched = vec![
        feed_request("acc-1:notif:1", "https://api.github.com/repos/acme/api/pulls/5"),
        feed_request("acc-1:notif:2", "https://api.github.com/repos/acme/api/pulls/6"),
        feed_request("acc-1:notif:3", "https://api.github.com/repos/acme/api/pulls/7"),
        feed_request("acc-1:ReviewRequested:acme/api#5", "https://api.github.com/repos/acme/api/pulls/5"),
    ];
    let kept = drop_superseded_requests(
        &fetched,
        "acc-1",
        &[("acme/api".to_string(), 5)],
        &[("acme/api".to_string(), 6)],
    );
    let ids: Vec<&str> = kept.iter().map(|i| i.id.as_str()).collect();
    assert_eq!(ids, vec!["acc-1:notif:3", "acc-1:ReviewRequested:acme/api#5"]);
}

#[test]
fn a_poll_plan_preserves_local_state_and_gates_candidates() {
    let mut stored_carried = item(ItemKind::Mentioned, CiStatus::NoChecks);
    stored_carried.id = "carried".into();
    stored_carried.state = ItemState::Dismissed;
    let mut stored_updated = item(ItemKind::Assigned, CiStatus::Passing);
    stored_updated.id = "updated".into();
    stored_updated.first_seen_at = "2026-07-01T00:00:00Z".into();
    let mut stored_archived = item(ItemKind::Assigned, CiStatus::NoChecks);
    stored_archived.id = "archived".into();
    stored_archived.archived = true;
    let mut stored_gone = item(ItemKind::Assigned, CiStatus::NoChecks);
    stored_gone.id = "gone".into();
    let mut stored_gone_archived = item(ItemKind::Assigned, CiStatus::NoChecks);
    stored_gone_archived.id = "gone-archived".into();
    stored_gone_archived.archived = true;
    let previous = vec![stored_carried.clone(), stored_updated.clone(), stored_archived.clone(), stored_gone, stored_gone_archived];

    let mut fetched_carried = stored_carried.clone();
    fetched_carried.state = ItemState::Open;
    let mut fetched_updated = stored_updated.clone();
    fetched_updated.updated_at = "2026-08-02T00:00:00Z".into();
    fetched_updated.ci_status = CiStatus::Failing;
    let mut fetched_archived = stored_archived.clone();
    fetched_archived.updated_at = "2026-08-02T00:00:00Z".into();
    let mut fresh = item(ItemKind::CiFailed, CiStatus::Failing);
    fresh.id = "fresh".into();
    fresh.repo = "muted/repo".into();
    let fetched = vec![fetched_carried, fetched_updated, fetched_archived, fresh];

    let plan = plan_account_poll(
        "acc-1",
        &fetched,
        &[],
        &[],
        &["muted/repo".to_string()],
        &[],
        &previous,
        &[],
        UnixTime { secs: 1786622400, nanos: 0 },
        "NOW".into(),
    );
    let ids: Vec<&str> = plan.upserts.iter().map(|i| i.id.as_str()).collect();
    assert_eq!(ids, vec!["updated", "fresh"]);
    assert_eq!(plan.upserts[0].first_seen_at, "2026-07-01T00:00:00Z");
    assert_eq!(plan.upserts[0].last_seen_at, "NOW");
    assert_eq!(plan.candidates.len(), 1);
    assert_eq!(plan.candidates[0].item.id, "updated");
    assert_eq!(plan.mark_done, vec!["gone".to_string()]);
}

#[test]
fn cycle_notifications_are_gated_and_sorted() {
    let mut a = item(ItemKind::Assigned, CiStatus::NoChecks);
    a.id = "a".into();
    let mut b = item(ItemKind::ReviewRequested, CiStatus::NoChecks);
    b.id = "b".into();
    let mut c = item(ItemKind::CiFailed, CiStatus::Failing);
    c.id = "c".into();
    let now = UnixTime { secs: 1786622400, nanos: 0 };
    let cands = vec![score_item(&a, &[], now), score_item(&b, &[], now), score_item(&c, &[], now)];
    // Created twelve days before `now`: each score carries the full age bonus.
    assert_eq!(cands[0].score, 70);
    let out = select_notifications(Some(75), cands);
    let ids: Vec<&str> = out.iter().map(|s| s.item.id.as_str()).collect();
    assert_eq!(ids, vec!["c", "b"]);
    assert_eq!(out[0].score, 130);
    assert_eq!(prev_top_score(&[a.clone(), b.clone()], &[], now), Some(110));
    assert_eq!(prev_top_score(&[], &[], now), None);
}

#[test]
fn intervals_honor_backoff_and_never_shrink() {
    assert_eq!(cycle_interval(true, &[Some(90)]), Some(300));
    assert_eq!(cycle_interval(false, &[None, Some(90), Some(60)]), Some(90));
    assert_eq!(cycle_interval(false, &[None]), None);
    assert_eq!(next_interval(60, Some(120)), 120);
    assert_eq!(next_interval(120, Some(60)), 120);
    assert_eq!(next_interval(60, None), 60);
}

#[test]
fn an_authored_pr_with_seen_activity_stays_quiet() {
    let mut prev = item(ItemKind::Authored, CiStatus::Passing);
    prev.activity = Some("c:1,2;u:t1".into());
    let mut now = prev.clone();
    now.updated_at = "2026-08-14T00:00:00Z".into();
    assert!(!newly_relevant(ChangeKind::Updated, &now, Some(&prev)));
    // The same sets written in another order are the same activity.
    now.activity = Some("u:t1;c:2,1".into());
    assert!(!newly_relevant(ChangeKind::Updated, &now, Some(&prev)));
}

#[test]
fn rate_limit_errors_are_recognized_in_any_case() {
    assert!(is_rate_limit_message("GraphQL error: API rate limit exceeded for user ID 1."));
    assert!(is_rate_limit_message("API RATE LIMIT EXCEEDED"));
    assert!(!is_rate_limit_message("HTTP 502 Bad Gateway"));
    assert!(!is_rate_limit_message("rate limit"));
}

/// Applies one poll's plan to stored rows the way the store's upsert does:
/// the row's state and activity columns follow the written item.
fn apply_plan(stored: &mut Vec<ActionItem>, upserts: &[ActionItem]) {
    for up in upserts {
        match stored.iter_mut().find(|s| s.id == up.id) {
            Some(row) => {
                row.state = up.state;
                row.title = up.title.clone();
                row.url = up.url.clone();
                row.updated_at = up.updated_at.clone();
                row.last_seen_at = up.last_seen_at.clone();
                row.ci_status = up.ci_status;
                row.activity = up.activity.clone();
            },
            None => stored.push(up.clone()),
        }
    }
}

fn open_rows(stored: &[ActionItem]) -> usize {
    stored.iter().filter(|s| s.state == ItemState::Open && !s.archived).count()
}

#[test]
fn dismissed_survives_an_unchanged_poll_but_activity_resurrects_it() {
    let mut dismissed = item(ItemKind::ReviewRequested, CiStatus::NoChecks);
    dismissed.state = ItemState::Dismissed;
    let mut stored = vec![dismissed];

    // Poll 1: GitHub unchanged -> Carried, so the dismissed row is not written.
    let result = diff(&stored, &[item(ItemKind::ReviewRequested, CiStatus::NoChecks)]);
    assert_eq!(result.changes[0].0, ChangeKind::Carried);
    let plan = plan_account_poll(
        "acc-1",
        &[item(ItemKind::ReviewRequested, CiStatus::NoChecks)],
        &[],
        &[],
        &[],
        &[],
        &stored,
        &[],
        UnixTime { secs: 1786622400, nanos: 0 },
        "2026-08-13T12:00:00Z".into(),
    );
    apply_plan(&mut stored, &plan.upserts);
    assert_eq!(open_rows(&stored), 0, "dismissed survives an unchanged poll");

    // Poll 2: `updated_at` advanced -> Updated, and activity brings it back.
    let mut active = item(ItemKind::ReviewRequested, CiStatus::NoChecks);
    active.updated_at = "2026-08-02T00:00:00Z".into();
    let result = diff(&stored, &[active.clone()]);
    assert_eq!(result.changes[0].0, ChangeKind::Updated);
    let plan = plan_account_poll("acc-1", &[active], &[], &[], &[], &[], &stored, &[], UnixTime { secs: 1786622400, nanos: 0 }, "2026-08-13T12:00:00Z".into());
    apply_plan(&mut stored, &plan.upserts);
    assert_eq!(open_rows(&stored), 1, "activity brings the item back");
}

#[test]
fn archived_item_never_resurrects_even_on_activity() {
    let mut archived = item(ItemKind::ReviewRequested, CiStatus::NoChecks);
    archived.state = ItemState::Dismissed;
    archived.archived = true;
    let mut stored = vec![archived];

    let mut active = item(ItemKind::ReviewRequested, CiStatus::NoChecks);
    active.updated_at = "2026-08-02T00:00:00Z".into();
    let result = diff(&stored, &[active.clone()]);
    assert_eq!(result.changes[0].0, ChangeKind::Updated);
    assert!(should_preserve_local_state(ChangeKind::Updated, true), "archived items are never written back");
    let plan = plan_account_poll("acc-1", &[active], &[], &[], &[], &[], &stored, &[], UnixTime { secs: 1786622400, nanos: 0 }, "2026-08-13T12:00:00Z".into());
    assert!(plan.upserts.is_empty());
    assert!(plan.candidates.is_empty());
    apply_plan(&mut stored, &plan.upserts);
    assert_eq!(open_rows(&stored), 0, "archived never resurfaces");
}

#[test]
fn a_disabled_kind_is_still_written_but_never_a_candidate() {
    let mut mention = item(ItemKind::Mentioned, CiStatus::NoChecks);
    mention.id = "m".into();
    let mut review = item(ItemKind::ReviewRequested, CiStatus::NoChecks);
    review.id = "r".into();
    let plan = plan_account_poll(
        "acc-1",
        &[mention, review],
        &[],
        &[],
        &[],
        &[ItemKind::Mentioned],
        &[],
        &[],
        UnixTime { secs: 1786622400, nanos: 0 },
        "NOW".into(),
    );
    let written: Vec<&str> = plan.upserts.iter().map(|i| i.id.as_str()).collect();
    assert_eq!(written, vec!["m", "r"]);
    let candidates: Vec<&str> = plan.candidates.iter().map(|c| c.item.id.as_str()).collect();
    assert_eq!(candidates, vec!["r"]);
}
