use gitsurveil::clock::UnixTime;
use gitsurveil::item::{ActionItem, CiStatus, ItemKind, ItemState};
use gitsurveil::notifications::{describe, dispatch_batch, kind_label};
use gitsurveil::priority::score_item;
use gitsurveil::severity::ScoredItem;

fn scored(kind: ItemKind, repo: &str, number: Option<u64>) -> ScoredItem {
    let item = ActionItem {
        id: "a".into(),
        account_id: "acc".into(),
        kind,
        state: ItemState::Open,
        repo: repo.into(),
        number,
        title: "Fix the thing".into(),
        url: "u".into(),
        author: "someone".into(),
        created_at: "2026-08-13T12:00:00Z".into(),
        updated_at: "2026-08-13T12:00:00Z".into(),
        first_seen_at: "2026-08-13T12:00:00Z".into(),
        last_seen_at: "2026-08-13T12:00:00Z".into(),
        ci_status: CiStatus::NoChecks,
        raw_kind: "x".into(),
        dismissed_updated_at: None,
        dismissed_at: None,
        dismissed_ci_status: None,
        activity: None,
        archived: false,
    };
    score_item(&item, &[], UnixTime { secs: 1786622400, nanos: 0 })
}

#[test]
fn describes_an_item_by_kind_and_location() {
    assert_eq!(
        describe(&scored(ItemKind::ReviewRequested, "acme/api", Some(482))),
        "Review requested · acme/api#482"
    );
}

#[test]
fn omits_the_number_when_an_item_has_none() {
    assert_eq!(describe(&scored(ItemKind::Mentioned, "acme/api", None)), "Mentioned · acme/api");
}

#[test]
fn every_kind_has_a_label() {
    assert_eq!(kind_label(&scored(ItemKind::CiFailed, "r", None)), "CI failed");
    assert_eq!(kind_label(&scored(ItemKind::ReviewStateChanged, "r", None)), "Changes requested");
    assert_eq!(kind_label(&scored(ItemKind::ReadyToMerge, "r", None)), "Ready to merge");
    assert_eq!(kind_label(&scored(ItemKind::Authored, "r", None)), "Your PR");
    assert_eq!(kind_label(&scored(ItemKind::ReviewedByMe, "r", None)), "PR you reviewed");
    assert_eq!(kind_label(&scored(ItemKind::Assigned, "r", None)), "Assigned");
    assert_eq!(kind_label(&scored(ItemKind::Participating, "r", None)), "Participating");
}

#[test]
fn a_burst_collapses_into_one_summary() {
    assert!(dispatch_batch(&[]).is_empty());
    let few = vec![scored(ItemKind::CiFailed, "acme/api", Some(1)), scored(ItemKind::Mentioned, "acme/web", None)];
    let msgs = dispatch_batch(&few);
    assert_eq!(msgs.len(), 2);
    assert_eq!(msgs[0], ("CI failed · acme/api#1".to_string(), "Fix the thing".to_string()));
    let many: Vec<ScoredItem> = (1..=4).map(|n| scored(ItemKind::CiFailed, "acme/api", Some(n))).collect();
    let msgs = dispatch_batch(&many);
    assert_eq!(msgs, vec![("4 new items".to_string(), "Highest priority: CI failed · acme/api#1".to_string())]);
}
