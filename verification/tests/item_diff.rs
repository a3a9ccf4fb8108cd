use gitsurveil::diff::{diff, ChangeKind};
use gitsurveil::item::{ActionItem, CiStatus, ItemKind, ItemState};

fn item(id: &str, updated_at: &str) -> ActionItem {
    ActionItem {
        id: id.into(),
        account_id: "acc-1".into(),
        kind: ItemKind::ReviewRequested,
        state: ItemState::Open,
        repo: "acme/api".into(),
        number: Some(1),
        title: "t".into(),
        url: "https://github.com/acme/api/pull/1".into(),
        author: "a".into(),
        created_at: "2026-08-01T00:00:00Z".into(),
        updated_at: updated_at.into(),
        first_seen_at: "2026-08-01T00:00:00Z".into(),
        last_seen_at: "2026-08-01T00:00:00Z".into(),
        ci_status: CiStatus::NoChecks,
        raw_kind: "review_requested".into(),
        dismissed_updated_at: None,
        dismissed_at: None,
        dismissed_ci_status: None,
        activity: None,
        archived: false,
    }
}

#[test]
fn empty_previous_marks_everything_new() {
    let d = diff(&[], &[item("a", "t1"), item("b", "t1")]);
    assert_eq!(d.changes.len(), 2);
    assert!(d.changes.iter().all(|(k, _)| *k == ChangeKind::New));
    assert!(d.resolved_ids.is_empty());
}

#[test]
fn unchanged_item_is_carried() {
    let prev = vec![item("a", "t1")];
    let fetched = vec![item("a", "t1")];
    let d = diff(&prev, &fetched);
    assert_eq!(d.changes, vec![(ChangeKind::Carried, item("a", "t1"))]);
}

#[test]
fn advanced_updated_at_is_updated_not_new() {
    let prev = vec![item("a", "t1")];
    let fetched = vec![item("a", "t2")];
    let d = diff(&prev, &fetched);
    assert_eq!(d.changes, vec![(ChangeKind::Updated, item("a", "t2"))]);
}

#[test]
fn missing_from_fetched_is_resolved() {
    let prev = vec![item("a", "t1"), item("b", "t1")];
    let fetched = vec![item("a", "t1")];
    let d = diff(&prev, &fetched);
    assert_eq!(d.resolved_ids, vec!["b".to_string()]);
}

#[test]
fn a_carried_item_never_reappears_as_resolved_or_new() {
    let prev = vec![item("a", "t1")];
    let d1 = diff(&prev, &prev.clone());
    assert_eq!(d1.changes, vec![(ChangeKind::Carried, item("a", "t1"))]);
    assert!(d1.resolved_ids.is_empty());
}

#[test]
fn fetched_order_is_kept_and_resolved_follow_stored_order() {
    let prev = vec![item("c", "t1"), item("a", "t1"), item("b", "t1")];
    let fetched = vec![item("d", "t1"), item("a", "t9")];
    let d = diff(&prev, &fetched);
    assert_eq!(
        d.changes,
        vec![(ChangeKind::New, item("d", "t1")), (ChangeKind::Updated, item("a", "t9"))]
    );
    assert_eq!(d.resolved_ids, vec!["c".to_string(), "b".to_string()]);
}
