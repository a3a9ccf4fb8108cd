use gitsurveil::clock::UnixTime;
use gitsurveil::item::{ActionItem, CiStatus, ItemKind, ItemState};
use gitsurveil::priority::{
    age_bonus, default_rules, repo_matches, score_all, score_item, should_notify, top_severity, Rule,
    RuleEffect, RuleMatch,
};
use gitsurveil::severity::{ScoredItem, Severity};

/// 2026-08-13T12:00:00Z as Unix seconds.
const NOW: UnixTime = UnixTime { secs: 1786622400, nanos: 0 };

fn item(kind: ItemKind) -> ActionItem {
    ActionItem {
        id: "a".into(),
        account_id: "acc".into(),
        kind,
        state: ItemState::Open,
        repo: "acme/api".into(),
        number: Some(1),
        title: "t".into(),
        url: "u".into(),
        author: "someone".into(),
        created_at: "2026-08-13T12:00:00Z".into(),
        updated_at: "2026-08-13T12:00:00Z".into(),
        first_seen_at: "2026-08-13T12:00:00Z".into(),
        last_seen_at: "2026-08-13T12:00:00Z".into(),
        ci_status: CiStatus::NoChecks,
        raw_kind: "x".into(),
        dismissed_updated_at: None,
        dismissed_at: None,
        dismissed_ci_status: None,
        activity: None,
        archived: false,
    }
}

#[test]
fn base_scores_map_to_expected_severities() {
    let cases = [
        (ItemKind::CiFailed, 100, Severity::Critical),
        (ItemKind::ReviewRequested, 80, Severity::High),
        (ItemKind::ReviewStateChanged, 70, Severity::High),
        (ItemKind::Mentioned, 50, Severity::Normal),
        (ItemKind::Assigned, 40, Severity::Normal),
        (ItemKind::Participating, 20, Severity::Info),
    ];
    for (kind, expected_score, expected_severity) in cases {
        let scored = score_item(&item(kind), &[], NOW);
        assert_eq!(scored.score, expected_score, "score for {kind:?}");
        assert_eq!(scored.severity, expected_severity, "severity for {kind:?}");
    }
}

#[test]
fn remaining_base_scores_follow_the_documented_table() {
    assert_eq!(score_item(&item(ItemKind::ReadyToMerge), &[], NOW).score, 65);
    assert_eq!(score_item(&item(ItemKind::ReviewedByMe), &[], NOW).score, 45);
    assert_eq!(score_item(&item(ItemKind::Authored), &[], NOW).score, 30);
}

#[test]
fn severity_band_boundaries_are_exact() {
    assert_eq!(Severity::from_score(0), Severity::Idle);
    assert_eq!(Severity::from_score(1), Severity::Info);
    assert_eq!(Severity::from_score(29), Severity::Info);
    assert_eq!(Severity::from_score(30), Severity::Normal);
    assert_eq!(Severity::from_score(59), Severity::Normal);
    assert_eq!(Severity::from_score(60), Severity::High);
    assert_eq!(Severity::from_score(99), Severity::High);
    assert_eq!(Severity::from_score(100), Severity::Critical);
}

#[test]
fn age_adds_one_point_per_four_hours_up_to_the_cap() {
    let mut old = item(ItemKind::Assigned);
    old.created_at = "2026-08-13T04:00:00Z".into();
    assert_eq!(score_item(&old, &[], NOW).score, 42);

    let mut ancient = item(ItemKind::Assigned);
    ancient.created_at = "2020-01-01T00:00:00Z".into();
    assert_eq!(score_item(&ancient, &[], NOW).score, 70);
}

#[test]
fn future_or_unparseable_timestamps_score_without_age_bonus() {
    let mut future = item(ItemKind::Assigned);
    future.created_at = "2030-01-01T00:00:00Z".into();
    assert_eq!(score_item(&future, &[], NOW).score, 40);

    let mut broken = item(ItemKind::Assigned);
    broken.created_at = "not a date".into();
    assert_eq!(score_item(&broken, &[], NOW).score, 40);
}

fn rule(effect: RuleEffect, match_: RuleMatch) -> Rule {
    Rule {
        id: "r".into(),
        enabled: true,
        match_,
        effect,
    }
}

#[test]
fn matching_rule_adjusts_score_and_non_matching_does_not() {
    let boost = rule(
        RuleEffect {
            add: Some(25),
            ..Default::default()
        },
        RuleMatch {
            repo: Some("acme/api".into()),
            ..Default::default()
        },
    );
    assert_eq!(score_item(&item(ItemKind::Assigned), &[boost], NOW).score, 65);

    let other_repo = rule(
        RuleEffect {
            add: Some(25),
            ..Default::default()
        },
        RuleMatch {
            repo: Some("other/repo".into()),
            ..Default::default()
        },
    );
    assert_eq!(score_item(&item(ItemKind::Assigned), &[other_repo], NOW).score, 40);
}

#[test]
fn repo_wildcard_matches_by_prefix_only() {
    assert!(repo_matches("acme/*", "acme/api"));
    assert!(repo_matches("acme/*", "acme/web"));
    assert!(!repo_matches("acme/*", "other/api"));
    assert!(repo_matches("acme/api", "acme/api"));
    assert!(!repo_matches("acme/api", "acme/apiary"));
}

#[test]
fn disabled_rules_are_ignored() {
    let mut disabled = rule(
        RuleEffect {
            add: Some(50),
            ..Default::default()
        },
        RuleMatch::default(),
    );
    disabled.enabled = false;
    assert_eq!(score_item(&item(ItemKind::Assigned), &[disabled], NOW).score, 40);
}

#[test]
fn negative_modifier_cannot_push_score_below_one() {
    let crush = rule(
        RuleEffect {
            add: Some(-1000),
            ..Default::default()
        },
        RuleMatch::default(),
    );
    let scored = score_item(&item(ItemKind::Assigned), &[crush], NOW);
    assert_eq!(scored.score, 1);
    assert_eq!(scored.severity, Severity::Info);
}

#[test]
fn pinned_severity_overrides_the_score_band() {
    let pin = rule(
        RuleEffect {
            pin_severity: Some(Severity::Info),
            ..Default::default()
        },
        RuleMatch::default(),
    );
    let scored = score_item(&item(ItemKind::CiFailed), &[pin.clone()], NOW);
    assert_eq!(scored.score, 100, "score is unchanged");
    assert_eq!(scored.severity, Severity::Info, "band is overridden");
}

#[test]
fn author_match_is_any_of() {
    let by_author = rule(
        RuleEffect {
            add: Some(10),
            ..Default::default()
        },
        RuleMatch {
            author: Some(vec!["nobody".into(), "someone".into()]),
            ..Default::default()
        },
    );
    assert_eq!(score_item(&item(ItemKind::Assigned), &[by_author], NOW).score, 50);
}

#[test]
fn kind_match_is_any_of() {
    let by_kind = rule(
        RuleEffect {
            add: Some(5),
            ..Default::default()
        },
        RuleMatch {
            kind: Some(vec![ItemKind::Mentioned, ItemKind::Assigned]),
            ..Default::default()
        },
    );
    assert_eq!(score_item(&item(ItemKind::Assigned), &[by_kind.clone()], NOW).score, 45);
    assert_eq!(score_item(&item(ItemKind::ReviewRequested), &[by_kind], NOW).score, 80);
}

#[test]
fn default_rules_mute_participating_but_leave_it_visible() {
    let scored = score_item(&item(ItemKind::Participating), &default_rules(), NOW);
    assert!(scored.muted);
    assert_eq!(scored.score, 20, "still scored, so it still lists");
}

#[test]
fn score_all_orders_by_score_then_recency() {
    let mut low = item(ItemKind::Participating);
    low.id = "low".into();
    let mut high = item(ItemKind::CiFailed);
    high.id = "high".into();
    let mut mid_old = item(ItemKind::Assigned);
    mid_old.id = "mid-old".into();
    mid_old.updated_at = "2026-08-13T01:00:00Z".into();
    let mut mid_new = item(ItemKind::Assigned);
    mid_new.id = "mid-new".into();
    mid_new.updated_at = "2026-08-13T11:00:00Z".into();

    let scored = score_all(&[low, mid_old, high, mid_new], &[], NOW);
    let order: Vec<&str> = scored.iter().map(|s| s.item.id.as_str()).collect();
    assert_eq!(order, vec!["high", "mid-new", "mid-old", "low"]);
}

#[test]
fn top_severity_is_idle_when_nothing_is_open() {
    assert_eq!(top_severity(&[]), Severity::Idle);
}

#[test]
fn top_severity_counts_muted_items() {
    let muted_critical = rule(
        RuleEffect {
            mute_notifications: Some(true),
            ..Default::default()
        },
        RuleMatch::default(),
    );
    let scored = score_all(&[item(ItemKind::CiFailed)], &[muted_critical], NOW);
    assert!(scored[0].muted);
    assert_eq!(top_severity(&scored), Severity::Critical);
}

fn scored(kind: ItemKind, muted: bool) -> ScoredItem {
    let mut s = score_item(&item(kind), &[], NOW);
    s.muted = muted;
    s
}

#[test]
fn gate_notifies_when_nothing_was_open() {
    assert!(should_notify(None, &scored(ItemKind::Participating, false)));
}

#[test]
fn gate_notifies_only_when_the_item_outranks_the_current_top() {
    let review = scored(ItemKind::ReviewRequested, false);
    assert!(should_notify(Some(40), &review), "80 outranks 40");
    assert!(!should_notify(Some(80), &review), "equal does not outrank");
    assert!(!should_notify(Some(90), &review), "lower does not outrank");
}

#[test]
fn gate_always_notifies_for_critical_even_below_the_current_top() {
    let ci = scored(ItemKind::CiFailed, false);
    assert!(should_notify(Some(u32::MAX), &ci));
}

#[test]
fn gate_never_notifies_for_muted_items_even_when_critical() {
    assert!(!should_notify(None, &scored(ItemKind::CiFailed, true)));
}

#[test]
fn a_failing_build_interrupts_even_below_the_top() {
    let s = score_item(&item(ItemKind::CiFailed), &default_rules(), NOW);
    assert_eq!(s.severity, Severity::Critical);
    assert!(!s.muted);
    assert!(should_notify(Some(u32::MAX), &s));
    assert!(should_notify(None, &s));
}

#[test]
fn age_counts_the_sub_second_part_of_now() {
    // Created half a second past 08:00; at exactly 12:00 only 3h59m59.5s
    // have passed, so the fourth hour has not yet completed.
    let mut half = item(ItemKind::Assigned);
    half.created_at = "2026-08-13T08:00:00.500Z".into();
    let noon = UnixTime { secs: 1786622400, nanos: 0 };
    assert_eq!(age_bonus(&half, noon), 0);
    assert_eq!(score_item(&half, &[], noon).score, 40);
    let a_bit_later = UnixTime { secs: 1786622400, nanos: 600_000_000 };
    assert_eq!(age_bonus(&half, a_bit_later), 1);
    assert_eq!(score_item(&half, &[], a_bit_later).score, 41);
}
