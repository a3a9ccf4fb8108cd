use std::collections::BTreeSet;
use gitsurveil::github::{
    build_search_snapshot_at, classify_reason, DiscoveredRepo, PrAuthor, PrCommentNode,
    PrComments, PrCommit, PrCommitNode, PrCommits, PrNode, PrRepository, PrReviewThreadNode,
    PrReviewThreads, RawNotification, RawOwner, RawRepo, RawRepository, RawSubject,
    StatusCheckRollup,
};
use gitsurveil::item::{CiStatus, ItemKind, ItemState};
use gitsurveil::poller::ActivityFingerprint;

fn node(review_decision: &str, mergeable: &str, is_draft: bool, ci_state: Option<&str>) -> PrNode {
    PrNode {
        number: 1,
        title: "t".into(),
        url: "u".into(),
        created_at: "2026-08-13T12:00:00Z".into(),
        updated_at: "2026-08-13T12:00:00Z".into(),
        is_draft,
        review_decision: Some(review_decision.into()),
        mergeable: Some(mergeable.into()),
        author: Some(PrAuthor { login: "me".into() }),
        repository: PrRepository {
            name_with_owner: "acme/api".into(),
        },
        commits: PrCommits {
            nodes: vec![PrCommitNode {
                commit: PrCommit {
                    status_check_rollup: ci_state.map(|s| StatusCheckRollup { state: s.into() }),
                },
            }],
        },
        comments: None,
        review_threads: None,
    }
}

fn thread_node(id: &str, is_resolved: bool, comments: Vec<(&str, &str, Option<u64>)>) -> PrReviewThreadNode {
    PrReviewThreadNode {
        id: id.into(),
        is_resolved,
        comments: PrComments {
            nodes: comments
                .into_iter()
                .map(|(login, created_at, database_id)| PrCommentNode {
                    database_id,
                    author: Some(PrAuthor { login: login.into() }),
                    created_at: created_at.into(),
                })
                .collect(),
        },
    }
}

#[test]
fn ready_to_merge_fires_only_when_all_four_hold() {
    let ready = node("APPROVED", "MERGEABLE", false, Some("SUCCESS"));
    assert!(ready.is_ready_to_merge());
    assert!(ready.clone().into_ready_to_merge_item("acc").is_some());

    assert!(!node("CHANGES_REQUESTED", "MERGEABLE", false, Some("SUCCESS")).is_ready_to_merge());
    assert!(!node("REVIEW_REQUIRED", "MERGEABLE", false, Some("SUCCESS")).is_ready_to_merge());
    assert!(!node("APPROVED", "CONFLICTING", false, Some("SUCCESS")).is_ready_to_merge());
    assert!(!node("APPROVED", "UNKNOWN", false, Some("SUCCESS")).is_ready_to_merge());
    assert!(!node("APPROVED", "MERGEABLE", true, Some("SUCCESS")).is_ready_to_merge());
    assert!(!node("APPROVED", "MERGEABLE", false, Some("FAILURE")).is_ready_to_merge());
    assert!(!node("APPROVED", "MERGEABLE", false, Some("ERROR")).is_ready_to_merge());
}

#[test]
fn pending_or_missing_ci_still_counts_as_not_failing() {
    assert!(node("APPROVED", "MERGEABLE", false, Some("PENDING")).is_ready_to_merge());
    assert!(node("APPROVED", "MERGEABLE", false, None).is_ready_to_merge());
}

#[test]
fn merely_open_authored_pr_produces_no_item() {
    let open = node("NONE", "UNKNOWN", false, Some("PENDING"));
    assert!(!open.is_ready_to_merge());
    assert!(open.into_ready_to_merge_item("acc").is_none());
}

#[test]
fn ready_to_merge_item_carries_stable_id_and_kind() {
    let item = node("APPROVED", "MERGEABLE", false, Some("SUCCESS"))
        .into_ready_to_merge_item("acc")
        .expect("predicate holds");
    assert_eq!(item.kind, ItemKind::ReadyToMerge);
    assert_eq!(item.id, "acc:ReadyToMerge:acme/api#1");
    assert_eq!(item.ci_status, CiStatus::Passing);
    assert_eq!(item.author, "me");
}

#[test]
fn reviewed_by_me_item_exists_only_while_reply_is_unanswered() {
    let with_thread = |threads: Vec<PrReviewThreadNode>| PrNode {
        review_threads: Some(PrReviewThreads { nodes: threads }),
        ..node("APPROVED", "MERGEABLE", false, Some("SUCCESS"))
    };

    let replied = with_thread(vec![thread_node(
        "t1",
        false,
        vec![("me", "2026-08-13T10:00:00Z", Some(1)), ("alice", "2026-08-13T11:00:00Z", Some(2))],
    )]);
    let item = replied
        .clone()
        .into_reviewed_by_me_item("acc", "me")
        .expect("unanswered reply produces an item");
    assert_eq!(item.kind, ItemKind::ReviewedByMe);
    assert_eq!(item.updated_at, "2026-08-13T11:00:00Z");

    let handled = with_thread(vec![thread_node(
        "t1",
        false,
        vec![
            ("me", "2026-08-13T10:00:00Z", Some(1)),
            ("alice", "2026-08-13T11:00:00Z", Some(2)),
            ("me", "2026-08-13T12:00:00Z", Some(3)),
        ],
    )]);
    assert!(handled.into_reviewed_by_me_item("acc", "me").is_none());

    let silent = with_thread(vec![thread_node("t1", false, vec![("me", "2026-08-13T10:00:00Z", Some(1))])]);
    assert!(silent.into_reviewed_by_me_item("acc", "me").is_none());

    assert!(with_thread(vec![]).into_reviewed_by_me_item("acc", "me").is_none());

    let two = with_thread(vec![
        thread_node(
            "t1",
            false,
            vec![("me", "2026-08-13T10:00:00Z", Some(1)), ("alice", "2026-08-13T11:00:00Z", Some(2))],
        ),
        thread_node(
            "t2",
            false,
            vec![("me", "2026-08-13T09:00:00Z", Some(3)), ("bob", "2026-08-13T12:00:00Z", Some(4))],
        ),
    ]);
    let item = two.into_reviewed_by_me_item("acc", "me").unwrap();
    assert_eq!(item.updated_at, "2026-08-13T12:00:00Z");
}

#[test]
fn authored_item_exists_only_when_attention_is_needed() {
    let with = |comments: Option<PrComments>, threads: Option<PrReviewThreads>| PrNode {
        comments,
        review_threads: threads,
        ..node("NONE", "UNKNOWN", false, Some("SUCCESS"))
    };

    assert!(with(None, None).into_authored_item("acc", "me").is_none());

    let comment = |login: &str, id: u64| PrCommentNode {
        database_id: Some(id),
        author: Some(PrAuthor { login: login.into() }),
        created_at: "2026-08-13T10:00:00Z".into(),
    };
    let others_comment = with(
        Some(PrComments {
            nodes: vec![comment("alice", 10)],
        }),
        None,
    );
    let item = others_comment
        .clone()
        .into_authored_item("acc", "me")
        .expect("comment from someone else qualifies");
    assert_eq!(item.kind, ItemKind::Authored);
    assert_eq!(item.activity.as_deref(), Some("c:10;u:"));

    let own_comment = with(
        Some(PrComments {
            nodes: vec![comment("me", 11)],
        }),
        None,
    );
    assert!(own_comment.into_authored_item("acc", "me").is_none());

    let unresolved = with(
        None,
        Some(PrReviewThreads {
            nodes: vec![thread_node("t1", false, vec![("alice", "2026-08-13T09:00:00Z", None)])],
        }),
    );
    assert!(unresolved.into_authored_item("acc", "me").is_some());

    let failing = with(None, None);
    let failing = PrNode {
        commits: PrCommits {
            nodes: vec![PrCommitNode {
                commit: PrCommit {
                    status_check_rollup: Some(StatusCheckRollup { state: "FAILURE".into() }),
                },
            }],
        },
        ..failing
    };
    assert!(failing.into_authored_item("acc", "me").is_some());
}

#[test]
fn authored_fingerprint_is_stable_and_orders_independently() {
    let comment = |login: &str, id: u64| PrCommentNode {
        database_id: Some(id),
        author: Some(PrAuthor { login: login.into() }),
        created_at: "2026-08-13T10:00:00Z".into(),
    };
    let base = node("NONE", "UNKNOWN", false, Some("FAILURE"));
    let a = PrNode {
        comments: Some(PrComments {
            nodes: vec![comment("alice", 2), comment("bob", 1)],
        }),
        review_threads: Some(PrReviewThreads {
            nodes: vec![
                thread_node("t1", false, vec![("alice", "2026-08-13T09:00:00Z", None)]),
                thread_node("t2", true, vec![("bob", "2026-08-13T09:00:00Z", None)]),
            ],
        }),
        ..base.clone()
    };
    let b = PrNode {
        comments: Some(PrComments {
            nodes: vec![comment("bob", 1), comment("alice", 2)],
        }),
        review_threads: Some(PrReviewThreads {
            nodes: vec![
                thread_node("t2", true, vec![("bob", "2026-08-13T09:00:00Z", None)]),
                thread_node("t1", false, vec![("alice", "2026-08-13T09:00:00Z", None)]),
            ],
        }),
        ..base
    };
    assert_eq!(a.authored_fingerprint("me"), b.authored_fingerprint("me"));
    assert_eq!(a.authored_fingerprint("me"), "c:1,2;u:t1");
}

#[test]
fn fingerprint_repeats_ids_once_and_counts_thread_comments() {
    let n = PrNode {
        comments: Some(PrComments {
            nodes: vec![PrCommentNode {
                database_id: Some(30),
                author: None,
                created_at: "x".into(),
            }],
        }),
        review_threads: Some(PrReviewThreads {
            nodes: vec![
                thread_node("b", false, vec![("zed", "x", Some(5)), ("me", "x", Some(6))]),
                thread_node("a", false, vec![("zed", "x", Some(30))]),
            ],
        }),
        ..node("NONE", "UNKNOWN", false, None)
    };
    assert_eq!(n.authored_fingerprint("me"), "c:5,30;u:a,b");
    let back = ActivityFingerprint::parse(Some(&n.authored_fingerprint("me")));
    assert_eq!(back.comment_ids, BTreeSet::from([5, 30]));
    assert_eq!(back.unresolved_thread_ids, vec!["a".to_string(), "b".to_string()]);
}

#[test]
fn pr_item_fields_come_from_the_node() {
    let item = node("NONE", "UNKNOWN", false, Some("PENDING")).into_action_item_at("acc", ItemKind::Assigned, "now".into());
    assert_eq!(item.id, "acc:Assigned:acme/api#1");
    assert_eq!(item.account_id, "acc");
    assert_eq!(item.state, ItemState::Open);
    assert_eq!(item.repo, "acme/api");
    assert_eq!(item.number, Some(1));
    assert_eq!(item.raw_kind, "Assigned");
    assert_eq!(item.ci_status, CiStatus::Pending);
    assert_eq!(item.first_seen_at, "now");
    assert_eq!(item.last_seen_at, "now");
    let mut big = node("NONE", "UNKNOWN", false, Some("WEIRD"));
    big.number = 18446744073709551615;
    let item = big.into_action_item_at("x", ItemKind::CiFailed, "t".into());
    assert_eq!(item.id, "x:CiFailed:acme/api#18446744073709551615");
    assert_eq!(item.ci_status, CiStatus::NoChecks);
}

#[test]
fn notification_reasons_map_to_kinds() {
    assert_eq!(classify_reason("review_requested"), ItemKind::ReviewRequested);
    assert_eq!(classify_reason("mention"), ItemKind::Mentioned);
    assert_eq!(classify_reason("team_mention"), ItemKind::Mentioned);
    assert_eq!(classify_reason("assign"), ItemKind::Assigned);
    assert_eq!(classify_reason("state_change"), ItemKind::ReviewStateChanged);
    assert_eq!(classify_reason("ci_activity"), ItemKind::CiFailed);
    assert_eq!(classify_reason("subscribed"), ItemKind::Participating);
}

fn notification(url: Option<&str>) -> RawNotification {
    RawNotification {
        id: "42".into(),
        reason: "mention".into(),
        updated_at: "2026-08-13T12:00:00Z".into(),
        subject: RawSubject {
            title: "Fix".into(),
            url: url.map(String::from),
        },
        repository: RawRepository {
            full_name: "acme/api".into(),
            html_url: "https://github.com/acme/api".into(),
        },
    }
}

#[test]
fn notification_items_fall_back_to_the_repo_page() {
    let with_url = notification(Some("https://api.github.com/repos/acme/api/issues/3")).into_action_item_at("acc", "now".into());
    assert_eq!(with_url.id, "acc:notif:42");
    assert_eq!(with_url.kind, ItemKind::Mentioned);
    assert_eq!(with_url.url, "https://api.github.com/repos/acme/api/issues/3");
    assert_eq!(with_url.created_at, "2026-08-13T12:00:00Z");
    assert_eq!(with_url.raw_kind, "mention");
    assert_eq!(with_url.number, None);
    let without = notification(None).into_action_item("acc");
    assert_eq!(without.url, "https://github.com/acme/api");
    assert_eq!(without.first_seen_at, without.last_seen_at);
}

fn raw_repo(full_name: &str) -> RawRepo {
    RawRepo {
        full_name: full_name.into(),
        name: "fallback".into(),
        html_url: "https://github.com/acme/api".into(),
        description: None,
        private: true,
        default_branch: "main".into(),
        clone_url: "https://github.com/acme/api.git".into(),
        owner: RawOwner { login: "owner-login".into() },
    }
}

#[test]
fn discovered_repo_splits_the_full_name() {
    let d = DiscoveredRepo::from_raw(raw_repo("acme/api"));
    assert_eq!(d.owner, "acme");
    assert_eq!(d.name, "api");
    assert_eq!(d.full_name(), "acme/api");
    let odd = DiscoveredRepo::from_raw(raw_repo("noslash"));
    assert_eq!(odd.owner, "owner-login");
    assert_eq!(odd.name, "fallback");
}

#[test]
fn search_snapshot_collects_items_and_keys() {
    let mut reviewed = node("APPROVED", "MERGEABLE", false, Some("SUCCESS"));
    reviewed.number = 7;
    let s = build_search_snapshot_at(
        vec![node("NONE", "UNKNOWN", false, None), node("NONE", "UNKNOWN", false, None)],
        vec![node("NONE", "UNKNOWN", false, None)],
        vec![node("APPROVED", "MERGEABLE", false, Some("FAILURE"))],
        vec![reviewed],
        "acc",
        "me",
        "now".into(),
    );
    let kinds: Vec<ItemKind> = s.items.iter().map(|i| i.kind).collect();
    assert_eq!(kinds, vec![ItemKind::ReviewRequested, ItemKind::ReviewRequested, ItemKind::Assigned, ItemKind::Authored]);
    assert_eq!(s.review_requested_keys, vec![("acme/api".to_string(), 1)]);
    assert_eq!(s.reviewed_by_me_keys, vec![("acme/api".to_string(), 7)]);
}
