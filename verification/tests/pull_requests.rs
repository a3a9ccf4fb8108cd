use gitsurveil::item::CiStatus;
use gitsurveil::pr::{
    assemble_detail, dedupe_reviewers, mergeability_of, merged_summaries, pr_update_plan, search_qualifier,
    state_matches, MergeMethod, Mergeability, PrRole, PrState, RawCheckRun, RawCheckRuns,
    RawComment, RawLabel, RawPr, RawRef, RawReview, RawReviewThread, RawThreadComment,
    RawThreadComments, RawUser, ReviewDecision, SearchAuthor, SearchCommits, SearchPrNode,
    SearchRepository, SearchReviewThreadNode, SearchReviewThreads, PrPatch, PrUpdatePlan,
};

#[test]
fn conflicted_wins_over_every_other_signal() {
    assert_eq!(mergeability_of(&Some(false), Some("blocked")), Mergeability::Conflicted);
    assert_eq!(mergeability_of(&None, Some("dirty")), Mergeability::Conflicted);
}

#[test]
fn blocked_is_distinguished_from_clean() {
    assert_eq!(mergeability_of(&Some(true), Some("blocked")), Mergeability::Blocked);
    assert_eq!(mergeability_of(&Some(true), Some("clean")), Mergeability::Clean);
}

#[test]
fn null_mergeable_is_unknown_not_an_error() {
    assert_eq!(mergeability_of(&None, None), Mergeability::Unknown);
    assert_eq!(mergeability_of(&None, Some("unknown")), Mergeability::Unknown);
}

fn search_node(repo: &str, number: u64, state: &str) -> SearchPrNode {
    SearchPrNode {
        typename: Some("PullRequest".into()),
        number,
        title: format!("PR {number}"),
        url: format!("https://github.com/{repo}/pull/{number}"),
        created_at: "2026-08-13T12:00:00Z".into(),
        updated_at: "2026-08-13T12:00:00Z".into(),
        state: state.into(),
        is_draft: false,
        review_decision: Some("APPROVED".into()),
        mergeable: Some("MERGEABLE".into()),
        head_ref: Some(format!("feature/{number}")),
        author: Some(SearchAuthor { login: "octocat".into() }),
        repository: SearchRepository {
            name_with_owner: repo.into(),
        },
        commits: SearchCommits { nodes: vec![] },
        review_threads: Some(SearchReviewThreads { nodes: vec![] }),
    }
}

#[test]
fn unresolved_threads_counts_only_unresolved_threads() {
    let mut node = search_node("acme/api", 1, "OPEN");
    node.review_threads = Some(SearchReviewThreads {
        nodes: vec![
            SearchReviewThreadNode { is_resolved: false },
            SearchReviewThreadNode { is_resolved: false },
            SearchReviewThreadNode { is_resolved: true },
        ],
    });
    let summary = node.into_summary("acc-1");
    assert_eq!(summary.unresolved_threads, 2);
}

#[test]
fn no_review_threads_is_zero_unresolved() {
    let summary = search_node("acme/api", 1, "OPEN").into_summary("acc-1");
    assert_eq!(summary.unresolved_threads, 0);
}

#[test]
fn summary_maps_states_and_decisions() {
    let summary = search_node("acme/api", 5, "MERGED").into_summary("acc-1");
    assert_eq!(summary.state, PrState::Merged);
    assert_eq!(summary.review_decision, ReviewDecision::Approved);
    assert_eq!(summary.mergeable, Mergeability::Clean);
    assert_eq!(summary.ci_status, CiStatus::NoChecks);
    assert_eq!(summary.author, "octocat");
    assert_eq!(summary.head_ref.as_deref(), Some("feature/5"));
    assert!(summary.roles.is_empty());
    let mut n = search_node("acme/api", 6, "CLOSED");
    n.review_decision = None;
    n.mergeable = Some("CONFLICTING".into());
    let s = n.into_summary("acc-1");
    assert_eq!(s.state, PrState::Closed);
    assert_eq!(s.review_decision, ReviewDecision::Undecided);
    assert_eq!(s.mergeable, Mergeability::Conflicted);
}

#[test]
fn a_pr_in_two_result_sets_is_one_summary_with_two_roles() {
    let authored = vec![search_node("acme/api", 1, "OPEN")];
    let assigned = vec![search_node("acme/api", 1, "OPEN")];
    let summaries = merged_summaries(
        "acc-1",
        vec![(authored, PrRole::Authored), (assigned, PrRole::Assigned)],
        Some(PrState::Open),
    );
    assert_eq!(summaries.len(), 1);
    let summary = &summaries[0];
    assert_eq!(summary.roles.len(), 2);
    assert!(summary.roles.contains(&PrRole::Authored));
    assert!(summary.roles.contains(&PrRole::Assigned));
}

#[test]
fn reviewer_appears_once_with_latest_state_and_round_count() {
    let reviews = vec![
        RawReview {
            user: Some(RawUser { login: "dave".into() }),
            state: "CHANGES_REQUESTED".into(),
        },
        RawReview {
            user: Some(RawUser { login: "erin".into() }),
            state: "COMMENTED".into(),
        },
        RawReview {
            user: Some(RawUser { login: "dave".into() }),
            state: "APPROVED".into(),
        },
    ];
    let reviewers = dedupe_reviewers(reviews, None);
    assert_eq!(reviewers.len(), 2);
    assert_eq!(reviewers[0].login, "dave");
    assert_eq!(reviewers[0].state, "approved");
    assert_eq!(reviewers[0].rounds, 2);
    assert_eq!(reviewers[1].login, "erin");
    assert_eq!(reviewers[1].state, "commented");
    assert_eq!(reviewers[1].rounds, 1);
}

#[test]
fn requested_reviewers_without_a_review_are_pending() {
    let reviews = vec![RawReview {
        user: Some(RawUser { login: "dave".into() }),
        state: "APPROVED".into(),
    }];
    let requested = vec![RawUser { login: "dave".into() }, RawUser { login: "erin".into() }];
    let reviewers = dedupe_reviewers(reviews, Some(&requested));
    assert_eq!(reviewers.len(), 2);
    assert_eq!(reviewers[0].login, "dave");
    assert_eq!(reviewers[0].state, "approved");
    assert_eq!(reviewers[0].rounds, 1);
    assert_eq!(reviewers[1].login, "erin");
    assert_eq!(reviewers[1].state, "pending");
    assert_eq!(reviewers[1].rounds, 0);
}

#[test]
fn review_rows_without_a_user_are_skipped() {
    let reviews = vec![
        RawReview { user: None, state: "APPROVED".into() },
        RawReview {
            user: Some(RawUser { login: "dave".into() }),
            state: "APPROVED".into(),
        },
    ];
    let reviewers = dedupe_reviewers(reviews, None);
    assert_eq!(reviewers.len(), 1);
    assert_eq!(reviewers[0].login, "dave");
    assert_eq!(reviewers[0].rounds, 1);
}

#[test]
fn roles_is_never_empty() {
    let summaries = merged_summaries(
        "acc-1",
        vec![(vec![search_node("acme/api", 7, "OPEN")], PrRole::Authored)],
        Some(PrState::Open),
    );
    assert!(!summaries[0].roles.is_empty());
}

#[test]
fn distinct_prs_are_not_merged() {
    let summaries = merged_summaries(
        "acc-1",
        vec![
            (vec![search_node("acme/api", 1, "OPEN")], PrRole::Authored),
            (vec![search_node("acme/api", 2, "OPEN")], PrRole::Assigned),
        ],
        Some(PrState::Open),
    );
    assert_eq!(summaries.len(), 2);
}

#[test]
fn state_filter_uses_the_nodes_authoritative_state() {
    let summaries = merged_summaries(
        "acc-1",
        vec![
            (
                vec![search_node("acme/api", 1, "OPEN"), search_node("acme/api", 2, "MERGED")],
                PrRole::Authored,
            ),
            (vec![search_node("acme/api", 3, "CLOSED")], PrRole::ReviewRequested),
        ],
        Some(PrState::Closed),
    );
    assert_eq!(summaries.len(), 1);
    assert_eq!(summaries[0].number, 3);
}

#[test]
fn non_pull_request_nodes_are_skipped() {
    let mut issue = search_node("acme/api", 4, "OPEN");
    issue.typename = Some("Issue".into());
    let summaries = merged_summaries("acc-1", vec![(vec![issue], PrRole::Assigned)], Some(PrState::Open));
    assert!(summaries.is_empty());
}

#[test]
fn qualifiers_and_state_matching() {
    assert_eq!(search_qualifier(None), "is:pr");
    assert_eq!(search_qualifier(Some(PrState::Open)), "is:open is:pr");
    assert_eq!(search_qualifier(Some(PrState::Closed)), "is:closed is:pr");
    assert_eq!(search_qualifier(Some(PrState::Merged)), "is:merged is:pr");
    assert!(state_matches("MERGED", None));
    assert!(state_matches("OPEN", Some(PrState::Open)));
    assert!(!state_matches("MERGED", Some(PrState::Closed)));
    assert_eq!(MergeMethod::Squash.as_api_str(), "squash");
    assert_eq!(MergeMethod::Merge.as_api_str(), "merge");
    assert_eq!(MergeMethod::Rebase.as_api_str(), "rebase");
}

#[test]
fn comments_and_threads_convert_for_the_ui() {
    let c = RawComment {
        id: 9,
        user: None,
        body: "hi".into(),
        created_at: "t".into(),
        path: Some("a.rs".into()),
    }
    .into_comment();
    assert_eq!(c.author, "");
    assert_eq!(c.path.as_deref(), Some("a.rs"));
    let t = RawReviewThread {
        id: "PRR_kwLOAbc123".into(),
        is_resolved: false,
        path: Some("src/api.rs".into()),
        comments: RawThreadComments {
            nodes: vec![
                RawThreadComment {
                    database_id: Some(9001),
                    author: Some(RawUser { login: "carol".into() }),
                    body: "Nits on line 5".into(),
                    created_at: "2026-08-13T12:00:00Z".into(),
                },
                RawThreadComment {
                    database_id: None,
                    author: None,
                    body: "?".into(),
                    created_at: "x".into(),
                },
            ],
        },
    }
    .into_thread();
    assert_eq!(t.id, "PRR_kwLOAbc123");
    assert!(!t.resolved);
    assert_eq!(t.path.as_deref(), Some("src/api.rs"));
    assert_eq!(t.comments.len(), 2);
    assert_eq!(t.comments[0].id, 9001);
    assert_eq!(t.comments[0].author, "carol");
    assert_eq!(t.comments[1].id, 0);
    assert_eq!(t.comments[1].path, None);
}

#[test]
fn detail_is_assembled_from_the_three_fetches() {
    let pr = RawPr {
        number: 12,
        title: "T".into(),
        body: None,
        state: "closed".into(),
        draft: None,
        html_url: "https://github.com/acme/api/pull/12".into(),
        merged_at: Some("2026-08-01T00:00:00Z".into()),
        mergeable: None,
        mergeable_state: Some("dirty".into()),
        user: Some(RawUser { login: "me".into() }),
        base: RawRef { ref_name: "main".into(), sha: "b".into() },
        head: RawRef { ref_name: "feat".into(), sha: "h".into() },
        labels: vec![RawLabel { name: "bug".into() }],
        requested_reviewers: Some(vec![RawUser { login: "erin".into() }]),
    };
    let checks = RawCheckRuns {
        check_runs: vec![
            RawCheckRun { name: "ci".into(), status: "completed".into(), conclusion: Some("success".into()), html_url: None },
            RawCheckRun { name: "lint".into(), status: "in_progress".into(), conclusion: None, html_url: Some("u".into()) },
        ],
    };
    let d = assemble_detail("acme/api", 12, pr, None, Some(checks));
    assert_eq!(d.state, "merged");
    assert_eq!(d.body, "");
    assert!(!d.draft);
    assert_eq!(d.labels, vec!["bug".to_string()]);
    assert_eq!(d.reviewers.len(), 1);
    assert_eq!(d.reviewers[0].state, "pending");
    assert_eq!(d.checks[0].conclusion, "success");
    assert_eq!(d.checks[1].conclusion, "in_progress");
    assert_eq!(d.mergeability, Mergeability::Conflicted);
    assert_eq!(d.head_sha, "h");
    assert_eq!(d.author, "me");
}

#[test]
fn an_update_makes_only_the_writes_its_patch_needs() {
    let empty = PrPatch { title: None, body: None, base: None, draft: None, labels: None, reviewers: None };
    assert_eq!(
        pr_update_plan(&empty),
        PrUpdatePlan { edit_fields: false, set_labels: false, request_reviewers: false }
    );
    let draft_only = PrPatch { draft: Some(true), ..empty.clone() };
    assert!(pr_update_plan(&draft_only).edit_fields);
    let clear_labels = PrPatch { labels: Some(vec![]), reviewers: Some(vec![]), ..empty.clone() };
    assert_eq!(
        pr_update_plan(&clear_labels),
        PrUpdatePlan { edit_fields: false, set_labels: true, request_reviewers: false }
    );
    let ask = PrPatch { reviewers: Some(vec!["octocat".into()]), ..empty };
    assert!(pr_update_plan(&ask).request_reviewers);
}

#[test]
fn pull_requests_sort_newest_first_keeping_ties_in_order() {
    let pr = |number: u64, updated_at: &str| gitsurveil::pr::PullRequestSummary {
        account_id: "acc".into(),
        repo: "acme/api".into(),
        number,
        title: "t".into(),
        url: "u".into(),
        author: "a".into(),
        roles: vec![PrRole::Authored],
        state: PrState::Open,
        draft: false,
        ci_status: CiStatus::NoChecks,
        review_decision: ReviewDecision::Undecided,
        unresolved_threads: 0,
        mergeable: Mergeability::Unknown,
        created_at: "c".into(),
        updated_at: updated_at.into(),
        head_ref: None,
    };
    let sorted = gitsurveil::order::sort_by_recency(vec![
        pr(1, "2026-01-01T00:00:00Z"),
        pr(2, "2026-03-01T00:00:00Z"),
        pr(3, "2026-01-01T00:00:00Z"),
        pr(4, "2026-02-01T00:00:00Z"),
    ]);
    let numbers: Vec<u64> = sorted.iter().map(|p| p.number).collect();
    assert_eq!(numbers, vec![2, 4, 1, 3]);
}
