use gitsurveil::api::ApiError;
use gitsurveil::worktrees::{
    branch_choices, check_branch_free, check_removable, checked_out_elsewhere, strip_origin_prefix,
    parent_dir, same_path, user_worktrees, worktree_info_of, worktree_target,
};

fn strings(v: &[&str]) -> Vec<String> {
    v.iter().map(|s| s.to_string()).collect()
}

#[test]
fn listing_hides_conflict_session_worktrees() {
    let names = strings(&["feature", "gitsurveil-acme-api-7", "wt-acme-api-fix", "gitsurveil-x"]);
    assert_eq!(user_worktrees(&names), strings(&["feature", "wt-acme-api-fix"]));
    assert!(user_worktrees(&[]).is_empty());
}

#[test]
fn branches_merge_local_and_origin_names_sorted_once() {
    let local = strings(&["main", "feature"]);
    let remote = strings(&["origin/main", "origin/release", "upstream/main", "origin/HEAD"]);
    assert_eq!(
        branch_choices(&local, &remote),
        strings(&["HEAD", "feature", "main", "release", "upstream/main"])
    );
    assert!(branch_choices(&[], &[]).is_empty());
}

#[test]
fn origin_prefix_is_dropped_only_at_the_start() {
    assert_eq!(strip_origin_prefix("origin/x"), "x");
    assert_eq!(strip_origin_prefix("origin/"), "");
    assert_eq!(strip_origin_prefix("my-origin/x"), "my-origin/x");
    assert_eq!(strip_origin_prefix("origin"), "origin");
}

#[test]
fn a_branch_held_by_the_main_checkout_or_a_worktree_is_refused() {
    let wts = vec![
        ("gitsurveil-acme-api-7".to_string(), Some("fix".to_string())),
        ("wt-a".to_string(), None),
        ("wt-b".to_string(), Some("fix".to_string())),
        ("wt-c".to_string(), Some("fix".to_string())),
    ];
    assert_eq!(checked_out_elsewhere(Some("fix"), &wts, "fix"), Some("the main checkout".to_string()));
    assert_eq!(checked_out_elsewhere(Some("main"), &wts, "fix"), Some("worktree `wt-b`".to_string()));
    assert_eq!(checked_out_elsewhere(None, &wts, "other"), None);
    assert_eq!(
        check_branch_free("fix", Some("worktree `wt-b`".to_string())),
        Err(ApiError::Config("branch `fix` is already checked out in worktree `wt-b` — pick another branch".into()))
    );
    assert_eq!(check_branch_free("fix", None), Ok(()));
}

#[test]
fn remove_refuses_conflict_session_names() {
    assert_eq!(
        check_removable("gitsurveil-acme-api-7"),
        Err(ApiError::Config(
            "gitsurveil-acme-api-7 is a gitsurveil conflict-session worktree and can't be removed here".into()
        ))
    );
    assert_eq!(check_removable("wt-acme-api-fix"), Ok(()));
}

#[test]
fn worktree_description_shortens_the_head_id() {
    let w = worktree_info_of(
        "wt".into(),
        "/src/wt".into(),
        Some("feature".into()),
        Some("0123456789abcdef".into()),
    );
    assert_eq!(w.branch, "feature");
    assert_eq!(w.head, "0123456");
    let d = worktree_info_of("wt".into(), "/src/wt".into(), None, None);
    assert_eq!(d.branch, "(detached)");
    assert_eq!(d.head, "");
    assert_eq!(worktree_info_of("a".into(), "/a".into(), None, Some("abc".into())).head, "abc");
}

#[test]
fn parent_dir_agrees_with_std_path() {
    for p in ["/home/u/src/api", "/home/u/src/api/", "/api", "/", "", "api", "a/b", "//a", "/a//b", "rel/dir///"] {
        let ours = parent_dir(p);
        let std = std::path::Path::new(p).parent().map(|d| d.to_string_lossy().into_owned());
        assert_eq!(ours, std, "parent of {p:?}");
    }
}

#[test]
fn worktree_targets_resolve_against_the_clone_parent() {
    assert_eq!(worktree_target("/home/u/src/api", "wt-acme-api-feat"), Ok("/home/u/src/wt-acme-api-feat".to_string()));
    assert_eq!(worktree_target("/home/u/src/api", "/tmp/elsewhere"), Ok("/tmp/elsewhere".to_string()));
    assert_eq!(worktree_target("api", "wt"), Ok("wt".to_string()));
    assert_eq!(worktree_target("/", "wt"), Ok("./wt".to_string()));
    let same = Err(ApiError::Config("the worktree path must differ from the clone itself".into()));
    assert_eq!(worktree_target("/home/u/src/api", "api"), same);
    assert_eq!(worktree_target("/home/u/src/api", "/home/u/src/api/"), same);
    assert_eq!(worktree_target("/src/repo", "/src//repo"), same);
    assert_eq!(worktree_target("/src/repo", "/src/./repo"), same);
    assert_eq!(worktree_target("/src/repo", "./repo"), same);
    for (clone, path) in [("/home/u/src/api", "wt"), ("/home/u/src/api/", "x/y"), ("/a", "b"), ("/home/u/src/api", "/abs")] {
        let std = std::path::Path::new(clone).parent().unwrap_or(std::path::Path::new(".")).join(path);
        assert_eq!(worktree_target(clone, path), Ok(std.to_string_lossy().into_owned()));
    }
}

#[test]
fn same_path_agrees_with_std_path_equality() {
    let paths = [
        "/src/repo", "/src//repo", "/src/./repo", "/src/repo/", "/src/repo/.", "src/repo", "./src/repo",
        "././src/repo", "/", "//", "/.", "", ".", "./", "a", "./a", "a/..", "a/../a", "/src/repo/..",
    ];
    for a in paths {
        for b in paths {
            let std_eq = std::path::Path::new(a) == std::path::Path::new(b);
            assert_eq!(same_path(a, b), std_eq, "{a:?} vs {b:?}");
        }
    }
}
