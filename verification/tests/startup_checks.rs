use gitsurveil::clock::{hours_since, sync_due, UnixTime, SYNC_INTERVAL_SECS};
use gitsurveil::api::ApiError;
use gitsurveil::repo::Repository;
use gitsurveil::startup::{
    check_origin, cli_command, discovery_affordable, origin_matches, pending_migrations, prune_targets, CliCommand,
    SchemaColumns, ADD_ACTIVITY, ADD_ARCHIVED, ADD_DISMISSED_WATERMARK, ADD_NOTIFY_ENABLED,
    ADD_TARGET_OWNED,
};

fn repo(name: &str, clone_path: Option<&str>, is_tracked: bool) -> Repository {
    Repository {
        account_id: Some("acc-1".into()),
        host: "github.com".into(),
        owner: "acme".into(),
        name: name.into(),
        full_name: format!("acme/{name}"),
        url: format!("https://github.com/acme/{name}"),
        description: None,
        private: false,
        default_branch: "main".into(),
        clone_url: format!("https://github.com/acme/{name}.git"),
        clone_path: clone_path.map(|p| p.to_string()),
        is_tracked,
        notify_enabled: true,
        first_seen_at: "2026-01-01T00:00:00Z".into(),
        notified_at: None,
        last_refreshed_at: "2026-01-01T00:00:00Z".into(),
    }
}

#[test]
fn sync_is_due_only_after_the_interval_elapses() {
    let now = chrono::Utc::now().timestamp();
    let at = |secs: i64| UnixTime { secs, nanos: 0 };
    assert!(sync_due(None, at(now)), "a never-synced store must sync");

    let stamp = chrono::DateTime::from_timestamp(now, 0).unwrap().to_rfc3339();
    assert!(!sync_due(Some(&stamp), at(now)));
    assert!(!sync_due(Some(&stamp), at(now + SYNC_INTERVAL_SECS - 1)));
    assert!(sync_due(Some(&stamp), at(now + SYNC_INTERVAL_SECS)));
}

#[test]
fn an_unparseable_watermark_forces_a_sync() {
    assert!(sync_due(Some("not-a-timestamp"), UnixTime { secs: chrono::Utc::now().timestamp(), nanos: 0 }));
}

#[test]
fn sync_watermark_in_another_zone_counts_the_same_instant() {
    // 2026-01-01T00:00:00Z is 1767225600.
    assert!(!sync_due(Some("2026-01-01T02:00:00+02:00"), UnixTime { secs: 1767225600 + 899, nanos: 0 }));
    assert!(sync_due(Some("2026-01-01T02:00:00+02:00"), UnixTime { secs: 1767225600 + 900, nanos: 0 }));
}

#[test]
fn cli_arguments_pick_a_subcommand() {
    assert_eq!(cli_command("--foreground"), CliCommand::Run);
    assert_eq!(cli_command("run"), CliCommand::Run);
    assert_eq!(cli_command("install"), CliCommand::Install);
    assert_eq!(cli_command("uninstall"), CliCommand::Uninstall);
    assert_eq!(cli_command("status"), CliCommand::Status);
    assert_eq!(cli_command("-h"), CliCommand::Help);
    assert_eq!(cli_command("--help"), CliCommand::Help);
    assert_eq!(cli_command("help"), CliCommand::Help);
    assert_eq!(cli_command(""), CliCommand::Unknown(String::new()));
    assert_eq!(cli_command("Run"), CliCommand::Unknown("Run".into()));
}

#[test]
fn only_tracked_clones_are_swept() {
    let repos = vec![
        repo("api", Some("/src/api"), true),
        repo("web", Some("/src/web"), false),
        repo("cli", None, true),
        repo("ops", Some("/src/ops"), true),
    ];
    assert_eq!(prune_targets(&repos), vec!["/src/api".to_string(), "/src/ops".to_string()]);
    assert!(prune_targets(&[]).is_empty());
}

#[test]
fn discovery_needs_a_rate_limit_margin() {
    assert!(!discovery_affordable(0));
    assert!(!discovery_affordable(199));
    assert!(discovery_affordable(200));
    assert!(discovery_affordable(5000));
}

#[test]
fn migrations_add_only_missing_columns_in_order() {
    assert_eq!(
        pending_migrations(SchemaColumns::default()),
        vec![ADD_TARGET_OWNED, ADD_NOTIFY_ENABLED, ADD_ACTIVITY, ADD_ARCHIVED, ADD_DISMISSED_WATERMARK]
    );
    let current = SchemaColumns {
        target_owned: true,
        notify_enabled: true,
        activity: true,
        archived: true,
        dismissed_watermark: true,
    };
    assert!(pending_migrations(current).is_empty());
    let partial = SchemaColumns { archived: false, ..current };
    assert_eq!(pending_migrations(partial), vec![ADD_ARCHIVED]);
}

#[test]
fn accepts_a_clone_whose_origin_matches() {
    assert!(origin_matches("https://github.com/acme/api.git", "acme/api"));
    assert!(origin_matches("git@github.com:acme/api.git", "acme/api"));
    assert!(origin_matches("anything", ""));
    assert_eq!(check_origin("/src/api", "https://github.com/acme/api.git", "acme/api"), Ok(()));
}

#[test]
fn rejects_an_origin_that_points_elsewhere() {
    assert!(!origin_matches("https://github.com/acme/web.git", "acme/api"));
    assert!(!origin_matches("acme/ap", "acme/api"));
    assert!(!origin_matches("", "acme/api"));
    let err = check_origin("/src/api", "https://github.com/other/project.git", "acme/api").unwrap_err();
    assert_eq!(
        err,
        ApiError::Config(
            "/src/api's `origin` remote (`https://github.com/other/project.git`) does not point at `acme/api`".into()
        )
    );
    assert!(err.message().contains("does not point at `acme/api`"));
}

#[test]
fn elapsed_hours_truncate_toward_zero() {
    // 2026-01-01T00:00:00Z is 1767225600.
    assert_eq!(hours_since(UnixTime { secs: 1767225600 + 7199, nanos: 0 }, "2026-01-01T00:00:00Z"), Some(1));
    assert_eq!(hours_since(UnixTime { secs: 1767225600 + 7200, nanos: 0 }, "2026-01-01T00:00:00Z"), Some(2));
    assert_eq!(hours_since(UnixTime { secs: 1767225600 - 3599, nanos: 0 }, "2026-01-01T00:00:00Z"), Some(0));
    assert_eq!(hours_since(UnixTime { secs: 1767225600 - 3600, nanos: 0 }, "2026-01-01T00:00:00Z"), Some(-1));
    assert_eq!(hours_since(UnixTime { secs: 1767225600, nanos: 0 }, "yesterday"), None);
}
