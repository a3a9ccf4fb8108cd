use gitsurveil::api::ApiError;
use gitsurveil::clock::IdleClock;
use gitsurveil::repo::{
    check_branch, clone_state_of, default_poll_interval, legacy_account, legacy_repository, worktree_name_from_path,
    CloneState, Config,
};
use gitsurveil::service::{
    local_api_address, plist_program, plist_text, run_key_data, run_key_location, run_key_program, socket_address,
    status_report, unit_program, unit_text, Platform, ServiceStatus,
};
use gitsurveil::text::join_path;

#[test]
fn worktree_names_come_from_the_last_component() {
    assert_eq!(worktree_name_from_path("/home/u/wt-acme-api-feature"), Ok("wt-acme-api-feature".to_string()));
    assert_eq!(worktree_name_from_path("/x/feature x!/"), Ok("feature-x".to_string()));
    assert_eq!(worktree_name_from_path("/x/foo/."), Ok("foo".to_string()));
    assert_eq!(
        worktree_name_from_path("/x/.."),
        Err(ApiError::Config("the worktree path has no usable file name".into()))
    );
    assert_eq!(worktree_name_from_path("/"), Err(ApiError::Config("the worktree path has no usable file name".into())));
    assert_eq!(
        worktree_name_from_path("/x/!!!"),
        Err(ApiError::Config("the worktree path must end in a non-empty directory name".into()))
    );
    assert_eq!(check_branch("  feat "), Ok("feat".to_string()));
    assert!(check_branch("   ").is_err());
}

#[test]
fn config_defaults() {
    assert_eq!(default_poll_interval(), 60);
    let c = Config::default();
    assert_eq!(c.poll_interval_secs, 60);
    assert_eq!(c.rules.len(), 1);
    assert!(c.repos.is_empty());
}

#[test]
fn idle_clock_tears_down_after_the_timeout() {
    let mut clock = IdleClock::default();
    assert!(!clock.hidden_long_enough(1000));
    clock.hidden_now(1000);
    assert!(!clock.hidden_long_enough(1299));
    assert!(clock.hidden_long_enough(1300));
    assert!(!clock.hidden_long_enough(10));
    clock.shown();
    assert!(!clock.hidden_long_enough(5000));
    clock.hidden_now(0);
    clock.clear();
    assert!(!clock.hidden_long_enough(5000));
}

#[test]
fn unit_files_name_the_program() {
    let unit = unit_text("/usr/bin/gitsurveild");
    assert!(unit.contains("ExecStart=/usr/bin/gitsurveild --foreground\n"));
    assert_eq!(unit_program(&unit), Some("/usr/bin/gitsurveild".to_string()));
    assert_eq!(unit_program("[Unit]\r\nExecStart=/a --foreground --foreground\r\n"), Some("/a".to_string()));
    assert_eq!(unit_program("nothing"), None);
}

#[test]
fn clone_job_status_reads_back() {
    assert_eq!(clone_state_of("done"), CloneState::Done);
    assert_eq!(clone_state_of("failed"), CloneState::Failed);
    assert_eq!(clone_state_of("running"), CloneState::Running);
    assert_eq!(clone_state_of("something-newer"), CloneState::Running);
}

#[test]
fn legacy_entries_become_tracked_placeholder_rows() {
    let r = legacy_repository("acme/api", "/src/api", Some("acc-1".into()), "2026-01-01T00:00:00Z");
    assert_eq!(r.account_id.as_deref(), Some("acc-1"));
    assert_eq!(r.host, "github.com");
    assert_eq!(r.owner, "acme");
    assert_eq!(r.name, "api");
    assert_eq!(r.url, "https://github.com/acme/api");
    assert_eq!(r.clone_url, "https://github.com/acme/api.git");
    assert_eq!(r.default_branch, "main");
    assert_eq!(r.clone_path.as_deref(), Some("/src/api"));
    assert!(r.is_tracked && r.notify_enabled && !r.private);
    assert_eq!(r.notified_at.as_deref(), Some("2026-01-01T00:00:00Z"));
    let odd = legacy_repository("noslash", "/x", None, "t");
    assert_eq!((odd.owner.as_str(), odd.name.as_str()), ("noslash", ""));
    let nested = legacy_repository("a/b/c", "/x", None, "t");
    assert_eq!((nested.owner.as_str(), nested.name.as_str()), ("a", "b/c"));
    assert_eq!(legacy_account(&["acc-1".to_string()]), Some("acc-1".to_string()));
    assert_eq!(legacy_account(&["a".to_string(), "b".to_string()]), None);
    assert_eq!(legacy_account(&[]), None);
}

#[test]
fn socket_lives_in_the_runtime_dir_when_there_is_one() {
    assert_eq!(socket_address(Some("/run/user/1000"), "/home/u/.local/share/gitsurveil"), "/run/user/1000/gitsurveil.sock");
    assert_eq!(socket_address(Some("/run/user/1000/"), "/d"), "/run/user/1000/gitsurveil.sock");
    assert_eq!(socket_address(None, "/home/u/.local/share/gitsurveil"), "/home/u/.local/share/gitsurveil/daemon.sock");
    assert_eq!(join_path("", "x"), "x");
    assert_eq!(join_path("/a", "/b"), "/b");
}

#[test]
fn status_report_names_registration_and_liveness() {
    let st = ServiceStatus {
        registered: true,
        location: "/home/u/.config/systemd/user/io.gitsurveil.daemon.service".into(),
        program: Some("/usr/bin/gitsurveild".into()),
    };
    assert_eq!(
        status_report(&st, false, "/run/user/1000/gitsurveil.sock", false, true),
        "Start at login: yes\n  registration: /home/u/.config/systemd/user/io.gitsurveil.daemon.service\n  binary:       /usr/bin/gitsurveild\n  WARNING: that binary no longer exists — re-run `install`.\n\nRunning now:    no\n  socket:       /run/user/1000/gitsurveil.sock\n  (socket file is stale; it is cleaned up on next start)\n"
    );
    let none = ServiceStatus { registered: false, location: "x".into(), program: None };
    assert_eq!(
        status_report(&none, true, "s", true, true),
        "Start at login: no\n  registration: x\n\nRunning now:    yes\n  socket:       s\n"
    );
}

#[test]
fn the_api_address_follows_the_platform() {
    let data = "/home/u/.local/share/gitsurveil";
    assert_eq!(local_api_address(Platform::Windows, Some("/run/user/1000"), data), r"\\.\pipe\gitsurveil");
    assert_eq!(local_api_address(Platform::Linux, Some("/run/user/1000"), data), "/run/user/1000/gitsurveil.sock");
    assert_eq!(local_api_address(Platform::Linux, None, data), format!("{data}/daemon.sock"));
    assert_eq!(local_api_address(Platform::MacOs, Some("/run/user/1000"), data), format!("{data}/daemon.sock"));
}

#[test]
fn launchd_agent_text_and_its_program() {
    let text = plist_text("/Applications/GitSurveil.app/gitsurveild", "/Users/u/data/daemon.log");
    let expected = r#"<?xml version="1.0" encoding="UTF-8"?>
<!DOCTYPE plist PUBLIC "-//Apple//DTD PLIST 1.0//EN" "http://www.apple.com/DTDs/PropertyList-1.0.dtd">
<plist version="1.0">
<dict>
    <key>Label</key>
    <string>io.gitsurveil.daemon</string>
    <key>ProgramArguments</key>
    <array>
        <string>/Applications/GitSurveil.app/gitsurveild</string>
        <string>--foreground</string>
    </array>
    <key>RunAtLoad</key>
    <true/>
    <key>KeepAlive</key>
    <true/>
    <key>StandardOutPath</key>
    <string>/Users/u/data/daemon.log</string>
    <key>StandardErrorPath</key>
    <string>/Users/u/data/daemon.log</string>
</dict>
</plist>
"#;
    assert_eq!(text, expected);
    assert_eq!(plist_program(&text), Some("/Applications/GitSurveil.app/gitsurveild".to_string()));
    assert_eq!(plist_program("<plist><key>Label</key><string>x</string></plist>"), None);
    assert_eq!(plist_program("<key>ProgramArguments</key><array><string>/bin/é"), None);
    assert_eq!(plist_program("<key>ProgramArguments</key><string></string>"), Some(String::new()));
}

#[test]
fn run_key_registration_text_and_its_program() {
    assert_eq!(run_key_location(), r"HKCU\Software\Microsoft\Windows\CurrentVersion\Run\gitsurveil");
    assert_eq!(run_key_data(r"C:\Program Files\gitsurveild.exe"), r#""C:\Program Files\gitsurveild.exe" --foreground"#);
    let output = "\r\nHKEY_CURRENT_USER\\Software\\Microsoft\\Windows\\CurrentVersion\\Run\r\n    gitsurveil    REG_SZ    \"C:\\Program Files\\gitsurveild.exe\" --foreground\r\n\r\n";
    assert_eq!(run_key_program(output), Some(r"C:\Program Files\gitsurveild.exe".to_string()));
    assert_eq!(run_key_program("nothing here"), None);
    assert_eq!(run_key_program("    gitsurveil    REG_SZ    unquoted"), None);
}
