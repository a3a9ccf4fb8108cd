use gitsurveil::api::{
    check_app, check_clone_target, check_prepare, check_slug, default_history_limit, is_repo_slug, method_from_name,
    plan_pr_call, progress_due, save_action, select_account, tracked_clone_path, validate_command,
    ApiError, Method, PrAction, PrCall, PrParams, SaveAction,
};
use gitsurveil::item::{AccountRef, AuthKind};
use gitsurveil::pr::{MergeMethod, PrPatch};

fn params() -> PrParams {
    PrParams {
        account_id: None,
        repo: "acme/api".into(),
        number: None,
        title: None,
        body: None,
        base: None,
        head: None,
        draft: None,
        patch: None,
        method: None,
        head_sha: None,
        comment: None,
        in_reply_to: None,
        thread_id: None,
        resolved: None,
    }
}

#[test]
fn methods_resolve_by_name() {
    assert_eq!(method_from_name("status"), Ok(Method::Status));
    assert_eq!(method_from_name("pr.comment_reply"), Ok(Method::Pr(PrAction::CommentReply)));
    assert_eq!(method_from_name("poll.now"), Ok(Method::PollNow));
    let err = method_from_name("does.not.exist").unwrap_err();
    assert_eq!(err.code(), "unknown_method");
    assert_eq!(err.message(), "unknown method: does.not.exist");
    let p = err.payload();
    assert_eq!(p.code, "unknown_method");
}

#[test]
fn error_codes_and_messages() {
    assert_eq!(ApiError::Config("x".into()).code(), "config_error");
    assert_eq!(ApiError::Config("x".into()).message(), "config error: x");
    assert_eq!(ApiError::UnknownAccount("a".into()).code(), "unknown_account");
    assert_eq!(ApiError::UnknownAccount("a".into()).message(), "unknown account: a");
    assert_eq!(ApiError::InvalidParams("p".into()).code(), "invalid_params");
    assert_eq!(ApiError::InvalidParams("p".into()).message(), "invalid params: p");
}

fn account(id: &str) -> AccountRef {
    AccountRef {
        id: id.into(),
        host: "github.com".into(),
        api_base: "https://api.github.com".into(),
        login: "octocat".into(),
        auth_kind: AuthKind::Pat,
    }
}

#[test]
fn account_selection() {
    let accounts = vec![account("a"), account("b")];
    assert_eq!(select_account(&accounts, None), Ok(0));
    assert_eq!(select_account(&accounts, Some(&"b".to_string())), Ok(1));
    assert_eq!(select_account(&accounts, Some(&"z".to_string())), Err(ApiError::UnknownAccount("z".into())));
    assert_eq!(select_account(&[], None), Err(ApiError::InvalidParams("no account configured".into())));
}

#[test]
fn pr_calls_check_required_params_in_order() {
    assert_eq!(plan_pr_call(PrAction::Detail, &params()), Err(ApiError::InvalidParams("number is required".into())));
    let mut p = params();
    p.number = Some(3);
    assert_eq!(plan_pr_call(PrAction::Detail, &p), Ok(PrCall::Detail { number: 3 }));
    assert_eq!(plan_pr_call(PrAction::Create, &p), Err(ApiError::InvalidParams("base is required".into())));
    p.base = Some("main".into());
    p.head = Some("feat".into());
    assert_eq!(plan_pr_call(PrAction::Create, &p), Err(ApiError::InvalidParams("title is required".into())));
    p.title = Some("T".into());
    assert_eq!(
        plan_pr_call(PrAction::Create, &p),
        Ok(PrCall::Create { base: "main".into(), head: "feat".into(), title: "T".into(), body: "".into(), draft: false })
    );
    assert_eq!(plan_pr_call(PrAction::Update, &params()), Err(ApiError::InvalidParams("patch is required".into())));
    let mut u = params();
    u.patch = Some(PrPatch::default());
    assert_eq!(plan_pr_call(PrAction::Update, &u), Err(ApiError::InvalidParams("number is required".into())));
    assert_eq!(plan_pr_call(PrAction::Merge, &p), Err(ApiError::InvalidParams("head_sha is required".into())));
    p.head_sha = Some("abc".into());
    assert_eq!(
        plan_pr_call(PrAction::Merge, &p),
        Ok(PrCall::Merge { number: 3, method: MergeMethod::Merge, head_sha: "abc".into(), commit_title: Some("T".into()) })
    );
    assert_eq!(plan_pr_call(PrAction::CommentReply, &p), Err(ApiError::InvalidParams("in_reply_to is required".into())));
    assert_eq!(plan_pr_call(PrAction::Resolve, &p), Err(ApiError::InvalidParams("thread_id is required".into())));
    p.thread_id = Some("t".into());
    assert_eq!(plan_pr_call(PrAction::Resolve, &p), Err(ApiError::InvalidParams("resolved is required".into())));
    assert_eq!(plan_pr_call(PrAction::Branches, &params()), Ok(PrCall::Branches));
    assert_eq!(PrParams::require_u64(&p, None, "x"), Err(ApiError::InvalidParams("x is required".into())));
    assert_eq!(PrParams::require(&p, Some(&"v".to_string()), "x"), Ok("v"));
}

#[test]
fn slugs_and_commands() {
    assert!(is_repo_slug("acme/api"));
    assert!(!is_repo_slug("acme"));
    assert!(!is_repo_slug("/api"));
    assert!(!is_repo_slug("acme/"));
    assert!(!is_repo_slug("a/b/c"));
    assert_eq!(check_slug("bad"), Err(ApiError::InvalidParams("repo must be \"owner/name\", got \"bad\"".into())));
    assert_eq!(validate_command("code"), Ok(()));
    assert_eq!(validate_command(""), Err(ApiError::InvalidParams("command is required".into())));
    assert!(validate_command("code --wait").is_err());
    assert!(validate_command("co\0de").is_err());
    let refused = ApiError::InvalidParams(
        "command must be an executable name on PATH or an absolute path (no flags, args, or spaces)".into(),
    );
    assert_eq!(validate_command("/usr/bin/code"), Ok(()));
    assert_eq!(validate_command("\"code\""), Err(refused.clone()));
    assert_eq!(validate_command("'code'"), Err(refused.clone()));
    assert_eq!(validate_command(" code"), Err(refused.clone()));
    assert_eq!(validate_command("code "), Err(refused.clone()));
    assert_eq!(validate_command("   "), Err(refused.clone()));
    assert_eq!(validate_command("co\tde"), Err(refused.clone()));
    assert_eq!(check_app("Editor", "\"code\""), Err(refused));
    assert_eq!(default_history_limit(), 200);
    let app = check_app("  VS Code ", " code ").unwrap();
    assert_eq!(app.name, "VS Code");
    assert_eq!(app.command, "code");
    assert_eq!(check_app("  ", "code"), Err(ApiError::InvalidParams("name is required".into())));
}

#[test]
fn conflict_request_checks() {
    assert_eq!(save_action(Some("x".into()), None), Ok(SaveAction::Content("x".into())));
    assert_eq!(save_action(None, Some("ours")), Ok(SaveAction::Pick { ours: true }));
    assert_eq!(save_action(None, Some("theirs")), Ok(SaveAction::Pick { ours: false }));
    assert_eq!(
        save_action(None, Some("mine")),
        Err(ApiError::InvalidParams("pick must be \"ours\" or \"theirs\", got \"mine\"".into()))
    );
    assert_eq!(save_action(Some("x".into()), Some("ours")), Err(ApiError::InvalidParams("pass either content or pick, not both".into())));
    assert_eq!(save_action(None, None), Err(ApiError::InvalidParams("content or pick is required".into())));
    let path = "/clone".to_string();
    assert_eq!(check_prepare("acme/api", Some(&path), false), Ok("/clone".to_string()));
    assert!(matches!(check_prepare("acme/api", None, false), Err(ApiError::Config(_))));
    assert!(matches!(check_prepare("acme/api", Some(&path), true), Err(ApiError::Config(_))));
    assert!(matches!(tracked_clone_path("acme/api", None), Err(ApiError::Config(_))));
    assert!(progress_due(0, 0));
    assert!(!progress_due(1000, 900));
    assert!(progress_due(600000, 0));
    assert!(!progress_due(5, 10));
}

#[test]
fn clone_requests_need_a_slug_and_an_absolute_target() {
    assert_eq!(check_clone_target("acme/api", "/home/u/src/api"), Ok(()));
    assert_eq!(
        check_clone_target("acme/api", "src/api"),
        Err(ApiError::InvalidParams("target must be an absolute path, got \"src/api\"".into()))
    );
    assert_eq!(
        check_clone_target("acme", "/x"),
        Err(ApiError::InvalidParams("repo must be \"owner/name\", got \"acme\"".into()))
    );
    // The target prints as a path does.
    assert_eq!(
        check_clone_target("acme/api", "it's here"),
        Err(ApiError::InvalidParams(format!(
            "target must be an absolute path, got {:?}",
            std::path::Path::new("it's here")
        )))
    );
    assert_eq!(
        check_clone_target("acme/api", "dir\t"),
        Err(ApiError::InvalidParams(format!(
            "target must be an absolute path, got {:?}",
            std::path::Path::new("dir\t")
        )))
    );
}
