//! The local API's decisions: which method a request names, which account
//! and which GitHub call a `pr.*` request resolves to, and the parameter
//! checks the handlers make before touching anything. The transport and the
//! calls themselves are the caller's.

use vstd::prelude::*;
use crate::item::AccountRef;
use crate::pr::{MergeMethod, PrPatch};
use crate::text::{str_eq, trim_text, chars_of, split_on, split_char,
    lemma_split_on_nonempty};
use crate::parse::trim;
use crate::conflict::views;

verus! {

/// An error the API reports to its client: a machine-readable code and a
/// message safe to show in a UI.
#[derive(Debug, Clone, PartialEq, Eq)]
pub enum ApiError {
    /// Config or state the request needs is missing or invalid.
    Config(String),
    /// Request referenced an account id that isn't configured.
    UnknownAccount(String),
    /// A client sent a request the daemon doesn't understand.
    UnknownMethod(String),
    /// Request params didn't match what the method expects.
    InvalidParams(String),
}

/// The code of an error.
pub open spec fn code_spec(e: ApiError) -> Seq<char> {
    match e {
        ApiError::Config(_) => "config_error"@,
        ApiError::UnknownAccount(_) => "unknown_account"@,
        ApiError::UnknownMethod(_) => "unknown_method"@,
        ApiError::InvalidParams(_) => "invalid_params"@,
    }
}

/// The message of an error.
pub open spec fn message_spec(e: ApiError) -> Seq<char> {
    match e {
        ApiError::Config(s) => "config error: "@ + s@,
        ApiError::UnknownAccount(s) => "unknown account: "@ + s@,
        ApiError::UnknownMethod(s) => "unknown method: "@ + s@,
        ApiError::InvalidParams(s) => "invalid params: "@ + s@,
    }
}

/// An error payload: code plus message.
#[derive(Debug, Clone, PartialEq, Eq)]
pub struct ErrorPayload {
    /// Machine-readable code, e.g. `unknown_method`.
    pub code: String,
    /// Human-readable message.
    pub message: String,
}

impl ApiError {
    /// The machine-readable code sent to clients.
    pub fn code(&self) -> (s: &'static str)
        ensures
            s@ == code_spec(*self),
    {
        match self {
            ApiError::Config(_) => "config_error",
            ApiError::UnknownAccount(_) => "unknown_account",
            ApiError::UnknownMethod(_) => "unknown_method",
            ApiError::InvalidParams(_) => "invalid_params",
        }
    }

    /// The message shown to the user.
    pub fn message(&self) -> (s: String)
        ensures
            s@ == message_spec(*self),
    {
        let (mut s, detail) = match self {
            ApiError::Config(d) => (String::from_str("config error: "), d),
            ApiError::UnknownAccount(d) => (String::from_str("unknown account: "), d),
            ApiError::UnknownMethod(d) => (String::from_str("unknown method: "), d),
            ApiError::InvalidParams(d) => (String::from_str("invalid params: "), d),
        };
        s.append(detail.as_str());
        s
    }

    /// The payload sent to clients.
    pub fn payload(&self) -> (p: ErrorPayload)
        ensures
            p.code@ == code_spec(*self),
            p.message@ == message_spec(*self),
    {
        ErrorPayload { code: String::from_str(self.code()), message: self.message() }
    }
}

/// An `invalid_params` error with the given text.
pub open spec fn invalid(e: ApiError, text: Seq<char>) -> bool {
    e matches ApiError::InvalidParams(s) && s@ == text
}

/// Which pull-request operation a `pr.*` request asks for.
#[derive(Debug, Clone, Copy, PartialEq, Eq, Structural)]
pub enum PrAction {
    /// `pr.detail`.
    Detail,
    /// `pr.create`.
    Create,
    /// `pr.update`.
    Update,
    /// `pr.close`.
    Close,
    /// `pr.merge`.
    Merge,
    /// `pr.comments`.
    Comments,
    /// `pr.comment`.
    Comment,
    /// `pr.comment_reply`.
    CommentReply,
    /// `pr.resolve`.
    Resolve,
    /// `pr.branches`.
    Branches,
    /// `pr.labels`.
    Labels,
}

/// Every method of the local API.
#[derive(Debug, Clone, Copy, PartialEq, Eq, Structural)]
pub enum Method {
    /// `status`.
    Status,
    /// `items.list`.
    ItemsList,
    /// `items.history`.
    ItemsHistory,
    /// `items.dismiss`.
    ItemsDismiss,
    /// `items.undismiss`.
    ItemsUndismiss,
    /// `accounts.list`.
    AccountsList,
    /// `accounts.add`.
    AccountsAdd,
    /// `accounts.remove`.
    AccountsRemove,
    /// `rules.list`.
    RulesList,
    /// `repos.list`.
    ReposList,
    /// `repos.set`.
    ReposSet,
    /// `repos.remove`.
    ReposRemove,
    /// `repos.new`.
    ReposNew,
    /// `repos.ack_new`.
    ReposAckNew,
    /// `repos.refresh`.
    ReposRefresh,
    /// `repos.clone`.
    ReposClone,
    /// `repos.clone_status`.
    ReposCloneStatus,
    /// `repos.worktrees`.
    ReposWorktrees,
    /// `repos.worktree_add`.
    ReposWorktreeAdd,
    /// `repos.worktree_remove`.
    ReposWorktreeRemove,
    /// `conflicts.prepare`.
    ConflictsPrepare,
    /// `conflicts.file`.
    ConflictsFile,
    /// `conflicts.save`.
    ConflictsSave,
    /// `conflicts.commit`.
    ConflictsCommit,
    /// `conflicts.push`.
    ConflictsPush,
    /// `conflicts.abort`.
    ConflictsAbort,
    /// `prs.list`.
    PrsList,
    /// `apps.list`.
    AppsList,
    /// `apps.add`.
    AppsAdd,
    /// `apps.remove`.
    AppsRemove,
    /// `apps.open`.
    AppsOpen,
    /// `poll.now`.
    PollNow,
    /// One of the `pr.*` operations.
    Pr(PrAction),
}

/// The wire name of a method.
pub open spec fn method_name(m: Method) -> Seq<char> {
    match m {
        Method::Status => "status"@,
        Method::ItemsList => "items.list"@,
        Method::ItemsHistory => "items.history"@,
        Method::ItemsDismiss => "items.dismiss"@,
        Method::ItemsUndismiss => "items.undismiss"@,
        Method::AccountsList => "accounts.list"@,
        Method::AccountsAdd => "accounts.add"@,
        Method::AccountsRemove => "accounts.remove"@,
        Method::RulesList => "rules.list"@,
        Method::ReposList => "repos.list"@,
        Method::ReposSet => "repos.set"@,
        Method::ReposRemove => "repos.remove"@,
        Method::ReposNew => "repos.new"@,
        Method::ReposAckNew => "repos.ack_new"@,
        Method::ReposRefresh => "repos.refresh"@,
        Method::ReposClone => "repos.clone"@,
        Method::ReposCloneStatus => "repos.clone_status"@,
        Method::ReposWorktrees => "repos.worktrees"@,
        Method::ReposWorktreeAdd => "repos.worktree_add"@,
        Method::ReposWorktreeRemove => "repos.worktree_remove"@,
        Method::ConflictsPrepare => "conflicts.prepare"@,
        Method::ConflictsFile => "conflicts.file"@,
        Method::ConflictsSave => "conflicts.save"@,
        Method::ConflictsCommit => "conflicts.commit"@,
        Method::ConflictsPush => "conflicts.push"@,
        Method::ConflictsAbort => "conflicts.abort"@,
        Method::Pr(PrAction::Detail) => "pr.detail"@,
        Method::Pr(PrAction::Create) => "pr.create"@,
        Method::Pr(PrAction::Update) => "pr.update"@,
        Method::Pr(PrAction::Close) => "pr.close"@,
        Method::Pr(PrAction::Merge) => "pr.merge"@,
        Method::Pr(PrAction::Comments) => "pr.comments"@,
        Method::Pr(PrAction::Comment) => "pr.comment"@,
        Method::Pr(PrAction::CommentReply) => "pr.comment_reply"@,
        Method::Pr(PrAction::Resolve) => "pr.resolve"@,
        Method::Pr(PrAction::Branches) => "pr.branches"@,
        Method::Pr(PrAction::Labels) => "pr.labels"@,
        Method::PrsList => "prs.list"@,
        Method::AppsList => "apps.list"@,
        Method::AppsAdd => "apps.add"@,
        Method::AppsRemove => "apps.remove"@,
        Method::AppsOpen => "apps.open"@,
        Method::PollNow => "poll.now"@,
    }
}

/// Every method goes by its documented request name, and the dismissal
/// pair is told apart: `items.dismiss` is the request that dismisses an
/// item and `items.undismiss` the one that restores it, never the other
/// way round. With [`method_from_name`]'s contract, a request with either
/// name gets exactly that method.
pub proof fn lemma_wire_names(m: Method)
    ensures
        m == Method::Status ==> method_name(m) == "status"@,
        m == Method::ItemsList ==> method_name(m) == "items.list"@,
        m == Method::ItemsHistory ==> method_name(m) == "items.history"@,
        m == Method::ItemsDismiss ==> method_name(m) == "items.dismiss"@,
        m == Method::ItemsUndismiss ==> method_name(m) == "items.undismiss"@,
        m == Method::AccountsList ==> method_name(m) == "accounts.list"@,
        m == Method::AccountsAdd ==> method_name(m) == "accounts.add"@,
        m == Method::AccountsRemove ==> method_name(m) == "accounts.remove"@,
        m == Method::RulesList ==> method_name(m) == "rules.list"@,
        m == Method::ReposList ==> method_name(m) == "repos.list"@,
        m == Method::ReposSet ==> method_name(m) == "repos.set"@,
        m == Method::ReposRemove ==> method_name(m) == "repos.remove"@,
        m == Method::ReposNew ==> method_name(m) == "repos.new"@,
        m == Method::ReposAckNew ==> method_name(m) == "repos.ack_new"@,
        m == Method::ReposRefresh ==> method_name(m) == "repos.refresh"@,
        m == Method::ReposClone ==> method_name(m) == "repos.clone"@,
        m == Method::ReposCloneStatus ==> method_name(m) == "repos.clone_status"@,
        m == Method::ReposWorktrees ==> method_name(m) == "repos.worktrees"@,
        m == Method::ReposWorktreeAdd ==> method_name(m) == "repos.worktree_add"@,
        m == Method::ReposWorktreeRemove ==> method_name(m) == "repos.worktree_remove"@,
        m == Method::ConflictsPrepare ==> method_name(m) == "conflicts.prepare"@,
        m == Method::ConflictsFile ==> method_name(m) == "conflicts.file"@,
        m == Method::ConflictsSave ==> method_name(m) == "conflicts.save"@,
        m == Method::ConflictsCommit ==> method_name(m) == "conflicts.commit"@,
        m == Method::ConflictsPush ==> method_name(m) == "conflicts.push"@,
        m == Method::ConflictsAbort ==> method_name(m) == "conflicts.abort"@,
        m == Method::Pr(PrAction::Detail) ==> method_name(m) == "pr.detail"@,
        m == Method::Pr(PrAction::Create) ==> method_name(m) == "pr.create"@,
        m == Method::Pr(PrAction::Update) ==> method_name(m) == "pr.update"@,
        m == Method::Pr(PrAction::Close) ==> method_name(m) == "pr.close"@,
        m == Method::Pr(PrAction::Merge) ==> method_name(m) == "pr.merge"@,
        m == Method::Pr(PrAction::Comments) ==> method_name(m) == "pr.comments"@,
        m == Method::Pr(PrAction::Comment) ==> method_name(m) == "pr.comment"@,
        m == Method::Pr(PrAction::CommentReply) ==> method_name(m) == "pr.comment_reply"@,
        m == Method::Pr(PrAction::Resolve) ==> method_name(m) == "pr.resolve"@,
        m == Method::Pr(PrAction::Branches) ==> method_name(m) == "pr.branches"@,
        m == Method::Pr(PrAction::Labels) ==> method_name(m) == "pr.labels"@,
        m == Method::PrsList ==> method_name(m) == "prs.list"@,
        m == Method::AppsList ==> method_name(m) == "apps.list"@,
        m == Method::AppsAdd ==> method_name(m) == "apps.add"@,
        m == Method::AppsRemove ==> method_name(m) == "apps.remove"@,
        m == Method::AppsOpen ==> method_name(m) == "apps.open"@,
        m == Method::PollNow ==> method_name(m) == "poll.now"@,
        method_name(m) == "items.dismiss"@ ==> m == Method::ItemsDismiss,
        method_name(m) == "items.undismiss"@ ==> m == Method::ItemsUndismiss,
{
    reveal_strlit("accounts.add");
    reveal_strlit("accounts.list");
    reveal_strlit("accounts.remove");
    reveal_strlit("apps.add");
    reveal_strlit("apps.list");
    reveal_strlit("apps.open");
    reveal_strlit("apps.remove");
    reveal_strlit("conflicts.abort");
    reveal_strlit("conflicts.commit");
    reveal_strlit("conflicts.file");
    reveal_strlit("conflicts.prepare");
    reveal_strlit("conflicts.push");
    reveal_strlit("conflicts.save");
    reveal_strlit("items.dismiss");
    reveal_strlit("items.history");
    reveal_strlit("items.list");
    reveal_strlit("items.undismiss");
    reveal_strlit("poll.now");
    reveal_strlit("pr.branches");
    reveal_strlit("pr.close");
    reveal_strlit("pr.comment");
    reveal_strlit("pr.comment_reply");
    reveal_strlit("pr.comments");
    reveal_strlit("pr.create");
    reveal_strlit("pr.detail");
    reveal_strlit("pr.labels");
    reveal_strlit("pr.merge");
    reveal_strlit("pr.resolve");
    reveal_strlit("pr.update");
    reveal_strlit("prs.list");
    reveal_strlit("repos.ack_new");
    reveal_strlit("repos.clone");
    reveal_strlit("repos.clone_status");
    reveal_strlit("repos.list");
    reveal_strlit("repos.new");
    reveal_strlit("repos.refresh");
    reveal_strlit("repos.remove");
    reveal_strlit("repos.set");
    reveal_strlit("repos.worktree_add");
    reveal_strlit("repos.worktree_remove");
    reveal_strlit("repos.worktrees");
    reveal_strlit("rules.list");
    reveal_strlit("status");
    match m {
        Method::Status => {
            assert("status"@.len() != "items.dismiss"@.len() && "status"@.len() != "items.undismiss"@.len());
        },
        Method::ItemsList => {
            assert("items.list"@.len() != "items.dismiss"@.len() && "items.list"@.len() != "items.undismiss"@.len());
        },
        Method::ItemsHistory => {
            assert("items.history"@[6] != "items.dismiss"@[6] && "items.history"@.len() != "items.undismiss"@.len());
        },
        Method::ItemsDismiss => {
            assert("items.dismiss"@.len() != "items.undismiss"@.len());
        },
        Method::ItemsUndismiss => {
            assert("items.undismiss"@.len() != "items.dismiss"@.len());
        },
        Method::AccountsList => {
            assert("accounts.list"@[0] != "items.dismiss"@[0] && "accounts.list"@.len() != "items.undismiss"@.len());
        },
        Method::AccountsAdd => {
            assert("accounts.add"@.len() != "items.dismiss"@.len() && "accounts.add"@.len() != "items.undismiss"@.len());
        },
        Method::AccountsRemove => {
            assert("accounts.remove"@.len() != "items.dismiss"@.len() && "accounts.remove"@[0] != "items.undismiss"@[0]);
        },
        Method::RulesList => {
            assert("rules.list"@.len() != "items.dismiss"@.len() && "rules.list"@.len() != "items.undismiss"@.len());
        },
        Method::ReposList => {
            assert("repos.list"@.len() != "items.dismiss"@.len() && "repos.list"@.len() != "items.undismiss"@.len());
        },
        Method::ReposSet => {
            assert("repos.set"@.len() != "items.dismiss"@.len() && "repos.set"@.len() != "items.undismiss"@.len());
        },
        Method::ReposRemove => {
            assert("repos.remove"@.len() != "items.dismiss"@.len() && "repos.remove"@.len() != "items.undismiss"@.len());
        },
        Method::ReposNew => {
            assert("repos.new"@.len() != "items.dismiss"@.len() && "repos.new"@.len() != "items.undismiss"@.len());
        },
        Method::ReposAckNew => {
            assert("repos.ack_new"@[0] != "items.dismiss"@[0] && "repos.ack_new"@.len() != "items.undismiss"@.len());
        },
        Method::ReposRefresh => {
            assert("repos.refresh"@[0] != "items.dismiss"@[0] && "repos.refresh"@.len() != "items.undismiss"@.len());
        },
        Method::ReposClone => {
            assert("repos.clone"@.len() != "items.dismiss"@.len() && "repos.clone"@.len() != "items.undismiss"@.len());
        },
        Method::ReposCloneStatus => {
            assert("repos.clone_status"@.len() != "items.dismiss"@.len() && "repos.clone_status"@.len() != "items.undismiss"@.len());
        },
        Method::ReposWorktrees => {
            assert("repos.worktrees"@.len() != "items.dismiss"@.len() && "repos.worktrees"@[0] != "items.undismiss"@[0]);
        },
        Method::ReposWorktreeAdd => {
            assert("repos.worktree_add"@.len() != "items.dismiss"@.len() && "repos.worktree_add"@.len() != "items.undismiss"@.len());
        },
        Method::ReposWorktreeRemove => {
            assert("repos.worktree_remove"@.len() != "items.dismiss"@.len() && "repos.worktree_remove"@.len() != "items.undismiss"@.len());
        },
        Method::ConflictsPrepare => {
            assert("conflicts.prepare"@.len() != "items.dismiss"@.len() && "conflicts.prepare"@.len() != "items.undismiss"@.len());
        },
        Method::ConflictsFile => {
            assert("conflicts.file"@.len() != "items.dismiss"@.len() && "conflicts.file"@.len() != "items.undismiss"@.len());
        },
        Method::ConflictsSave => {
            assert("conflicts.save"@.len() != "items.dismiss"@.len() && "conflicts.save"@.len() != "items.undismiss"@.len());
        },
        Method::ConflictsCommit => {
            assert("conflicts.commit"@.len() != "items.dismiss"@.len() && "conflicts.commit"@.len() != "items.undismiss"@.len());
        },
        Method::ConflictsPush => {
            assert("conflicts.push"@.len() != "items.dismiss"@.len() && "conflicts.push"@.len() != "items.undismiss"@.len());
        },
        Method::ConflictsAbort => {
            assert("conflicts.abort"@.len() != "items.dismiss"@.len() && "conflicts.abort"@[0] != "items.undismiss"@[0]);
        },
        Method::Pr(PrAction::Detail) => {
            assert("pr.detail"@.len() != "items.dismiss"@.len() && "pr.detail"@.len() != "items.undismiss"@.len());
        },
        Method::Pr(PrAction::Create) => {
            assert("pr.create"@.len() != "items.dismiss"@.len() && "pr.create"@.len() != "items.undismiss"@.len());
        },
        Method::Pr(PrAction::Update) => {
            assert("pr.update"@.len() != "items.dismiss"@.len() && "pr.update"@.len() != "items.undismiss"@.len());
        },
        Method::Pr(PrAction::Close) => {
            assert("pr.close"@.len() != "items.dismiss"@.len() && "pr.close"@.len() != "items.undismiss"@.len());
        },
        Method::Pr(PrAction::Merge) => {
            assert("pr.merge"@.len() != "items.dismiss"@.len() && "pr.merge"@.len() != "items.undismiss"@.len());
        },
        Method::Pr(PrAction::Comments) => {
            assert("pr.comments"@.len() != "items.dismiss"@.len() && "pr.comments"@.len() != "items.undismiss"@.len());
        },
        Method::Pr(PrAction::Comment) => {
            assert("pr.comment"@.len() != "items.dismiss"@.len() && "pr.comment"@.len() != "items.undismiss"@.len());
        },
        Method::Pr(PrAction::CommentReply) => {
            assert("pr.comment_reply"@.len() != "items.dismiss"@.len() && "pr.comment_reply"@.len() != "items.undismiss"@.len());
        },
        Method::Pr(PrAction::Resolve) => {
            assert("pr.resolve"@.len() != "items.dismiss"@.len() && "pr.resolve"@.len() != "items.undismiss"@.len());
        },
        Method::Pr(PrAction::Branches) => {
            assert("pr.branches"@.len() != "items.dismiss"@.len() && "pr.branches"@.len() != "items.undismiss"@.len());
        },
        Method::Pr(PrAction::Labels) => {
            assert("pr.labels"@.len() != "items.dismiss"@.len() && "pr.labels"@.len() != "items.undismiss"@.len());
        },
        Method::PrsList => {
            assert("prs.list"@.len() != "items.dismiss"@.len() && "prs.list"@.len() != "items.undismiss"@.len());
        },
        Method::AppsList => {
            assert("apps.list"@.len() != "items.dismiss"@.len() && "apps.list"@.len() != "items.undismiss"@.len());
        },
        Method::AppsAdd => {
            assert("apps.add"@.len() != "items.dismiss"@.len() && "apps.add"@.len() != "items.undismiss"@.len());
        },
        Method::AppsRemove => {
            assert("apps.remove"@.len() != "items.dismiss"@.len() && "apps.remove"@.len() != "items.undismiss"@.len());
        },
        Method::AppsOpen => {
            assert("apps.open"@.len() != "items.dismiss"@.len() && "apps.open"@.len() != "items.undismiss"@.len());
        },
        Method::PollNow => {
            assert("poll.now"@.len() != "items.dismiss"@.len() && "poll.now"@.len() != "items.undismiss"@.len());
        },
    }
}

/// The method a request names, or `unknown_method` with the name.
pub fn method_from_name(name: &str) -> (r: Result<Method, ApiError>)
    ensures
        match r {
            Ok(m) => method_name(m) == name@,
            Err(e) => (e matches ApiError::UnknownMethod(s) && s@ == name@)
                && forall|m: Method| method_name(m) != name@,
        },
{
    if str_eq(name, "status") {
        Ok(Method::Status)
    } else if str_eq(name, "items.list") {
        Ok(Method::ItemsList)
    } else if str_eq(name, "items.history") {
        Ok(Method::ItemsHistory)
    } else if str_eq(name, "items.dismiss") {
        Ok(Method::ItemsDismiss)
    } else if str_eq(name, "items.undismiss") {
        Ok(Method::ItemsUndismiss)
    } else if str_eq(name, "accounts.list") {
        Ok(Method::AccountsList)
    } else if str_eq(name, "accounts.add") {
        Ok(Method::AccountsAdd)
    } else if str_eq(name, "accounts.remove") {
        Ok(Method::AccountsRemove)
    } else if str_eq(name, "rules.list") {
        Ok(Method::RulesList)
    } else if str_eq(name, "repos.list") {
        Ok(Method::ReposList)
    } else if str_eq(name, "repos.set") {
        Ok(Method::ReposSet)
    } else if str_eq(name, "repos.remove") {
        Ok(Method::ReposRemove)
    } else if str_eq(name, "repos.new") {
        Ok(Method::ReposNew)
    } else if str_eq(name, "repos.ack_new") {
        Ok(Method::ReposAckNew)
    } else if str_eq(name, "repos.refresh") {
        Ok(Method::ReposRefresh)
    } else if str_eq(name, "repos.clone") {
        Ok(Method::ReposClone)
    } else if str_eq(name, "repos.clone_status") {
        Ok(Method::ReposCloneStatus)
    } else if str_eq(name, "repos.worktrees") {
        Ok(Method::ReposWorktrees)
    } else if str_eq(name, "repos.worktree_add") {
        Ok(Method::ReposWorktreeAdd)
    } else if str_eq(name, "repos.worktree_remove") {
        Ok(Method::ReposWorktreeRemove)
    } else if str_eq(name, "conflicts.prepare") {
        Ok(Method::ConflictsPrepare)
    } else if str_eq(name, "conflicts.file") {
        Ok(Method::ConflictsFile)
    } else if str_eq(name, "conflicts.save") {
        Ok(Method::ConflictsSave)
    } else if str_eq(name, "conflicts.commit") {
        Ok(Method::ConflictsCommit)
    } else if str_eq(name, "conflicts.push") {
        Ok(Method::ConflictsPush)
    } else if str_eq(name, "conflicts.abort") {
        Ok(Method::ConflictsAbort)
    } else if str_eq(name, "pr.detail") {
        Ok(Method::Pr(PrAction::Detail))
    } else if str_eq(name, "pr.create") {
        Ok(Method::Pr(PrAction::Create))
    } else if str_eq(name, "pr.update") {
        Ok(Method::Pr(PrAction::Update))
    } else if str_eq(name, "pr.close") {
        Ok(Method::Pr(PrAction::Close))
    } else if str_eq(name, "pr.merge") {
        Ok(Method::Pr(PrAction::Merge))
    } else if str_eq(name, "pr.comments") {
        Ok(Method::Pr(PrAction::Comments))
    } else if str_eq(name, "pr.comment") {
        Ok(Method::Pr(PrAction::Comment))
    } else if str_eq(name, "pr.comment_reply") {
        Ok(Method::Pr(PrAction::CommentReply))
    } else if str_eq(name, "pr.resolve") {
        Ok(Method::Pr(PrAction::Resolve))
    } else if str_eq(name, "pr.branches") {
        Ok(Method::Pr(PrAction::Branches))
    } else if str_eq(name, "pr.labels") {
        Ok(Method::Pr(PrAction::Labels))
    } else if str_eq(name, "prs.list") {
        Ok(Method::PrsList)
    } else if str_eq(name, "apps.list") {
        Ok(Method::AppsList)
    } else if str_eq(name, "apps.add") {
        Ok(Method::AppsAdd)
    } else if str_eq(name, "apps.remove") {
        Ok(Method::AppsRemove)
    } else if str_eq(name, "apps.open") {
        Ok(Method::AppsOpen)
    } else if str_eq(name, "poll.now") {
        Ok(Method::PollNow)
    } else {
        Err(ApiError::UnknownMethod(String::from_str(name)))
    }
}

/// Picks the account a request acts with: the first with id `wanted`, or
/// the first configured account when no id is given. An unknown id is
/// `unknown_account`; no account at all is `invalid_params`.
pub fn select_account(accounts: &[AccountRef], wanted: Option<&String>) -> (r: Result<usize, ApiError>)
    ensures
        match r {
            Ok(k) => k < accounts@.len() && match wanted {
                Some(id) => accounts@[k as int].id@ == id@
                    && forall|j: int| 0 <= j < k ==> (#[trigger] accounts@[j]).id@ != id@,
                None => k == 0,
            },
            Err(e) => match wanted {
                Some(id) => (e matches ApiError::UnknownAccount(s) && s@ == id@)
                    && forall|j: int| 0 <= j < accounts@.len() ==> (#[trigger] accounts@[j]).id@ != id@,
                None => accounts@.len() == 0 && invalid(e, "no account configured"@),
            },
        },
{
    match wanted {
        Some(id) => {
            let mut k: usize = 0;
            while k < accounts.len()
                invariant
                    wanted == Some(id),
                    k <= accounts@.len(),
                    forall|j: int| 0 <= j < k ==> (#[trigger] accounts@[j]).id@ != id@,
                decreases accounts.len() - k,
            {
                if accounts[k].id == *id {
                    return Ok(k);
                }
                k += 1;
            }
            Err(ApiError::UnknownAccount(id.clone()))
        },
        None => if accounts.len() > 0 {
            Ok(0)
        } else {
            Err(ApiError::InvalidParams(String::from_str("no account configured")))
        },
    }
}

/// Default cap on `items.history` rows.
pub fn default_history_limit() -> (n: usize)
    ensures
        n == 200,
{
    200
}

/// Whether `repo` looks like `"owner/name"`: exactly one `/`, neither part
/// empty.
pub open spec fn repo_slug_spec(repo: Seq<char>) -> bool {
    let parts = split_on(repo, '/');
    parts.len() == 2 && parts[0].len() > 0 && parts[1].len() > 0
}

/// Whether `repo` looks like `"owner/name"`.
pub fn is_repo_slug(repo: &str) -> (b: bool)
    ensures
        b == repo_slug_spec(repo@),
{
    let parts = split_char(repo, '/');
    assert(views(parts@).len() == parts@.len());
    if parts.len() != 2 {
        return false;
    }
    assert(views(parts@)[0] == parts@[0]@);
    assert(views(parts@)[1] == parts@[1]@);
    !parts[0].as_str().is_empty() && !parts[1].as_str().is_empty()
}

/// A character a command may not hold: whitespace (the daemon passes the
/// command to the OS as one program name, so flags and arguments cannot
/// ride along), a quote (there is no shell to strip it) or a NUL.
pub open spec fn refused_command_char(c: char) -> bool {
    c == '\0' || c == '"' || c == '\'' || crate::parse::is_ws(c)
}

/// What `apps.add` accepts as a command: one non-empty token with no
/// whitespace, quote or NUL.
pub open spec fn command_error(command: Seq<char>) -> Option<Seq<char>> {
    if command.len() == 0 {
        Some("command is required"@)
    } else if exists|i: int| 0 <= i < command.len() && refused_command_char(#[trigger] command[i]) {
        Some("command must be an executable name on PATH or an absolute path (no flags, args, or spaces)"@)
    } else {
        None
    }
}

/// Whether `command` holds a character [`refused_command_char`] refuses.
fn has_refused_char(command: &str) -> (b: bool)
    ensures
        b == exists|i: int| 0 <= i < command@.len() && refused_command_char(#[trigger] command@[i]),
{
    let cs = chars_of(command);
    let mut k: usize = 0;
    while k < cs.len()
        invariant
            cs@ == command@,
            k <= cs@.len(),
            forall|x: int| 0 <= x < k ==> !refused_command_char(#[trigger] cs@[x]),
        decreases cs.len() - k,
    {
        let c = cs[k];
        if c == '\0' || c == '"' || c == '\'' || crate::parse::is_whitespace(c) {
            assert(refused_command_char(command@[k as int]));
            return true;
        }
        k += 1;
    }
    false
}

/// `apps.add`'s command contract: one whitespace-free token, an executable
/// name on `PATH` or an absolute path. The daemon runs it without a shell,
/// so flags, arguments, quotes or a NUL are rejected up front.
pub fn validate_command(command: &str) -> (r: Result<(), ApiError>)
    ensures
        match command_error(command@) {
            None => r is Ok,
            Some(msg) => r matches Err(e) && invalid(e, msg),
        },
{
    if command.is_empty() {
        return Err(ApiError::InvalidParams(String::from_str("command is required")));
    }
    if has_refused_char(command) {
        return Err(ApiError::InvalidParams(String::from_str(
            "command must be an executable name on PATH or an absolute path (no flags, args, or spaces)",
        )));
    }
    Ok(())
}

/// A registered "Open with" application, as `apps.add` stores it.
#[derive(Debug, Clone, PartialEq, Eq)]
pub struct RegisteredApp {
    /// Display name.
    pub name: String,
    /// The executable run as `command <path>`.
    pub command: String,
}

/// Checks an `apps.add` request: the name and command are trimmed; the
/// name must not be empty and the command must pass [`validate_command`].
pub fn check_app(name: &str, command: &str) -> (r: Result<RegisteredApp, ApiError>)
    ensures
        match r {
            Ok(app) => app.name@ == trim(name@) && trim(name@).len() > 0 && app.command@ == trim(command@)
                && command_error(trim(command@)) is None,
            Err(e) => if trim(name@).len() == 0 {
                invalid(e, "name is required"@)
            } else {
                command_error(trim(command@)) matches Some(msg) && invalid(e, msg)
            },
        },
{
    let name = trim_text(name);
    if name.as_str().is_empty() {
        return Err(ApiError::InvalidParams(String::from_str("name is required")));
    }
    let command = trim_text(command);
    match validate_command(command.as_str()) {
        Err(e) => Err(e),
        Ok(()) => Ok(RegisteredApp { name, command }),
    }
}

/// Params shared by every `pr.*` method; fields an operation doesn't use
/// stay `None`.
#[derive(Debug, Clone, PartialEq, Eq)]
pub struct PrParams {
    /// Which account's credentials to act with; the first account when
    /// omitted.
    pub account_id: Option<String>,
    /// `"owner/name"`.
    pub repo: String,
    /// PR number; absent for create and branch listing.
    pub number: Option<u64>,
    /// Title (create), or merge-commit title (merge).
    pub title: Option<String>,
    /// Body (create, comment, reply).
    pub body: Option<String>,
    /// Base branch (create).
    pub base: Option<String>,
    /// Head branch (create).
    pub head: Option<String>,
    /// Draft flag (create).
    pub draft: Option<bool>,
    /// Partial update (update).
    pub patch: Option<PrPatch>,
    /// Merge method (merge); merge commit when absent.
    pub method: Option<MergeMethod>,
    /// Head SHA the UI loaded (merge).
    pub head_sha: Option<String>,
    /// Closing comment (close).
    pub comment: Option<String>,
    /// Parent comment id (reply).
    pub in_reply_to: Option<u64>,
    /// Thread id (resolve).
    pub thread_id: Option<String>,
    /// Desired resolve state (resolve).
    pub resolved: Option<bool>,
}

/// The text of a "`<name>` is required" error.
pub open spec fn required_text(name: Seq<char>) -> Seq<char> {
    name + " is required"@
}

/// The "`<name>` is required" error.
fn required(name: &str) -> (e: ApiError)
    ensures
        invalid(e, required_text(name@)),
{
    let mut s = String::from_str(name);
    s.append(" is required");
    ApiError::InvalidParams(s)
}

impl PrParams {
    /// The PR number, which most operations need.
    pub fn number(&self) -> (r: Result<u64, ApiError>)
        ensures
            match self.number {
                Some(n) => r == Ok::<u64, ApiError>(n),
                None => r matches Err(e) && invalid(e, "number is required"@),
            },
    {
        match self.number {
            Some(n) => Ok(n),
            None => Err(ApiError::InvalidParams(String::from_str("number is required"))),
        }
    }

    /// A required numeric parameter.
    pub fn require_u64(&self, value: Option<u64>, name: &str) -> (r: Result<u64, ApiError>)
        ensures
            match value {
                Some(v) => r == Ok::<u64, ApiError>(v),
                None => r matches Err(e) && invalid(e, required_text(name@)),
            },
    {
        match value {
            Some(v) => Ok(v),
            None => Err(required(name)),
        }
    }

    /// A required text parameter.
    pub fn require<'a>(&self, value: Option<&'a String>, name: &str) -> (r: Result<&'a str, ApiError>)
        ensures
            match value {
                Some(v) => r matches Ok(s) && s@ == v@,
                None => r matches Err(e) && invalid(e, required_text(name@)),
            },
    {
        match value {
            Some(v) => Ok(v.as_str()),
            None => Err(required(name)),
        }
    }
}

/// One fully-checked GitHub pull-request call.
#[derive(Debug, Clone, PartialEq, Eq)]
pub enum PrCall {
    /// Fetch the detail pane.
    Detail { number: u64 },
    /// Open a PR.
    Create { base: String, head: String, title: String, body: String, draft: bool },
    /// Apply a partial update.
    Update { number: u64, patch: PrPatch },
    /// Close without merging, optionally commenting first.
    Close { number: u64, comment: Option<String> },
    /// Merge, pinned to the head SHA the UI loaded.
    Merge { number: u64, method: MergeMethod, head_sha: String, commit_title: Option<String> },
    /// Fetch the conversation.
    Comments { number: u64 },
    /// Post a top-level comment.
    Comment { number: u64, body: String },
    /// Reply in a review thread.
    CommentReply { number: u64, in_reply_to: u64, body: String },
    /// Resolve or unresolve a thread.
    Resolve { thread_id: String, resolved: bool },
    /// List branches.
    Branches,
    /// List labels.
    Labels,
}

/// The optional view of an optional string.
pub open spec fn ov(o: Option<String>) -> Option<Seq<char>> {
    match o {
        Some(s) => Some(s@),
        None => None,
    }
}

/// The call a `pr.*` request makes, or the first missing parameter, checked
/// in the order the handler reads them.
pub open spec fn pr_call_ok(r: Result<PrCall, ApiError>, action: PrAction, p: PrParams) -> bool {
    match action {
        PrAction::Detail => match p.number {
            Some(n) => r == Ok::<PrCall, ApiError>(PrCall::Detail { number: n }),
            None => r matches Err(e) && invalid(e, "number is required"@),
        },
        PrAction::Create => if p.base is None {
            r matches Err(e) && invalid(e, required_text("base"@))
        } else if p.head is None {
            r matches Err(e) && invalid(e, required_text("head"@))
        } else if p.title is None {
            r matches Err(e) && invalid(e, required_text("title"@))
        } else {
            r matches Ok(PrCall::Create { base, head, title, body, draft }) && base@ == p.base->0@
                && head@ == p.head->0@ && title@ == p.title->0@ && body@ == match p.body {
                Some(b) => b@,
                None => Seq::empty(),
            } && draft == match p.draft {
                Some(d) => d,
                None => false,
            }
        },
        PrAction::Update => if p.patch is None {
            r matches Err(e) && invalid(e, "patch is required"@)
        } else if p.number is None {
            r matches Err(e) && invalid(e, "number is required"@)
        } else {
            r matches Ok(PrCall::Update { number, patch }) && number == p.number->0 && same_patch(patch, p.patch->0)
        },
        PrAction::Close => match p.number {
            Some(n) => r matches Ok(PrCall::Close { number, comment }) && number == n && ov(comment) == ov(p.comment),
            None => r matches Err(e) && invalid(e, "number is required"@),
        },
        PrAction::Merge => if p.number is None {
            r matches Err(e) && invalid(e, "number is required"@)
        } else if p.head_sha is None {
            r matches Err(e) && invalid(e, required_text("head_sha"@))
        } else {
            r matches Ok(PrCall::Merge { number, method, head_sha, commit_title }) && number == p.number->0
                && method == match p.method {
                Some(m) => m,
                None => MergeMethod::Merge,
            } && head_sha@ == p.head_sha->0@ && ov(commit_title) == ov(p.title)
        },
        PrAction::Comments => match p.number {
            Some(n) => r == Ok::<PrCall, ApiError>(PrCall::Comments { number: n }),
            None => r matches Err(e) && invalid(e, "number is required"@),
        },
        PrAction::Comment => if p.number is None {
            r matches Err(e) && invalid(e, "number is required"@)
        } else if p.body is None {
            r matches Err(e) && invalid(e, required_text("body"@))
        } else {
            r matches Ok(PrCall::Comment { number, body }) && number == p.number->0 && body@ == p.body->0@
        },
        PrAction::CommentReply => if p.number is None {
            r matches Err(e) && invalid(e, "number is required"@)
        } else if p.in_reply_to is None {
            r matches Err(e) && invalid(e, required_text("in_reply_to"@))
        } else if p.body is None {
            r matches Err(e) && invalid(e, required_text("body"@))
        } else {
            r matches Ok(PrCall::CommentReply { number, in_reply_to, body }) && number == p.number->0
                && in_reply_to == p.in_reply_to->0 && body@ == p.body->0@
        },
        PrAction::Resolve => if p.thread_id is None {
            r matches Err(e) && invalid(e, required_text("thread_id"@))
        } else if p.resolved is None {
            r matches Err(e) && invalid(e, "resolved is required"@)
        } else {
            r matches Ok(PrCall::Resolve { thread_id, resolved }) && thread_id@ == p.thread_id->0@
                && resolved == p.resolved->0
        },
        PrAction::Branches => r == Ok::<PrCall, ApiError>(PrCall::Branches),
        PrAction::Labels => r == Ok::<PrCall, ApiError>(PrCall::Labels),
    }
}

/// A copy of an optional string.
fn copy_text(o: &Option<String>) -> (r: Option<String>)
    ensures
        r == *o,
{
    match o {
        Some(s) => Some(s.clone()),
        None => None,
    }
}

/// Resolves a `pr.*` request to the GitHub call it makes, checking its
/// parameters in the order the handler reads them.
pub fn plan_pr_call(action: PrAction, params: &PrParams) -> (r: Result<PrCall, ApiError>)
    ensures
        pr_call_ok(r, action, *params),
{
    match action {
        PrAction::Detail => {
            let number = params.number()?;
            Ok(PrCall::Detail { number })
        },
        PrAction::Create => {
            let base = params.require(params.base.as_ref(), "base")?;
            let head = params.require(params.head.as_ref(), "head")?;
            let title = params.require(params.title.as_ref(), "title")?;
            let body = match &params.body {
                Some(b) => b.clone(),
                None => String::new(),
            };
            let draft = match params.draft {
                Some(d) => d,
                None => false,
            };
            Ok(PrCall::Create {
                base: String::from_str(base),
                head: String::from_str(head),
                title: String::from_str(title),
                body,
                draft,
            })
        },
        PrAction::Update => {
            let patch = match &params.patch {
                Some(p) => clone_patch(p),
                None => return Err(ApiError::InvalidParams(String::from_str("patch is required"))),
            };
            let number = params.number()?;
            Ok(PrCall::Update { number, patch })
        },
        PrAction::Close => {
            let number = params.number()?;
            Ok(PrCall::Close { number, comment: copy_text(&params.comment) })
        },
        PrAction::Merge => {
            let number = params.number()?;
            let head_sha = params.require(params.head_sha.as_ref(), "head_sha")?;
            let method = match params.method {
                Some(m) => m,
                None => MergeMethod::Merge,
            };
            Ok(PrCall::Merge { number, method, head_sha: String::from_str(head_sha), commit_title: copy_text(&params.title) })
        },
        PrAction::Comments => {
            let number = params.number()?;
            Ok(PrCall::Comments { number })
        },
        PrAction::Comment => {
            let number = params.number()?;
            let body = params.require(params.body.as_ref(), "body")?;
            Ok(PrCall::Comment { number, body: String::from_str(body) })
        },
        PrAction::CommentReply => {
            let number = params.number()?;
            let in_reply_to = params.require_u64(params.in_reply_to, "in_reply_to")?;
            let body = params.require(params.body.as_ref(), "body")?;
            Ok(PrCall::CommentReply { number, in_reply_to, body: String::from_str(body) })
        },
        PrAction::Resolve => {
            let thread_id = params.require(params.thread_id.as_ref(), "thread_id")?;
            let resolved = match params.resolved {
                Some(b) => b,
                None => return Err(ApiError::InvalidParams(String::from_str("resolved is required"))),
            };
            Ok(PrCall::Resolve { thread_id: String::from_str(thread_id), resolved })
        },
        PrAction::Branches => Ok(PrCall::Branches),
        PrAction::Labels => Ok(PrCall::Labels),
    }
}

/// A copy of a list of strings, element by element.
fn clone_texts(v: &Vec<String>) -> (r: Vec<String>)
    ensures
        r@ == v@,
{
    let mut r: Vec<String> = Vec::new();
    let mut k: usize = 0;
    while k < v.len()
        invariant
            k <= v@.len(),
            r@ == v@.subrange(0, k as int),
        decreases v.len() - k,
    {
        r.push(v[k].clone());
        k += 1;
    }
    assert(r@ =~= v@);
    r
}

/// Two optional lists hold the same strings.
pub open spec fn same_list(a: Option<Vec<String>>, b: Option<Vec<String>>) -> bool {
    match (a, b) {
        (Some(x), Some(y)) => x@ == y@,
        (None, None) => true,
        _ => false,
    }
}

/// Two patches ask for the same update.
pub open spec fn same_patch(a: PrPatch, b: PrPatch) -> bool {
    &&& a.title == b.title
    &&& a.body == b.body
    &&& a.base == b.base
    &&& a.draft == b.draft
    &&& same_list(a.labels, b.labels)
    &&& same_list(a.reviewers, b.reviewers)
}

/// A copy of a patch.
fn clone_patch(p: &PrPatch) -> (r: PrPatch)
    ensures
        same_patch(r, *p),
{
    PrPatch {
        title: copy_text(&p.title),
        body: copy_text(&p.body),
        base: copy_text(&p.base),
        draft: p.draft,
        labels: match &p.labels {
            Some(v) => Some(clone_texts(v)),
            None => None,
        },
        reviewers: match &p.reviewers {
            Some(v) => Some(clone_texts(v)),
            None => None,
        },
    }
}

/// What `{:?}` prints for a string: quoted, with `char::escape_debug`
/// escapes.
pub uninterp spec fn debug_quoted(s: Seq<char>) -> Seq<char>;

/// Formats `s` with `{:?}` (std's `Debug` for `str`). The escaping rules
/// are not restated: the result is tied to the text through
/// [`debug_quoted`] only.
#[verifier::external_body]
pub(crate) fn debug_text(s: &str) -> (r: String)
    ensures
        r@ == debug_quoted(s@),
{
    format!("{s:?}")
}

/// What `{:?}` prints for a path made from `s` (std's `Debug` for `Path`):
/// quoted, every character escaped as `char::escape_debug` does it.
pub uninterp spec fn path_debug_quoted(s: Seq<char>) -> Seq<char>;

/// Formats `Path::new(s)` with `{:?}`. The escaping rules are not restated:
/// the result is tied to the text through [`path_debug_quoted`] only.
#[verifier::external_body]
pub(crate) fn path_debug_text(s: &str) -> (r: String)
    ensures
        r@ == path_debug_quoted(s@),
{
    format!("{:?}", std::path::Path::new(s))
}

/// The error for a malformed repository slug.
pub open spec fn slug_error_text(repo: Seq<char>) -> Seq<char> {
    "repo must be \"owner/name\", got "@ + debug_quoted(repo)
}

/// Checks that `repo` is an `"owner/name"` slug.
pub fn check_slug(repo: &str) -> (r: Result<(), ApiError>)
    ensures
        repo_slug_spec(repo@) ==> r is Ok,
        !repo_slug_spec(repo@) ==> (r matches Err(e) && invalid(e, slug_error_text(repo@))),
{
    if is_repo_slug(repo) {
        return Ok(());
    }
    let mut s = String::from_str("repo must be \"owner/name\", got ");
    let q = debug_text(repo);
    s.append(q.as_str());
    Err(ApiError::InvalidParams(s))
}

/// How `conflicts.save` resolves a file.
#[derive(Debug, Clone, PartialEq, Eq)]
pub enum SaveAction {
    /// Write this resolved text.
    Content(String),
    /// Copy the whole file from one side: ours (the PR head) or theirs.
    Pick { ours: bool },
}

/// Exactly one of `content` or `pick` (`ours`/`theirs`) must be given.
pub open spec fn save_action_ok(r: Result<SaveAction, ApiError>, content: Option<String>, pick: Option<Seq<char>>) -> bool {
    match (content, pick) {
        (Some(c), None) => r matches Ok(SaveAction::Content(t)) && t == c,
        (None, Some(p)) => if p == "ours"@ {
            r == Ok::<SaveAction, ApiError>(SaveAction::Pick { ours: true })
        } else if p == "theirs"@ {
            r == Ok::<SaveAction, ApiError>(SaveAction::Pick { ours: false })
        } else {
            r matches Err(e) && invalid(e, "pick must be \"ours\" or \"theirs\", got "@ + debug_quoted(p))
        },
        (Some(_), Some(_)) => r matches Err(e) && invalid(e, "pass either content or pick, not both"@),
        (None, None) => r matches Err(e) && invalid(e, "content or pick is required"@),
    }
}

/// Decides how `conflicts.save` resolves a file.
pub fn save_action(content: Option<String>, pick: Option<&str>) -> (r: Result<SaveAction, ApiError>)
    ensures
        save_action_ok(r, content, match pick {
            Some(p) => Some(p@),
            None => None,
        }),
{
    match (content, pick) {
        (Some(c), None) => Ok(SaveAction::Content(c)),
        (None, Some(p)) => if str_eq(p, "ours") {
            Ok(SaveAction::Pick { ours: true })
        } else if str_eq(p, "theirs") {
            Ok(SaveAction::Pick { ours: false })
        } else {
            let mut s = String::from_str("pick must be \"ours\" or \"theirs\", got ");
            let q = debug_text(p);
            s.append(q.as_str());
            Err(ApiError::InvalidParams(s))
        },
        (Some(_), Some(_)) => Err(ApiError::InvalidParams(String::from_str("pass either content or pick, not both"))),
        (None, None) => Err(ApiError::InvalidParams(String::from_str("content or pick is required"))),
    }
}

/// Checks a `conflicts.prepare` request before any git work: a valid slug,
/// a registered clone, and no live session for the repo. Returns the clone
/// path.
pub fn check_prepare(repo: &str, clone_path: Option<&String>, session_active: bool) -> (r: Result<String, ApiError>)
    ensures
        !repo_slug_spec(repo@) ==> (r matches Err(e) && invalid(e, slug_error_text(repo@))),
        repo_slug_spec(repo@) && clone_path is None ==> (r matches Err(ApiError::Config(s))
            && s@ == "no local clone configured for "@ + repo@ + " — add one in Settings"@),
        repo_slug_spec(repo@) && clone_path is Some && session_active ==> (r matches Err(ApiError::Config(s))
            && s@ == "a conflict resolution for "@ + repo@ + " is already in progress — abort or push it first"@),
        repo_slug_spec(repo@) && clone_path is Some && !session_active ==> (r matches Ok(p) && p@ == clone_path->0@),
{
    check_slug(repo)?;
    let path = match clone_path {
        Some(p) => p.clone(),
        None => {
            let mut s = String::from_str("no local clone configured for ");
            s.append(repo);
            s.append(" — add one in Settings");
            return Err(ApiError::Config(s));
        },
    };
    if session_active {
        let mut s = String::from_str("a conflict resolution for ");
        s.append(repo);
        s.append(" is already in progress — abort or push it first");
        return Err(ApiError::Config(s));
    }
    Ok(path)
}

/// The clone path a worktree operation needs, or the error saying to
/// clone first.
pub fn tracked_clone_path(repo: &str, clone_path: Option<&String>) -> (r: Result<String, ApiError>)
    ensures
        match clone_path {
            Some(p) => r matches Ok(q) && q@ == p@,
            None => r matches Err(ApiError::Config(s))
                && s@ == "no local clone configured for "@ + repo@ + " — clone it first"@,
        },
{
    match clone_path {
        Some(p) => Ok(p.clone()),
        None => {
            let mut s = String::from_str("no local clone configured for ");
            s.append(repo);
            s.append(" — clone it first");
            Err(ApiError::Config(s))
        },
    }
}

/// Bytes of clone progress worth a store write.
pub const PROGRESS_STEP: u64 = 524288;

/// Whether a clone progress report is written through to the store: the
/// first report, or once a further [`PROGRESS_STEP`] bytes arrived.
pub fn progress_due(received: u64, last: u64) -> (b: bool)
    ensures
        b == (received == 0 || received - last >= PROGRESS_STEP),
{
    received == 0 || received.saturating_sub(last) >= PROGRESS_STEP
}

/// Checks a `repos.clone` request: a valid slug, and an absolute target
/// directory.
pub fn check_clone_target(repo: &str, target: &str) -> (r: Result<(), ApiError>)
    ensures
        !repo_slug_spec(repo@) ==> (r matches Err(e) && invalid(e, slug_error_text(repo@))),
        repo_slug_spec(repo@) && !(target@.len() > 0 && target@[0] == '/') ==> (r matches Err(e)
            && invalid(e, "target must be an absolute path, got "@ + path_debug_quoted(target@))),
        repo_slug_spec(repo@) && target@.len() > 0 && target@[0] == '/' ==> r is Ok,
{
    check_slug(repo)?;
    let tc = crate::text::chars_of(target);
    if !(tc.len() > 0 && tc[0] == '/') {
        let mut s = String::from_str("target must be an absolute path, got ");
        let q = path_debug_text(target);
        s.append(q.as_str());
        return Err(ApiError::InvalidParams(s));
    }
    Ok(())
}

} // verus!
