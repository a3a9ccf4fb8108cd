//! The unified action-item model: every notification, review request,
//! assignment or CI failure is normalized into one [`ActionItem`].

use vstd::prelude::*;

verus! {

/// The kind of event an [`ActionItem`] represents. Not significance order —
/// significance is computed by the priority engine.
#[derive(Debug, Clone, Copy, PartialEq, Eq, Structural, Hash)]
pub enum ItemKind {
    /// The user's review was requested on a pull request.
    ReviewRequested,
    /// A pull request or issue is assigned to the user.
    Assigned,
    /// The user was `@mentioned`.
    Mentioned,
    /// The user is participating in a thread they are not named on.
    Participating,
    /// A CI check failed on a pull request authored by the user.
    CiFailed,
    /// Changes were requested on the user's own pull request.
    ReviewStateChanged,
    /// The user's own pull request is approved, green and mergeable.
    ReadyToMerge,
    /// A pull request authored by the user needs attention.
    Authored,
    /// A pull request the user reviewed has an unanswered reply.
    ReviewedByMe,
}

/// The variant name of a kind, as `{:?}` prints it.
pub open spec fn kind_name(k: ItemKind) -> Seq<char> {
    match k {
        ItemKind::ReviewRequested => "ReviewRequested"@,
        ItemKind::Assigned => "Assigned"@,
        ItemKind::Mentioned => "Mentioned"@,
        ItemKind::Participating => "Participating"@,
        ItemKind::CiFailed => "CiFailed"@,
        ItemKind::ReviewStateChanged => "ReviewStateChanged"@,
        ItemKind::ReadyToMerge => "ReadyToMerge"@,
        ItemKind::Authored => "Authored"@,
        ItemKind::ReviewedByMe => "ReviewedByMe"@,
    }
}

/// The variant name of a kind, as `{:?}` prints it.
pub fn kind_debug_name(k: ItemKind) -> (s: String)
    ensures
        s@ == kind_name(k),
{
    match k {
        ItemKind::ReviewRequested => String::from_str("ReviewRequested"),
        ItemKind::Assigned => String::from_str("Assigned"),
        ItemKind::Mentioned => String::from_str("Mentioned"),
        ItemKind::Participating => String::from_str("Participating"),
        ItemKind::CiFailed => String::from_str("CiFailed"),
        ItemKind::ReviewStateChanged => String::from_str("ReviewStateChanged"),
        ItemKind::ReadyToMerge => String::from_str("ReadyToMerge"),
        ItemKind::Authored => String::from_str("Authored"),
        ItemKind::ReviewedByMe => String::from_str("ReviewedByMe"),
    }
}

/// One item kind's notification preference. Gates only the interruption —
/// items of a disabled kind still appear in the lists.
#[derive(Debug, Clone, Copy, PartialEq, Eq, Structural)]
pub struct KindPref {
    /// Which kind this preference applies to.
    pub kind: ItemKind,
    /// Whether items of this kind may produce a notification.
    pub enabled: bool,
}

/// Local lifecycle state of an item.
#[derive(Debug, Clone, Copy, PartialEq, Eq, Structural)]
pub enum ItemState {
    /// Still relevant; shown in the active list.
    Open,
    /// Resolved upstream and moved to history.
    Done,
    /// Hidden by the user locally.
    Dismissed,
}

/// How an account authenticates to its host.
#[derive(Debug, Clone, Copy, PartialEq, Eq, Structural)]
pub enum AuthKind {
    /// Personal access token.
    Pat,
    /// OAuth device flow.
    OauthDevice,
}

/// A configured GitHub account (Cloud or Enterprise). The token is never
/// part of it.
#[derive(Debug, Clone, PartialEq, Eq)]
pub struct AccountRef {
    /// Stable local identifier; also the keychain key for its token.
    pub id: String,
    /// Host, e.g. `github.com`.
    pub host: String,
    /// API base URL.
    pub api_base: String,
    /// GitHub login.
    pub login: String,
    /// How this account authenticates.
    pub auth_kind: AuthKind,
}

/// Aggregate CI/check-run status for a pull request.
#[derive(Debug, Clone, Copy, PartialEq, Eq, Structural)]
pub enum CiStatus {
    /// No checks configured or reported (`none` on the wire).
    NoChecks,
    /// At least one check is still running.
    Pending,
    /// All checks passed.
    Passing,
    /// At least one required check failed.
    Failing,
}

/// One normalized action item.
#[derive(Debug, Clone, PartialEq, Eq)]
pub struct ActionItem {
    /// Stable id, unchanged across polls.
    pub id: String,
    /// The account this item was fetched under.
    pub account_id: String,
    /// What kind of event this is.
    pub kind: ItemKind,
    /// Local lifecycle state.
    pub state: ItemState,
    /// `"owner/name"`.
    pub repo: String,
    /// PR/issue number, when applicable.
    pub number: Option<u64>,
    /// Item title.
    pub title: String,
    /// Link to the item on GitHub.
    pub url: String,
    /// Login of the item's author.
    pub author: String,
    /// GitHub's `created_at`.
    pub created_at: String,
    /// GitHub's `updated_at`; drives diff semantics.
    pub updated_at: String,
    /// When the daemon first observed the item.
    pub first_seen_at: String,
    /// When the daemon last observed the item.
    pub last_seen_at: String,
    /// Aggregate CI status, when known.
    pub ci_status: CiStatus,
    /// The original GitHub reason/type string.
    pub raw_kind: String,
    /// GitHub's `updated_at` at the moment the user dismissed the item.
    pub dismissed_updated_at: Option<String>,
    /// Local time of the dismissal, for display.
    pub dismissed_at: Option<String>,
    /// CI status at the moment of dismissal.
    pub dismissed_ci_status: Option<CiStatus>,
    /// Fingerprint of the activity that makes the item qualify.
    pub activity: Option<String>,
    /// Permanently archived by "Clear all history".
    pub archived: bool,
}

/// A copy of an item with every field equal, strings included.
pub fn clone_item(i: &ActionItem) -> (r: ActionItem)
    ensures
        r == *i,
{
    ActionItem {
        id: i.id.clone(),
        account_id: i.account_id.clone(),
        kind: i.kind,
        state: i.state,
        repo: i.repo.clone(),
        number: i.number,
        title: i.title.clone(),
        url: i.url.clone(),
        author: i.author.clone(),
        created_at: i.created_at.clone(),
        updated_at: i.updated_at.clone(),
        first_seen_at: i.first_seen_at.clone(),
        last_seen_at: i.last_seen_at.clone(),
        ci_status: i.ci_status,
        raw_kind: i.raw_kind.clone(),
        dismissed_updated_at: clone_opt_string(&i.dismissed_updated_at),
        dismissed_at: clone_opt_string(&i.dismissed_at),
        dismissed_ci_status: i.dismissed_ci_status,
        activity: clone_opt_string(&i.activity),
        archived: i.archived,
    }
}

/// A copy of an optional string.
pub fn clone_opt_string(o: &Option<String>) -> (r: Option<String>)
    ensures
        r == *o,
{
    match o {
        Some(s) => Some(s.clone()),
        None => None,
    }
}

} // verus!
