//! Pull-request types shared with the UI, and the normalization of GitHub's
//! PR payloads into them: per-login review rows, comments and threads, the PR list
//! with one row per PR and a set of roles.

use vstd::prelude::*;
use crate::item::CiStatus;
use crate::github::{ci_status_of_state, opt_is};
use crate::text::str_eq;
use crate::conflict::{opt_view, views};

verus! {

/// Whether a pull request can be merged as-is.
#[derive(Debug, Clone, Copy, PartialEq, Eq, Structural)]
pub enum Mergeability {
    /// Ready to merge.
    Clean,
    /// Conflicts with the base branch — the conflict resolver's entry point.
    Conflicted,
    /// Mergeable, but blocked by required reviews or failing checks.
    Blocked,
    /// GitHub hasn't finished computing it yet.
    Unknown,
}

/// One login's review of a PR, and its state.
#[derive(Debug, Clone, PartialEq, Eq)]
pub struct Reviewer {
    /// GitHub login.
    pub login: String,
    /// `approved`, `changes_requested`, `commented`, or `pending`.
    pub state: String,
    /// Review rounds submitted; zero means requested but not yet reviewed.
    pub rounds: u32,
}

/// One CI check on the head commit.
#[derive(Debug, Clone, PartialEq, Eq)]
pub struct Check {
    /// Check name.
    pub name: String,
    /// `success`, `failure`, `pending`, …
    pub conclusion: String,
    /// Link to the run, when there is one.
    pub url: Option<String>,
}

/// Everything the PR detail pane renders.
#[derive(Debug, Clone, PartialEq, Eq)]
pub struct PullRequestDetail {
    /// `"owner/name"`.
    pub repo: String,
    /// PR number.
    pub number: u64,
    /// Title.
    pub title: String,
    /// Body, as raw markdown.
    pub body: String,
    /// `open`, `closed`, or `merged`.
    pub state: String,
    /// Whether the PR is a draft.
    pub draft: bool,
    /// Branch being merged into.
    pub base: String,
    /// Branch being merged from.
    pub head: String,
    /// Author login.
    pub author: String,
    /// Labels applied.
    pub labels: Vec<String>,
    /// Requested and completed reviews.
    pub reviewers: Vec<Reviewer>,
    /// Checks on the head commit.
    pub checks: Vec<Check>,
    /// Whether it can be merged as-is.
    pub mergeability: Mergeability,
    /// Link to the PR on GitHub.
    pub url: String,
    /// Head commit SHA, passed back by mutations.
    pub head_sha: String,
}

/// One comment in a thread.
#[derive(Debug, Clone, PartialEq, Eq)]
pub struct Comment {
    /// GitHub's comment id.
    pub id: u64,
    /// Author login.
    pub author: String,
    /// Body, as raw markdown.
    pub body: String,
    /// ISO-8601 creation time.
    pub created_at: String,
    /// Path this comment is anchored to, for review comments.
    pub path: Option<String>,
}

/// A review thread: a code comment plus its replies.
#[derive(Debug, Clone, PartialEq, Eq)]
pub struct ReviewThread {
    /// GitHub's thread id, required by the resolve/unresolve mutation.
    pub id: String,
    /// Path the thread's comments are anchored to.
    pub path: Option<String>,
    /// Whether the thread is resolved on GitHub.
    pub resolved: bool,
    /// The thread's comments, oldest first.
    pub comments: Vec<Comment>,
}

/// The conversation on a pull request.
#[derive(Debug, Clone, PartialEq, Eq)]
pub struct Conversation {
    /// Top-level comments on the PR.
    pub issue_comments: Vec<Comment>,
    /// Review comment threads, each with its own resolve state.
    pub review_threads: Vec<ReviewThread>,
}

/// How to merge a pull request.
#[derive(Debug, Clone, Copy, PartialEq, Eq, Structural)]
pub enum MergeMethod {
    /// Merge commit.
    Merge,
    /// Squash and merge.
    Squash,
    /// Rebase and merge.
    Rebase,
}

/// The string GitHub's merge endpoint expects for a method.
pub open spec fn api_str(m: MergeMethod) -> Seq<char> {
    match m {
        MergeMethod::Merge => "merge"@,
        MergeMethod::Squash => "squash"@,
        MergeMethod::Rebase => "rebase"@,
    }
}

impl MergeMethod {
    /// The string GitHub's merge endpoint expects.
    pub fn as_api_str(self) -> (s: &'static str)
        ensures
            s@ == api_str(self),
    {
        match self {
            MergeMethod::Merge => "merge",
            MergeMethod::Squash => "squash",
            MergeMethod::Rebase => "rebase",
        }
    }
}

/// Why a pull request appears in the user's list.
#[derive(Debug, Clone, Copy, PartialEq, Eq, Structural)]
pub enum PrRole {
    /// The user opened the PR.
    Authored,
    /// The user's review was requested.
    ReviewRequested,
    /// The PR is assigned to the user.
    Assigned,
}

/// GitHub lifecycle state of a pull request.
#[derive(Debug, Clone, Copy, PartialEq, Eq, Structural)]
pub enum PrState {
    /// Still open.
    Open,
    /// Closed without merging.
    Closed,
    /// Merged.
    Merged,
}

/// The aggregate review decision GitHub has reached on a pull request.
#[derive(Debug, Clone, Copy, PartialEq, Eq, Structural)]
pub enum ReviewDecision {
    /// At least one approving review and none requesting changes.
    Approved,
    /// At least one review requesting changes.
    ChangesRequested,
    /// Review is required but no decision has been reached.
    ReviewRequired,
    /// No reviews and review not required (`none` on the wire).
    Undecided,
}

/// One row in the Pull Requests view.
#[derive(Debug, Clone, PartialEq, Eq)]
pub struct PullRequestSummary {
    /// The account this PR was fetched under.
    pub account_id: String,
    /// `"owner/name"`.
    pub repo: String,
    /// PR number.
    pub number: u64,
    /// Title.
    pub title: String,
    /// Link to the PR on GitHub.
    pub url: String,
    /// Author login.
    pub author: String,
    /// Why the PR is in the list; may be several entries.
    pub roles: Vec<PrRole>,
    /// GitHub lifecycle state.
    pub state: PrState,
    /// Whether the PR is a draft.
    pub draft: bool,
    /// Aggregate CI status.
    pub ci_status: CiStatus,
    /// The aggregate review decision.
    pub review_decision: ReviewDecision,
    /// Number of unresolved review threads.
    pub unresolved_threads: u64,
    /// Whether it can be merged as-is.
    pub mergeable: Mergeability,
    /// ISO-8601 creation time.
    pub created_at: String,
    /// ISO-8601 last-update time.
    pub updated_at: String,
    /// The PR's head branch name, when GitHub reported one.
    pub head_ref: Option<String>,
}

/// Fields of a partial PR update; `None` leaves a field unchanged.
#[derive(Debug, Clone, Default, PartialEq, Eq)]
pub struct PrPatch {
    /// New title.
    pub title: Option<String>,
    /// New body.
    pub body: Option<String>,
    /// New base branch.
    pub base: Option<String>,
    /// Draft/ready-for-review toggle.
    pub draft: Option<bool>,
    /// Replaces the label set entirely.
    pub labels: Option<Vec<String>>,
    /// Requests reviews from these logins.
    pub reviewers: Option<Vec<String>>,
}

/// The search qualifier for a requested state (`None`: every PR).
pub open spec fn qualifier_spec(state: Option<PrState>) -> Seq<char> {
    match state {
        Some(PrState::Open) => "is:open is:pr"@,
        Some(PrState::Closed) => "is:closed is:pr"@,
        Some(PrState::Merged) => "is:merged is:pr"@,
        None => "is:pr"@,
    }
}

/// The search qualifier for a requested [`PrState`]. Merged PRs are
/// indexed as closed too, so closed results are narrowed node by node.
pub fn search_qualifier(state: Option<PrState>) -> (s: &'static str)
    ensures
        s@ == qualifier_spec(state),
{
    match state {
        Some(PrState::Open) => "is:open is:pr",
        Some(PrState::Closed) => "is:closed is:pr",
        Some(PrState::Merged) => "is:merged is:pr",
        None => "is:pr",
    }
}

/// A node's GraphQL state satisfies the requested filter.
pub open spec fn state_matches_spec(actual: Seq<char>, requested: Option<PrState>) -> bool {
    match requested {
        None => true,
        Some(PrState::Open) => actual == "OPEN"@,
        Some(PrState::Closed) => actual == "CLOSED"@,
        Some(PrState::Merged) => actual == "MERGED"@,
    }
}

/// Whether a node's authoritative GraphQL state satisfies the filter.
pub fn state_matches(actual: &str, requested: Option<PrState>) -> (b: bool)
    ensures
        b == state_matches_spec(actual@, requested),
{
    match requested {
        None => true,
        Some(PrState::Open) => str_eq(actual, "OPEN"),
        Some(PrState::Closed) => str_eq(actual, "CLOSED"),
        Some(PrState::Merged) => str_eq(actual, "MERGED"),
    }
}

/// GitHub's two mergeability signals as one value: an explicit conflict
/// wins; `blocked` is told apart from clean; a `dirty` state with no
/// verdict yet is a conflict; anything else undecided is unknown.
pub open spec fn mergeability_spec(mergeable: Option<bool>, state: Option<Seq<char>>) -> Mergeability {
    match mergeable {
        Some(false) => Mergeability::Conflicted,
        Some(true) => if state == Some("blocked"@) {
            Mergeability::Blocked
        } else {
            Mergeability::Clean
        },
        None => if state == Some("dirty"@) {
            Mergeability::Conflicted
        } else {
            Mergeability::Unknown
        },
    }
}

/// Maps GitHub's two mergeability signals onto one enum. `mergeable` is
/// null while GitHub computes it, hence `Unknown` as a normal state.
pub fn mergeability_of(mergeable: &Option<bool>, state: Option<&str>) -> (m: Mergeability)
    ensures
        m == mergeability_spec(*mergeable, match state {
            Some(s) => Some(s@),
            None => None,
        }),
{
    match mergeable {
        Some(false) => Mergeability::Conflicted,
        Some(true) => match state {
            Some(s) => if str_eq(s, "blocked") {
                Mergeability::Blocked
            } else {
                Mergeability::Clean
            },
            None => Mergeability::Clean,
        },
        None => match state {
            Some(s) => if str_eq(s, "dirty") {
                Mergeability::Conflicted
            } else {
                Mergeability::Unknown
            },
            None => Mergeability::Unknown,
        },
    }
}

/// A user as the REST API reports it.
#[derive(Debug, Clone, PartialEq, Eq)]
pub struct RawUser {
    /// GitHub login.
    pub login: String,
}

/// One row of `GET /pulls/{number}/reviews`: one review round.
#[derive(Debug, Clone, PartialEq, Eq)]
pub struct RawReview {
    /// Absent for deleted users.
    pub user: Option<RawUser>,
    /// `APPROVED`, `CHANGES_REQUESTED`, `COMMENTED`, …
    pub state: String,
}

/// The lowercase form of a string, as `str::to_lowercase` gives it.
pub uninterp spec fn lowercase(s: Seq<char>) -> Seq<char>;

/// Calls `str::to_lowercase`. Unicode lowercasing is not restated here:
/// the result is tied to its argument through [`lowercase`] only.
#[verifier::external_body]
pub(crate) fn to_lower(s: &str) -> (r: String)
    ensures
        r@ == lowercase(s@),
{
    s.to_lowercase()
}

/// A review row as plain values: login, state, rounds.
pub type ReviewerRow = (Seq<char>, Seq<char>, int);

/// The rows of a list of reviews.
pub open spec fn reviewer_views(v: Seq<Reviewer>) -> Seq<ReviewerRow> {
    v.map_values(|r: Reviewer| (r.login@, r.state@, r.rounds as int))
}

/// Index of the first row for `login`, or -1.
pub open spec fn row_index(rows: Seq<ReviewerRow>, login: Seq<char>) -> int
    decreases rows.len(),
{
    if rows.len() == 0 {
        -1
    } else {
        let i = row_index(rows.drop_last(), login);
        if i >= 0 {
            i
        } else if rows.last().0 == login {
            rows.len() - 1
        } else {
            -1
        }
    }
}

/// One row per reviewing login, in first-seen order, with the state of their
/// latest round (lowercased) and their number of rounds; rows without a
/// user are skipped.
pub open spec fn review_rows(reviews: Seq<RawReview>) -> Seq<ReviewerRow>
    decreases reviews.len(),
{
    if reviews.len() == 0 {
        Seq::empty()
    } else {
        let rows = review_rows(reviews.drop_last());
        let r = reviews.last();
        match r.user {
            None => rows,
            Some(u) => {
                let i = row_index(rows, u.login@);
                if i < 0 {
                    rows.push((u.login@, lowercase(r.state@), 1))
                } else {
                    rows.update(i, (u.login@, lowercase(r.state@), rows[i].2 + 1))
                }
            },
        }
    }
}

/// Appends each login asked to review that has no row yet as `pending`, with
/// no rounds.
pub open spec fn with_pending(rows: Seq<ReviewerRow>, requested: Seq<RawUser>) -> Seq<ReviewerRow>
    decreases requested.len(),
{
    if requested.len() == 0 {
        rows
    } else {
        let before = with_pending(rows, requested.drop_last());
        let login = requested.last().login@;
        if row_index(before, login) < 0 {
            before.push((login, "pending"@, 0))
        } else {
            before
        }
    }
}

/// The review rows of a PR from its review rounds and its pending review
/// requests.
pub open spec fn reviewer_rows(reviews: Seq<RawReview>, requested: Option<Seq<RawUser>>) -> Seq<ReviewerRow> {
    with_pending(review_rows(reviews), match requested {
        Some(r) => r,
        None => Seq::empty(),
    })
}

/// Facts about [`row_index`]: in range, a hit, and no earlier hit.
pub proof fn lemma_row_index(rows: Seq<ReviewerRow>, login: Seq<char>)
    ensures
        -1 <= row_index(rows, login) < rows.len(),
        row_index(rows, login) >= 0 ==> rows[row_index(rows, login)].0 == login,
        forall|j: int| 0 <= j < rows.len() && rows[j].0 == login ==> row_index(rows, login) >= 0 && row_index(rows, login) <= j,
    decreases rows.len(),
{
    if rows.len() > 0 {
        lemma_row_index(rows.drop_last(), login);
        assert forall|j: int| 0 <= j < rows.len() && rows[j].0 == login implies row_index(rows, login) >= 0
            && row_index(rows, login) <= j by {
            if j < rows.len() - 1 {
                assert(rows.drop_last()[j].0 == login);
            }
        }
    }
}

/// Index of the review row for `login`, if any.
fn find_reviewer(reviewers: &Vec<Reviewer>, login: &String) -> (r: Option<usize>)
    ensures
        match r {
            Some(i) => i < reviewers@.len() && i as int == row_index(reviewer_views(reviewers@), login@),
            None => row_index(reviewer_views(reviewers@), login@) < 0,
        },
{
    proof {
        lemma_row_index(reviewer_views(reviewers@), login@);
    }
    let mut k: usize = 0;
    while k < reviewers.len()
        invariant
            k <= reviewers@.len(),
            forall|j: int| 0 <= j < k ==> (#[trigger] reviewers@[j]).login@ != login@,
            -1 <= row_index(reviewer_views(reviewers@), login@) < reviewers@.len(),
            row_index(reviewer_views(reviewers@), login@) >= 0 ==>
                reviewer_views(reviewers@)[row_index(reviewer_views(reviewers@), login@)].0 == login@,
            forall|j: int| 0 <= j < reviewers@.len() && reviewer_views(reviewers@)[j].0 == login@ ==>
                row_index(reviewer_views(reviewers@), login@) >= 0
                    && row_index(reviewer_views(reviewers@), login@) <= j,
        decreases reviewers.len() - k,
    {
        if reviewers[k].login == *login {
            assert(reviewer_views(reviewers@)[k as int].0 == login@);
            return Some(k);
        }
        k += 1;
    }
    proof {
        if row_index(reviewer_views(reviewers@), login@) >= 0 {
            let i = row_index(reviewer_views(reviewers@), login@);
            assert(reviewers@[i].login@ == login@);
        }
    }
    None
}

/// Collapses GitHub's per-round review rows into one entry per login:
/// first-seen order, the state of the latest round (lowercased), the number
/// of rounds; rows without a user are skipped. Logins asked to review who never
/// reviewed are appended as `pending` with zero rounds.
pub fn dedupe_reviewers(reviews: Vec<RawReview>, requested_reviewers: Option<&Vec<RawUser>>) -> (out: Vec<Reviewer>)
    requires
        reviews@.len() <= u32::MAX,
    ensures
        reviewer_views(out@) == reviewer_rows(reviews@, match requested_reviewers {
            Some(r) => Some(r@),
            None => None,
        }),
{
    let mut reviewers: Vec<Reviewer> = Vec::new();
    let mut k: usize = 0;
    assert(reviewer_views(reviewers@) =~= review_rows(reviews@.subrange(0, 0)));
    while k < reviews.len()
        invariant
            k <= reviews@.len() <= u32::MAX,
            reviewer_views(reviewers@) == review_rows(reviews@.subrange(0, k as int)),
            forall|j: int| 0 <= j < reviewers@.len() ==> (#[trigger] reviewers@[j]).rounds <= k,
        decreases reviews.len() - k,
    {
        assert(reviews@.subrange(0, k + 1).drop_last() =~= reviews@.subrange(0, k as int));
        let review = &reviews[k];
        match &review.user {
            None => {},
            Some(u) => {
                let ghost before = reviewer_views(reviewers@);
                match find_reviewer(&reviewers, &u.login) {
                    None => {
                        reviewers.push(Reviewer { login: u.login.clone(), state: to_lower(review.state.as_str()), rounds: 1 });
                        assert(reviewer_views(reviewers@) =~= before.push((u.login@, lowercase(review.state@), 1)));
                    },
                    Some(i) => {
                        let rounds = reviewers[i].rounds + 1;
                        reviewers.set(i, Reviewer { login: u.login.clone(), state: to_lower(review.state.as_str()), rounds });
                        assert(reviewer_views(reviewers@) =~= before.update(i as int, (u.login@, lowercase(review.state@), before[i as int].2 + 1)));
                    },
                }
            },
        }
        k += 1;
    }
    assert(reviews@.subrange(0, reviews@.len() as int) =~= reviews@);
    let ghost base = reviewer_views(reviewers@);
    match requested_reviewers {
        None => {},
        Some(req) => {
            let mut k: usize = 0;
            assert(req@.subrange(0, 0) =~= Seq::<RawUser>::empty());
            while k < req.len()
                invariant
                    k <= req@.len(),
                    reviewer_views(reviewers@) == with_pending(base, req@.subrange(0, k as int)),
                decreases req.len() - k,
            {
                assert(req@.subrange(0, k + 1).drop_last() =~= req@.subrange(0, k as int));
                let login = &req[k].login;
                let ghost before = reviewer_views(reviewers@);
                if find_reviewer(&reviewers, login).is_none() {
                    reviewers.push(Reviewer { login: login.clone(), state: String::from_str("pending"), rounds: 0 });
                    assert(reviewer_views(reviewers@) =~= before.push((login@, "pending"@, 0)));
                }
                k += 1;
            }
            assert(req@.subrange(0, req@.len() as int) =~= req@);
        },
    }
    reviewers
}

/// A login, empty when the user is absent.
pub open spec fn login_or_empty(u: Option<RawUser>) -> Seq<char> {
    match u {
        Some(u) => u.login@,
        None => Seq::empty(),
    }
}

/// The login of an optional user, empty when absent.
fn login_of(u: Option<RawUser>) -> (s: String)
    ensures
        s@ == login_or_empty(u),
{
    match u {
        Some(u) => u.login,
        None => String::new(),
    }
}

/// A REST comment (issue comment or review comment).
#[derive(Debug, Clone, PartialEq, Eq)]
pub struct RawComment {
    /// Comment id.
    pub id: u64,
    /// Absent for deleted users.
    pub user: Option<RawUser>,
    /// Body.
    pub body: String,
    /// Creation time.
    pub created_at: String,
    /// Anchor path, for review comments.
    pub path: Option<String>,
}

impl RawComment {
    /// The UI's comment.
    pub fn into_comment(self) -> (c: Comment)
        ensures
            c.id == self.id,
            c.author@ == login_or_empty(self.user),
            c.body == self.body,
            c.created_at == self.created_at,
            c.path == self.path,
    {
        Comment { id: self.id, author: login_of(self.user), body: self.body, created_at: self.created_at, path: self.path }
    }
}

/// One comment of a GraphQL review thread.
#[derive(Debug, Clone, PartialEq, Eq)]
pub struct RawThreadComment {
    /// The REST id of the comment, the value replies must use.
    pub database_id: Option<u64>,
    /// Absent for deleted users.
    pub author: Option<RawUser>,
    /// Body.
    pub body: String,
    /// Creation time.
    pub created_at: String,
}

/// The UI's comment for a thread comment (id 0 when GitHub gave none).
pub open spec fn thread_comment_is(c: Comment, r: RawThreadComment) -> bool {
    &&& c.id == match r.database_id {
        Some(id) => id,
        None => 0,
    }
    &&& c.author@ == login_or_empty(r.author)
    &&& c.body == r.body
    &&& c.created_at == r.created_at
    &&& c.path is None
}

impl RawThreadComment {
    /// The UI's comment; thread comments carry no path of their own.
    pub fn into_comment(self) -> (c: Comment)
        ensures
            thread_comment_is(c, self),
    {
        let id = match self.database_id {
            Some(id) => id,
            None => 0,
        };
        Comment { id, author: login_of(self.author), body: self.body, created_at: self.created_at, path: None }
    }
}

/// The comments of a GraphQL review thread.
#[derive(Debug, Clone, PartialEq, Eq)]
pub struct RawThreadComments {
    /// The comments, oldest first.
    pub nodes: Vec<RawThreadComment>,
}

/// A GraphQL review thread.
#[derive(Debug, Clone, PartialEq, Eq)]
pub struct RawReviewThread {
    /// Thread node id.
    pub id: String,
    /// Whether the thread is resolved.
    pub is_resolved: bool,
    /// Anchor path; absent for general threads.
    pub path: Option<String>,
    /// The comments.
    pub comments: RawThreadComments,
}

impl RawReviewThread {
    /// The UI's thread.
    pub fn into_thread(self) -> (t: ReviewThread)
        ensures
            t.id == self.id,
            t.path == self.path,
            t.resolved == self.is_resolved,
            t.comments@.len() == self.comments.nodes@.len(),
            forall|k: int| 0 <= k < t.comments@.len()
                ==> thread_comment_is(#[trigger] t.comments@[k], self.comments.nodes@[k]),
    {
        let ghost src = self.comments.nodes@;
        let mut nodes = self.comments.nodes;
        let mut comments: Vec<Comment> = Vec::new();
        let mut k: usize = 0;
        let n = nodes.len();
        while k < n
            invariant
                n == src.len(),
                k <= n,
                nodes@ == src,
                comments@.len() == k,
                forall|j: int| 0 <= j < k ==> thread_comment_is(#[trigger] comments@[j], src[j]),
            decreases n - k,
        {
            let c = nodes[k].clone_comment();
            comments.push(c.into_comment());
            k += 1;
        }
        ReviewThread { id: self.id, path: self.path, resolved: self.is_resolved, comments }
    }
}

impl RawThreadComment {
    /// A copy with every field equal.
    fn clone_comment(&self) -> (c: RawThreadComment)
        ensures
            c == *self,
    {
        RawThreadComment {
            database_id: self.database_id,
            author: match &self.author {
                Some(u) => Some(RawUser { login: u.login.clone() }),
                None => None,
            },
            body: self.body.clone(),
            created_at: self.created_at.clone(),
        }
    }
}

/// The author of a search node.
#[derive(Debug, Clone, PartialEq, Eq)]
pub struct SearchAuthor {
    /// GitHub login.
    pub login: String,
}

/// The repository of a search node.
#[derive(Debug, Clone, PartialEq, Eq)]
pub struct SearchRepository {
    /// `"owner/name"`.
    pub name_with_owner: String,
}

/// A check rollup state.
#[derive(Debug, Clone, PartialEq, Eq)]
pub struct SearchStatusCheckRollup {
    /// GitHub's `StatusState` value.
    pub state: String,
}

/// A commit, reduced to its check rollup.
#[derive(Debug, Clone, PartialEq, Eq)]
pub struct SearchCommit {
    /// Absent when no checks reported.
    pub status_check_rollup: Option<SearchStatusCheckRollup>,
}

/// One entry of `commits(last: 1)`.
#[derive(Debug, Clone, PartialEq, Eq)]
pub struct SearchCommitNode {
    /// The commit.
    pub commit: SearchCommit,
}

/// `commits(last: 1)`.
#[derive(Debug, Clone, PartialEq, Eq)]
pub struct SearchCommits {
    /// At most one entry: the head commit.
    pub nodes: Vec<SearchCommitNode>,
}

/// A review thread, reduced to its resolve state.
#[derive(Debug, Clone, PartialEq, Eq)]
pub struct SearchReviewThreadNode {
    /// Whether the thread is resolved.
    pub is_resolved: bool,
}

/// The review threads of a search node.
#[derive(Debug, Clone, PartialEq, Eq)]
pub struct SearchReviewThreads {
    /// The threads.
    pub nodes: Vec<SearchReviewThreadNode>,
}

/// One node of the PR-list search.
#[derive(Debug, Clone, PartialEq, Eq)]
pub struct SearchPrNode {
    /// `PullRequest` for PR nodes.
    pub typename: Option<String>,
    /// PR number.
    pub number: u64,
    /// Title.
    pub title: String,
    /// Browser URL.
    pub url: String,
    /// Creation time.
    pub created_at: String,
    /// Last-update time.
    pub updated_at: String,
    /// `OPEN`, `CLOSED` or `MERGED`.
    pub state: String,
    /// Whether the PR is a draft.
    pub is_draft: bool,
    /// `APPROVED`, `CHANGES_REQUESTED`, `REVIEW_REQUIRED`, or absent.
    pub review_decision: Option<String>,
    /// `MERGEABLE`, `CONFLICTING`, `UNKNOWN`, or absent.
    pub mergeable: Option<String>,
    /// Head branch name.
    pub head_ref: Option<String>,
    /// Author.
    pub author: Option<SearchAuthor>,
    /// Repository.
    pub repository: SearchRepository,
    /// Head commit.
    pub commits: SearchCommits,
    /// Review threads, when returned.
    pub review_threads: Option<SearchReviewThreads>,
}

/// Number of unresolved threads.
pub open spec fn count_unresolved(ts: Seq<SearchReviewThreadNode>) -> nat
    decreases ts.len(),
{
    if ts.len() == 0 {
        0
    } else {
        count_unresolved(ts.drop_last()) + if ts.last().is_resolved { 0nat } else { 1nat }
    }
}

/// Unresolved threads of a node (zero when not returned).
pub open spec fn unresolved_of(n: SearchPrNode) -> nat {
    match n.review_threads {
        Some(t) => count_unresolved(t.nodes@),
        None => 0,
    }
}

/// CI status of a search node, from the head commit's rollup.
pub open spec fn search_ci_status(n: SearchPrNode) -> CiStatus {
    if n.commits.nodes@.len() > 0 && n.commits.nodes@[0].commit.status_check_rollup is Some {
        ci_status_of_state(n.commits.nodes@[0].commit.status_check_rollup->0.state@)
    } else {
        CiStatus::NoChecks
    }
}

/// Lifecycle state from GraphQL's state string (anything else is closed).
pub open spec fn pr_state_of(s: Seq<char>) -> PrState {
    if s == "OPEN"@ {
        PrState::Open
    } else if s == "MERGED"@ {
        PrState::Merged
    } else {
        PrState::Closed
    }
}

/// Review decision from GraphQL's value (null counts as no decision).
pub open spec fn review_decision_of(o: Option<String>) -> ReviewDecision {
    if opt_is(o, "APPROVED"@) {
        ReviewDecision::Approved
    } else if opt_is(o, "CHANGES_REQUESTED"@) {
        ReviewDecision::ChangesRequested
    } else if opt_is(o, "REVIEW_REQUIRED"@) {
        ReviewDecision::ReviewRequired
    } else {
        ReviewDecision::Undecided
    }
}

/// Mergeability from GraphQL's value; not yet computed is `Unknown`, never
/// a conflict.
pub open spec fn summary_mergeable(o: Option<String>) -> Mergeability {
    if opt_is(o, "CONFLICTING"@) {
        Mergeability::Conflicted
    } else if opt_is(o, "MERGEABLE"@) {
        Mergeability::Clean
    } else {
        Mergeability::Unknown
    }
}

/// Every field of the summary of `n` except its roles.
pub open spec fn summary_of(s: PullRequestSummary, n: SearchPrNode, account: Seq<char>) -> bool {
    &&& s.account_id@ == account
    &&& s.repo == n.repository.name_with_owner
    &&& s.number == n.number
    &&& s.title == n.title
    &&& s.url == n.url
    &&& s.author@ == match n.author {
        Some(a) => a.login@,
        None => Seq::empty(),
    }
    &&& s.state == pr_state_of(n.state@)
    &&& s.draft == n.is_draft
    &&& s.ci_status == search_ci_status(n)
    &&& s.review_decision == review_decision_of(n.review_decision)
    &&& s.unresolved_threads as nat == unresolved_of(n)
    &&& s.mergeable == summary_mergeable(n.mergeable)
    &&& s.created_at == n.created_at
    &&& s.updated_at == n.updated_at
    &&& s.head_ref == n.head_ref
}

/// A summary's CI status reads the head commit's check rollup: `SUCCESS`
/// passes; `FAILURE` or `ERROR` fails; `PENDING` or `EXPECTED` is pending;
/// any other state, no commit or no rollup means no checks. This is the
/// same reading an action item gives the same rollup.
pub proof fn lemma_summary_ci_status(s: PullRequestSummary, n: SearchPrNode, account: Seq<char>)
    requires
        summary_of(s, n, account),
    ensures
        ({
            let has = n.commits.nodes@.len() > 0 && n.commits.nodes@[0].commit.status_check_rollup is Some;
            let st = n.commits.nodes@[0].commit.status_check_rollup->0.state@;
            &&& (s.ci_status == CiStatus::Passing) <==> (has && st == "SUCCESS"@)
            &&& (s.ci_status == CiStatus::Failing) <==> (has && (st == "FAILURE"@ || st == "ERROR"@))
            &&& (s.ci_status == CiStatus::Pending) <==> (has && (st == "PENDING"@ || st == "EXPECTED"@))
            &&& has ==> s.ci_status == crate::github::ci_status_of_state(st)
        }),
{
    reveal_strlit("SUCCESS");
    reveal_strlit("FAILURE");
    reveal_strlit("ERROR");
    reveal_strlit("PENDING");
    reveal_strlit("EXPECTED");
    let st = n.commits.nodes@[0].commit.status_check_rollup->0.state@;
    assert("SUCCESS"@ != "FAILURE"@ && "SUCCESS"@ != "ERROR"@ && "SUCCESS"@ != "PENDING"@ && "SUCCESS"@ != "EXPECTED"@) by {
        assert("SUCCESS"@[0] != "FAILURE"@[0]);
        assert("SUCCESS"@[0] != "ERROR"@[0]);
        assert("SUCCESS"@[0] != "PENDING"@[0]);
        assert("SUCCESS"@[0] != "EXPECTED"@[0]);
    }
    assert("FAILURE"@ != "PENDING"@ && "FAILURE"@ != "EXPECTED"@ && "ERROR"@ != "PENDING"@ && "ERROR"@ != "EXPECTED"@) by {
        assert("FAILURE"@[0] != "PENDING"@[0]);
        assert("FAILURE"@[0] != "EXPECTED"@[0]);
        assert("ERROR"@[0] != "PENDING"@[0]);
        assert("ERROR"@.len() != "EXPECTED"@.len());
    }
}

/// Whether an optional string holds exactly `lit`.
fn opt_text_is(o: &Option<String>, lit: &str) -> (b: bool)
    ensures
        b == opt_is(*o, lit@),
{
    match o {
        Some(s) => str_eq(s.as_str(), lit),
        None => false,
    }
}

/// A copy of an optional string.
fn copy_opt(o: &Option<String>) -> (r: Option<String>)
    ensures
        r == *o,
{
    match o {
        Some(s) => Some(s.clone()),
        None => None,
    }
}

impl SearchPrNode {
    /// The summary of this node, with no roles yet.
    fn summary_from(&self, account_id: &str) -> (s: PullRequestSummary)
        ensures
            summary_of(s, *self, account_id@),
            s.roles@.len() == 0,
    {
        let ci_status = if self.commits.nodes.len() == 0 {
            CiStatus::NoChecks
        } else {
            match &self.commits.nodes[0].commit.status_check_rollup {
                None => CiStatus::NoChecks,
                Some(r) => {
                    let st = r.state.as_str();
                    if str_eq(st, "SUCCESS") {
                        CiStatus::Passing
                    } else if str_eq(st, "FAILURE") || str_eq(st, "ERROR") {
                        CiStatus::Failing
                    } else if str_eq(st, "PENDING") || str_eq(st, "EXPECTED") {
                        CiStatus::Pending
                    } else {
                        CiStatus::NoChecks
                    }
                },
            }
        };
        let mut unresolved: u64 = 0;
        match &self.review_threads {
            Some(t) => {
                let mut k: usize = 0;
                while k < t.nodes.len()
                    invariant
                        k <= t.nodes@.len(),
                        unresolved as nat == count_unresolved(t.nodes@.subrange(0, k as int)),
                        unresolved <= k,
                    decreases t.nodes.len() - k,
                {
                    assert(t.nodes@.subrange(0, k + 1).drop_last() =~= t.nodes@.subrange(0, k as int));
                    if !t.nodes[k].is_resolved {
                        unresolved = unresolved + 1;
                    }
                    k += 1;
                }
                assert(t.nodes@.subrange(0, t.nodes@.len() as int) =~= t.nodes@);
            },
            None => {},
        }
        let st = self.state.as_str();
        let state = if str_eq(st, "OPEN") {
            PrState::Open
        } else if str_eq(st, "MERGED") {
            PrState::Merged
        } else {
            PrState::Closed
        };
        let review_decision = if opt_text_is(&self.review_decision, "APPROVED") {
            ReviewDecision::Approved
        } else if opt_text_is(&self.review_decision, "CHANGES_REQUESTED") {
            ReviewDecision::ChangesRequested
        } else if opt_text_is(&self.review_decision, "REVIEW_REQUIRED") {
            ReviewDecision::ReviewRequired
        } else {
            ReviewDecision::Undecided
        };
        let mergeable = if opt_text_is(&self.mergeable, "CONFLICTING") {
            Mergeability::Conflicted
        } else if opt_text_is(&self.mergeable, "MERGEABLE") {
            Mergeability::Clean
        } else {
            Mergeability::Unknown
        };
        let author = match &self.author {
            Some(a) => a.login.clone(),
            None => String::new(),
        };
        PullRequestSummary {
            account_id: String::from_str(account_id),
            repo: self.repository.name_with_owner.clone(),
            number: self.number,
            title: self.title.clone(),
            url: self.url.clone(),
            author,
            roles: Vec::new(),
            state,
            draft: self.is_draft,
            ci_status,
            review_decision,
            unresolved_threads: unresolved,
            mergeable,
            created_at: self.created_at.clone(),
            updated_at: self.updated_at.clone(),
            head_ref: copy_opt(&self.head_ref),
        }
    }

    /// Maps one search node into a summary carrying no role yet; the merge
    /// step unions roles by `(repo, number)`.
    pub fn into_summary(self, account_id: &str) -> (s: PullRequestSummary)
        ensures
            summary_of(s, self, account_id@),
            s.roles@.len() == 0,
    {
        self.summary_from(account_id)
    }
}

/// The `(node, role)` pairs of one result set.
pub open spec fn pairs_of(nodes: Seq<SearchPrNode>, role: PrRole) -> Seq<(SearchPrNode, PrRole)> {
    Seq::new(nodes.len(), |i: int| (nodes[i], role))
}

/// All `(node, role)` pairs, set after set.
pub open spec fn flatten_sets(sets: Seq<(Vec<SearchPrNode>, PrRole)>) -> Seq<(SearchPrNode, PrRole)>
    decreases sets.len(),
{
    if sets.len() == 0 {
        Seq::empty()
    } else {
        flatten_sets(sets.drop_last()) + pairs_of(sets.last().0@, sets.last().1)
    }
}

/// A node is a pull request in the requested state.
pub open spec fn listed(n: SearchPrNode, state: Option<PrState>) -> bool {
    opt_is(n.typename, "PullRequest"@) && state_matches_spec(n.state@, state)
}

/// Index of the row for `(repo, number)`, or -1.
pub open spec fn key_index(rows: Seq<(SearchPrNode, Seq<PrRole>)>, repo: Seq<char>, number: u64) -> int
    decreases rows.len(),
{
    if rows.len() == 0 {
        -1
    } else {
        let i = key_index(rows.drop_last(), repo, number);
        if i >= 0 {
            i
        } else if rows.last().0.repository.name_with_owner@ == repo && rows.last().0.number == number {
            rows.len() - 1
        } else {
            -1
        }
    }
}

/// One row per listed `(repo, number)`, in first-seen order: the first node
/// seen for the key, and the distinct roles it was found under.
pub open spec fn merge_rows(pairs: Seq<(SearchPrNode, PrRole)>, state: Option<PrState>) -> Seq<(SearchPrNode, Seq<PrRole>)>
    decreases pairs.len(),
{
    if pairs.len() == 0 {
        Seq::empty()
    } else {
        let rows = merge_rows(pairs.drop_last(), state);
        let (n, r) = pairs.last();
        if !listed(n, state) {
            rows
        } else {
            let i = key_index(rows, n.repository.name_with_owner@, n.number);
            if i < 0 {
                rows.push((n, seq![r]))
            } else if rows[i].1.contains(r) {
                rows
            } else {
                rows.update(i, (rows[i].0, rows[i].1.push(r)))
            }
        }
    }
}

/// Facts about [`key_index`]: in range and a hit.
pub proof fn lemma_key_index(rows: Seq<(SearchPrNode, Seq<PrRole>)>, repo: Seq<char>, number: u64)
    ensures
        -1 <= key_index(rows, repo, number) < rows.len(),
        key_index(rows, repo, number) >= 0 ==> rows[key_index(rows, repo, number)].0.repository.name_with_owner@ == repo
            && rows[key_index(rows, repo, number)].0.number == number,
        key_index(rows, repo, number) < 0 ==> forall|j: int| 0 <= j < rows.len()
            ==> !(rows[j].0.repository.name_with_owner@ == repo && rows[j].0.number == number),
    decreases rows.len(),
{
    if rows.len() > 0 {
        lemma_key_index(rows.drop_last(), repo, number);
        if key_index(rows, repo, number) < 0 {
            assert forall|j: int| 0 <= j < rows.len()
                implies !(rows[j].0.repository.name_with_owner@ == repo && rows[j].0.number == number) by {
                if j < rows.len() - 1 {
                    assert(rows[j] == rows.drop_last()[j]);
                }
            }
        }
    }
}

/// The rows of the merged list, as summaries with their roles.
pub open spec fn rows_match(out: Seq<PullRequestSummary>, rows: Seq<(SearchPrNode, Seq<PrRole>)>, account: Seq<char>) -> bool {
    &&& out.len() == rows.len()
    &&& forall|i: int| 0 <= i < out.len() ==> summary_of(#[trigger] out[i], rows[i].0, account)
        && out[i].roles@ == rows[i].1
}

/// Whether `role` is among `roles`.
fn has_role(roles: &Vec<PrRole>, role: PrRole) -> (b: bool)
    ensures
        b == roles@.contains(role),
{
    let mut k: usize = 0;
    while k < roles.len()
        invariant
            k <= roles@.len(),
            forall|j: int| 0 <= j < k ==> roles@[j] != role,
        decreases roles.len() - k,
    {
        if roles[k] == role {
            assert(roles@[k as int] == role);
            return true;
        }
        k += 1;
    }
    false
}

/// Index of the summary for `(repo, number)`, if any.
fn find_summary(out: &Vec<PullRequestSummary>, repo: &String, number: u64, Ghost(rows): Ghost<Seq<(SearchPrNode, Seq<PrRole>)>>, Ghost(account): Ghost<Seq<char>>) -> (r: Option<usize>)
    requires
        rows_match(out@, rows, account),
    ensures
        match r {
            Some(i) => i < out@.len() && i as int == key_index(rows, repo@, number),
            None => key_index(rows, repo@, number) < 0,
        },
{
    proof {
        lemma_key_index(rows, repo@, number);
    }
    let mut k: usize = 0;
    while k < out.len()
        invariant
            rows_match(out@, rows, account),
            k <= out@.len(),
            forall|j: int| 0 <= j < k ==> !(rows[j].0.repository.name_with_owner@ == repo@ && rows[j].0.number == number),
            -1 <= key_index(rows, repo@, number) < rows.len(),
            key_index(rows, repo@, number) >= 0 ==> rows[key_index(rows, repo@, number)].0.repository.name_with_owner@ == repo@
                && rows[key_index(rows, repo@, number)].0.number == number,
            key_index(rows, repo@, number) < 0 ==> forall|j: int| 0 <= j < rows.len()
                ==> !(rows[j].0.repository.name_with_owner@ == repo@ && rows[j].0.number == number),
        decreases out.len() - k,
    {
        assert(summary_of(out@[k as int], rows[k as int].0, account));
        if out[k].number == number && out[k].repo == *repo {
            proof {
                lemma_key_index_first(rows, repo@, number, k as int);
            }
            return Some(k);
        }
        k += 1;
    }
    None
}

/// The first row with the key is the one [`key_index`] names.
pub proof fn lemma_key_index_first(rows: Seq<(SearchPrNode, Seq<PrRole>)>, repo: Seq<char>, number: u64, k: int)
    requires
        0 <= k < rows.len(),
        rows[k].0.repository.name_with_owner@ == repo && rows[k].0.number == number,
        forall|j: int| 0 <= j < k ==> !(rows[j].0.repository.name_with_owner@ == repo && rows[j].0.number == number),
    ensures
        key_index(rows, repo, number) == k,
    decreases rows.len(),
{
    if k < rows.len() - 1 {
        assert forall|j: int| 0 <= j < k implies !(rows.drop_last()[j].0.repository.name_with_owner@ == repo
            && rows.drop_last()[j].0.number == number) by {
            assert(rows.drop_last()[j] == rows[j]);
        }
        lemma_key_index_first(rows.drop_last(), repo, number, k);
    } else {
        lemma_key_index(rows.drop_last(), repo, number);
        if key_index(rows.drop_last(), repo, number) >= 0 {
            let i = key_index(rows.drop_last(), repo, number);
            assert(rows.drop_last()[i] == rows[i]);
        }
    }
}

/// Merges the per-role result sets into one row per `(repo, number)`,
/// unioning roles so a PR in two sets is one summary with two roles. Nodes
/// that are not pull requests, or not in the requested state, are skipped.
/// Rows come in first-seen order.
pub fn merged_summaries(
    account_id: &str,
    sets: Vec<(Vec<SearchPrNode>, PrRole)>,
    state: Option<PrState>,
) -> (out: Vec<PullRequestSummary>)
    ensures
        rows_match(out@, merge_rows(flatten_sets(sets@), state), account_id@),
{
    let mut out: Vec<PullRequestSummary> = Vec::new();
    let ghost mut done: Seq<(SearchPrNode, PrRole)> = Seq::empty();
    let mut s: usize = 0;
    assert(flatten_sets(sets@.subrange(0, 0)) =~= done);
    while s < sets.len()
        invariant
            s <= sets@.len(),
            done == flatten_sets(sets@.subrange(0, s as int)),
            rows_match(out@, merge_rows(done, state), account_id@),
        decreases sets.len() - s,
    {
        assert(sets@.subrange(0, s + 1).drop_last() =~= sets@.subrange(0, s as int));
        let nodes = &sets[s].0;
        let role = sets[s].1;
        let ghost base = done;
        let mut j: usize = 0;
        assert(base + pairs_of(nodes@, role).subrange(0, 0) =~= done);
        while j < nodes.len()
            invariant
                j <= nodes@.len(),
                *nodes == sets@[s as int].0,
                role == sets@[s as int].1,
                done == base + pairs_of(nodes@, role).subrange(0, j as int),
                rows_match(out@, merge_rows(done, state), account_id@),
            decreases nodes.len() - j,
        {
            let node = &nodes[j];
            let ghost rows = merge_rows(done, state);
            let ghost next = done.push((nodes@[j as int], role));
            assert(next.drop_last() =~= done);
            assert(next =~= base + pairs_of(nodes@, role).subrange(0, j + 1));
            if opt_text_is(&node.typename, "PullRequest") && state_matches(node.state.as_str(), state) {
                proof {
                    lemma_key_index(rows, node.repository.name_with_owner@, node.number);
                }
                match find_summary(&out, &node.repository.name_with_owner, node.number, Ghost(rows), Ghost(account_id@)) {
                    None => {
                        let mut sm = node.summary_from(account_id);
                        sm.roles.push(role);
                        out.push(sm);
                        assert(merge_rows(next, state) == rows.push((nodes@[j as int], seq![role])));
                        assert(out@.last().roles@ =~= seq![role]);
                    },
                    Some(i) => {
                        if !has_role(&out[i].roles, role) {
                            let ghost old_out = out@;
                            let mut sm = out[i].clone_summary();
                            sm.roles.push(role);
                            out.set(i, sm);
                            assert(merge_rows(next, state) == rows.update(i as int, (rows[i as int].0, rows[i as int].1.push(role))));
                            assert forall|q: int| 0 <= q < out@.len() implies summary_of(#[trigger] out@[q], merge_rows(next, state)[q].0, account_id@)
                                && out@[q].roles@ == merge_rows(next, state)[q].1 by {
                                if q != i {
                                    assert(out@[q] == old_out[q]);
                                }
                            }
                        } else {
                            assert(merge_rows(next, state) == rows);
                        }
                    },
                }
            } else {
                assert(merge_rows(next, state) == rows);
            }
            proof {
                done = next;
            }
            j += 1;
        }
        assert(pairs_of(nodes@, role).subrange(0, nodes@.len() as int) =~= pairs_of(nodes@, role));
        assert(flatten_sets(sets@.subrange(0, s + 1)) =~= base + pairs_of(sets@[s as int].0@, sets@[s as int].1));
        s += 1;
    }
    assert(sets@.subrange(0, sets@.len() as int) =~= sets@);
    out
}

impl PullRequestSummary {
    /// A copy with every field equal (the roles by content).
    pub fn clone_summary(&self) -> (c: PullRequestSummary)
        ensures
            c == (PullRequestSummary { roles: c.roles, ..*self }),
            c.roles@ == self.roles@,
    {
        let mut roles: Vec<PrRole> = Vec::new();
        let mut k: usize = 0;
        while k < self.roles.len()
            invariant
                k <= self.roles@.len(),
                roles@ == self.roles@.subrange(0, k as int),
            decreases self.roles.len() - k,
        {
            roles.push(self.roles[k]);
            k += 1;
        }
        assert(roles@ =~= self.roles@);
        PullRequestSummary {
            account_id: self.account_id.clone(),
            repo: self.repo.clone(),
            number: self.number,
            title: self.title.clone(),
            url: self.url.clone(),
            author: self.author.clone(),
            roles,
            state: self.state,
            draft: self.draft,
            ci_status: self.ci_status,
            review_decision: self.review_decision,
            unresolved_threads: self.unresolved_threads,
            mergeable: self.mergeable,
            created_at: self.created_at.clone(),
            updated_at: self.updated_at.clone(),
            head_ref: copy_opt(&self.head_ref),
        }
    }
}

/// A git ref of a PR (`base` or `head`).
#[derive(Debug, Clone, PartialEq, Eq)]
pub struct RawRef {
    /// Branch name.
    pub ref_name: String,
    /// Commit SHA.
    pub sha: String,
}

/// A label.
#[derive(Debug, Clone, PartialEq, Eq)]
pub struct RawLabel {
    /// Label name.
    pub name: String,
}

/// `GET /repos/{repo}/pulls/{number}`, reduced to what the pane reads.
#[derive(Debug, Clone, PartialEq, Eq)]
pub struct RawPr {
    /// PR number.
    pub number: u64,
    /// Title.
    pub title: String,
    /// Body; absent when empty.
    pub body: Option<String>,
    /// `open` or `closed`.
    pub state: String,
    /// Draft flag, when reported.
    pub draft: Option<bool>,
    /// Browser URL.
    pub html_url: String,
    /// Merge time, when merged.
    pub merged_at: Option<String>,
    /// Null while GitHub computes it.
    pub mergeable: Option<bool>,
    /// `clean`, `blocked`, `dirty`, …
    pub mergeable_state: Option<String>,
    /// Author.
    pub user: Option<RawUser>,
    /// Base branch.
    pub base: RawRef,
    /// Head branch.
    pub head: RawRef,
    /// Labels.
    pub labels: Vec<RawLabel>,
    /// Logins whose review is still requested.
    pub requested_reviewers: Option<Vec<RawUser>>,
}

/// One check run of the head commit.
#[derive(Debug, Clone, PartialEq, Eq)]
pub struct RawCheckRun {
    /// Check name.
    pub name: String,
    /// `queued`, `in_progress`, `completed`.
    pub status: String,
    /// Present once completed.
    pub conclusion: Option<String>,
    /// Link to the run.
    pub html_url: Option<String>,
}

/// `GET /repos/{repo}/commits/{sha}/check-runs`.
#[derive(Debug, Clone, PartialEq, Eq)]
pub struct RawCheckRuns {
    /// The runs.
    pub check_runs: Vec<RawCheckRun>,
}

/// The check shown for a run: its conclusion, or its status while running.
pub open spec fn check_is(c: Check, r: RawCheckRun) -> bool {
    &&& c.name == r.name
    &&& c.conclusion@ == match r.conclusion {
        Some(x) => x@,
        None => r.status@,
    }
    &&& c.url == r.html_url
}

/// Every field of the detail pane for a PR, from its three fetches; a
/// failed reviews or checks fetch (`None`) shows as an empty list.
pub open spec fn detail_is(
    d: PullRequestDetail,
    repo: Seq<char>,
    number: u64,
    pr: RawPr,
    reviews: Option<Vec<RawReview>>,
    checks: Option<RawCheckRuns>,
) -> bool {
    &&& d.repo@ == repo
    &&& d.number == number
    &&& d.title == pr.title
    &&& d.body@ == match pr.body {
        Some(b) => b@,
        None => Seq::empty(),
    }
    &&& d.state@ == if pr.merged_at is Some { "merged"@ } else { pr.state@ }
    &&& d.draft == match pr.draft {
        Some(x) => x,
        None => false,
    }
    &&& d.base == pr.base.ref_name
    &&& d.head == pr.head.ref_name
    &&& d.author@ == login_or_empty(pr.user)
    &&& views(d.labels@) == pr.labels@.map_values(|l: RawLabel| l.name@)
    &&& reviewer_views(d.reviewers@) == reviewer_rows(match reviews {
        Some(r) => r@,
        None => Seq::empty(),
    }, match pr.requested_reviewers {
        Some(r) => Some(r@),
        None => None,
    })
    &&& d.checks@.len() == match checks {
        Some(c) => c.check_runs@.len(),
        None => 0,
    }
    &&& forall|k: int| 0 <= k < d.checks@.len() ==> check_is(#[trigger] d.checks@[k], checks->0.check_runs@[k])
    &&& d.mergeability == mergeability_spec(pr.mergeable, opt_view(pr.mergeable_state))
    &&& d.url == pr.html_url
    &&& d.head_sha == pr.head.sha
}

/// Assembles the detail pane from the PR, its review rounds and its check
/// runs.
pub fn assemble_detail(
    repo: &str,
    number: u64,
    pr: RawPr,
    reviews: Option<Vec<RawReview>>,
    checks: Option<RawCheckRuns>,
) -> (d: PullRequestDetail)
    requires
        reviews matches Some(r) ==> r@.len() <= u32::MAX,
    ensures
        detail_is(d, repo@, number, pr, reviews, checks),
{
    let ghost reviews0 = reviews;
    let ghost checks0 = checks;
    let review_rows_in = match reviews {
        Some(r) => r,
        None => Vec::new(),
    };
    let reviewers = dedupe_reviewers(review_rows_in, pr.requested_reviewers.as_ref());
    let mut check_list: Vec<Check> = Vec::new();
    match &checks {
        Some(c) => {
            let mut k: usize = 0;
            while k < c.check_runs.len()
                invariant
                    checks0 == Some(*c),
                    k <= c.check_runs@.len(),
                    check_list@.len() == k,
                    forall|j: int| 0 <= j < k ==> check_is(#[trigger] check_list@[j], c.check_runs@[j]),
                decreases c.check_runs.len() - k,
            {
                let run = &c.check_runs[k];
                let conclusion = match &run.conclusion {
                    Some(x) => x.clone(),
                    None => run.status.clone(),
                };
                check_list.push(Check { name: run.name.clone(), conclusion, url: copy_opt(&run.html_url) });
                k += 1;
            }
        },
        None => {},
    }
    let mut labels: Vec<String> = Vec::new();
    let mut k: usize = 0;
    while k < pr.labels.len()
        invariant
            k <= pr.labels@.len(),
            views(labels@) == pr.labels@.subrange(0, k as int).map_values(|l: RawLabel| l.name@),
        decreases pr.labels.len() - k,
    {
        let ghost before = views(labels@);
        labels.push(pr.labels[k].name.clone());
        assert(views(labels@) =~= before.push(pr.labels@[k as int].name@));
        assert(pr.labels@.subrange(0, k + 1).map_values(|l: RawLabel| l.name@)
            =~= pr.labels@.subrange(0, k as int).map_values(|l: RawLabel| l.name@).push(pr.labels@[k as int].name@));
        k += 1;
    }
    assert(pr.labels@.subrange(0, pr.labels@.len() as int) =~= pr.labels@);
    let mergeability = mergeability_of(&pr.mergeable, match &pr.mergeable_state {
        Some(s) => Some(s.as_str()),
        None => None,
    });
    let state = match &pr.merged_at {
        Some(_) => String::from_str("merged"),
        None => pr.state.clone(),
    };
    let body = match &pr.body {
        Some(b) => b.clone(),
        None => String::new(),
    };
    let draft = match pr.draft {
        Some(x) => x,
        None => false,
    };
    let author = match &pr.user {
        Some(u) => u.login.clone(),
        None => String::new(),
    };
    PullRequestDetail {
        repo: String::from_str(repo),
        number,
        title: pr.title.clone(),
        body,
        state,
        draft,
        base: pr.base.ref_name.clone(),
        head: pr.head.ref_name.clone(),
        author,
        labels,
        reviewers,
        checks: check_list,
        mergeability,
        url: pr.html_url.clone(),
        head_sha: pr.head.sha.clone(),
    }
}

/// Which of the three GitHub writes a [`PrPatch`] needs: the pull
/// request's own fields (title, body, base, draft), its label set, and a
/// request for reviews (only for a non-empty list of logins).
#[derive(Debug, Clone, Copy, PartialEq, Eq, Structural)]
pub struct PrUpdatePlan {
    /// Edit the pull request itself.
    pub edit_fields: bool,
    /// Replace the labels.
    pub set_labels: bool,
    /// Request reviews.
    pub request_reviewers: bool,
}

/// The writes an update makes, issued in this order; the first failure
/// stops the rest.
pub fn pr_update_plan(patch: &PrPatch) -> (p: PrUpdatePlan)
    ensures
        p.edit_fields == (patch.title is Some || patch.body is Some || patch.base is Some || patch.draft is Some),
        p.set_labels == patch.labels is Some,
        p.request_reviewers == (patch.reviewers matches Some(r) && r@.len() > 0),
{
    PrUpdatePlan {
        edit_fields: patch.title.is_some() || patch.body.is_some() || patch.base.is_some() || patch.draft.is_some(),
        set_labels: patch.labels.is_some(),
        request_reviewers: match &patch.reviewers {
            Some(r) => r.len() > 0,
            None => false,
        },
    }
}

} // verus!
