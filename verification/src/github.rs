//! Normalization of GitHub API results into [`ActionItem`]s: the search
//! nodes of the poller's GraphQL query, `/notifications` entries, and
//! `/user/repos` entries. The transport lives outside the library; these
//! functions take the decoded payloads.

use vstd::prelude::*;
use std::collections::BTreeSet;
use crate::item::{ActionItem, CiStatus, ItemKind, ItemState, kind_debug_name, kind_name};
use crate::text::{str_eq, str_lt, lex_lt, decimal, u64_decimal, first_index_of, find_char};
use crate::clock::now_rfc3339;
use crate::conflict::{opt_view, views};
use crate::ordered::{sorted_strs, ordered_u64, ordered_strs, join_decimal, join_strs,
    insert_sorted_str, join_ids, join_texts, lemma_ordered_u64_of,
    lemma_ordered_strs_of};

verus! {

/// A comment or PR author.
#[derive(Debug, Clone, PartialEq, Eq)]
pub struct PrAuthor {
    /// GitHub login.
    pub login: String,
}

/// The repository a search node belongs to.
#[derive(Debug, Clone, PartialEq, Eq)]
pub struct PrRepository {
    /// `"owner/name"`.
    pub name_with_owner: String,
}

/// The check-rollup state of a commit (`SUCCESS`, `FAILURE`, …).
#[derive(Debug, Clone, PartialEq, Eq)]
pub struct StatusCheckRollup {
    /// GitHub's `StatusState` value.
    pub state: String,
}

/// A commit, reduced to its check rollup.
#[derive(Debug, Clone, PartialEq, Eq)]
pub struct PrCommit {
    /// Absent when no checks ever reported.
    pub status_check_rollup: Option<StatusCheckRollup>,
}

/// One entry of `commits(last: 1)`.
#[derive(Debug, Clone, PartialEq, Eq)]
pub struct PrCommitNode {
    /// The commit.
    pub commit: PrCommit,
}

/// `commits(last: 1)` of a search node.
#[derive(Debug, Clone, PartialEq, Eq)]
pub struct PrCommits {
    /// At most one entry: the head commit.
    pub nodes: Vec<PrCommitNode>,
}

/// One top-level or review-thread comment.
#[derive(Debug, Clone, PartialEq, Eq)]
pub struct PrCommentNode {
    /// GitHub's numeric id, when reported.
    pub database_id: Option<u64>,
    /// Absent for deleted ("ghost") users.
    pub author: Option<PrAuthor>,
    /// RFC 3339 creation time.
    pub created_at: String,
}

/// A list of comments.
#[derive(Debug, Clone, PartialEq, Eq)]
pub struct PrComments {
    /// The comments, oldest first.
    pub nodes: Vec<PrCommentNode>,
}

/// One review thread.
#[derive(Debug, Clone, PartialEq, Eq)]
pub struct PrReviewThreadNode {
    /// GraphQL node id.
    pub id: String,
    /// Whether the thread was resolved.
    pub is_resolved: bool,
    /// The thread's comments.
    pub comments: PrComments,
}

/// The review threads of a PR.
#[derive(Debug, Clone, PartialEq, Eq)]
pub struct PrReviewThreads {
    /// The threads.
    pub nodes: Vec<PrReviewThreadNode>,
}

/// One pull request from the poller's search query.
#[derive(Debug, Clone, PartialEq, Eq)]
pub struct PrNode {
    /// PR number.
    pub number: u64,
    /// Title.
    pub title: String,
    /// Browser URL.
    pub url: String,
    /// RFC 3339 creation time.
    pub created_at: String,
    /// RFC 3339 last-update time.
    pub updated_at: String,
    /// Whether the PR is a draft.
    pub is_draft: bool,
    /// `APPROVED`, `CHANGES_REQUESTED`, `REVIEW_REQUIRED`, or absent.
    pub review_decision: Option<String>,
    /// `MERGEABLE`, `CONFLICTING`, `UNKNOWN`, or absent.
    pub mergeable: Option<String>,
    /// The PR author.
    pub author: Option<PrAuthor>,
    /// The repository.
    pub repository: PrRepository,
    /// The head commit.
    pub commits: PrCommits,
    /// Top-level comments; only requested for authored PRs.
    pub comments: Option<PrComments>,
    /// Review threads; only requested for authored and reviewed PRs.
    pub review_threads: Option<PrReviewThreads>,
}

/// CI status for a check-rollup state string.
pub open spec fn ci_status_of_state(state: Seq<char>) -> CiStatus {
    if state == "SUCCESS"@ {
        CiStatus::Passing
    } else if state == "FAILURE"@ || state == "ERROR"@ {
        CiStatus::Failing
    } else if state == "PENDING"@ || state == "EXPECTED"@ {
        CiStatus::Pending
    } else {
        CiStatus::NoChecks
    }
}

/// CI status of a node: from the first commit's rollup, `NoChecks` when
/// there is no commit or no rollup.
pub open spec fn pr_ci_status(n: PrNode) -> CiStatus {
    if n.commits.nodes@.len() > 0 && n.commits.nodes@[0].commit.status_check_rollup is Some {
        ci_status_of_state(n.commits.nodes@[0].commit.status_check_rollup->0.state@)
    } else {
        CiStatus::NoChecks
    }
}

/// An optional string holds exactly `lit`.
pub open spec fn opt_is(o: Option<String>, lit: Seq<char>) -> bool {
    o is Some && o->0@ == lit
}

/// Approved, mergeable, not a draft, CI not failing.
pub open spec fn ready_to_merge(n: PrNode) -> bool {
    &&& opt_is(n.review_decision, "APPROVED"@)
    &&& opt_is(n.mergeable, "MERGEABLE"@)
    &&& !n.is_draft
    &&& pr_ci_status(n) != CiStatus::Failing
}

/// Whether a comment was written by `login` (a missing author never is).
pub open spec fn by_login(c: PrCommentNode, login: Seq<char>) -> bool {
    c.author is Some && c.author->0.login@ == login
}

/// The top-level comments of a node (empty when not requested).
pub open spec fn top_comments(n: PrNode) -> Seq<PrCommentNode> {
    match n.comments {
        Some(c) => c.nodes@,
        None => Seq::empty(),
    }
}

/// The review threads of a node (empty when not requested).
pub open spec fn threads_of(n: PrNode) -> Seq<PrReviewThreadNode> {
    match n.review_threads {
        Some(t) => t.nodes@,
        None => Seq::empty(),
    }
}

/// Some top-level or thread comment is by someone other than `login`.
pub open spec fn has_comment_from_other_spec(n: PrNode, login: Seq<char>) -> bool {
    ||| exists|k: int| 0 <= k < top_comments(n).len() && !by_login(#[trigger] top_comments(n)[k], login)
    ||| exists|t: int, k: int|
        0 <= t < threads_of(n).len() && 0 <= k < threads_of(n)[t].comments.nodes@.len()
            && !by_login(#[trigger] threads_of(n)[t].comments.nodes@[k], login)
}

/// Some review thread is unresolved.
pub open spec fn has_unresolved_spec(n: PrNode) -> bool {
    exists|t: int| 0 <= t < threads_of(n).len() && !(#[trigger] threads_of(n)[t]).is_resolved
}

/// The PR needs its author: failing CI, a comment by someone else, or an
/// unresolved thread.
pub open spec fn needs_attention_spec(n: PrNode, login: Seq<char>) -> bool {
    pr_ci_status(n) == CiStatus::Failing || has_comment_from_other_spec(n, login)
        || has_unresolved_spec(n)
}

/// Whether `a` equals the literal text `lit`, for an optional string.
fn opt_str_is(o: &Option<String>, lit: &str) -> (b: bool)
    ensures
        b == opt_is(*o, lit@),
{
    match o {
        Some(s) => str_eq(s.as_str(), lit),
        None => false,
    }
}

impl PrNode {
    /// Aggregate CI status from the latest commit's check rollup.
    pub fn ci_status(&self) -> (s: CiStatus)
        ensures
            s == pr_ci_status(*self),
    {
        if self.commits.nodes.len() == 0 {
            return CiStatus::NoChecks;
        }
        match &self.commits.nodes[0].commit.status_check_rollup {
            None => CiStatus::NoChecks,
            Some(r) => {
                let st = r.state.as_str();
                if str_eq(st, "SUCCESS") {
                    CiStatus::Passing
                } else if str_eq(st, "FAILURE") || str_eq(st, "ERROR") {
                    CiStatus::Failing
                } else if str_eq(st, "PENDING") || str_eq(st, "EXPECTED") {
                    CiStatus::Pending
                } else {
                    CiStatus::NoChecks
                }
            },
        }
    }

    /// Whether this authored PR is ready to merge: approved, mergeable, not
    /// a draft, and CI not failing.
    pub fn is_ready_to_merge(&self) -> (b: bool)
        ensures
            b == ready_to_merge(*self),
    {
        opt_str_is(&self.review_decision, "APPROVED") && opt_str_is(&self.mergeable, "MERGEABLE")
            && !self.is_draft && self.ci_status() != CiStatus::Failing
    }

    /// True when any top-level or review-thread comment was written by
    /// someone other than `login`.
    pub fn has_comment_from_other(&self, login: &str) -> (b: bool)
        ensures
            b == has_comment_from_other_spec(*self, login@),
    {
        match &self.comments {
            Some(c) => {
                let mut k: usize = 0;
                while k < c.nodes.len()
                    invariant
                        self.comments == Some(*c),
                        k <= c.nodes@.len(),
                        forall|j: int| 0 <= j < k ==> by_login(#[trigger] c.nodes@[j], login@),
                    decreases c.nodes.len() - k,
                {
                    if !comment_by(&c.nodes[k], login) {
                        assert(!by_login(top_comments(*self)[k as int], login@));
                        return true;
                    }
                    k += 1;
                }
                assert(forall|j: int| 0 <= j < top_comments(*self).len() ==> by_login(#[trigger] top_comments(*self)[j], login@));
            },
            None => {},
        }
        match &self.review_threads {
            Some(ts) => {
                let mut t: usize = 0;
                while t < ts.nodes.len()
                    invariant
                        self.review_threads == Some(*ts),
                        t <= ts.nodes@.len(),
                        forall|a: int, j: int| 0 <= a < t && 0 <= j < ts.nodes@[a].comments.nodes@.len()
                            ==> by_login(#[trigger] ts.nodes@[a].comments.nodes@[j], login@),
                    decreases ts.nodes.len() - t,
                {
                    let cs = &ts.nodes[t].comments.nodes;
                    let mut k: usize = 0;
                    while k < cs.len()
                        invariant
                            self.review_threads == Some(*ts),
                            t < ts.nodes@.len(),
                            *cs == ts.nodes@[t as int].comments.nodes,
                            k <= cs@.len(),
                            forall|j: int| 0 <= j < k ==> by_login(#[trigger] cs@[j], login@),
                        decreases cs.len() - k,
                    {
                        if !comment_by(&cs[k], login) {
                            assert(!by_login(threads_of(*self)[t as int].comments.nodes@[k as int], login@));
                            return true;
                        }
                        k += 1;
                    }
                    t += 1;
                }
            },
            None => {},
        }
        false
    }

    /// True when any review thread on the PR is unresolved.
    pub fn has_unresolved_thread(&self) -> (b: bool)
        ensures
            b == has_unresolved_spec(*self),
    {
        match &self.review_threads {
            Some(ts) => {
                let mut t: usize = 0;
                while t < ts.nodes.len()
                    invariant
                        self.review_threads == Some(*ts),
                        t <= ts.nodes@.len(),
                        forall|a: int| 0 <= a < t ==> (#[trigger] ts.nodes@[a]).is_resolved,
                    decreases ts.nodes.len() - t,
                {
                    if !ts.nodes[t].is_resolved {
                        assert(!threads_of(*self)[t as int].is_resolved);
                        return true;
                    }
                    t += 1;
                }
                false
            },
            None => false,
        }
    }

    /// Whether this authored PR needs its owner.
    pub fn needs_attention(&self, login: &str) -> (b: bool)
        ensures
            b == needs_attention_spec(*self, login@),
    {
        self.ci_status() == CiStatus::Failing || self.has_comment_from_other(login)
            || self.has_unresolved_thread()
    }
}

/// The stable id of a search item: `{account}:{Kind}:{owner/name}#{number}`.
pub open spec fn pr_item_id(account: Seq<char>, kind: ItemKind, repo: Seq<char>, number: u64) -> Seq<char> {
    account + ":"@ + kind_name(kind) + ":"@ + repo + "#"@ + decimal(number as nat)
}

/// The login of an optional author, empty when absent.
pub open spec fn author_login(a: Option<PrAuthor>) -> Seq<char> {
    match a {
        Some(a) => a.login@,
        None => Seq::empty(),
    }
}

/// Every field of the item built from `n`, except the two observation
/// times, which are equal to each other.
pub open spec fn pr_item_fields(i: ActionItem, n: PrNode, account: Seq<char>, kind: ItemKind) -> bool {
    &&& i.id@ == pr_item_id(account, kind, n.repository.name_with_owner@, n.number)
    &&& i.account_id@ == account
    &&& i.kind == kind
    &&& i.state == ItemState::Open
    &&& i.repo@ == n.repository.name_with_owner@
    &&& i.number == Some(n.number)
    &&& i.title@ == n.title@
    &&& i.url@ == n.url@
    &&& i.author@ == author_login(n.author)
    &&& i.created_at@ == n.created_at@
    &&& i.updated_at@ == n.updated_at@
    &&& i.first_seen_at@ == i.last_seen_at@
    &&& i.ci_status == pr_ci_status(n)
    &&& i.raw_kind@ == kind_name(kind)
    &&& i.dismissed_updated_at is None
    &&& i.dismissed_at is None
    &&& i.dismissed_ci_status is None
    &&& i.activity is None
    &&& !i.archived
}

/// The item built from `n`, observed at `now`.
pub open spec fn pr_item(i: ActionItem, n: PrNode, account: Seq<char>, kind: ItemKind, now: Seq<char>) -> bool {
    pr_item_fields(i, n, account, kind) && i.first_seen_at@ == now
}

/// Whether `login` matches the author of `c` exactly as `mine` asks.
pub open spec fn side_of(c: PrCommentNode, login: Seq<char>, mine: bool) -> bool {
    by_login(c, login) == mine
}

/// The larger of an optional text and a text, in `str` order.
pub open spec fn max_text(o: Option<Seq<char>>, s: Seq<char>) -> Seq<char> {
    match o {
        None => s,
        Some(m) => if lex_lt(m, s) { s } else { m },
    }
}

/// The newest `created_at` among the comments by `login` (`mine`) or by
/// anyone else (`!mine`).
pub open spec fn latest_by(cs: Seq<PrCommentNode>, login: Seq<char>, mine: bool) -> Option<Seq<char>>
    decreases cs.len(),
{
    if cs.len() == 0 {
        None
    } else {
        let rest = latest_by(cs.drop_last(), login, mine);
        if side_of(cs.last(), login, mine) {
            Some(max_text(rest, cs.last().created_at@))
        } else {
            rest
        }
    }
}

/// The unanswered reply of one thread: someone else's newest comment, when
/// it is newer than the user's own newest comment there.
pub open spec fn thread_reply(t: PrReviewThreadNode, login: Seq<char>) -> Option<Seq<char>> {
    let user = latest_by(t.comments.nodes@, login, true);
    let other = latest_by(t.comments.nodes@, login, false);
    if user is Some && other is Some && lex_lt(user->0, other->0) {
        other
    } else {
        None
    }
}

/// The newest unanswered reply over a list of threads.
pub open spec fn newest_reply(ts: Seq<PrReviewThreadNode>, login: Seq<char>) -> Option<Seq<char>>
    decreases ts.len(),
{
    if ts.len() == 0 {
        None
    } else {
        let rest = newest_reply(ts.drop_last(), login);
        match thread_reply(ts.last(), login) {
            Some(o) => Some(max_text(rest, o)),
            None => rest,
        }
    }
}

/// The newest unanswered reply on the PR, `None` when there is none (or
/// when threads were not requested).
pub open spec fn latest_unanswered_reply_spec(n: PrNode, login: Seq<char>) -> Option<Seq<char>> {
    match n.review_threads {
        Some(t) => newest_reply(t.nodes@, login),
        None => None,
    }
}

/// A comment by someone other than `login` with database id `id`.
pub open spec fn other_id_in(c: PrCommentNode, login: Seq<char>, id: u64) -> bool {
    !by_login(c, login) && c.database_id == Some(id)
}

/// Ids of the comments (top-level and in threads) by people other than
/// `login`.
pub open spec fn other_comment_ids(n: PrNode, login: Seq<char>) -> Set<u64> {
    Set::new(|id: u64|
        (exists|k: int| 0 <= k < top_comments(n).len() && other_id_in(#[trigger] top_comments(n)[k], login, id))
        || (exists|t: int, k: int|
            0 <= t < threads_of(n).len() && 0 <= k < threads_of(n)[t].comments.nodes@.len()
                && other_id_in(#[trigger] threads_of(n)[t].comments.nodes@[k], login, id)))
}

/// Ids of the unresolved review threads.
pub open spec fn unresolved_thread_ids(n: PrNode) -> Set<Seq<char>> {
    Set::new(|s: Seq<char>|
        exists|t: int| 0 <= t < threads_of(n).len() && !(#[trigger] threads_of(n)[t]).is_resolved
            && threads_of(n)[t].id@ == s)
}

/// The fingerprint text for given id sets: `c:<ids>;u:<ids>`, both lists in
/// increasing order.
pub open spec fn fingerprint_text(comment_ids: Set<u64>, thread_ids: Set<Seq<char>>) -> Seq<char> {
    "c:"@ + join_decimal(ordered_u64(comment_ids)) + ";u:"@ + join_strs(ordered_strs(thread_ids))
}

/// The activity fingerprint of an authored PR.
pub open spec fn authored_fingerprint_spec(n: PrNode, login: Seq<char>) -> Seq<char> {
    fingerprint_text(other_comment_ids(n, login), unresolved_thread_ids(n))
}

/// The newest `created_at` among the comments by `login` (`mine`) or by
/// anyone else.
fn latest_of(cs: &Vec<PrCommentNode>, login: &str, mine: bool) -> (r: Option<String>)
    ensures
        opt_view(r) == latest_by(cs@, login@, mine),
{
    let mut r: Option<String> = None;
    let mut k: usize = 0;
    while k < cs.len()
        invariant
            k <= cs@.len(),
            opt_view(r) == latest_by(cs@.subrange(0, k as int), login@, mine),
        decreases cs.len() - k,
    {
        assert(cs@.subrange(0, k + 1).drop_last() =~= cs@.subrange(0, k as int));
        if comment_by(&cs[k], login) == mine {
            let c = &cs[k].created_at;
            r = match r {
                None => Some(c.clone()),
                Some(m) => if str_lt(m.as_str(), c.as_str()) { Some(c.clone()) } else { Some(m) },
            };
        }
        k += 1;
    }
    assert(cs@.subrange(0, cs@.len() as int) =~= cs@);
    r
}

impl PrNode {
    /// The item for this node, observed at `now`.
    fn item_at(&self, account_id: &str, kind: ItemKind, now: &String) -> (i: ActionItem)
        ensures
            pr_item(i, *self, account_id@, kind, now@),
    {
        let mut id = String::from_str(account_id);
        id.append(":");
        let kn = kind_debug_name(kind);
        id.append(kn.as_str());
        id.append(":");
        id.append(self.repository.name_with_owner.as_str());
        id.append("#");
        let num = u64_decimal(self.number);
        id.append(num.as_str());
        let author = match &self.author {
            Some(a) => a.login.clone(),
            None => String::new(),
        };
        ActionItem {
            id,
            account_id: String::from_str(account_id),
            kind,
            state: ItemState::Open,
            repo: self.repository.name_with_owner.clone(),
            number: Some(self.number),
            title: self.title.clone(),
            url: self.url.clone(),
            author,
            created_at: self.created_at.clone(),
            updated_at: self.updated_at.clone(),
            first_seen_at: now.clone(),
            last_seen_at: now.clone(),
            ci_status: self.ci_status(),
            raw_kind: kind_debug_name(kind),
            dismissed_updated_at: None,
            dismissed_at: None,
            dismissed_ci_status: None,
            activity: None,
            archived: false,
        }
    }

    /// Normalizes this node into an item of `kind`, first and last seen at
    /// `now`.
    pub fn into_action_item_at(self, account_id: &str, kind: ItemKind, now: String) -> (i: ActionItem)
        ensures
            pr_item(i, self, account_id@, kind, now@),
    {
        self.item_at(account_id, kind, &now)
    }

    /// Normalizes this node into an item of `kind`, first and last seen now.
    pub fn into_action_item(self, account_id: &str, kind: ItemKind) -> (i: ActionItem)
        ensures
            pr_item_fields(i, self, account_id@, kind),
    {
        let now = now_rfc3339();
        self.into_action_item_at(account_id, kind, now)
    }

    /// The `ReadyToMerge` item for this authored node, observed at `now`, or
    /// `None` when the PR has not crossed the threshold.
    pub fn into_ready_to_merge_item_at(self, account_id: &str, now: String) -> (r: Option<ActionItem>)
        ensures
            r is Some <==> ready_to_merge(self),
            r matches Some(i) ==> pr_item(i, self, account_id@, ItemKind::ReadyToMerge, now@),
    {
        if !self.is_ready_to_merge() {
            return None;
        }
        Some(self.into_action_item_at(account_id, ItemKind::ReadyToMerge, now))
    }

    /// The `ReadyToMerge` item for this authored node, or `None` when the PR
    /// has not crossed the threshold.
    pub fn into_ready_to_merge_item(self, account_id: &str) -> (r: Option<ActionItem>)
        ensures
            r is Some <==> ready_to_merge(self),
            r matches Some(i) ==> pr_item_fields(i, self, account_id@, ItemKind::ReadyToMerge),
    {
        let now = now_rfc3339();
        self.into_ready_to_merge_item_at(account_id, now)
    }

    /// The newest timestamp of any unanswered reply to `login`: in a thread
    /// the user commented in, a comment by someone else newer than the
    /// user's own newest comment there.
    pub fn latest_unanswered_reply(&self, login: &str) -> (r: Option<String>)
        ensures
            opt_view(r) == latest_unanswered_reply_spec(*self, login@),
    {
        let ts = match &self.review_threads {
            Some(t) => t,
            None => return None,
        };
        let mut newest: Option<String> = None;
        let mut k: usize = 0;
        while k < ts.nodes.len()
            invariant
                self.review_threads == Some(*ts),
                k <= ts.nodes@.len(),
                opt_view(newest) == newest_reply(ts.nodes@.subrange(0, k as int), login@),
            decreases ts.nodes.len() - k,
        {
            assert(ts.nodes@.subrange(0, k + 1).drop_last() =~= ts.nodes@.subrange(0, k as int));
            let cs = &ts.nodes[k].comments.nodes;
            let user = latest_of(cs, login, true);
            let other = latest_of(cs, login, false);
            match (user, other) {
                (Some(u), Some(o)) => {
                    if str_lt(u.as_str(), o.as_str()) {
                        newest = match newest {
                            None => Some(o),
                            Some(m) => if str_lt(m.as_str(), o.as_str()) { Some(o) } else { Some(m) },
                        };
                    }
                },
                _ => {},
            }
            k += 1;
        }
        assert(ts.nodes@.subrange(0, ts.nodes@.len() as int) =~= ts.nodes@);
        newest
    }

    /// The `ReviewedByMe` item, observed at `now`, with `updated_at` set to
    /// the newest unanswered reply; `None` while there is none.
    pub fn into_reviewed_by_me_item_at(self, account_id: &str, login: &str, now: String) -> (r: Option<ActionItem>)
        ensures
            r is Some <==> latest_unanswered_reply_spec(self, login@) is Some,
            r matches Some(i) ==> {
                &&& i.updated_at@ == latest_unanswered_reply_spec(self, login@)->0
                &&& pr_item((ActionItem { updated_at: self.updated_at, ..i }), self, account_id@,
                    ItemKind::ReviewedByMe, now@)
            },
    {
        let updated_at = match self.latest_unanswered_reply(login) {
            Some(u) => u,
            None => return None,
        };
        let mut item = self.into_action_item_at(account_id, ItemKind::ReviewedByMe, now);
        item.updated_at = updated_at;
        Some(item)
    }

    /// The `ReviewedByMe` item, with `updated_at` set to the newest
    /// unanswered reply; `None` while there is none.
    pub fn into_reviewed_by_me_item(self, account_id: &str, login: &str) -> (r: Option<ActionItem>)
        ensures
            r is Some <==> latest_unanswered_reply_spec(self, login@) is Some,
            r matches Some(i) ==> {
                &&& i.updated_at@ == latest_unanswered_reply_spec(self, login@)->0
                &&& pr_item_fields((ActionItem { updated_at: self.updated_at, ..i }), self, account_id@,
                    ItemKind::ReviewedByMe)
            },
    {
        let now = now_rfc3339();
        self.into_reviewed_by_me_item_at(account_id, login, now)
    }
}

impl PrNode {
    /// Stable, order-independent fingerprint of the qualifying activity:
    /// `c:<other-comment ids>;u:<unresolved thread ids>`, each list in
    /// increasing order without repeats.
    pub fn authored_fingerprint(&self, login: &str) -> (s: String)
        ensures
            s@ == authored_fingerprint_spec(*self, login@),
    {
        broadcast use vstd::std_specs::btree::group_btree_axioms;
        let mut ids: BTreeSet<u64> = BTreeSet::new();
        let ghost n = *self;
        match &self.comments {
            Some(c) => {
                let mut k: usize = 0;
                while k < c.nodes.len()
                    invariant
                        self.comments == Some(*c),
                        n == *self,
                        k <= c.nodes@.len(),
                        forall|x: u64| ids@.contains(x) <==>
                            exists|j: int| 0 <= j < k && other_id_in(#[trigger] c.nodes@[j], login@, x),
                    decreases c.nodes.len() - k,
                {
                    let node = &c.nodes[k];
                    if !comment_by(node, login) {
                        match node.database_id {
                            Some(id) => {
                                proof {
                                    crate::ordered::lemma_u64_ordered();
                                }
                                ids.insert(id);
                            },
                            None => {},
                        }
                    }
                    proof {
                        assert forall|x: u64| ids@.contains(x) <==>
                            exists|j: int| 0 <= j < k + 1 && other_id_in(#[trigger] c.nodes@[j], login@, x) by {
                            if other_id_in(c.nodes@[k as int], login@, x) {
                                assert(ids@.contains(x));
                            }
                        }
                    }
                    k += 1;
                }
                assert(top_comments(n) == c.nodes@);
            },
            None => {
                assert(top_comments(n).len() == 0);
                assert forall|x: u64| !ids@.contains(x) by {}
            },
        }
        let mut unresolved: Vec<String> = Vec::new();
        match &self.review_threads {
            Some(ts) => {
                let mut t: usize = 0;
                while t < ts.nodes.len()
                    invariant
                        self.review_threads == Some(*ts),
                        n == *self,
                        t <= ts.nodes@.len(),
                        sorted_strs(views(unresolved@)),
                        forall|x: u64| ids@.contains(x) <==>
                            (exists|j: int| 0 <= j < top_comments(n).len() && other_id_in(#[trigger] top_comments(n)[j], login@, x))
                            || (exists|a: int, j: int| 0 <= a < t && 0 <= j < ts.nodes@[a].comments.nodes@.len()
                                && other_id_in(#[trigger] ts.nodes@[a].comments.nodes@[j], login@, x)),
                        forall|y: Seq<char>| views(unresolved@).to_set().contains(y) <==>
                            exists|a: int| 0 <= a < t && !(#[trigger] ts.nodes@[a]).is_resolved && ts.nodes@[a].id@ == y,
                    decreases ts.nodes.len() - t,
                {
                    let th = &ts.nodes[t];
                    let cs = &th.comments.nodes;
                    let mut k: usize = 0;
                    while k < cs.len()
                        invariant
                            self.review_threads == Some(*ts),
                            n == *self,
                            t < ts.nodes@.len(),
                            *cs == ts.nodes@[t as int].comments.nodes,
                            k <= cs@.len(),
                                forall|x: u64| ids@.contains(x) <==>
                                (exists|j: int| 0 <= j < top_comments(n).len() && other_id_in(#[trigger] top_comments(n)[j], login@, x))
                                || (exists|a: int, j: int| 0 <= a < t && 0 <= j < ts.nodes@[a].comments.nodes@.len()
                                    && other_id_in(#[trigger] ts.nodes@[a].comments.nodes@[j], login@, x))
                                || (exists|j: int| 0 <= j < k && other_id_in(#[trigger] cs@[j], login@, x)),
                        decreases cs.len() - k,
                    {
                        let node = &cs[k];
                        if !comment_by(node, login) {
                            match node.database_id {
                                Some(id) => {
                                    proof {
                                    crate::ordered::lemma_u64_ordered();
                                }
                                ids.insert(id);
                                },
                                None => {},
                            }
                        }
                        proof {
                            assert forall|x: u64| ids@.contains(x) <==>
                                (exists|j: int| 0 <= j < top_comments(n).len() && other_id_in(#[trigger] top_comments(n)[j], login@, x))
                                || (exists|a: int, j: int| 0 <= a < t && 0 <= j < ts.nodes@[a].comments.nodes@.len()
                                    && other_id_in(#[trigger] ts.nodes@[a].comments.nodes@[j], login@, x))
                                || (exists|j: int| 0 <= j < k + 1 && other_id_in(#[trigger] cs@[j], login@, x)) by {
                                if other_id_in(cs@[k as int], login@, x) {
                                    assert(ids@.contains(x));
                                }
                            }
                        }
                        k += 1;
                    }
                    proof {
                        assert forall|x: u64| ids@.contains(x) <==>
                            (exists|j: int| 0 <= j < top_comments(n).len() && other_id_in(#[trigger] top_comments(n)[j], login@, x))
                            || (exists|a: int, j: int| 0 <= a < t + 1 && 0 <= j < ts.nodes@[a].comments.nodes@.len()
                                && other_id_in(#[trigger] ts.nodes@[a].comments.nodes@[j], login@, x)) by {
                            if exists|a: int, j: int| 0 <= a < t + 1 && 0 <= j < ts.nodes@[a].comments.nodes@.len()
                                && other_id_in(#[trigger] ts.nodes@[a].comments.nodes@[j], login@, x) {
                                let (a, j) = choose|a: int, j: int| 0 <= a < t + 1 && 0 <= j < ts.nodes@[a].comments.nodes@.len()
                                    && other_id_in(#[trigger] ts.nodes@[a].comments.nodes@[j], login@, x);
                                if a == t {
                                    assert(other_id_in(cs@[j], login@, x));
                                }
                            }
                        }
                    }
                    if !th.is_resolved {
                        insert_sorted_str(&mut unresolved, th.id.as_str());
                    }
                    proof {
                        assert forall|y: Seq<char>| views(unresolved@).to_set().contains(y) <==>
                            exists|a: int| 0 <= a < t + 1 && !(#[trigger] ts.nodes@[a]).is_resolved && ts.nodes@[a].id@ == y by {
                            if !ts.nodes@[t as int].is_resolved && ts.nodes@[t as int].id@ == y {
                                assert(views(unresolved@).to_set().contains(y));
                            }
                        }
                    }
                    t += 1;
                }
            },
            None => {},
        }
        proof {
            assert(ids@ =~= other_comment_ids(n, login@));
            assert(views(unresolved@).to_set() =~= unresolved_thread_ids(n));
        }
        let ordered = crate::ordered::ids_in_order(&ids);
        proof {
            lemma_ordered_u64_of(ordered@);
            lemma_ordered_strs_of(views(unresolved@));
        }
        let mut s = String::from_str("c:");
        let cpart = join_ids(&ordered);
        s.append(cpart.as_str());
        s.append(";u:");
        let upart = join_texts(&unresolved);
        s.append(upart.as_str());
        s
    }

    /// The `Authored` item, observed at `now`, carrying the activity
    /// fingerprint; `None` when the PR needs no attention.
    pub fn into_authored_item_at(self, account_id: &str, login: &str, now: String) -> (r: Option<ActionItem>)
        ensures
            r is Some <==> needs_attention_spec(self, login@),
            r matches Some(i) ==> {
                &&& i.activity matches Some(a) && a@ == authored_fingerprint_spec(self, login@)
                &&& pr_item((ActionItem { activity: None, ..i }), self, account_id@, ItemKind::Authored, now@)
            },
    {
        if !self.needs_attention(login) {
            return None;
        }
        let activity = self.authored_fingerprint(login);
        let mut item = self.into_action_item_at(account_id, ItemKind::Authored, now);
        item.activity = Some(activity);
        Some(item)
    }

    /// The `Authored` item carrying the activity fingerprint; `None` when the
    /// PR needs no attention.
    pub fn into_authored_item(self, account_id: &str, login: &str) -> (r: Option<ActionItem>)
        ensures
            r is Some <==> needs_attention_spec(self, login@),
            r matches Some(i) ==> {
                &&& i.activity matches Some(a) && a@ == authored_fingerprint_spec(self, login@)
                &&& pr_item_fields((ActionItem { activity: None, ..i }), self, account_id@, ItemKind::Authored)
            },
    {
        let now = now_rfc3339();
        self.into_authored_item_at(account_id, login, now)
    }
}

/// The subject of a notification.
#[derive(Debug, Clone, PartialEq, Eq)]
pub struct RawSubject {
    /// Title of the PR/issue/discussion.
    pub title: String,
    /// API URL of the subject; absent for some system notifications.
    pub url: Option<String>,
}

/// The repository of a notification.
#[derive(Debug, Clone, PartialEq, Eq)]
pub struct RawRepository {
    /// `"owner/name"`.
    pub full_name: String,
    /// Browser URL of the repository.
    pub html_url: String,
}

/// One entry of `GET /notifications`.
#[derive(Debug, Clone, PartialEq, Eq)]
pub struct RawNotification {
    /// Notification thread id.
    pub id: String,
    /// Why the user was notified (`review_requested`, `mention`, …).
    pub reason: String,
    /// RFC 3339 time of the last update.
    pub updated_at: String,
    /// What the notification is about.
    pub subject: RawSubject,
    /// Where it happened.
    pub repository: RawRepository,
}

/// The item kind for a notification `reason`.
pub open spec fn reason_kind(reason: Seq<char>) -> ItemKind {
    if reason == "review_requested"@ {
        ItemKind::ReviewRequested
    } else if reason == "mention"@ || reason == "team_mention"@ {
        ItemKind::Mentioned
    } else if reason == "assign"@ {
        ItemKind::Assigned
    } else if reason == "state_change"@ {
        ItemKind::ReviewStateChanged
    } else if reason == "ci_activity"@ {
        ItemKind::CiFailed
    } else {
        ItemKind::Participating
    }
}

/// Maps a GitHub notification `reason` to an [`ItemKind`]. `ci_activity`
/// fires for passes and failures alike; it is taken as a failure, the case
/// that matters, until the search's check rollup corrects it.
pub fn classify_reason(reason: &str) -> (k: ItemKind)
    ensures
        k == reason_kind(reason@),
{
    if str_eq(reason, "review_requested") {
        ItemKind::ReviewRequested
    } else if str_eq(reason, "mention") || str_eq(reason, "team_mention") {
        ItemKind::Mentioned
    } else if str_eq(reason, "assign") {
        ItemKind::Assigned
    } else if str_eq(reason, "state_change") {
        ItemKind::ReviewStateChanged
    } else if str_eq(reason, "ci_activity") {
        ItemKind::CiFailed
    } else {
        ItemKind::Participating
    }
}

/// Every field of the item built from a notification, except the two
/// observation times, which are equal to each other.
pub open spec fn notification_item_fields(i: ActionItem, n: RawNotification, account: Seq<char>) -> bool {
    &&& i.id@ == account + ":notif:"@ + n.id@
    &&& i.account_id@ == account
    &&& i.kind == reason_kind(n.reason@)
    &&& i.state == ItemState::Open
    &&& i.repo@ == n.repository.full_name@
    &&& i.number is None
    &&& i.title@ == n.subject.title@
    &&& i.url@ == (match n.subject.url {
        Some(u) => u@,
        None => n.repository.html_url@,
    })
    &&& i.author@ == Seq::<char>::empty()
    &&& i.created_at@ == n.updated_at@
    &&& i.updated_at@ == n.updated_at@
    &&& i.first_seen_at@ == i.last_seen_at@
    &&& i.ci_status == CiStatus::NoChecks
    &&& i.raw_kind@ == n.reason@
    &&& i.dismissed_updated_at is None
    &&& i.dismissed_at is None
    &&& i.dismissed_ci_status is None
    &&& i.activity is None
    &&& !i.archived
}

impl RawNotification {
    /// Normalizes this notification, first and last seen at `now`. Its
    /// link falls back to the repository page when the subject has none.
    pub fn into_action_item_at(self, account_id: &str, now: String) -> (i: ActionItem)
        ensures
            notification_item_fields(i, self, account_id@),
            i.first_seen_at@ == now@,
    {
        let kind = classify_reason(self.reason.as_str());
        let url = match self.subject.url {
            Some(u) => u,
            None => self.repository.html_url,
        };
        let mut id = String::from_str(account_id);
        id.append(":notif:");
        id.append(self.id.as_str());
        ActionItem {
            id,
            account_id: String::from_str(account_id),
            kind,
            state: ItemState::Open,
            repo: self.repository.full_name,
            number: None,
            title: self.subject.title,
            url,
            author: String::new(),
            created_at: self.updated_at.clone(),
            updated_at: self.updated_at,
            first_seen_at: now.clone(),
            last_seen_at: now,
            ci_status: CiStatus::NoChecks,
            raw_kind: self.reason,
            dismissed_updated_at: None,
            dismissed_at: None,
            dismissed_ci_status: None,
            activity: None,
            archived: false,
        }
    }

    /// Normalizes this notification, first and last seen now.
    pub fn into_action_item(self, account_id: &str) -> (i: ActionItem)
        ensures
            notification_item_fields(i, self, account_id@),
    {
        let now = now_rfc3339();
        self.into_action_item_at(account_id, now)
    }
}

/// The owner of a repository as `GET /user/repos` reports it.
#[derive(Debug, Clone, PartialEq, Eq)]
pub struct RawOwner {
    /// Owner login.
    pub login: String,
}

/// One entry of `GET /user/repos`.
#[derive(Debug, Clone, PartialEq, Eq)]
pub struct RawRepo {
    /// `"owner/name"`.
    pub full_name: String,
    /// Repository name.
    pub name: String,
    /// Browser URL.
    pub html_url: String,
    /// Description, if any.
    pub description: Option<String>,
    /// Whether the repository is private.
    pub private: bool,
    /// Default branch.
    pub default_branch: String,
    /// HTTPS clone URL.
    pub clone_url: String,
    /// Owner.
    pub owner: RawOwner,
}

/// A repository as discovery reports it.
#[derive(Debug, Clone, PartialEq, Eq)]
pub struct DiscoveredRepo {
    /// The owning organization or user login.
    pub owner: String,
    /// The repository name, without the owner.
    pub name: String,
    /// Browser URL.
    pub url: String,
    /// The repository's description, if it has one.
    pub description: Option<String>,
    /// Whether the repository is private.
    pub private: bool,
    /// The default branch name.
    pub default_branch: String,
    /// HTTPS clone URL, used by the clone engine.
    pub clone_url: String,
}

/// The owner and name of a repository: split at the first `/` of its full
/// name, or, when it has none, the owner login and the name field.
pub open spec fn repo_split(raw: RawRepo) -> (Seq<char>, Seq<char>) {
    let s = raw.full_name@;
    let p = first_index_of(s, '/');
    if p < s.len() {
        (s.subrange(0, p), s.subrange(p + 1, s.len() as int))
    } else {
        (raw.owner.login@, raw.name@)
    }
}

impl DiscoveredRepo {
    /// `"owner/name"`, the identifier the rest of the API uses.
    pub fn full_name(&self) -> (s: String)
        ensures
            s@ == self.owner@ + "/"@ + self.name@,
    {
        let mut s = self.owner.clone();
        s.append("/");
        s.append(self.name.as_str());
        s
    }

    /// The discovery record of a `/user/repos` entry.
    pub fn from_raw(raw: RawRepo) -> (d: DiscoveredRepo)
        ensures
            (d.owner@, d.name@) == repo_split(raw),
            d.url == raw.html_url,
            d.description == raw.description,
            d.private == raw.private,
            d.default_branch == raw.default_branch,
            d.clone_url == raw.clone_url,
    {
        let cs = crate::text::chars_of(raw.full_name.as_str());
        let p = find_char(raw.full_name.as_str(), '/');
        let (owner, name) = if p < cs.len() {
            (crate::lines::string_of(&cs, 0, p), crate::lines::string_of(&cs, p + 1, cs.len()))
        } else {
            (raw.owner.login, raw.name)
        };
        DiscoveredRepo {
            owner,
            name,
            url: raw.html_url,
            description: raw.description,
            private: raw.private,
            default_branch: raw.default_branch,
            clone_url: raw.clone_url,
        }
    }
}

/// Outcome of a conditional GET against `/notifications`.
#[derive(Debug, Clone, PartialEq, Eq)]
pub enum NotificationsPoll {
    /// `304`: nothing changed, and the request cost no quota.
    NotModified,
    /// Fresh data, the `ETag` to send next time, and GitHub's requested
    /// poll interval.
    Modified { items: Vec<ActionItem>, etag: Option<String>, poll_interval_secs: Option<u64> },
}

/// Where one search item comes from.
pub enum ItemSource {
    /// A node normalized as-is into an item of the kind.
    Plain(PrNode, ItemKind),
    /// An authored node that needs its owner.
    Authored(PrNode),
    /// A reviewed node with an unanswered reply.
    Reviewed(PrNode),
}

/// The sources of the items of nodes normalized as-is.
pub open spec fn plain_sources(nodes: Seq<PrNode>, kind: ItemKind) -> Seq<ItemSource> {
    Seq::new(nodes.len(), |i: int| ItemSource::Plain(nodes[i], kind))
}

/// The sources of the items of authored nodes: per node, a `ReadyToMerge`
/// item when ready, then an `Authored` item when it needs attention.
pub open spec fn authored_sources(nodes: Seq<PrNode>, login: Seq<char>) -> Seq<ItemSource>
    decreases nodes.len(),
{
    if nodes.len() == 0 {
        Seq::empty()
    } else {
        let n = nodes.last();
        let rest = authored_sources(nodes.drop_last(), login);
        let with_ready = if ready_to_merge(n) { rest.push(ItemSource::Plain(n, ItemKind::ReadyToMerge)) } else { rest };
        if needs_attention_spec(n, login) { with_ready.push(ItemSource::Authored(n)) } else { with_ready }
    }
}

/// The sources of the items of reviewed nodes: those with an unanswered
/// reply.
pub open spec fn reviewed_sources(nodes: Seq<PrNode>, login: Seq<char>) -> Seq<ItemSource>
    decreases nodes.len(),
{
    if nodes.len() == 0 {
        Seq::empty()
    } else {
        let n = nodes.last();
        let rest = reviewed_sources(nodes.drop_last(), login);
        if latest_unanswered_reply_spec(n, login) is Some { rest.push(ItemSource::Reviewed(n)) } else { rest }
    }
}

/// An item is the one its source yields.
pub open spec fn item_from_source(i: ActionItem, src: ItemSource, account: Seq<char>, login: Seq<char>, now: Seq<char>) -> bool {
    match src {
        ItemSource::Plain(n, k) => pr_item(i, n, account, k, now),
        ItemSource::Authored(n) => {
            &&& i.activity matches Some(a) && a@ == authored_fingerprint_spec(n, login)
            &&& pr_item((ActionItem { activity: None, ..i }), n, account, ItemKind::Authored, now)
        },
        ItemSource::Reviewed(n) => {
            &&& i.updated_at@ == latest_unanswered_reply_spec(n, login)->0
            &&& pr_item((ActionItem { updated_at: n.updated_at, ..i }), n, account, ItemKind::ReviewedByMe, now)
        },
    }
}

/// Items match their sources one for one.
pub open spec fn items_from(items: Seq<ActionItem>, srcs: Seq<ItemSource>, account: Seq<char>, login: Seq<char>, now: Seq<char>) -> bool {
    &&& items.len() == srcs.len()
    &&& forall|k: int| 0 <= k < items.len() ==> item_from_source(#[trigger] items[k], srcs[k], account, login, now)
}

/// The keys of a search result set.
pub open spec fn node_key_in(nodes: Seq<PrNode>, repo: Seq<char>, number: u64) -> bool {
    exists|k: int| 0 <= k < nodes.len() && (#[trigger] nodes[k]).repository.name_with_owner@ == repo && nodes[k].number == number
}

/// The poller query's outcome: the items to diff, and the `(repo, number)`
/// keys of every PR of the review-requested and reviewed-by-me searches
/// (each key once).
#[derive(Debug, Clone, Default, PartialEq, Eq)]
pub struct SearchSnapshot {
    /// Items to feed into the diff.
    pub items: Vec<ActionItem>,
    /// Every PR of the `review-requested:@me` search.
    pub review_requested_keys: Vec<(String, u64)>,
    /// Every PR of the `reviewed-by:@me` search.
    pub reviewed_by_me_keys: Vec<(String, u64)>,
}

/// The keys hold exactly the PRs of `nodes`, each once.
pub open spec fn keys_of(keys: Seq<(String, u64)>, nodes: Seq<PrNode>) -> bool {
    &&& forall|r: Seq<char>, n: u64| crate::poller::has_key(keys, r, n) <==> node_key_in(nodes, r, n)
    &&& forall|a: int, b: int| 0 <= a < b < keys.len() ==> !((#[trigger] keys[a]).0@ == (#[trigger] keys[b]).0@ && keys[a].1 == keys[b].1)
}

/// Adds the key of `node` unless present.
fn add_key(keys: &mut Vec<(String, u64)>, node: &PrNode)
    ensures
        forall|r: Seq<char>, n: u64| crate::poller::has_key(final(keys)@, r, n) <==>
            (crate::poller::has_key(old(keys)@, r, n) || (node.repository.name_with_owner@ == r && node.number == n)),
        (forall|a: int, b: int| 0 <= a < b < old(keys)@.len() ==> !((#[trigger] old(keys)@[a]).0@ == (#[trigger] old(keys)@[b]).0@ && old(keys)@[a].1 == old(keys)@[b].1))
            ==> (forall|a: int, b: int| 0 <= a < b < final(keys)@.len() ==> !((#[trigger] final(keys)@[a]).0@ == (#[trigger] final(keys)@[b]).0@ && final(keys)@[a].1 == final(keys)@[b].1)),
{
    let mut k: usize = 0;
    while k < keys.len()
        invariant
            k <= keys@.len(),
            forall|j: int| 0 <= j < k ==> !((#[trigger] keys@[j]).0@ == node.repository.name_with_owner@ && keys@[j].1 == node.number),
        decreases keys.len() - k,
    {
        if keys[k].1 == node.number && keys[k].0 == node.repository.name_with_owner {
            return;
        }
        k += 1;
    }
    let ghost before = keys@;
    keys.push((node.repository.name_with_owner.clone(), node.number));
    assert forall|r: Seq<char>, n: u64| crate::poller::has_key(keys@, r, n) <==>
        (crate::poller::has_key(before, r, n) || (node.repository.name_with_owner@ == r && node.number == n)) by {
        if crate::poller::has_key(keys@, r, n) {
            let j = choose|j: int| 0 <= j < keys@.len() && (#[trigger] keys@[j]).0@ == r && keys@[j].1 == n;
            if j < before.len() {
                assert(before[j] == keys@[j]);
            }
        }
        if crate::poller::has_key(before, r, n) {
            let j = choose|j: int| 0 <= j < before.len() && (#[trigger] before[j]).0@ == r && before[j].1 == n;
            assert(keys@[j] == before[j]);
        }
        if node.repository.name_with_owner@ == r && node.number == n {
            assert(keys@[before.len() as int].0@ == r);
        }
    }
}

/// The snapshot of the poller's search, observed at `now`: review-requested
/// and assigned PRs as items of their kind; authored PRs as `ReadyToMerge`
/// and/or `Authored` items when they qualify; reviewed PRs as `ReviewedByMe`
/// items while a reply is unanswered. The key sets list every PR of the
/// review-requested and reviewed-by-me searches, item or not.
pub fn build_search_snapshot_at(
    review_requested: Vec<PrNode>,
    assigned: Vec<PrNode>,
    authored: Vec<PrNode>,
    reviewed_by_me: Vec<PrNode>,
    account_id: &str,
    login: &str,
    now: String,
) -> (s: SearchSnapshot)
    ensures
        items_from(s.items@, plain_sources(review_requested@, ItemKind::ReviewRequested)
            + plain_sources(assigned@, ItemKind::Assigned) + authored_sources(authored@, login@)
            + reviewed_sources(reviewed_by_me@, login@), account_id@, login@, now@),
        keys_of(s.review_requested_keys@, review_requested@),
        keys_of(s.reviewed_by_me_keys@, reviewed_by_me@),
{
    let mut items: Vec<ActionItem> = Vec::new();
    let mut rr_keys: Vec<(String, u64)> = Vec::new();
    let mut k: usize = 0;
    while k < review_requested.len()
        invariant
            k <= review_requested@.len(),
            items_from(items@, plain_sources(review_requested@.subrange(0, k as int), ItemKind::ReviewRequested), account_id@, login@, now@),
            forall|r: Seq<char>, n: u64| crate::poller::has_key(rr_keys@, r, n) <==> node_key_in(review_requested@.subrange(0, k as int), r, n),
            forall|a: int, b: int| 0 <= a < b < rr_keys@.len() ==> !((#[trigger] rr_keys@[a]).0@ == (#[trigger] rr_keys@[b]).0@ && rr_keys@[a].1 == rr_keys@[b].1),
        decreases review_requested.len() - k,
    {
        let node = &review_requested[k];
        add_key(&mut rr_keys, node);
        items.push(node.item_at(account_id, ItemKind::ReviewRequested, &now));
        proof {
            let sub = review_requested@.subrange(0, k + 1);
            assert(plain_sources(sub, ItemKind::ReviewRequested) =~= plain_sources(review_requested@.subrange(0, k as int), ItemKind::ReviewRequested).push(ItemSource::Plain(review_requested@[k as int], ItemKind::ReviewRequested)));
            assert forall|r: Seq<char>, n: u64| node_key_in(sub, r, n) <==> (node_key_in(review_requested@.subrange(0, k as int), r, n)
                || (review_requested@[k as int].repository.name_with_owner@ == r && review_requested@[k as int].number == n)) by {
                if node_key_in(sub, r, n) {
                    let j = choose|j: int| 0 <= j < sub.len() && (#[trigger] sub[j]).repository.name_with_owner@ == r && sub[j].number == n;
                    if j < k {
                        assert(review_requested@.subrange(0, k as int)[j] == sub[j]);
                    }
                }
                if node_key_in(review_requested@.subrange(0, k as int), r, n) {
                    let j = choose|j: int| 0 <= j < k && (#[trigger] review_requested@.subrange(0, k as int)[j]).repository.name_with_owner@ == r
                        && review_requested@.subrange(0, k as int)[j].number == n;
                    assert(sub[j] == review_requested@.subrange(0, k as int)[j]);
                }
                if review_requested@[k as int].repository.name_with_owner@ == r && review_requested@[k as int].number == n {
                    assert(sub[k as int] == review_requested@[k as int]);
                }
            }
        }
        k += 1;
    }
    assert(review_requested@.subrange(0, review_requested@.len() as int) =~= review_requested@);
    let ghost part1 = items@;
    let mut k: usize = 0;
    while k < assigned.len()
        invariant
            k <= assigned@.len(),
            items@.len() >= part1.len(),
            items@.subrange(0, part1.len() as int) == part1,
            items_from(items@.subrange(part1.len() as int, items@.len() as int), plain_sources(assigned@.subrange(0, k as int), ItemKind::Assigned), account_id@, login@, now@),
        decreases assigned.len() - k,
    {
        let ghost before = items@;
        items.push(assigned[k].item_at(account_id, ItemKind::Assigned, &now));
        proof {
            assert(items@.subrange(0, part1.len() as int) =~= before.subrange(0, part1.len() as int));
            assert(items@.subrange(part1.len() as int, items@.len() as int) =~= before.subrange(part1.len() as int, before.len() as int).push(items@.last()));
            assert(plain_sources(assigned@.subrange(0, k + 1), ItemKind::Assigned) =~= plain_sources(assigned@.subrange(0, k as int), ItemKind::Assigned).push(ItemSource::Plain(assigned@[k as int], ItemKind::Assigned)));
        }
        k += 1;
    }
    assert(assigned@.subrange(0, assigned@.len() as int) =~= assigned@);
    let ghost part2 = items@;
    let mut k: usize = 0;
    assert(authored@.subrange(0, 0) =~= Seq::<PrNode>::empty());
    assert(part2.subrange(part2.len() as int, part2.len() as int) =~= Seq::<ActionItem>::empty());
    while k < authored.len()
        invariant
            k <= authored@.len(),
            items@.len() >= part2.len(),
            items@.subrange(0, part2.len() as int) == part2,
            items_from(items@.subrange(part2.len() as int, items@.len() as int), authored_sources(authored@.subrange(0, k as int), login@), account_id@, login@, now@),
        decreases authored.len() - k,
    {
        let node = &authored[k];
        let ghost n = authored@[k as int];
        assert(authored@.subrange(0, k + 1).drop_last() =~= authored@.subrange(0, k as int));
        let ghost srcs0 = authored_sources(authored@.subrange(0, k as int), login@);
        let ghost before = items@;
        let ghost mid_srcs = if ready_to_merge(n) { srcs0.push(ItemSource::Plain(n, ItemKind::ReadyToMerge)) } else { srcs0 };
        if node.is_ready_to_merge() {
            items.push(node.item_at(account_id, ItemKind::ReadyToMerge, &now));
            proof {
                assert(items@.subrange(0, part2.len() as int) =~= before.subrange(0, part2.len() as int));
                assert(items@.subrange(part2.len() as int, items@.len() as int) =~= before.subrange(part2.len() as int, before.len() as int).push(items@.last()));
            }
        }
        let ghost mid = items@;
        if node.needs_attention(login) {
            let activity = node.authored_fingerprint(login);
            let mut item = node.item_at(account_id, ItemKind::Authored, &now);
            item.activity = Some(activity);
            items.push(item);
            proof {
                assert(items@.subrange(0, part2.len() as int) =~= mid.subrange(0, part2.len() as int));
                assert(items@.subrange(part2.len() as int, items@.len() as int) =~= mid.subrange(part2.len() as int, mid.len() as int).push(items@.last()));
            }
        }
        k += 1;
    }
    assert(authored@.subrange(0, authored@.len() as int) =~= authored@);
    let ghost part3 = items@;
    let mut rv_keys: Vec<(String, u64)> = Vec::new();
    let mut k: usize = 0;
    assert(reviewed_by_me@.subrange(0, 0) =~= Seq::<PrNode>::empty());
    assert(part3.subrange(part3.len() as int, part3.len() as int) =~= Seq::<ActionItem>::empty());
    while k < reviewed_by_me.len()
        invariant
            k <= reviewed_by_me@.len(),
            items@.len() >= part3.len(),
            items@.subrange(0, part3.len() as int) == part3,
            items_from(items@.subrange(part3.len() as int, items@.len() as int), reviewed_sources(reviewed_by_me@.subrange(0, k as int), login@), account_id@, login@, now@),
            forall|r: Seq<char>, n: u64| crate::poller::has_key(rv_keys@, r, n) <==> node_key_in(reviewed_by_me@.subrange(0, k as int), r, n),
            forall|a: int, b: int| 0 <= a < b < rv_keys@.len() ==> !((#[trigger] rv_keys@[a]).0@ == (#[trigger] rv_keys@[b]).0@ && rv_keys@[a].1 == rv_keys@[b].1),
        decreases reviewed_by_me.len() - k,
    {
        let node = &reviewed_by_me[k];
        assert(reviewed_by_me@.subrange(0, k + 1).drop_last() =~= reviewed_by_me@.subrange(0, k as int));
        add_key(&mut rv_keys, node);
        let ghost before = items@;
        match node.latest_unanswered_reply(login) {
            Some(u) => {
                let mut item = node.item_at(account_id, ItemKind::ReviewedByMe, &now);
                item.updated_at = u;
                items.push(item);
                proof {
                    assert(items@.subrange(0, part3.len() as int) =~= before.subrange(0, part3.len() as int));
                    assert(items@.subrange(part3.len() as int, items@.len() as int) =~= before.subrange(part3.len() as int, before.len() as int).push(items@.last()));
                }
            },
            None => {},
        }
        proof {
            let sub = reviewed_by_me@.subrange(0, k + 1);
            assert forall|r: Seq<char>, n: u64| node_key_in(sub, r, n) <==> (node_key_in(reviewed_by_me@.subrange(0, k as int), r, n)
                || (reviewed_by_me@[k as int].repository.name_with_owner@ == r && reviewed_by_me@[k as int].number == n)) by {
                if node_key_in(sub, r, n) {
                    let j = choose|j: int| 0 <= j < sub.len() && (#[trigger] sub[j]).repository.name_with_owner@ == r && sub[j].number == n;
                    if j < k {
                        assert(reviewed_by_me@.subrange(0, k as int)[j] == sub[j]);
                    }
                }
                if node_key_in(reviewed_by_me@.subrange(0, k as int), r, n) {
                    let j = choose|j: int| 0 <= j < k && (#[trigger] reviewed_by_me@.subrange(0, k as int)[j]).repository.name_with_owner@ == r
                        && reviewed_by_me@.subrange(0, k as int)[j].number == n;
                    assert(sub[j] == reviewed_by_me@.subrange(0, k as int)[j]);
                }
                if reviewed_by_me@[k as int].repository.name_with_owner@ == r && reviewed_by_me@[k as int].number == n {
                    assert(sub[k as int] == reviewed_by_me@[k as int]);
                }
            }
        }
        k += 1;
    }
    assert(reviewed_by_me@.subrange(0, reviewed_by_me@.len() as int) =~= reviewed_by_me@);
    proof {
        let s1 = plain_sources(review_requested@, ItemKind::ReviewRequested);
        let s2 = plain_sources(assigned@, ItemKind::Assigned);
        let s3 = authored_sources(authored@, login@);
        let s4 = reviewed_sources(reviewed_by_me@, login@);
        let all = s1 + s2 + s3 + s4;
        assert(part1.len() == s1.len());
        assert(part2.len() == part1.len() + s2.len()) by {
            assert(part2.subrange(part1.len() as int, part2.len() as int).len() == s2.len());
        }
        assert(part3.len() == part2.len() + s3.len()) by {
            assert(part3.subrange(part2.len() as int, part3.len() as int).len() == s3.len());
        }
        assert(items@.len() == part3.len() + s4.len()) by {
            assert(items@.subrange(part3.len() as int, items@.len() as int).len() == s4.len());
        }
        assert forall|q: int| 0 <= q < items@.len() implies item_from_source(#[trigger] items@[q], all[q], account_id@, login@, now@) by {
            if q < part1.len() {
                assert(items@[q] == part1[q]);
                assert(all[q] == s1[q]);
            } else if q < part2.len() {
                assert(items@[q] == part2[q]);
                assert(part2[q] == part2.subrange(part1.len() as int, part2.len() as int)[q - part1.len()]);
                assert(all[q] == s2[q - part1.len()]);
            } else if q < part3.len() {
                assert(items@[q] == part3[q]);
                assert(part3[q] == part3.subrange(part2.len() as int, part3.len() as int)[q - part2.len()]);
                assert(all[q] == s3[q - part2.len()]);
            } else {
                assert(items@[q] == items@.subrange(part3.len() as int, items@.len() as int)[q - part3.len()]);
                assert(all[q] == s4[q - part3.len()]);
            }
        }
    }
    SearchSnapshot { items, review_requested_keys: rr_keys, reviewed_by_me_keys: rv_keys }
}

/// Whether `c` was written by `login`.
fn comment_by(c: &PrCommentNode, login: &str) -> (b: bool)
    ensures
        b == by_login(*c, login@),
{
    match &c.author {
        Some(a) => str_eq(a.login.as_str(), login),
        None => false,
    }
}

} // verus!
