//! Repository catalog, clone-job and worktree types served to the UI, the
//! daemon's configuration, and the naming rules for user worktrees.

use vstd::prelude::*;
use crate::api::ApiError;
use crate::priority::{Rule, default_rules};
use crate::severity::Severity;
use crate::text::{chars_of, split_on, split_char};
use crate::conflict::views;

verus! {

/// A repository known to the daemon's catalog, keyed by
/// `(account_id, full_name)`.
#[derive(Debug, Clone, PartialEq, Eq)]
pub struct Repository {
    /// The account it was discovered under; `None` for legacy imports.
    pub account_id: Option<String>,
    /// `github.com` or an Enterprise host.
    pub host: String,
    /// Owning organization or user login.
    pub owner: String,
    /// Repository name, without the owner.
    pub name: String,
    /// `"owner/name"`.
    pub full_name: String,
    /// Browser URL.
    pub url: String,
    /// Description, if any.
    pub description: Option<String>,
    /// Whether it is private.
    pub private: bool,
    /// Default branch.
    pub default_branch: String,
    /// HTTPS clone URL.
    pub clone_url: String,
    /// Registered local clone, once tracked.
    pub clone_path: Option<String>,
    /// Whether a local clone is registered.
    pub is_tracked: bool,
    /// Whether the repo's items feed notifications and the PR view.
    pub notify_enabled: bool,
    /// When the daemon first saw it.
    pub first_seen_at: String,
    /// When the user acknowledged it as new.
    pub notified_at: Option<String>,
    /// When discovery last refreshed it.
    pub last_refreshed_at: String,
}

/// One organization (or owner login) discovered for an account.
#[derive(Debug, Clone, PartialEq, Eq)]
pub struct OrgRef {
    /// The account.
    pub account_id: String,
    /// The account's host.
    pub host: String,
    /// Organization or owner login.
    pub name: String,
}

/// Everything the Repositories pane renders.
#[derive(Debug, Clone, PartialEq, Eq)]
pub struct RepoCatalog {
    /// Distinct organizations per account.
    pub orgs: Vec<OrgRef>,
    /// Every discovered repository.
    pub repos: Vec<Repository>,
}

/// Which phase a clone job is in.
#[derive(Debug, Clone, Copy, PartialEq, Eq, Structural)]
pub enum CloneState {
    /// Fetching.
    Running,
    /// Finished; the repo is tracked.
    Done,
    /// Failed; the status carries the reason.
    Failed,
}

/// One registered worktree.
#[derive(Debug, Clone, PartialEq, Eq)]
pub struct WorktreeInfo {
    /// Registered name.
    pub name: String,
    /// Absolute path of its working directory.
    pub path: String,
    /// Checked-out branch, or `(detached)`.
    pub branch: String,
    /// Short commit id of its HEAD.
    pub head: String,
}

/// A repo's worktrees and the branches a new one can start from.
#[derive(Debug, Clone, PartialEq, Eq)]
pub struct WorktreesResult {
    /// User-created worktrees, in registration order.
    pub worktrees: Vec<WorktreeInfo>,
    /// Branch short names a new worktree can check out.
    pub branches: Vec<String>,
}

/// Status of one background clone job.
#[derive(Debug, Clone, PartialEq, Eq)]
pub struct CloneStatus {
    /// The job id.
    pub job_id: String,
    /// Which phase it is in.
    pub status: CloneState,
    /// Bytes received so far.
    pub received: u64,
    /// Bytes expected; 0 while unknown.
    pub total: u64,
    /// The tracked repository, once done.
    pub repo: Option<Repository>,
    /// Failure detail, once failed.
    pub error: Option<String>,
}

/// What `status` reports about the daemon.
#[derive(Debug, Clone, PartialEq, Eq)]
pub struct StatusResult {
    /// Daemon version.
    pub version: String,
    /// Seconds since start.
    pub uptime_secs: u64,
    /// Configured accounts.
    pub account_count: usize,
    /// Open items across all accounts.
    pub open_item_count: usize,
    /// The most urgent band among the open items.
    pub top_severity: Severity,
}

/// One configured local clone path.
#[derive(Debug, Clone, PartialEq, Eq)]
pub struct RepoConfig {
    /// `"owner/name"`.
    pub repo: String,
    /// Absolute path to a local clone, kept as given.
    pub path: String,
}

/// Default polling interval, in seconds.
pub const DEFAULT_POLL_INTERVAL_SECS: u64 = 60;

/// The default polling interval.
pub fn default_poll_interval() -> (n: u64)
    ensures
        n == DEFAULT_POLL_INTERVAL_SECS,
{
    DEFAULT_POLL_INTERVAL_SECS
}

/// The daemon configuration.
#[derive(Debug, Clone)]
pub struct Config {
    /// How often to poll each account, in seconds.
    pub poll_interval_secs: u64,
    /// Priority rules.
    pub rules: Vec<Rule>,
    /// Local clone paths used by the conflict resolver.
    pub repos: Vec<RepoConfig>,
}

impl Default for Config {
    /// The configuration of a first run: the default interval, the shipped
    /// rules, no clones.
    fn default() -> (c: Config)
        ensures
            c.poll_interval_secs == DEFAULT_POLL_INTERVAL_SECS,
            c.rules@.len() == 1,
            c.rules@[0].id@ == "mute-participating"@,
            c.repos@.len() == 0,
    {
        Config { poll_interval_secs: default_poll_interval(), rules: default_rules(), repos: Vec::new() }
    }
}

/// Characters a worktree name keeps; anything else becomes `-`.
pub open spec fn name_char(c: char) -> char {
    if ('a' <= c && c <= 'z') || ('A' <= c && c <= 'Z') || ('0' <= c && c <= '9') || c == '-' || c == '_'
        || c == '.' {
        c
    } else {
        '-'
    }
}

/// The pieces of a split path that are components: not empty, not `.`.
pub open spec fn path_components(parts: Seq<Seq<char>>) -> Seq<Seq<char>>
    decreases parts.len(),
{
    if parts.len() == 0 {
        Seq::empty()
    } else {
        let rest = path_components(parts.drop_last());
        let p = parts.last();
        if p.len() > 0 && p != "."@ {
            rest.push(p)
        } else {
            rest
        }
    }
}

/// The last component of a unix path, as `Path::file_name` gives it: empty
/// and `.` components are skipped, and a path ending in `..` (or with no
/// component) has none.
pub open spec fn file_name_spec(path: Seq<char>) -> Option<Seq<char>> {
    let parts = path_components(split_on(path, '/'));
    if parts.len() == 0 || parts.last() == ".."@ {
        None
    } else {
        Some(parts.last())
    }
}

/// Index past the leading `-` run of `s`, from `i`.
pub open spec fn dash_lo(s: Seq<char>, i: int) -> int
    decreases s.len() - i,
{
    if 0 <= i < s.len() && s[i] == '-' {
        dash_lo(s, i + 1)
    } else {
        i
    }
}

/// Index of the end of `s[lo..j]` without its trailing `-` run.
pub open spec fn dash_hi(s: Seq<char>, lo: int, j: int) -> int
    decreases j - lo,
{
    if j > lo && s[j - 1] == '-' {
        dash_hi(s, lo, j - 1)
    } else {
        j
    }
}

/// `s` without leading and trailing `-` (`trim_matches('-')`).
pub open spec fn trim_dashes(s: Seq<char>) -> Seq<char> {
    let lo = dash_lo(s, 0);
    s.subrange(lo, dash_hi(s, lo, s.len() as int))
}

/// The worktree name for a target path: its last component with every
/// character outside `[A-Za-z0-9._-]` replaced by `-`, then trimmed of `-`.
pub open spec fn worktree_name_of(path: Seq<char>) -> Option<Seq<char>> {
    match file_name_spec(path) {
        None => None,
        Some(base) => Some(trim_dashes(base.map_values(|c: char| name_char(c)))),
    }
}

/// A git-safe worktree name from the target path's last component, like the
/// git CLI's name-from-path convention (unix paths).
pub fn worktree_name_from_path(path: &str) -> (r: Result<String, ApiError>)
    ensures
        match worktree_name_of(path@) {
            None => r matches Err(ApiError::Config(s)) && s@ == "the worktree path has no usable file name"@,
            Some(n) => if n.len() == 0 {
                r matches Err(ApiError::Config(s)) && s@ == "the worktree path must end in a non-empty directory name"@
            } else {
                r matches Ok(name) && name@ == n
            },
        },
{
    let parts = split_char(path, '/');
    let ghost ps = views(parts@);
    let mut last: Option<usize> = None;
    let mut k: usize = 0;
    assert(path_components(ps.subrange(0, 0)) =~= Seq::<Seq<char>>::empty());
    while k < parts.len()
        invariant
            ps == views(parts@),
            ps == split_on(path@, '/'),
            k <= parts@.len(),
            match last {
                None => path_components(ps.subrange(0, k as int)).len() == 0,
                Some(j) => j < k && path_components(ps.subrange(0, k as int)).len() > 0
                    && path_components(ps.subrange(0, k as int)).last() == ps[j as int],
            },
        decreases parts.len() - k,
    {
        assert(ps.subrange(0, k + 1).drop_last() =~= ps.subrange(0, k as int));
        assert(ps[k as int] == parts@[k as int]@);
        let p = parts[k].as_str();
        if !p.is_empty() && !crate::text::str_eq(p, ".") {
            last = Some(k);
        }
        k += 1;
    }
    assert(ps.subrange(0, ps.len() as int) =~= ps);
    let j = match last {
        None => return Err(ApiError::Config(String::from_str("the worktree path has no usable file name"))),
        Some(j) => j,
    };
    assert(ps[j as int] == parts@[j as int]@);
    if crate::text::str_eq(parts[j].as_str(), "..") {
        return Err(ApiError::Config(String::from_str("the worktree path has no usable file name")));
    }
    let cs = chars_of(parts[j].as_str());
    let mut mapped: Vec<char> = Vec::new();
    let mut i: usize = 0;
    while i < cs.len()
        invariant
            i <= cs@.len(),
            mapped@ == cs@.subrange(0, i as int).map_values(|c: char| name_char(c)),
        decreases cs.len() - i,
    {
        let c = cs[i];
        let m = if ('a' <= c && c <= 'z') || ('A' <= c && c <= 'Z') || ('0' <= c && c <= '9') || c == '-'
            || c == '_' || c == '.' {
            c
        } else {
            '-'
        };
        mapped.push(m);
        assert(cs@.subrange(0, i + 1).map_values(|c: char| name_char(c))
            =~= cs@.subrange(0, i as int).map_values(|c: char| name_char(c)).push(m));
        i += 1;
    }
    assert(cs@.subrange(0, cs@.len() as int) =~= cs@);
    let n = mapped.len();
    let mut lo: usize = 0;
    while lo < n && mapped[lo] == '-'
        invariant
            n == mapped@.len(),
            lo <= n,
            dash_lo(mapped@, 0) == dash_lo(mapped@, lo as int),
        decreases n - lo,
    {
        lo += 1;
    }
    let mut hi: usize = n;
    while hi > lo && mapped[hi - 1] == '-'
        invariant
            n == mapped@.len(),
            lo <= hi <= n,
            dash_lo(mapped@, 0) == lo,
            dash_hi(mapped@, lo as int, n as int) == dash_hi(mapped@, lo as int, hi as int),
        decreases hi - lo,
    {
        hi -= 1;
    }
    if hi == lo {
        return Err(ApiError::Config(String::from_str("the worktree path must end in a non-empty directory name")));
    }
    Ok(crate::lines::string_of(&mapped, lo, hi))
}

/// Checks a typed branch name: trimmed, it must not be empty.
pub fn check_branch(branch: &str) -> (r: Result<String, ApiError>)
    ensures
        crate::parse::trim(branch@).len() == 0 ==> (r matches Err(e) && crate::api::invalid(e, "a branch name is required"@)),
        crate::parse::trim(branch@).len() > 0 ==> (r matches Ok(b) && b@ == crate::parse::trim(branch@)),
{
    let b = crate::text::trim_text(branch);
    if b.as_str().is_empty() {
        return Err(ApiError::InvalidParams(String::from_str("a branch name is required")));
    }
    Ok(b)
}

/// The phase a stored clone-job status names; anything but `done` and
/// `failed` reads as still running.
pub open spec fn clone_state_spec(status: Seq<char>) -> CloneState {
    if status == "done"@ {
        CloneState::Done
    } else if status == "failed"@ {
        CloneState::Failed
    } else {
        CloneState::Running
    }
}

/// Reads a stored clone-job status.
pub fn clone_state_of(status: &str) -> (c: CloneState)
    ensures
        c == clone_state_spec(status@),
{
    if crate::text::str_eq(status, "done") {
        CloneState::Done
    } else if crate::text::str_eq(status, "failed") {
        CloneState::Failed
    } else {
        CloneState::Running
    }
}

/// `owner` and `name` of a slug, split at its first `/`; without one, the
/// whole slug is the owner and the name is empty.
pub open spec fn slug_parts(full_name: Seq<char>) -> (Seq<char>, Seq<char>) {
    let p = crate::text::first_index_of(full_name, '/');
    if p < full_name.len() {
        (full_name.subrange(0, p), full_name.subrange(p + 1, full_name.len() as int))
    } else {
        (full_name, Seq::empty())
    }
}

/// The catalog row a legacy `[[repos]]` entry becomes: tracked at `path`,
/// already acknowledged, with GitHub URLs and branch as placeholders that
/// the next discovery refresh replaces.
pub open spec fn legacy_row_ok(r: Repository, full_name: Seq<char>, path: Seq<char>, account_id: Option<String>, now: Seq<char>) -> bool {
    &&& r.account_id == account_id
    &&& r.host@ == "github.com"@
    &&& r.owner@ == slug_parts(full_name).0
    &&& r.name@ == slug_parts(full_name).1
    &&& r.full_name@ == full_name
    &&& r.url@ == "https://github.com/"@ + full_name
    &&& r.description is None
    &&& !r.private
    &&& r.default_branch@ == "main"@
    &&& r.clone_url@ == "https://github.com/"@ + full_name + ".git"@
    &&& r.clone_path matches Some(c) && c@ == path
    &&& r.is_tracked
    &&& r.notify_enabled
    &&& r.first_seen_at@ == now
    &&& r.notified_at matches Some(n) && n@ == now
    &&& r.last_refreshed_at@ == now
}

/// The catalog row imported for a legacy `(full_name, path)` entry.
pub fn legacy_repository(full_name: &str, path: &str, account_id: Option<String>, now: &str) -> (r: Repository)
    ensures
        legacy_row_ok(r, full_name@, path@, account_id, now@),
{
    let cs = chars_of(full_name);
    let p = crate::text::find_char(full_name, '/');
    let (owner, name) = if p < cs.len() {
        (crate::lines::string_of(&cs, 0, p), crate::lines::string_of(&cs, p + 1, cs.len()))
    } else {
        (String::from_str(full_name), String::new())
    };
    let mut url = String::from_str("https://github.com/");
    url.append(full_name);
    let mut clone_url = url.clone();
    clone_url.append(".git");
    Repository {
        account_id,
        host: String::from_str("github.com"),
        owner,
        name,
        full_name: String::from_str(full_name),
        url,
        description: None,
        private: false,
        default_branch: String::from_str("main"),
        clone_url,
        clone_path: Some(String::from_str(path)),
        is_tracked: true,
        notify_enabled: true,
        first_seen_at: String::from_str(now),
        notified_at: Some(String::from_str(now)),
        last_refreshed_at: String::from_str(now),
    }
}

/// The account legacy rows are attributed to: the only configured one, or
/// none when there are several (or none).
pub fn legacy_account(account_ids: &[String]) -> (a: Option<String>)
    ensures
        account_ids@.len() == 1 ==> a == Some(account_ids@[0]),
        account_ids@.len() != 1 ==> a is None,
{
    if account_ids.len() == 1 {
        Some(account_ids[0].clone())
    } else {
        None
    }
}

} // verus!
