//! The daemon's start-up decisions: which subcommand was asked for, which
//! clones to sweep for orphaned conflict worktrees, whether a discovery pass
//! can afford the rate limit, which schema columns still need adding, and
//! whether a clone's `origin` points at the repository it is registered for.

use vstd::prelude::*;
use crate::api::ApiError;
use crate::repo::Repository;
use crate::text::{str_eq, contains_text};

verus! {

/// What the daemon binary was asked to do.
#[derive(Debug, Clone, PartialEq, Eq)]
pub enum CliCommand {
    /// `--foreground` or `run`: serve in this process.
    Run,
    /// `install`: start at login.
    Install,
    /// `uninstall`: stop starting at login.
    Uninstall,
    /// `status`: report registration and health.
    Status,
    /// `--help`, `-h` or `help`.
    Help,
    /// Anything else (empty when no argument was given).
    Unknown(String),
}

/// The subcommand an argument names.
pub open spec fn cli_command_spec(arg: Seq<char>) -> Option<CliCommand> {
    if arg == "--foreground"@ || arg == "run"@ {
        Some(CliCommand::Run)
    } else if arg == "install"@ {
        Some(CliCommand::Install)
    } else if arg == "uninstall"@ {
        Some(CliCommand::Uninstall)
    } else if arg == "status"@ {
        Some(CliCommand::Status)
    } else if arg == "--help"@ || arg == "-h"@ || arg == "help"@ {
        Some(CliCommand::Help)
    } else {
        None
    }
}

/// Parses the daemon's one positional argument.
pub fn cli_command(arg: &str) -> (c: CliCommand)
    ensures
        match cli_command_spec(arg@) {
            Some(known) => c == known,
            None => c matches CliCommand::Unknown(s) && s@ == arg@,
        },
{
    if str_eq(arg, "--foreground") || str_eq(arg, "run") {
        CliCommand::Run
    } else if str_eq(arg, "install") {
        CliCommand::Install
    } else if str_eq(arg, "uninstall") {
        CliCommand::Uninstall
    } else if str_eq(arg, "status") {
        CliCommand::Status
    } else if str_eq(arg, "--help") || str_eq(arg, "-h") || str_eq(arg, "help") {
        CliCommand::Help
    } else {
        CliCommand::Unknown(String::from_str(arg))
    }
}

/// The clone paths of the tracked catalog rows, in catalog order.
pub open spec fn prune_targets_spec(repos: Seq<Repository>) -> Seq<Seq<char>>
    decreases repos.len(),
{
    if repos.len() == 0 {
        Seq::empty()
    } else {
        let rest = prune_targets_spec(repos.drop_last());
        let r = repos.last();
        if r.is_tracked && r.clone_path is Some {
            rest.push(r.clone_path->0@)
        } else {
            rest
        }
    }
}

/// The clones to sweep for worktrees a previous run left behind: every
/// tracked repository's clone path.
pub fn prune_targets(repos: &[Repository]) -> (out: Vec<String>)
    ensures
        crate::conflict::views(out@) == prune_targets_spec(repos@),
{
    let mut out: Vec<String> = Vec::new();
    let mut k: usize = 0;
    while k < repos.len()
        invariant
            k <= repos@.len(),
            crate::conflict::views(out@) == prune_targets_spec(repos@.subrange(0, k as int)),
        decreases repos.len() - k,
    {
        assert(repos@.subrange(0, k + 1).drop_last() =~= repos@.subrange(0, k as int));
        let r = &repos[k];
        if r.is_tracked {
            match &r.clone_path {
                Some(p) => {
                    let ghost before = crate::conflict::views(out@);
                    out.push(p.clone());
                    assert(crate::conflict::views(out@) =~= before.push(p@));
                },
                None => {},
            }
        }
        k += 1;
    }
    assert(repos@.subrange(0, repos@.len() as int) =~= repos@);
    out
}

/// Discovery skips an account with fewer core requests left than this.
pub const MIN_CORE_REMAINING: u64 = 200;

/// Whether a discovery pass may run with `remaining` core requests left.
pub fn discovery_affordable(remaining: u64) -> (b: bool)
    ensures
        b == (remaining >= MIN_CORE_REMAINING),
{
    remaining >= MIN_CORE_REMAINING
}

/// Which of the columns added after the first schema a database has.
#[derive(Debug, Clone, Copy, PartialEq, Eq, Default)]
pub struct SchemaColumns {
    /// `clone_jobs.target_owned`.
    pub target_owned: bool,
    /// `repositories.notify_enabled`.
    pub notify_enabled: bool,
    /// `items.activity`.
    pub activity: bool,
    /// `items.archived`.
    pub archived: bool,
    /// `items.dismissed_updated_at` (with its two sibling columns).
    pub dismissed_watermark: bool,
}

/// The statement adding `clone_jobs.target_owned`.
pub const ADD_TARGET_OWNED: &'static str = "ALTER TABLE clone_jobs ADD COLUMN target_owned INTEGER NOT NULL DEFAULT 0";
/// The statement adding `repositories.notify_enabled`.
pub const ADD_NOTIFY_ENABLED: &'static str = "ALTER TABLE repositories ADD COLUMN notify_enabled INTEGER NOT NULL DEFAULT 1";
/// The statement adding `items.activity`.
pub const ADD_ACTIVITY: &'static str = "ALTER TABLE items ADD COLUMN activity TEXT";
/// The statement adding `items.archived`.
pub const ADD_ARCHIVED: &'static str = "ALTER TABLE items ADD COLUMN archived INTEGER NOT NULL DEFAULT 0";
/// The statements adding the dismissal watermark columns.
pub const ADD_DISMISSED_WATERMARK: &'static str = "ALTER TABLE items ADD COLUMN dismissed_updated_at TEXT;\n ALTER TABLE items ADD COLUMN dismissed_at TEXT;\n ALTER TABLE items ADD COLUMN dismissed_ci_status TEXT;";

/// The upgrade statements a database needs, in schema-version order: one
/// for each column it lacks.
pub open spec fn migrations_spec(c: SchemaColumns) -> Seq<Seq<char>> {
    let s0 = Seq::<Seq<char>>::empty();
    let s1 = if c.target_owned { s0 } else { s0.push(ADD_TARGET_OWNED@) };
    let s2 = if c.notify_enabled { s1 } else { s1.push(ADD_NOTIFY_ENABLED@) };
    let s3 = if c.activity { s2 } else { s2.push(ADD_ACTIVITY@) };
    let s4 = if c.archived { s3 } else { s3.push(ADD_ARCHIVED@) };
    if c.dismissed_watermark { s4 } else { s4.push(ADD_DISMISSED_WATERMARK@) }
}

/// The upgrade statements to run against a database with columns `c`.
pub fn pending_migrations(c: SchemaColumns) -> (out: Vec<&'static str>)
    ensures
        out@.map_values(|s: &'static str| s@) == migrations_spec(c),
{
    let mut out: Vec<&'static str> = Vec::new();
    if !c.target_owned {
        out.push(ADD_TARGET_OWNED);
    }
    if !c.notify_enabled {
        out.push(ADD_NOTIFY_ENABLED);
    }
    if !c.activity {
        out.push(ADD_ACTIVITY);
    }
    if !c.archived {
        out.push(ADD_ARCHIVED);
    }
    if !c.dismissed_watermark {
        out.push(ADD_DISMISSED_WATERMARK);
    }
    assert(out@.map_values(|s: &'static str| s@) =~= migrations_spec(c));
    out
}

/// Whether a clone's `origin` URL names the repository it is registered
/// for: the `owner/name` slug occurs in it.
pub fn origin_matches(url: &str, repo: &str) -> (b: bool)
    ensures
        b == contains_text(url@, repo@),
{
    crate::text::contains_str(url, repo)
}

/// The refusal for a clone at `path` whose `origin` URL `url` does not
/// name `repo`.
pub open spec fn origin_error_text(path: Seq<char>, url: Seq<char>, repo: Seq<char>) -> Seq<char> {
    path + "'s `origin` remote (`"@ + url + "`) does not point at `"@ + repo + "`"@
}

/// The last of the checks a clone must pass before it is registered for
/// `repo`: its `origin` remote's URL `url` must mention the slug. `path` is
/// the clone's location as shown to the user.
pub fn check_origin(path: &str, url: &str, repo: &str) -> (r: Result<(), ApiError>)
    ensures
        contains_text(url@, repo@) ==> r is Ok,
        !contains_text(url@, repo@) ==> (r matches Err(ApiError::Config(s)) && s@ == origin_error_text(path@, url@, repo@)),
{
    if origin_matches(url, repo) {
        return Ok(());
    }
    let mut s = String::from_str(path);
    s.append("'s `origin` remote (`");
    s.append(url);
    s.append("`) does not point at `");
    s.append(repo);
    s.append("`");
    proof {
        assert(s@ =~= origin_error_text(path@, url@, repo@));
    }
    Err(ApiError::Config(s))
}

} // verus!
