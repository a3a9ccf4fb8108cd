use vstd::prelude::*;
use crate::item::ActionItem;

verus! {

/// Coarse urgency band derived from a numeric score. Drives the tray icon
/// color and the grouping headers in the UIs.
#[derive(Debug, Clone, Copy, PartialEq, Eq, Structural, PartialOrd, Ord)]
pub enum Severity {
    /// Nothing open at all.
    Idle,
    /// Visible in lists, never worth an interruption on its own.
    Info,
    /// Ordinary work.
    Normal,
    /// Someone is blocked on you.
    High,
    /// Broken build or equivalent; always interrupts.
    Critical,
}

/// The band a score falls in.
pub open spec fn band_of(score: int) -> Severity {
    if score <= 0 {
        Severity::Idle
    } else if score < 30 {
        Severity::Info
    } else if score < 60 {
        Severity::Normal
    } else if score < 100 {
        Severity::High
    } else {
        Severity::Critical
    }
}

impl Severity {
    /// Maps a score to its band.
    pub fn from_score(score: u32) -> (s: Severity)
        ensures
            s == band_of(score as int),
    {
        if score == 0 {
            Severity::Idle
        } else if score < 30 {
            Severity::Info
        } else if score < 60 {
            Severity::Normal
        } else if score < 100 {
            Severity::High
        } else {
            Severity::Critical
        }
    }
}

/// Position of a band in urgency order (`Idle` lowest, `Critical` highest).
pub open spec fn rank(s: Severity) -> int {
    match s {
        Severity::Idle => 0,
        Severity::Info => 1,
        Severity::Normal => 2,
        Severity::High => 3,
        Severity::Critical => 4,
    }
}

/// Position of a band in urgency order.
pub fn severity_rank(s: Severity) -> (r: u8)
    ensures
        r as int == rank(s),
{
    match s {
        Severity::Idle => 0,
        Severity::Info => 1,
        Severity::Normal => 2,
        Severity::High => 3,
        Severity::Critical => 4,
    }
}

/// An [`ActionItem`] together with the priority the engine assigned it.
#[derive(Debug, Clone, PartialEq, Eq)]
pub struct ScoredItem {
    /// The underlying item.
    pub item: ActionItem,
    /// Numeric priority; higher is more urgent.
    pub score: u32,
    /// Band derived from `score` (or pinned by a rule).
    pub severity: Severity,
    /// Whether a rule suppressed desktop notifications for this item.
    pub muted: bool,
}

} // verus!
