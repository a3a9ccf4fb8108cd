//! Time arithmetic, delegated to `chrono`.

use vstd::prelude::*;

verus! {

/// The current UTC time as RFC 3339, from `chrono::Utc::now().to_rfc3339()`.
/// It reads the system clock, so nothing is promised of the result.
#[verifier::external_body]
pub fn now_rfc3339() -> String {
    chrono::Utc::now().to_rfc3339()
}

/// An instant as `chrono`'s `DateTime<Utc>` keeps it: whole Unix seconds
/// and the nanoseconds past them.
#[derive(Debug, Clone, Copy, PartialEq, Eq, Structural)]
pub struct UnixTime {
    /// Seconds since 1970-01-01T00:00:00Z.
    pub secs: i64,
    /// Nanoseconds past `secs`.
    pub nanos: u32,
}

/// Whole seconds (truncated toward zero) from the RFC 3339 instant `stamp`
/// to the instant `secs` + `nanos` ns, as `chrono` computes them; `None`
/// when `stamp` does not parse or the instant is out of `chrono`'s range.
pub uninterp spec fn elapsed_seconds(secs: int, nanos: int, stamp: Seq<char>) -> Option<int>;

/// Calls `chrono`: `DateTime::<Utc>::from_timestamp(now.secs, now.nanos)`,
/// `DateTime::parse_from_rfc3339(stamp)`, then `signed_duration_since` and
/// `num_seconds`. The result is tied to the arguments through
/// [`elapsed_seconds`] only; the calendar arithmetic is not restated.
#[verifier::external_body]
pub(crate) fn seconds_since(now: UnixTime, stamp: &str) -> (r: Option<i64>)
    ensures
        match r {
            Some(s) => elapsed_seconds(now.secs as int, now.nanos as int, stamp@) == Some(s as int),
            None => elapsed_seconds(now.secs as int, now.nanos as int, stamp@) is None,
        },
{
    let now = chrono::DateTime::<chrono::Utc>::from_timestamp(now.secs, now.nanos)?;
    let stamp = chrono::DateTime::parse_from_rfc3339(stamp).ok()?;
    Some(now.signed_duration_since(stamp).num_seconds())
}

/// Whole hours in `s` seconds, truncated toward zero: `chrono`'s
/// `TimeDelta::num_hours` divides its whole seconds by 3600 this way.
pub open spec fn whole_hours(s: int) -> int {
    if s >= 0 {
        s / 3600
    } else {
        -((-s) / 3600)
    }
}

/// Whole hours from the RFC 3339 instant `created` to the instant `now`;
/// `None` when `created` does not parse or `now` is out of `chrono`'s range.
pub open spec fn elapsed_hours(now: UnixTime, created: Seq<char>) -> Option<int> {
    match elapsed_seconds(now.secs as int, now.nanos as int, created) {
        Some(s) => Some(whole_hours(s)),
        None => None,
    }
}

/// Whole hours since `created`, as of `now`.
pub fn hours_since(now: UnixTime, created: &str) -> (r: Option<i64>)
    ensures
        (match r {
            Some(h) => Some(h as int),
            None => None,
        }) == elapsed_hours(now, created@),
{
    match seconds_since(now, created) {
        None => None,
        Some(s) => {
            if s >= 0 {
                Some(s / 3600)
            } else {
                let m: u64 = (-(s + 1)) as u64 + 1;
                assert(m == -s);
                let q: u64 = m / 3600;
                assert(q <= 0x8000_0000_0000_0000u64 / 3600);
                Some(-(q as i64))
            }
        },
    }
}

/// Minimum gap between pull-request syncs, in seconds.
pub const SYNC_INTERVAL_SECS: i64 = 900;

/// A sync is due when none was recorded, when the recorded watermark does
/// not read as a time, or once the interval has passed since it.
pub open spec fn sync_due_spec(watermark: Option<Seq<char>>, now: UnixTime) -> bool {
    match watermark {
        None => true,
        Some(w) => match elapsed_seconds(now.secs as int, now.nanos as int, w) {
            Some(s) => s >= SYNC_INTERVAL_SECS,
            None => true,
        },
    }
}

/// Whether enough time has passed since the last pull-request sync (its
/// stored watermark) to run another, as of `now`.
pub fn sync_due(watermark: Option<&str>, now: UnixTime) -> (b: bool)
    ensures
        b == sync_due_spec(match watermark {
            Some(w) => Some(w@),
            None => None,
        }, now),
{
    match watermark {
        None => true,
        Some(w) => match seconds_since(now, w) {
            Some(s) => s >= SYNC_INTERVAL_SECS,
            None => true,
        },
    }
}

/// How long a hidden popover may keep its webview, in seconds.
pub const IDLE_TEARDOWN_TIMEOUT_SECS: u64 = 300;

/// When the popover last went hidden, as a monotonic time in seconds, so a
/// teardown task can tell when a hidden webview has outlived its welcome.
#[derive(Debug, Clone, Copy, Default, PartialEq, Eq)]
pub struct IdleClock {
    /// When it went hidden; `None` while shown (or after a teardown).
    pub last_hidden: Option<u64>,
}

impl IdleClock {
    /// Records that the popover just went hidden at `now`.
    pub fn hidden_now(&mut self, now: u64)
        ensures
            final(self).last_hidden == Some(now),
    {
        self.last_hidden = Some(now);
    }

    /// Records that the popover is back in use; cancels a pending teardown.
    pub fn shown(&mut self)
        ensures
            final(self).last_hidden is None,
    {
        self.last_hidden = None;
    }

    /// True once the popover has stayed hidden for the timeout as of `now`
    /// (a clock reading before the stamp counts as no time elapsed).
    pub fn hidden_long_enough(&self, now: u64) -> (b: bool)
        ensures
            b == match self.last_hidden {
                Some(h) => h <= now && now - h >= IDLE_TEARDOWN_TIMEOUT_SECS,
                None => false,
            },
    {
        match self.last_hidden {
            Some(h) => now.saturating_sub(h) >= IDLE_TEARDOWN_TIMEOUT_SECS,
            None => false,
        }
    }

    /// Clears the record after a teardown, so the task does not loop.
    pub fn clear(&mut self)
        ensures
            final(self).last_hidden is None,
    {
        self.last_hidden = None;
    }
}

} // verus!
