//! The column spellings the store uses for the item enums, and their
//! inverses. Reading an unknown spelling falls back to a default rather
//! than failing a whole listing.

use vstd::prelude::*;
use crate::item::{AuthKind, CiStatus, ItemKind, ItemState};
use crate::text::str_eq;

verus! {

/// The stored spelling of a kind.
pub open spec fn kind_column(v: ItemKind) -> Seq<char> {
    match v {
        ItemKind::ReviewRequested => "review_requested"@,
        ItemKind::Assigned => "assigned"@,
        ItemKind::Mentioned => "mentioned"@,
        ItemKind::Participating => "participating"@,
        ItemKind::CiFailed => "ci_failed"@,
        ItemKind::ReviewStateChanged => "review_state_changed"@,
        ItemKind::ReadyToMerge => "ready_to_merge"@,
        ItemKind::Authored => "authored"@,
        ItemKind::ReviewedByMe => "reviewed_by_me"@,
    }
}

/// The stored spelling of a kind.
pub fn kind_to_str(v: ItemKind) -> (s: &'static str)
    ensures
        s@ == kind_column(v),
{
    match v {
        ItemKind::ReviewRequested => "review_requested",
        ItemKind::Assigned => "assigned",
        ItemKind::Mentioned => "mentioned",
        ItemKind::Participating => "participating",
        ItemKind::CiFailed => "ci_failed",
        ItemKind::ReviewStateChanged => "review_state_changed",
        ItemKind::ReadyToMerge => "ready_to_merge",
        ItemKind::Authored => "authored",
        ItemKind::ReviewedByMe => "reviewed_by_me",
    }
}

/// The kind a stored spelling names (`Participating` when unknown).
pub open spec fn kind_of_column(s: Seq<char>) -> ItemKind {
    if s == "review_requested"@ {
        ItemKind::ReviewRequested
    } else if s == "assigned"@ {
        ItemKind::Assigned
    } else if s == "mentioned"@ {
        ItemKind::Mentioned
    } else if s == "ci_failed"@ {
        ItemKind::CiFailed
    } else if s == "review_state_changed"@ {
        ItemKind::ReviewStateChanged
    } else if s == "ready_to_merge"@ {
        ItemKind::ReadyToMerge
    } else if s == "authored"@ {
        ItemKind::Authored
    } else if s == "reviewed_by_me"@ {
        ItemKind::ReviewedByMe
    } else {
        ItemKind::Participating
    }
}

/// The kind a stored spelling names (`Participating` when unknown).
pub fn kind_from_str(s: &str) -> (v: ItemKind)
    ensures
        v == kind_of_column(s@),
{
    if str_eq(s, "review_requested") {
        ItemKind::ReviewRequested
    } else if str_eq(s, "assigned") {
        ItemKind::Assigned
    } else if str_eq(s, "mentioned") {
        ItemKind::Mentioned
    } else if str_eq(s, "ci_failed") {
        ItemKind::CiFailed
    } else if str_eq(s, "review_state_changed") {
        ItemKind::ReviewStateChanged
    } else if str_eq(s, "ready_to_merge") {
        ItemKind::ReadyToMerge
    } else if str_eq(s, "authored") {
        ItemKind::Authored
    } else if str_eq(s, "reviewed_by_me") {
        ItemKind::ReviewedByMe
    } else {
        ItemKind::Participating
    }
}

/// Reading back what was stored gives the same value.
pub proof fn lemma_kind_round_trip(v: ItemKind)
    ensures
        kind_of_column(kind_column(v)) == v,
{
    reveal_strlit("review_requested");
    reveal_strlit("assigned");
    reveal_strlit("mentioned");
    reveal_strlit("participating");
    reveal_strlit("ci_failed");
    reveal_strlit("review_state_changed");
    reveal_strlit("ready_to_merge");
    reveal_strlit("authored");
    reveal_strlit("reviewed_by_me");
    match v {
        ItemKind::ReviewRequested => {
        },
        ItemKind::Assigned => {
            assert("assigned"@.len() == 8);
            assert("review_requested"@.len() == 16);
            assert("assigned"@ != "review_requested"@);
        },
        ItemKind::Mentioned => {
            assert("mentioned"@.len() == 9);
            assert("review_requested"@.len() == 16);
            assert("mentioned"@ != "review_requested"@);
            assert("mentioned"@.len() == 9);
            assert("assigned"@.len() == 8);
            assert("mentioned"@ != "assigned"@);
        },
        ItemKind::Participating => {
            assert("participating"@.len() == 13);
            assert("review_requested"@.len() == 16);
            assert("participating"@ != "review_requested"@);
            assert("participating"@.len() == 13);
            assert("assigned"@.len() == 8);
            assert("participating"@ != "assigned"@);
            assert("participating"@.len() == 13);
            assert("mentioned"@.len() == 9);
            assert("participating"@ != "mentioned"@);
            assert("participating"@.len() == 13);
            assert("ci_failed"@.len() == 9);
            assert("participating"@ != "ci_failed"@);
            assert("participating"@.len() == 13);
            assert("review_state_changed"@.len() == 20);
            assert("participating"@ != "review_state_changed"@);
            assert("participating"@.len() == 13);
            assert("ready_to_merge"@.len() == 14);
            assert("participating"@ != "ready_to_merge"@);
            assert("participating"@.len() == 13);
            assert("authored"@.len() == 8);
            assert("participating"@ != "authored"@);
            assert("participating"@.len() == 13);
            assert("reviewed_by_me"@.len() == 14);
            assert("participating"@ != "reviewed_by_me"@);
        },
        ItemKind::CiFailed => {
            assert("ci_failed"@.len() == 9);
            assert("review_requested"@.len() == 16);
            assert("ci_failed"@ != "review_requested"@);
            assert("ci_failed"@.len() == 9);
            assert("assigned"@.len() == 8);
            assert("ci_failed"@ != "assigned"@);
            assert("ci_failed"@.len() == 9);
            assert("mentioned"@.len() == 9);
            assert("ci_failed"@[0] == 'c');
            assert("mentioned"@[0] == 'm');
            assert("ci_failed"@ != "mentioned"@);
        },
        ItemKind::ReviewStateChanged => {
            assert("review_state_changed"@.len() == 20);
            assert("review_requested"@.len() == 16);
            assert("review_state_changed"@ != "review_requested"@);
            assert("review_state_changed"@.len() == 20);
            assert("assigned"@.len() == 8);
            assert("review_state_changed"@ != "assigned"@);
            assert("review_state_changed"@.len() == 20);
            assert("mentioned"@.len() == 9);
            assert("review_state_changed"@ != "mentioned"@);
            assert("review_state_changed"@.len() == 20);
            assert("ci_failed"@.len() == 9);
            assert("review_state_changed"@ != "ci_failed"@);
        },
        ItemKind::ReadyToMerge => {
            assert("ready_to_merge"@.len() == 14);
            assert("review_requested"@.len() == 16);
            assert("ready_to_merge"@ != "review_requested"@);
            assert("ready_to_merge"@.len() == 14);
            assert("assigned"@.len() == 8);
            assert("ready_to_merge"@ != "assigned"@);
            assert("ready_to_merge"@.len() == 14);
            assert("mentioned"@.len() == 9);
            assert("ready_to_merge"@ != "mentioned"@);
            assert("ready_to_merge"@.len() == 14);
            assert("ci_failed"@.len() == 9);
            assert("ready_to_merge"@ != "ci_failed"@);
            assert("ready_to_merge"@.len() == 14);
            assert("review_state_changed"@.len() == 20);
            assert("ready_to_merge"@ != "review_state_changed"@);
        },
        ItemKind::Authored => {
            assert("authored"@.len() == 8);
            assert("review_requested"@.len() == 16);
            assert("authored"@ != "review_requested"@);
            assert("authored"@.len() == 8);
            assert("assigned"@.len() == 8);
            assert("authored"@[1] == 'u');
            assert("assigned"@[1] == 's');
            assert("authored"@ != "assigned"@);
            assert("authored"@.len() == 8);
            assert("mentioned"@.len() == 9);
            assert("authored"@ != "mentioned"@);
            assert("authored"@.len() == 8);
            assert("ci_failed"@.len() == 9);
            assert("authored"@ != "ci_failed"@);
            assert("authored"@.len() == 8);
            assert("review_state_changed"@.len() == 20);
            assert("authored"@ != "review_state_changed"@);
            assert("authored"@.len() == 8);
            assert("ready_to_merge"@.len() == 14);
            assert("authored"@ != "ready_to_merge"@);
        },
        ItemKind::ReviewedByMe => {
            assert("reviewed_by_me"@.len() == 14);
            assert("review_requested"@.len() == 16);
            assert("reviewed_by_me"@ != "review_requested"@);
            assert("reviewed_by_me"@.len() == 14);
            assert("assigned"@.len() == 8);
            assert("reviewed_by_me"@ != "assigned"@);
            assert("reviewed_by_me"@.len() == 14);
            assert("mentioned"@.len() == 9);
            assert("reviewed_by_me"@ != "mentioned"@);
            assert("reviewed_by_me"@.len() == 14);
            assert("ci_failed"@.len() == 9);
            assert("reviewed_by_me"@ != "ci_failed"@);
            assert("reviewed_by_me"@.len() == 14);
            assert("review_state_changed"@.len() == 20);
            assert("reviewed_by_me"@ != "review_state_changed"@);
            assert("reviewed_by_me"@.len() == 14);
            assert("ready_to_merge"@.len() == 14);
            assert("reviewed_by_me"@[2] == 'v');
            assert("ready_to_merge"@[2] == 'a');
            assert("reviewed_by_me"@ != "ready_to_merge"@);
            assert("reviewed_by_me"@.len() == 14);
            assert("authored"@.len() == 8);
            assert("reviewed_by_me"@ != "authored"@);
        },
    }
}

/// The stored spelling of a state.
pub open spec fn state_column(v: ItemState) -> Seq<char> {
    match v {
        ItemState::Open => "open"@,
        ItemState::Done => "done"@,
        ItemState::Dismissed => "dismissed"@,
    }
}

/// The stored spelling of a state.
pub fn state_to_str(v: ItemState) -> (s: &'static str)
    ensures
        s@ == state_column(v),
{
    match v {
        ItemState::Open => "open",
        ItemState::Done => "done",
        ItemState::Dismissed => "dismissed",
    }
}

/// The state a stored spelling names (`Open` when unknown).
pub open spec fn state_of_column(s: Seq<char>) -> ItemState {
    if s == "done"@ {
        ItemState::Done
    } else if s == "dismissed"@ {
        ItemState::Dismissed
    } else {
        ItemState::Open
    }
}

/// The state a stored spelling names (`Open` when unknown).
pub fn state_from_str(s: &str) -> (v: ItemState)
    ensures
        v == state_of_column(s@),
{
    if str_eq(s, "done") {
        ItemState::Done
    } else if str_eq(s, "dismissed") {
        ItemState::Dismissed
    } else {
        ItemState::Open
    }
}

/// Reading back what was stored gives the same value.
pub proof fn lemma_state_round_trip(v: ItemState)
    ensures
        state_of_column(state_column(v)) == v,
{
    reveal_strlit("open");
    reveal_strlit("done");
    reveal_strlit("dismissed");
    match v {
        ItemState::Open => {
            assert("open"@.len() == 4);
            assert("done"@.len() == 4);
            assert("open"@[0] == 'o');
            assert("done"@[0] == 'd');
            assert("open"@ != "done"@);
            assert("open"@.len() == 4);
            assert("dismissed"@.len() == 9);
            assert("open"@ != "dismissed"@);
        },
        ItemState::Done => {
        },
        ItemState::Dismissed => {
            assert("dismissed"@.len() == 9);
            assert("done"@.len() == 4);
            assert("dismissed"@ != "done"@);
        },
    }
}

/// The stored spelling of a CI status.
pub open spec fn ci_status_column(v: CiStatus) -> Seq<char> {
    match v {
        CiStatus::NoChecks => "none"@,
        CiStatus::Pending => "pending"@,
        CiStatus::Passing => "passing"@,
        CiStatus::Failing => "failing"@,
    }
}

/// The stored spelling of a CI status.
pub fn ci_status_to_str(v: CiStatus) -> (s: &'static str)
    ensures
        s@ == ci_status_column(v),
{
    match v {
        CiStatus::NoChecks => "none",
        CiStatus::Pending => "pending",
        CiStatus::Passing => "passing",
        CiStatus::Failing => "failing",
    }
}

/// The CI status a stored spelling names (`none` when unknown).
pub open spec fn ci_status_of_column(s: Seq<char>) -> CiStatus {
    if s == "pending"@ {
        CiStatus::Pending
    } else if s == "passing"@ {
        CiStatus::Passing
    } else if s == "failing"@ {
        CiStatus::Failing
    } else {
        CiStatus::NoChecks
    }
}

/// The CI status a stored spelling names (`none` when unknown).
pub fn ci_status_from_str(s: &str) -> (v: CiStatus)
    ensures
        v == ci_status_of_column(s@),
{
    if str_eq(s, "pending") {
        CiStatus::Pending
    } else if str_eq(s, "passing") {
        CiStatus::Passing
    } else if str_eq(s, "failing") {
        CiStatus::Failing
    } else {
        CiStatus::NoChecks
    }
}

/// Reading back what was stored gives the same value.
pub proof fn lemma_ci_status_round_trip(v: CiStatus)
    ensures
        ci_status_of_column(ci_status_column(v)) == v,
{
    reveal_strlit("none");
    reveal_strlit("pending");
    reveal_strlit("passing");
    reveal_strlit("failing");
    match v {
        CiStatus::NoChecks => {
            assert("none"@.len() == 4);
            assert("pending"@.len() == 7);
            assert("none"@ != "pending"@);
            assert("none"@.len() == 4);
            assert("passing"@.len() == 7);
            assert("none"@ != "passing"@);
            assert("none"@.len() == 4);
            assert("failing"@.len() == 7);
            assert("none"@ != "failing"@);
        },
        CiStatus::Pending => {
        },
        CiStatus::Passing => {
            assert("passing"@.len() == 7);
            assert("pending"@.len() == 7);
            assert("passing"@[1] == 'a');
            assert("pending"@[1] == 'e');
            assert("passing"@ != "pending"@);
        },
        CiStatus::Failing => {
            assert("failing"@.len() == 7);
            assert("pending"@.len() == 7);
            assert("failing"@[0] == 'f');
            assert("pending"@[0] == 'p');
            assert("failing"@ != "pending"@);
            assert("failing"@.len() == 7);
            assert("passing"@.len() == 7);
            assert("failing"@[0] == 'f');
            assert("passing"@[0] == 'p');
            assert("failing"@ != "passing"@);
        },
    }
}

/// The stored spelling of an auth kind.
pub open spec fn auth_kind_column(v: AuthKind) -> Seq<char> {
    match v {
        AuthKind::Pat => "pat"@,
        AuthKind::OauthDevice => "oauth_device"@,
    }
}

/// The stored spelling of an auth kind.
pub fn auth_kind_to_str(v: AuthKind) -> (s: &'static str)
    ensures
        s@ == auth_kind_column(v),
{
    match v {
        AuthKind::Pat => "pat",
        AuthKind::OauthDevice => "oauth_device",
    }
}

/// The auth kind a stored spelling names (`pat` when unknown).
pub open spec fn auth_kind_of_column(s: Seq<char>) -> AuthKind {
    if s == "oauth_device"@ {
        AuthKind::OauthDevice
    } else {
        AuthKind::Pat
    }
}

/// The auth kind a stored spelling names (`pat` when unknown).
pub fn auth_kind_from_str(s: &str) -> (v: AuthKind)
    ensures
        v == auth_kind_of_column(s@),
{
    if str_eq(s, "oauth_device") {
        AuthKind::OauthDevice
    } else {
        AuthKind::Pat
    }
}

/// Reading back what was stored gives the same value.
pub proof fn lemma_auth_kind_round_trip(v: AuthKind)
    ensures
        auth_kind_of_column(auth_kind_column(v)) == v,
{
    reveal_strlit("pat");
    reveal_strlit("oauth_device");
    match v {
        AuthKind::Pat => {
            assert("pat"@.len() == 3);
            assert("oauth_device"@.len() == 12);
            assert("pat"@ != "oauth_device"@);
        },
        AuthKind::OauthDevice => {
        },
    }
}

} // verus!
