use gitsurveil::codec::{
    auth_kind_from_str, auth_kind_to_str, ci_status_from_str, ci_status_to_str, kind_from_str,
    kind_to_str, state_from_str, state_to_str,
};
use gitsurveil::item::{AuthKind, CiStatus, ItemKind, ItemState};

#[test]
fn enums_round_trip_through_their_columns() {
    for k in [
        ItemKind::ReviewRequested,
        ItemKind::Assigned,
        ItemKind::Mentioned,
        ItemKind::Participating,
        ItemKind::CiFailed,
        ItemKind::ReviewStateChanged,
        ItemKind::ReadyToMerge,
        ItemKind::Authored,
        ItemKind::ReviewedByMe,
    ] {
        assert_eq!(kind_from_str(kind_to_str(k)), k);
    }
    for s in [ItemState::Open, ItemState::Done, ItemState::Dismissed] {
        assert_eq!(state_from_str(state_to_str(s)), s);
    }
    for c in [CiStatus::NoChecks, CiStatus::Pending, CiStatus::Passing, CiStatus::Failing] {
        assert_eq!(ci_status_from_str(ci_status_to_str(c)), c);
    }
    for a in [AuthKind::Pat, AuthKind::OauthDevice] {
        assert_eq!(auth_kind_from_str(auth_kind_to_str(a)), a);
    }
}

#[test]
fn unknown_columns_fall_back() {
    assert_eq!(kind_to_str(ItemKind::CiFailed), "ci_failed");
    assert_eq!(kind_from_str("future_kind"), ItemKind::Participating);
    assert_eq!(state_from_str("?"), ItemState::Open);
    assert_eq!(ci_status_to_str(CiStatus::NoChecks), "none");
    assert_eq!(ci_status_from_str("?"), CiStatus::NoChecks);
    assert_eq!(auth_kind_from_str("?"), AuthKind::Pat);
    assert_eq!(auth_kind_to_str(AuthKind::OauthDevice), "oauth_device");
}
