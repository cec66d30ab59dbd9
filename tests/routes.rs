use sidecar::membership::{ChangeOP, MembershipChange};
use sidecar::routes::{
    backup, health, membership, metrics, state, state_url, STATUS_INTERNAL_SERVER_ERROR,
    STATUS_OK,
};
use sidecar::state::{State, StatePayload};

#[test]
fn membership_remove_is_accepted() {
    let change = MembershipChange { name: "x".to_string(), op: ChangeOP::Remove };
    assert_eq!(membership(&change), 200);
}

#[test]
fn membership_add_is_accepted() {
    let change = MembershipChange {
        name: "y".to_string(),
        op: ChangeOP::Add("h9:2380".to_string()),
    };
    assert_eq!(membership(&change), STATUS_OK);
}

#[test]
fn health_needs_both_volumes() {
    assert_eq!(health(true, true), 200);
    assert_eq!(health(false, true), 500);
    assert_eq!(health(true, false), 500);
    assert_eq!(health(false, false), STATUS_INTERNAL_SERVER_ERROR);
}

#[test]
fn backup_reports_outcome() {
    let ok: Result<(), String> = Ok(());
    let failed: Result<(), String> = Err("disk full".to_string());
    assert_eq!(backup(&ok), 200);
    assert_eq!(backup(&failed), 500);
}

#[test]
fn metrics_concatenates_both_registries() {
    let r = metrics(Some("a 1\n".to_string()), Some("b 2\n".to_string()));
    assert_eq!(r, "a 1\nb 2\n");
}

#[test]
fn metrics_is_empty_on_encoding_failure() {
    assert_eq!(metrics(None, Some("b 2\n".to_string())), "");
    assert_eq!(metrics(Some("a 1\n".to_string()), None), "");
    assert_eq!(metrics(None, None), "");
}

#[test]
fn state_hands_out_a_copy() {
    let current = StatePayload { state: State::Pending, revision: 42 };
    let (code, payload) = state(&current);
    assert_eq!(code, 200);
    assert_eq!(payload, current);
}

#[test]
fn state_url_of_peer() {
    assert_eq!(state_url("h1:2380"), "http://h1:2380/state");
}
