use sidecar::order::name_less;
use sidecar::state::{State, StateCounts, StatePayload, StateStatus};

fn reply(name: &str, revision: i64, state: State) -> (String, Option<StatePayload>) {
    (name.to_string(), Some(StatePayload { state, revision }))
}

fn unreachable_peer(name: &str) -> (String, Option<StatePayload>) {
    (name.to_string(), None)
}

fn three_peers() -> Vec<(String, Option<StatePayload>)> {
    vec![
        reply("a", 5, State::OK),
        reply("b", 5, State::OK),
        reply("c", 3, State::Pending),
    ]
}

#[test]
fn gather_breaks_revision_tie_by_larger_name() {
    let status = StateStatus::gather(&three_peers()).unwrap();
    assert_eq!(status.seeder, "b");
    assert_eq!(status.states.get(State::OK), 2);
    assert_eq!(status.states.get(State::Pending), 1);
    assert_eq!(status.states.get(State::Start), 0);
}

#[test]
fn gather_prefers_higher_revision() {
    let replies = vec![
        reply("z", 1, State::Start),
        reply("a", 9, State::OK),
        reply("m", 4, State::Pending),
    ];
    let status = StateStatus::gather(&replies).unwrap();
    assert_eq!(status.seeder, "a");
    assert_eq!(status.states, StateCounts { start: 1, pending: 1, ok: 1 });
}

#[test]
fn gather_fails_when_one_peer_is_unreachable() {
    let replies = vec![
        reply("a", 5, State::OK),
        reply("b", 5, State::OK),
        unreachable_peer("c"),
    ];
    assert!(StateStatus::gather(&replies).is_none());
}

#[test]
fn gather_fails_when_first_peer_is_unreachable() {
    let replies = vec![unreachable_peer("a"), reply("b", 5, State::OK)];
    assert!(StateStatus::gather(&replies).is_none());
}

#[test]
fn gather_is_idempotent() {
    let replies = three_peers();
    let first = StateStatus::gather(&replies).unwrap();
    let second = StateStatus::gather(&replies).unwrap();
    assert_eq!(first.seeder, second.seeder);
    assert_eq!(first.states, second.states);
}

#[test]
fn gather_is_order_independent() {
    let base = three_peers();
    let want = StateStatus::gather(&base).unwrap();
    let orders = [[0, 1, 2], [0, 2, 1], [1, 0, 2], [1, 2, 0], [2, 0, 1], [2, 1, 0]];
    for order in orders {
        let replies: Vec<_> = order.iter().map(|&i| base[i].clone()).collect();
        let got = StateStatus::gather(&replies).unwrap();
        assert_eq!(got.seeder, want.seeder);
        assert_eq!(got.states, want.states);
    }
}

#[test]
fn gather_over_no_peer() {
    let status = StateStatus::gather(&Vec::new()).unwrap();
    assert_eq!(status.seeder, "");
    assert_eq!(status.states, StateCounts { start: 0, pending: 0, ok: 0 });
}

#[test]
fn gather_with_least_revision_and_empty_name_keeps_empty_seeder() {
    let replies = vec![reply("", i64::MIN, State::Start)];
    let status = StateStatus::gather(&replies).unwrap();
    assert_eq!(status.seeder, "");
    assert_eq!(status.states.get(State::Start), 1);
}

#[test]
fn gather_least_revision_named_peer_is_seeder() {
    let replies = vec![reply("x", i64::MIN, State::Pending)];
    let status = StateStatus::gather(&replies).unwrap();
    assert_eq!(status.seeder, "x");
}

#[test]
fn name_order_is_lexicographic() {
    assert!(name_less("a", "b"));
    assert!(!name_less("b", "a"));
    assert!(name_less("ab", "abc"));
    assert!(!name_less("abc", "ab"));
    assert!(!name_less("abc", "abc"));
    assert!(name_less("", "a"));
    assert!(name_less("B", "a"));
    assert!(name_less("node10", "node9"));
}
