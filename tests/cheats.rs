use forge_runner::cheats::{CheatKind, CheatState};
use forge_runner::felt::Felt;

fn felt(b: &[u8]) -> Felt {
    Felt::from_be_bytes(b.to_vec())
}

#[test]
fn no_override_gives_actual_value() {
    let state = CheatState::new();
    let r = state.effective(CheatKind::BlockTimestamp, &String::from("0x1"), felt(&[9]));
    assert_eq!(r.be, vec![9]);
}

#[test]
fn override_applies_to_its_target_only() {
    let mut state = CheatState::new();
    state.start(CheatKind::BlockTimestamp, String::from("0x1"), felt(&[0x10]));
    let hit = state.effective(CheatKind::BlockTimestamp, &String::from("0x1"), felt(&[9]));
    assert_eq!(hit.be, vec![0x10]);
    let other_target = state.effective(CheatKind::BlockTimestamp, &String::from("0x2"), felt(&[9]));
    assert_eq!(other_target.be, vec![9]);
    let other_fact = state.effective(CheatKind::BlockNumber, &String::from("0x1"), felt(&[7]));
    assert_eq!(other_fact.be, vec![7]);
}

#[test]
fn later_override_replaces_earlier() {
    let mut state = CheatState::new();
    state.start(CheatKind::CallerAddress, String::from("0x1"), felt(&[1]));
    state.start(CheatKind::CallerAddress, String::from("0x1"), felt(&[2]));
    let r = state.effective(CheatKind::CallerAddress, &String::from("0x1"), felt(&[0]));
    assert_eq!(r.be, vec![2]);
}

#[test]
fn stop_restores_actual_value() {
    let mut state = CheatState::new();
    state.start(CheatKind::BlockNumber, String::from("0x1"), felt(&[5]));
    state.start(CheatKind::BlockNumber, String::from("0x2"), felt(&[6]));
    state.stop(CheatKind::BlockNumber, &String::from("0x1"));
    let r = state.effective(CheatKind::BlockNumber, &String::from("0x1"), felt(&[1]));
    assert_eq!(r.be, vec![1]);
    let kept = state.effective(CheatKind::BlockNumber, &String::from("0x2"), felt(&[1]));
    assert_eq!(kept.be, vec![6]);
    state.stop(CheatKind::BlockNumber, &String::from("0x9"));
}
