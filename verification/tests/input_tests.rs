use netcode::input::{
    capture_input, record_input, resolve_input, InputBuffer, InputControlKind, InputSnapshot,
    PlayerActions, MAX_STALE_TICKS,
};
use netcode::log::TickLog;

fn snap(move_x: i64, move_y: i64) -> InputSnapshot {
    InputSnapshot { move_x, move_y, look_x: 0, look_y: 0, jump_pressed: false }
}

#[test]
fn buffer_get_exact_and_missing() {
    let mut buf: InputBuffer = TickLog::new();
    record_input(&mut buf, 5, snap(1_000_000, 0));
    record_input(&mut buf, 7, snap(0, 1_000_000));
    assert_eq!(buf.get(5), Some(snap(1_000_000, 0)));
    assert_eq!(buf.get(7), Some(snap(0, 1_000_000)));
    assert_eq!(buf.get(6), None);
}

#[test]
fn buffer_overwrite_same_tick() {
    let mut buf: InputBuffer = TickLog::new();
    record_input(&mut buf, 5, snap(1_000_000, 0));
    record_input(&mut buf, 5, snap(-1_000_000, 0));
    assert_eq!(buf.get(5), Some(snap(-1_000_000, 0)));
    assert_eq!(buf.entries.len(), 1);
}

#[test]
fn buffer_last_with_tick() {
    let mut buf: InputBuffer = TickLog::new();
    assert_eq!(buf.get_last_with_tick(), None);
    record_input(&mut buf, 3, snap(1_000_000, 0));
    record_input(&mut buf, 9, snap(0, 500_000));
    assert_eq!(buf.get_last_with_tick(), Some((9, snap(0, 500_000))));
}

#[test]
fn buffer_evicts_outside_retention_window() {
    let mut buf: InputBuffer = TickLog::new();
    for t in 1..=70u64 {
        record_input(&mut buf, t, snap(t as i64, 0));
    }
    // Newest is 70 and the window holds 64 ticks: 7..=70 stay.
    assert_eq!(buf.get(6), None);
    assert_eq!(buf.get(7), Some(snap(7, 0)));
    assert_eq!(buf.get(70), Some(snap(70, 0)));
    assert_eq!(buf.entries.len(), 64);
}

#[test]
fn resolve_fresh_input_is_identity() {
    let mut buf: InputBuffer = TickLog::new();
    let s = snap(250_000, -750_000);
    record_input(&mut buf, 42, s);
    assert_eq!(resolve_input(&buf, 42), s);
}

#[test]
fn resolve_scenario_stale_then_neutral() {
    // Buffer has an entry at tick 10 (move [1, 0]) and nothing after.
    let mut buf: InputBuffer = TickLog::new();
    record_input(&mut buf, 10, snap(1_000_000, 0));
    // Staleness 1: the last known intent is repeated.
    assert_eq!(resolve_input(&buf, 11), snap(1_000_000, 0));
    // Staleness 6 is still within the threshold.
    assert_eq!(resolve_input(&buf, 10 + MAX_STALE_TICKS), snap(1_000_000, 0));
    // Staleness 7 is beyond the threshold of 6: neutral.
    assert_eq!(resolve_input(&buf, 17), snap(0, 0));
}

#[test]
fn resolve_empty_buffer_is_neutral() {
    let buf: InputBuffer = TickLog::new();
    assert_eq!(resolve_input(&buf, 1), InputSnapshot::neutral());
}

#[test]
fn resolve_past_tick_uses_newest() {
    // A query older than the newest entry has staleness zero.
    let mut buf: InputBuffer = TickLog::new();
    record_input(&mut buf, 20, snap(1_000_000, 0));
    assert_eq!(resolve_input(&buf, 15), snap(1_000_000, 0));
}

#[test]
fn capture_jump_edge_semantics() {
    let fresh = capture_input(0, 0, 0, 0, true, false);
    assert!(fresh.jump_pressed);
    let held = capture_input(0, 0, 0, 0, true, true);
    assert!(!held.jump_pressed);
    let released = capture_input(0, 0, 0, 0, false, true);
    assert!(!released.jump_pressed);
}

#[test]
fn action_control_kinds() {
    assert_eq!(PlayerActions::Move.input_control_kind(), InputControlKind::DualAxis);
    assert_eq!(PlayerActions::LookAround.input_control_kind(), InputControlKind::DualAxis);
    assert_eq!(PlayerActions::Jump.input_control_kind(), InputControlKind::Button);
}
