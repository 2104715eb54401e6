use netcode::input::{record_input, InputBuffer, InputSnapshot};
use netcode::log::TickLog;
use netcode::movement::{tick_step, KinematicState, MovementConfig, Vec3i};
use netcode::rollback::{
    record_predicted, reconcile, resimulate, should_rollback_linear_velocity,
    should_rollback_position, ReconcileOutcome, StateHistory, ROLLBACK_THRESHOLD,
};

fn forward_input() -> InputSnapshot {
    InputSnapshot { move_x: 0, move_y: 1_000_000, look_x: 0, look_y: 0, jump_pressed: false }
}

#[test]
fn divergence_test_respects_tolerance() {
    let a = Vec3i { x: 0, y: 0, z: 0 };
    let just_inside = Vec3i { x: ROLLBACK_THRESHOLD, y: -ROLLBACK_THRESHOLD, z: 0 };
    let just_outside = Vec3i { x: ROLLBACK_THRESHOLD + 1, y: 0, z: 0 };
    assert!(!should_rollback_position(&a, &just_inside));
    assert!(should_rollback_position(&a, &just_outside));
    assert!(!should_rollback_linear_velocity(&a, &just_inside));
    assert!(should_rollback_linear_velocity(&a, &just_outside));
}

#[test]
fn resimulation_replays_buffered_inputs_in_order() {
    // Rollback at tick 100 with last-agreed tick 95: five buffered
    // inputs for ticks 96..=100 are reapplied in order, matching five
    // manual steps exactly.
    let cfg = MovementConfig::default();
    let auth = KinematicState::spawn();
    let mut buf: InputBuffer = TickLog::new();
    for t in 96..=100u64 {
        record_input(&mut buf, t, forward_input());
    }
    let resimulated = resimulate(&auth, &buf, 95, 100, &cfg);

    let mut manual = auth;
    for _ in 0..5 {
        tick_step(&mut manual, &cfg, &forward_input());
    }
    assert_eq!(resimulated, manual);
    assert_ne!(resimulated, auth);
}

#[test]
fn resimulation_is_repeatable() {
    let cfg = MovementConfig::default();
    let auth = KinematicState::spawn();
    let mut buf: InputBuffer = TickLog::new();
    for t in 96..=100u64 {
        record_input(&mut buf, t, forward_input());
    }
    let first = resimulate(&auth, &buf, 95, 100, &cfg);
    let second = resimulate(&auth, &buf, 95, 100, &cfg);
    assert_eq!(first, second);
}

#[test]
fn resimulation_fills_missing_ticks_by_policy() {
    // Only tick 96 has an input; 97..=100 resolve by the staleness
    // policy (repeat within threshold), identical on every replay.
    let cfg = MovementConfig::default();
    let auth = KinematicState::spawn();
    let mut buf: InputBuffer = TickLog::new();
    record_input(&mut buf, 96, forward_input());
    let a = resimulate(&auth, &buf, 95, 100, &cfg);
    let b = resimulate(&auth, &buf, 95, 100, &cfg);
    assert_eq!(a, b);
}

#[test]
fn resimulation_over_zero_ticks_returns_the_snapshot() {
    let cfg = MovementConfig::default();
    let auth = KinematicState::spawn();
    let buf: InputBuffer = TickLog::new();
    assert_eq!(resimulate(&auth, &buf, 100, 100, &cfg), auth);
}

#[test]
fn reconcile_in_sync_changes_nothing() {
    let cfg = MovementConfig::default();
    let auth = KinematicState::spawn();
    let mut hist: StateHistory = TickLog::new();
    record_predicted(&mut hist, 95, auth);
    let buf: InputBuffer = TickLog::new();
    let mut state = auth;
    let r = reconcile(&mut state, &hist, &buf, 95, &auth, 100, &cfg);
    assert_eq!(r, ReconcileOutcome::InSync);
    assert_eq!(state, auth);
}

#[test]
fn reconcile_rolls_back_on_divergence() {
    let cfg = MovementConfig::default();
    let auth = KinematicState::spawn();
    // The stored prediction diverges from the authority by more than
    // the tolerance.
    let mut predicted = auth;
    predicted.position.x += 5_000;
    let mut hist: StateHistory = TickLog::new();
    record_predicted(&mut hist, 95, predicted);
    let mut buf: InputBuffer = TickLog::new();
    for t in 96..=100u64 {
        record_input(&mut buf, t, forward_input());
    }
    let mut state = predicted;
    let r = reconcile(&mut state, &hist, &buf, 95, &auth, 100, &cfg);
    assert_eq!(r, ReconcileOutcome::RolledBack { steps: 5 });
    assert_eq!(state, resimulate(&auth, &buf, 95, 100, &cfg));
}

#[test]
fn reconcile_snaps_without_stored_prediction() {
    let cfg = MovementConfig::default();
    let auth = KinematicState::spawn();
    let hist: StateHistory = TickLog::new();
    let buf: InputBuffer = TickLog::new();
    let mut state = KinematicState::spawn();
    state.position.z -= 1_000_000;
    let r = reconcile(&mut state, &hist, &buf, 95, &auth, 100, &cfg);
    assert_eq!(r, ReconcileOutcome::Snapped);
    assert_eq!(state, auth);
}

#[test]
fn reconcile_snaps_when_buffer_no_longer_reaches_back() {
    // The authoritative tick predates the oldest retained input: the
    // divergence is unresimulatable, so the state snaps to authority.
    let cfg = MovementConfig::default();
    let auth = KinematicState::spawn();
    let mut predicted = auth;
    predicted.position.x += 5_000;
    let mut hist: StateHistory = TickLog::new();
    record_predicted(&mut hist, 10, predicted);
    let mut buf: InputBuffer = TickLog::new();
    record_input(&mut buf, 50, forward_input());
    let mut state = predicted;
    let r = reconcile(&mut state, &hist, &buf, 10, &auth, 55, &cfg);
    assert_eq!(r, ReconcileOutcome::Snapped);
    assert_eq!(state, auth);
}
