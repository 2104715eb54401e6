use netcode::input::InputSnapshot;
use netcode::movement::Vec3i;
use netcode::session::{
    authority_tick, predict_tick, reconcile_player, record_player_input, Player, PlayerId,
    Registry,
};
use netcode::rollback::ReconcileOutcome;

fn forward_input() -> InputSnapshot {
    InputSnapshot { move_x: 0, move_y: 1_000_000, look_x: 0, look_y: 0, jump_pressed: false }
}

#[test]
fn player_spawns_at_rest_above_origin() {
    let p = Player::new(PlayerId(7));
    assert_eq!(p.id, PlayerId(7));
    assert_eq!(p.state.position, Vec3i { x: 0, y: 5_000_000, z: 0 });
    assert_eq!(p.state.velocity, Vec3i { x: 0, y: 0, z: 0 });
    assert_eq!(p.state.body.yaw, 0);
    assert_eq!(p.state.head.pitch, 0);
    assert!(p.buffer.entries.is_empty());
    assert!(p.history.entries.is_empty());
}

#[test]
fn registry_connect_disconnect() {
    let mut reg = Registry::new();
    assert!(reg.connect(PlayerId(1)));
    assert!(reg.connect(PlayerId(2)));
    // Ids are unique per active connection.
    assert!(!reg.connect(PlayerId(1)));
    assert_eq!(reg.players.len(), 2);
    assert!(reg.lookup(PlayerId(1)).is_some());
    assert!(reg.disconnect(PlayerId(1)));
    assert!(reg.lookup(PlayerId(1)).is_none());
    assert!(!reg.disconnect(PlayerId(1)));
    // An id may be recycled after disconnect.
    assert!(reg.connect(PlayerId(1)));
}

#[test]
fn rebroadcast_targets_exclude_sender() {
    let mut reg = Registry::new();
    reg.connect(PlayerId(1));
    reg.connect(PlayerId(2));
    reg.connect(PlayerId(3));
    let targets = reg.broadcast_targets(PlayerId(2));
    assert_eq!(targets, vec![PlayerId(1), PlayerId(3)]);
}

#[test]
fn authority_applies_received_input() {
    // One authoritative tick with a forward input from spawn: the body
    // accelerates one unit along -z and gravity pulls while airborne.
    let mut p = Player::new(PlayerId(1));
    authority_tick(&mut p, 1, &forward_input());
    assert_eq!(p.state.velocity.z, -1_000_000);
    assert_eq!(p.state.velocity.y, -153_000);
    assert_eq!(p.state.position.z, -15_625);
    assert_eq!(p.state.position.y, 5_000_000 - 2_390);
    // The input was recorded for that tick.
    assert_eq!(p.buffer.get(1), Some(forward_input()));
}

#[test]
fn prediction_matches_authority_on_same_inputs() {
    // The deterministic step is shared verbatim: a client predicting
    // from recorded inputs lands exactly where the server does.
    let mut server = Player::new(PlayerId(1));
    let mut client = Player::new(PlayerId(1));
    for t in 1..=10u64 {
        authority_tick(&mut server, t, &forward_input());
        record_player_input(&mut client, t, &forward_input());
        predict_tick(&mut client, t);
    }
    assert_eq!(client.state, server.state);
}

#[test]
fn prediction_records_history() {
    let mut p = Player::new(PlayerId(1));
    record_player_input(&mut p, 1, &forward_input());
    predict_tick(&mut p, 1);
    assert_eq!(p.history.get(1), Some(p.state));
}

#[test]
fn reconcile_player_rolls_back_to_server_state() {
    // The client mispredicts (it missed an input the server had); on
    // the next authoritative snapshot it rolls back and ends exactly
    // at the server's state.
    let mut server = Player::new(PlayerId(1));
    let mut client = Player::new(PlayerId(1));
    for t in 1..=5u64 {
        authority_tick(&mut server, t, &forward_input());
        // The client never saw the inputs: it predicts from an empty
        // buffer (neutral) and records its wrong guesses.
        predict_tick(&mut client, t);
    }
    // The server's inputs arrive late; now the buffer has them.
    for t in 1..=5u64 {
        record_player_input(&mut client, t, &forward_input());
    }
    // Authoritative snapshot for tick 0 (the spawn state) plus replay.
    let auth = Player::new(PlayerId(1)).state;
    let r = reconcile_player(&mut client, 0, &auth, 5);
    assert_eq!(r, ReconcileOutcome::Snapped);
    // No stored prediction for tick 0: snapped to authority. Now replay
    // the five ticks through the buffered inputs.
    for t in 1..=5u64 {
        predict_tick(&mut client, t);
    }
    assert_eq!(client.state, server.state);
}
