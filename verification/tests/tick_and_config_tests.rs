use netcode::netconfig::{
    shared_config, LinkConditionerConfig, MyNetConfigControl, NetAddress, NetMode,
    SharedConfig, NETCODE_PORT,
};
use netcode::states::{go_ingame, pause_unpause_game, GameState, InGamePaused, InGameUnpaused};
use netcode::tick::{TickScheduler, TICK_INTERVAL_NS};

#[test]
fn scheduler_steps_integrally_with_wall_time() {
    let mut s = TickScheduler::new();
    // Just under one tick of time: no step owed, remainder kept.
    assert_eq!(s.advance_time(TICK_INTERVAL_NS - 1), 0);
    assert_eq!(s.advance_time(1), 1);
    assert_eq!(s.accumulator_ns, 0);
    // One second is exactly 64 ticks at the fixed rate.
    assert_eq!(s.advance_time(1_000_000_000), 64);
    assert_eq!(s.accumulator_ns, 0);
}

#[test]
fn scheduler_step_advances_once() {
    let mut s = TickScheduler::new();
    s.step();
    s.step();
    assert_eq!(s.tick(), 2);
}

#[test]
fn scheduler_exposes_rollback_tick_while_resimulating() {
    let mut s = TickScheduler::new();
    for _ in 0..100 {
        s.step();
    }
    assert_eq!(s.tick_or_rollback_tick(), 100);
    s.begin_rollback(95);
    assert!(s.is_rollback());
    assert_eq!(s.tick_or_rollback_tick(), 95);
    for expected in 96..=100u64 {
        s.rollback_step();
        assert_eq!(s.tick_or_rollback_tick(), expected);
    }
    // Reaching the current tick ends the pass.
    s.rollback_step();
    assert!(!s.is_rollback());
    assert_eq!(s.tick_or_rollback_tick(), 100);
}

#[test]
fn game_state_transitions() {
    assert_eq!(GameState::default(), GameState::MainMenu);
    assert_eq!(go_ingame(), GameState::Started { paused: false });
    let running = GameState::Started { paused: false };
    assert_eq!(pause_unpause_game(&running, false), None);
    assert_eq!(pause_unpause_game(&running, true),
        Some(GameState::Started { paused: true }));
    assert_eq!(pause_unpause_game(&GameState::Started { paused: true }, true),
        Some(GameState::Started { paused: false }));
    assert_eq!(pause_unpause_game(&GameState::MainMenu, true), None);
}

#[test]
fn computed_states_track_pause_flag() {
    let running = GameState::Started { paused: false };
    let paused = GameState::Started { paused: true };
    assert_eq!(InGameUnpaused::compute(&running), Some(InGameUnpaused));
    assert_eq!(InGameUnpaused::compute(&paused), None);
    assert_eq!(InGamePaused::compute(&paused), Some(InGamePaused));
    assert_eq!(InGamePaused::compute(&GameState::MainMenu), None);
}

#[test]
fn shared_config_agrees_on_tick_duration() {
    let c = shared_config();
    assert_eq!(c, SharedConfig {
        server_replication_interval_ms: 100,
        tick_duration_ns: TICK_INTERVAL_NS,
        host_server: true,
    });
}

#[test]
fn net_config_host_and_join() {
    let mut control = MyNetConfigControl {
        client_config: netcode::netconfig::ClientConfig {
            shared: shared_config(),
            net: NetMode::Local { id: 99 },
            conditioner: MyNetConfigControl::get_default_conditioner(),
        },
    };
    control.set_to_host();
    assert_eq!(control.client_config.net, NetMode::Local { id: 0 });
    control.set_to_join();
    assert_eq!(control.client_config.net, NetMode::Netcode {
        server: NetAddress { a: 127, b: 0, c: 0, d: 1, port: NETCODE_PORT },
        client_id: 1,
        protocol_id: 0,
    });
    assert_eq!(control.client_config.conditioner, LinkConditionerConfig {
        incoming_latency_ms: 0,
        incoming_jitter_ms: 0,
        incoming_loss_permille: 0,
    });
}
