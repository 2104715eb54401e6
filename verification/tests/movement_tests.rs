use netcode::input::InputSnapshot;
use netcode::math::SCALE;
use netcode::movement::{
    basis_from_yaw, body_rotation_quat, grounded_check, head_rotation_quat, shared_movement,
    tick_step, KinematicState, MovementConfig, PhysicalPlayerBodyMarker,
    PhysicalPlayerHeadMarker, QuatFix, Vec3i, PITCH_LIMIT,
};
use netcode::trig::{cosine_fix, sine_fix, HALF_TURN, QUARTER_TURN};

fn neutral() -> InputSnapshot {
    InputSnapshot { move_x: 0, move_y: 0, look_x: 0, look_y: 0, jump_pressed: false }
}

fn flat_basis() -> (Vec3i, Vec3i) {
    basis_from_yaw(0)
}

#[test]
fn sine_exact_at_axes() {
    assert_eq!(sine_fix(0), 0);
    assert_eq!(sine_fix(QUARTER_TURN), SCALE);
    assert_eq!(sine_fix(HALF_TURN), 0);
    assert_eq!(sine_fix(-QUARTER_TURN), -SCALE);
    assert_eq!(cosine_fix(0), SCALE);
    assert_eq!(cosine_fix(QUARTER_TURN), 0);
    assert_eq!(cosine_fix(HALF_TURN), -SCALE);
}

#[test]
fn basis_at_zero_yaw() {
    let (forward, right) = basis_from_yaw(0);
    assert_eq!((forward.x, forward.y, forward.z), (0, 0, -SCALE));
    assert_eq!((right.x, right.y, right.z), (SCALE, 0, 0));
}

#[test]
fn basis_at_quarter_turn() {
    let (forward, right) = basis_from_yaw(QUARTER_TURN);
    assert_eq!((forward.x, forward.y, forward.z), (-SCALE, 0, 0));
    assert_eq!((right.x, right.y, right.z), (0, 0, -SCALE));
}

#[test]
fn rotation_quats_at_rest_and_right_angle() {
    // Zero angles give the identity quaternion.
    assert_eq!(head_rotation_quat(0), QuatFix { x: 0, y: 0, z: 0, w: SCALE });
    assert_eq!(body_rotation_quat(0), QuatFix { x: 0, y: 0, z: 0, w: SCALE });
    // A quarter turn about y: sine and cosine of 45 degrees agree.
    let q = body_rotation_quat(QUARTER_TURN);
    assert_eq!(q.x, 0);
    assert_eq!(q.z, 0);
    assert_eq!(q.y, q.w);
    assert_eq!(q.y, 705_882);
}

#[test]
fn jump_overwrites_vertical_velocity() {
    // Grounded with a fresh jump edge: the vertical velocity becomes the
    // impulse (7.0 units), regardless of what it was before.
    let (forward, right) = flat_basis();
    let cfg = MovementConfig::default();
    let mut vel = Vec3i { x: 0, y: -3_000_000, z: 0 };
    let mut body = PhysicalPlayerBodyMarker { yaw: 0 };
    let mut head = PhysicalPlayerHeadMarker { pitch: 0 };
    let input = InputSnapshot { jump_pressed: true, ..neutral() };
    shared_movement(&forward, &right, &cfg, &mut vel, &mut body, &mut head, true, &input);
    assert_eq!(vel.y, 7_000_000);
}

#[test]
fn jump_needs_grounded() {
    let (forward, right) = flat_basis();
    let cfg = MovementConfig::default();
    let mut vel = Vec3i { x: 0, y: -3_000_000, z: 0 };
    let mut body = PhysicalPlayerBodyMarker { yaw: 0 };
    let mut head = PhysicalPlayerHeadMarker { pitch: 0 };
    let input = InputSnapshot { jump_pressed: true, ..neutral() };
    shared_movement(&forward, &right, &cfg, &mut vel, &mut body, &mut head, false, &input);
    assert_eq!(vel.y, -3_000_000);
}

#[test]
fn jump_needs_edge_not_hold() {
    // The edge flag is false while the key is merely held, so the step
    // leaves the vertical velocity alone even when grounded.
    let (forward, right) = flat_basis();
    let cfg = MovementConfig::default();
    let mut vel = Vec3i { x: 0, y: 123_456, z: 0 };
    let mut body = PhysicalPlayerBodyMarker { yaw: 0 };
    let mut head = PhysicalPlayerHeadMarker { pitch: 0 };
    let held = neutral();
    shared_movement(&forward, &right, &cfg, &mut vel, &mut body, &mut head, true, &held);
    assert_eq!(vel.y, 123_456);
}

#[test]
fn horizontal_clamp_exact_rescale() {
    // Speed 50 units exceeds the 10-unit cap: both components rescale
    // by 10/50, preserving direction; vertical is untouched.
    let (forward, right) = flat_basis();
    let cfg = MovementConfig::default();
    let mut vel = Vec3i { x: 30_000_000, y: 4_321, z: 40_000_000 };
    let mut body = PhysicalPlayerBodyMarker { yaw: 0 };
    let mut head = PhysicalPlayerHeadMarker { pitch: 0 };
    shared_movement(&forward, &right, &cfg, &mut vel, &mut body, &mut head, false,
        &neutral());
    assert_eq!(vel.x, 6_000_000);
    assert_eq!(vel.z, 8_000_000);
    assert_eq!(vel.y, 4_321);
}

#[test]
fn horizontal_clamp_leaves_slow_velocity_alone() {
    let (forward, right) = flat_basis();
    let cfg = MovementConfig::default();
    let mut vel = Vec3i { x: 3_000_000, y: 0, z: -4_000_000 };
    let mut body = PhysicalPlayerBodyMarker { yaw: 0 };
    let mut head = PhysicalPlayerHeadMarker { pitch: 0 };
    shared_movement(&forward, &right, &cfg, &mut vel, &mut body, &mut head, false,
        &neutral());
    assert_eq!((vel.x, vel.z), (3_000_000, -4_000_000));
}

#[test]
fn horizontal_speed_never_exceeds_max() {
    let (forward, right) = flat_basis();
    let cfg = MovementConfig::default();
    let mut vel = Vec3i { x: 0, y: 0, z: 0 };
    let mut body = PhysicalPlayerBodyMarker { yaw: 0 };
    let mut head = PhysicalPlayerHeadMarker { pitch: 0 };
    let forward_input = InputSnapshot { move_y: SCALE, ..neutral() };
    for _ in 0..100 {
        shared_movement(&forward, &right, &cfg, &mut vel, &mut body, &mut head, false,
            &forward_input);
        let sq = (vel.x as i128) * (vel.x as i128) + (vel.z as i128) * (vel.z as i128);
        assert!(sq <= (cfg.max_speed as i128) * (cfg.max_speed as i128));
    }
}

#[test]
fn pitch_clamps_at_limit() {
    // A huge downward look delta pins the pitch at -89.9 degrees.
    let (forward, right) = flat_basis();
    let cfg = MovementConfig::default();
    let mut vel = Vec3i { x: 0, y: 0, z: 0 };
    let mut body = PhysicalPlayerBodyMarker { yaw: 0 };
    let mut head = PhysicalPlayerHeadMarker { pitch: 0 };
    let look_down = InputSnapshot { look_y: 360_000_000, ..neutral() };
    for _ in 0..5 {
        shared_movement(&forward, &right, &cfg, &mut vel, &mut body, &mut head, false,
            &look_down);
        assert!(-PITCH_LIMIT <= head.pitch && head.pitch <= PITCH_LIMIT);
    }
    assert_eq!(head.pitch, -PITCH_LIMIT);
}

#[test]
fn yaw_wraps_without_clamp() {
    // The same magnitude of look delta that pins the pitch keeps turning
    // the yaw: it wraps modulo a revolution instead of clamping.
    let (forward, right) = flat_basis();
    let cfg = MovementConfig::default();
    let mut vel = Vec3i { x: 0, y: 0, z: 0 };
    let mut body = PhysicalPlayerBodyMarker { yaw: 0 };
    let mut head = PhysicalPlayerHeadMarker { pitch: 0 };
    let look_left = InputSnapshot { look_x: -360_000_000, ..neutral() };
    shared_movement(&forward, &right, &cfg, &mut vel, &mut body, &mut head, false,
        &look_left);
    assert_eq!(body.yaw, 108_000_000);
    shared_movement(&forward, &right, &cfg, &mut vel, &mut body, &mut head, false,
        &look_left);
    assert_eq!(body.yaw, -144_000_000);
}

#[test]
fn movement_step_is_deterministic() {
    // Bit-identical outputs from identical arguments, however often run.
    let cfg = MovementConfig::default();
    let input = InputSnapshot {
        move_x: 333_333,
        move_y: -777_777,
        look_x: 12_345_678,
        look_y: -9_999_999,
        jump_pressed: true,
    };
    let start = KinematicState::spawn();
    let mut a = start;
    let mut b = start;
    for _ in 0..50 {
        tick_step(&mut a, &cfg, &input);
        tick_step(&mut b, &cfg, &input);
    }
    assert_eq!(a, b);
}

#[test]
fn custom_tuning_caps_speed_lower() {
    // A custom five-unit cap clamps the same 3-4-5 velocity to 3-4.
    let (forward, right) = flat_basis();
    let cfg = MovementConfig::new(2_000_000, 5_000_000, 1_000_000, 0, 81_000_000);
    let mut vel = Vec3i { x: 30_000_000, y: 0, z: 40_000_000 };
    let mut body = PhysicalPlayerBodyMarker { yaw: 0 };
    let mut head = PhysicalPlayerHeadMarker { pitch: 0 };
    shared_movement(&forward, &right, &cfg, &mut vel, &mut body, &mut head, false,
        &neutral());
    assert_eq!((vel.x, vel.z), (3_000_000, 4_000_000));
}

#[test]
fn grounded_probe() {
    assert!(!grounded_check(&Vec3i { x: 0, y: 5_000_000, z: 0 }));
    assert!(grounded_check(&Vec3i { x: 0, y: 200_000, z: 0 }));
    assert!(grounded_check(&Vec3i { x: 0, y: -50_000, z: 0 }));
}

#[test]
fn gravity_and_position_advance_exactly() {
    // One airborne tick from spawn under neutral input: gravity pulls
    // 153000 micro-units per second, and the position advances by one
    // 64th of the velocity, truncating toward zero.
    let cfg = MovementConfig::default();
    let mut s = KinematicState::spawn();
    let n = neutral();
    tick_step(&mut s, &cfg, &n);
    assert_eq!(s.velocity.y, -153_000);
    assert_eq!(s.position.y, 5_000_000 - 2_390);
}

#[test]
fn damping_slows_grounded_body() {
    let cfg = MovementConfig::default();
    let mut s = KinematicState::spawn();
    s.position = Vec3i { x: 0, y: 0, z: 0 };
    s.velocity = Vec3i { x: 1_000_000, y: 0, z: -2_000_000 };
    let n = neutral();
    tick_step(&mut s, &cfg, &n);
    // Damping factor 0.9 while grounded.
    assert_eq!(s.velocity.x, 900_000);
    assert_eq!(s.velocity.z, -1_800_000);
}
