//! The deterministic movement step and the per-tick physics glue.
//!
//! The step is shared verbatim between client prediction, server
//! authority, and rollback resimulation: it is a pure function of the
//! kinematic state, the movement tuning constants, the grounded flag and
//! one input snapshot, computed in fixed-point integers, so it replays
//! bit-identically wherever it runs.  The mathematical model of a step is
//! `movement_step_view` / `tick_step_view`, and every executable function
//! here is proved to return exactly its model's value.

use vstd::prelude::*;
use crate::math::{
    abs_int, clamp_i64, clamp_spec, isqrt_ceil, lemma_muldiv_bound, lemma_sqrt_ceil_bounds,
    lemma_sqrt_floor_bounds, lemma_sqrt_floor_lt, mag_u128, mul_bounded, muldiv_bounded,
    muldiv_spec, sqrt_ceil, SCALE,
};
use crate::trig::{
    cosine_fix, cosine_spec, sine_fix, sine_spec, wrap_angle, wrap_angle_spec, FULL_TURN,
    HALF_TURN,
};
use crate::input::InputSnapshot;

verus! {

/// The simulation advances at this fixed rate, independent of rendering.
pub const FIXED_TIMESTEP_HZ: i64 = 64;

/// Largest admissible movement acceleration (micro-units per tick).
pub const ACCEL_LIMIT: i64 = 1_000_000_000;

/// Largest speed any velocity component may reach (micro-units per second).
pub const VEL_LIMIT: i64 = 2_000_000_000;

/// Half-extent of the world along each axis (micro-units).
pub const POS_LIMIT: i64 = 1_000_000_000_000;

/// Head pitch is clamped to +/- 89.9 degrees to forbid full flips.
pub const PITCH_LIMIT: i64 = 89_900_000;

/// A body this close above the ground plane counts as grounded,
/// mirroring a downward shape-cast with a short reach.
pub const GROUND_PROBE: i64 = 200_000;

/// Gravity applied per tick while airborne (micro-units per second).
pub const GRAVITY_PER_TICK: i64 = 153_000;

/// Look input is scaled by 3/10 before it turns the head or body.
pub const LOOK_SENS_NUM: i64 = 3;

/// Denominator of the look sensitivity factor.
pub const LOOK_SENS_DEN: i64 = 10;

/// A fixed-point 3-vector (micro-units per component).
#[derive(Clone, Copy, Debug, PartialEq, Eq, Structural)]
pub struct Vec3i {
    pub x: i64,
    pub y: i64,
    pub z: i64,
}

/// Mathematical shadow of `Vec3i`.
pub ghost struct V3 {
    pub x: int,
    pub y: int,
    pub z: int,
}

impl View for Vec3i {
    type V = V3;

    open spec fn view(&self) -> V3 {
        V3 { x: self.x as int, y: self.y as int, z: self.z as int }
    }
}

/// Every component within `[-b, b]`.
pub open spec fn v3_bounded(v: V3, b: int) -> bool {
    &&& -b <= v.x <= b
    &&& -b <= v.y <= b
    &&& -b <= v.z <= b
}

/// The body half of a player: its facing yaw (micro-degrees).  The head
/// is a separate simulated part of the same player and is kept beside
/// the body in the owning aggregate, so no entity back-reference exists.
#[derive(Clone, Copy, Debug, PartialEq, Eq, Structural)]
pub struct PhysicalPlayerBodyMarker {
    pub yaw: i64,
}

impl Default for PhysicalPlayerBodyMarker {
    /// A new body faces straight ahead.
    fn default() -> (r: Self)
        ensures
            r.yaw == 0,
    {
        PhysicalPlayerBodyMarker { yaw: 0 }
    }
}

/// The head half of a player: its look pitch (micro-degrees).
#[derive(Clone, Copy, Debug, PartialEq, Eq, Structural)]
pub struct PhysicalPlayerHeadMarker {
    pub pitch: i64,
}

impl Default for PhysicalPlayerHeadMarker {
    /// A new head looks level.
    fn default() -> (r: Self)
        ensures
            r.pitch == 0,
    {
        PhysicalPlayerHeadMarker { pitch: 0 }
    }
}

/// Movement tuning constants, threaded explicitly through each tick call
/// instead of living in a global resource.
#[derive(Clone, Copy, Debug, PartialEq, Eq, Structural)]
pub struct MovementConfig {
    pub acceleration: i64,
    pub max_speed: i64,
    pub damping: i64,
    pub jump_impulse: i64,
    pub max_slope_angle: i64,
}

impl MovementConfig {
    pub open spec fn wf(&self) -> bool {
        &&& 0 <= self.acceleration <= ACCEL_LIMIT
        &&& 0 <= self.max_speed <= VEL_LIMIT
        &&& 0 <= self.damping <= SCALE
        &&& -VEL_LIMIT <= self.jump_impulse <= VEL_LIMIT
        &&& 0 <= self.max_slope_angle <= HALF_TURN
    }

    pub fn new(
        acceleration: i64,
        max_speed: i64,
        damping: i64,
        jump_impulse: i64,
        max_slope_angle: i64,
    ) -> (c: MovementConfig)
        requires
            0 <= acceleration <= ACCEL_LIMIT,
            0 <= max_speed <= VEL_LIMIT,
            0 <= damping <= SCALE,
            -VEL_LIMIT <= jump_impulse <= VEL_LIMIT,
            0 <= max_slope_angle <= HALF_TURN,
        ensures
            c == (MovementConfig { acceleration, max_speed, damping, jump_impulse,
                max_slope_angle }),
            c.wf(),
    {
        MovementConfig { acceleration, max_speed, damping, jump_impulse, max_slope_angle }
    }
}

impl Default for MovementConfig {
    /// The tuning the game ships with: one unit of acceleration per tick,
    /// ten units top speed, 0.9 damping, a jump impulse of seven units,
    /// and an 81-degree climbable slope.
    fn default() -> (c: MovementConfig)
        ensures
            c == (MovementConfig {
                acceleration: 1_000_000,
                max_speed: 10_000_000,
                damping: 900_000,
                jump_impulse: 7_000_000,
                max_slope_angle: 81_000_000,
            }),
            c.wf(),
    {
        MovementConfig {
            acceleration: 1_000_000,
            max_speed: 10_000_000,
            damping: 900_000,
            jump_impulse: 7_000_000,
            max_slope_angle: 81_000_000,
        }
    }
}

/// One simulated copy of a player's kinematics: position, linear
/// velocity, and the body/head rotation pair.  The client's predicted
/// copy and the server's authoritative copy each own one.
#[derive(Clone, Copy, Debug, PartialEq, Eq, Structural)]
pub struct KinematicState {
    pub position: Vec3i,
    pub velocity: Vec3i,
    pub body: PhysicalPlayerBodyMarker,
    pub head: PhysicalPlayerHeadMarker,
}

/// Mathematical shadow of `KinematicState`.
pub ghost struct KinView {
    pub position: V3,
    pub velocity: V3,
    pub yaw: int,
    pub pitch: int,
}

impl View for KinematicState {
    type V = KinView;

    open spec fn view(&self) -> KinView {
        KinView {
            position: self.position@,
            velocity: self.velocity@,
            yaw: self.body.yaw as int,
            pitch: self.head.pitch as int,
        }
    }
}

/// Well-formedness of a kinematic state: position inside the world,
/// velocity within the hard limit, pitch within its clamp range, yaw
/// normalized to one revolution.
pub open spec fn kin_wf(s: KinView) -> bool {
    &&& v3_bounded(s.position, POS_LIMIT as int)
    &&& v3_bounded(s.velocity, VEL_LIMIT as int)
    &&& -PITCH_LIMIT <= s.pitch <= PITCH_LIMIT
    &&& -HALF_TURN <= s.yaw < HALF_TURN
}

impl KinematicState {
    pub open spec fn wf(&self) -> bool {
        kin_wf(self@)
    }

    /// A player spawns five units above the origin, at rest, facing
    /// straight ahead.
    pub fn spawn() -> (s: KinematicState)
        ensures
            s@ == (KinView {
                position: V3 { x: 0, y: 5_000_000, z: 0 },
                velocity: V3 { x: 0, y: 0, z: 0 },
                yaw: 0,
                pitch: 0,
            }),
            s.wf(),
    {
        KinematicState {
            position: Vec3i { x: 0, y: 5_000_000, z: 0 },
            velocity: Vec3i { x: 0, y: 0, z: 0 },
            body: PhysicalPlayerBodyMarker { yaw: 0 },
            head: PhysicalPlayerHeadMarker { pitch: 0 },
        }
    }
}

/// Outcome of the movement step proper: new velocity and rotation
/// angles.  Position is advanced separately by the integrator.
pub ghost struct MoveOut {
    pub velocity: V3,
    pub yaw: int,
    pub pitch: int,
}

/// Acceleration gained along one axis of the forward/right basis.
pub open spec fn accel_delta(ax: int, ay: int, rc: int, fc: int, accel: int) -> int {
    muldiv_spec(ax * rc + ay * fc, accel, SCALE * SCALE)
}

/// Clamp the horizontal (x/z) speed to `maxs`, preserving direction:
/// when the squared speed exceeds `maxs` squared, both components are
/// rescaled by `maxs / ceil(sqrt(x^2 + z^2))`.
pub open spec fn clamp_h(x: int, z: int, maxs: int) -> (int, int) {
    let sq = x * x + z * z;
    if sq > maxs * maxs {
        let s = sqrt_ceil(sq as nat) as int;
        (muldiv_spec(x, maxs, s), muldiv_spec(z, maxs, s))
    } else {
        (x, z)
    }
}

/// Look delta after the fixed sensitivity factor.
pub open spec fn look_delta(look: int) -> int {
    muldiv_spec(look, LOOK_SENS_NUM as int, LOOK_SENS_DEN as int)
}

/// The movement step, in order: (a) accumulate acceleration along the
/// forward/right basis scaled by the move axes; (b) clamp horizontal
/// speed, never touching the vertical component; (c) set the vertical
/// velocity to the jump impulse only when grounded and the jump edge
/// fired this tick; (d) apply the look delta — pitch clamped to its
/// range, yaw reduced modulo a revolution.
pub open spec fn movement_step_view(
    v: V3,
    yaw: int,
    pitch: int,
    fwd: V3,
    rt: V3,
    cfg: MovementConfig,
    grounded: bool,
    inp: InputSnapshot,
) -> MoveOut {
    let ax = v.x + accel_delta(inp.move_x as int, inp.move_y as int, rt.x, fwd.x,
        cfg.acceleration as int);
    let az = v.z + accel_delta(inp.move_x as int, inp.move_y as int, rt.z, fwd.z,
        cfg.acceleration as int);
    let hc = clamp_h(ax, az, cfg.max_speed as int);
    let vy = if grounded && inp.jump_pressed { cfg.jump_impulse as int } else { v.y };
    let pitch2 = clamp_spec(pitch - look_delta(inp.look_y as int), -PITCH_LIMIT as int,
        PITCH_LIMIT as int);
    let yaw2 = wrap_angle_spec(yaw - look_delta(inp.look_x as int));
    MoveOut { velocity: V3 { x: hc.0, y: vy, z: hc.1 }, yaw: yaw2, pitch: pitch2 }
}

/// The clamped horizontal speed never exceeds the maximum, and each
/// component is bounded by it too.
pub proof fn lemma_clamp_h_in_bound(x: int, z: int, maxs: int)
    requires
        maxs >= 0,
    ensures
        ({
            let hc = clamp_h(x, z, maxs);
            &&& hc.0 * hc.0 + hc.1 * hc.1 <= maxs * maxs
            &&& abs_int(hc.0) <= maxs
            &&& abs_int(hc.1) <= maxs
        }),
{
    let sq = x * x + z * z;
    let hc = clamp_h(x, z, maxs);
    if sq > maxs * maxs {
        let s = sqrt_ceil(sq as nat) as int;
        assert(sq >= 0) by (nonlinear_arith)
            requires sq == x * x + z * z;
        lemma_sqrt_ceil_bounds(sq as nat);
        assert(s > 0);
        assert(sq <= s * s);
        let nx = abs_int(muldiv_spec(x, maxs, s));
        let nz = abs_int(muldiv_spec(z, maxs, s));
        vstd::arithmetic::div_mod::lemma_div_pos_is_pos(abs_int(x) * maxs, s);
        vstd::arithmetic::div_mod::lemma_div_pos_is_pos(abs_int(z) * maxs, s);
        assert(nx == (abs_int(x) * maxs) / s);
        assert(nz == (abs_int(z) * maxs) / s);
        vstd::arithmetic::div_mod::lemma_fundamental_div_mod(abs_int(x) * maxs, s);
        vstd::arithmetic::div_mod::lemma_remainder_lower(abs_int(x) * maxs, s);
        assert(nx * s <= abs_int(x) * maxs);
        vstd::arithmetic::div_mod::lemma_fundamental_div_mod(abs_int(z) * maxs, s);
        vstd::arithmetic::div_mod::lemma_remainder_lower(abs_int(z) * maxs, s);
        assert(nz * s <= abs_int(z) * maxs);
        assert(nx * nx * (s * s) <= (abs_int(x) * abs_int(x)) * (maxs * maxs))
            by (nonlinear_arith)
            requires nx * s <= abs_int(x) * maxs, nx >= 0, s > 0, abs_int(x) >= 0, maxs >= 0;
        assert(nz * nz * (s * s) <= (abs_int(z) * abs_int(z)) * (maxs * maxs))
            by (nonlinear_arith)
            requires nz * s <= abs_int(z) * maxs, nz >= 0, s > 0, abs_int(z) >= 0, maxs >= 0;
        assert(abs_int(x) * abs_int(x) == x * x) by (nonlinear_arith);
        assert(abs_int(z) * abs_int(z) == z * z) by (nonlinear_arith);
        assert((x * x + z * z) * (maxs * maxs) <= (s * s) * (maxs * maxs))
            by (nonlinear_arith)
            requires x * x + z * z <= s * s, maxs * maxs >= 0;
        assert(maxs * maxs >= 0) by (nonlinear_arith);
        assert((nx * nx + nz * nz) * (s * s) <= (s * s) * (maxs * maxs)) by (nonlinear_arith)
            requires
                nx * nx * (s * s) <= (abs_int(x) * abs_int(x)) * (maxs * maxs),
                nz * nz * (s * s) <= (abs_int(z) * abs_int(z)) * (maxs * maxs),
                abs_int(x) * abs_int(x) == x * x,
                abs_int(z) * abs_int(z) == z * z,
                (x * x + z * z) * (maxs * maxs) <= (s * s) * (maxs * maxs);
        assert(nx * nx + nz * nz <= maxs * maxs) by (nonlinear_arith)
            requires
                (nx * nx + nz * nz) * (s * s) <= (s * s) * (maxs * maxs),
                s > 0;
        assert(hc.0 * hc.0 == nx * nx) by (nonlinear_arith)
            requires hc.0 == nx || hc.0 == -nx;
        assert(hc.1 * hc.1 == nz * nz) by (nonlinear_arith)
            requires hc.1 == nz || hc.1 == -nz;
        assert(nx <= maxs) by (nonlinear_arith)
            requires nx * nx + nz * nz <= maxs * maxs, nx >= 0, nz >= 0, maxs >= 0;
        assert(nz <= maxs) by (nonlinear_arith)
            requires nx * nx + nz * nz <= maxs * maxs, nx >= 0, nz >= 0, maxs >= 0;
    } else {
        assert(abs_int(x) <= maxs && abs_int(z) <= maxs) by (nonlinear_arith)
            requires x * x + z * z <= maxs * maxs, maxs >= 0;
    }
}

/// The movement step: see `movement_step_view` for the model.  Shared by
/// client prediction, server authority and rollback resimulation.
pub fn shared_movement(
    forward: &Vec3i,
    right: &Vec3i,
    cfg: &MovementConfig,
    linear_velocity: &mut Vec3i,
    body: &mut PhysicalPlayerBodyMarker,
    head: &mut PhysicalPlayerHeadMarker,
    is_grounded: bool,
    input: &InputSnapshot,
)
    requires
        cfg.wf(),
        input.wf(),
        -SCALE <= forward@.x <= SCALE,
        -SCALE <= forward@.z <= SCALE,
        -SCALE <= right@.x <= SCALE,
        -SCALE <= right@.z <= SCALE,
        v3_bounded(old(linear_velocity)@, VEL_LIMIT as int),
        -HALF_TURN <= old(body).yaw <= HALF_TURN,
        -PITCH_LIMIT <= old(head).pitch <= PITCH_LIMIT,
    ensures
        ({
            let m = movement_step_view(old(linear_velocity)@, old(body).yaw as int,
                old(head).pitch as int, forward@, right@, *cfg, is_grounded, *input);
            &&& final(linear_velocity)@ == m.velocity
            &&& final(body).yaw == m.yaw
            &&& final(head).pitch == m.pitch
        }),
{
    // (a) accumulate acceleration along the forward/right basis.
    let sum_x: i64 = mul_bounded(input.move_x, right.x, SCALE, SCALE)
        + mul_bounded(input.move_y, forward.x, SCALE, SCALE);
    let sum_z: i64 = mul_bounded(input.move_x, right.z, SCALE, SCALE)
        + mul_bounded(input.move_y, forward.z, SCALE, SCALE);
    let dx = muldiv_bounded(sum_x, cfg.acceleration, SCALE * SCALE, 2_000_000_000_000,
        ACCEL_LIMIT);
    let dz = muldiv_bounded(sum_z, cfg.acceleration, SCALE * SCALE, 2_000_000_000_000,
        ACCEL_LIMIT);
    let ax: i64 = linear_velocity.x + dx;
    let az: i64 = linear_velocity.z + dz;

    // (b) clamp horizontal speed, preserving direction; vertical velocity
    // is never touched by this clamp.
    let mx = mag_u128(ax);
    let mz = mag_u128(az);
    proof {
        assert(mx * mx <= 4_000_000_000u128 * 4_000_000_000u128) by (nonlinear_arith)
            requires mx <= 4_000_000_000u128;
        assert(mz * mz <= 4_000_000_000u128 * 4_000_000_000u128) by (nonlinear_arith)
            requires mz <= 4_000_000_000u128;
    }
    let sq: u128 = mx * mx + mz * mz;
    proof {
        assert(sq == (ax as int) * (ax as int) + (az as int) * (az as int))
            by (nonlinear_arith)
            requires
                sq == mx * mx + mz * mz,
                mx == abs_int(ax as int),
                mz == abs_int(az as int);
    }
    let maxm: u128 = cfg.max_speed as u128;
    proof {
        assert(maxm * maxm <= 2_000_000_000u128 * 2_000_000_000u128) by (nonlinear_arith)
            requires maxm <= 2_000_000_000u128;
        assert(maxm * maxm == (cfg.max_speed as int) * (cfg.max_speed as int))
            by (nonlinear_arith)
            requires maxm == cfg.max_speed as int, maxm >= 0;
    }
    let maxsq: u128 = maxm * maxm;
    if sq > maxsq {
        let s64: u64 = isqrt_ceil(sq);
        proof {
            lemma_sqrt_floor_lt(sq as nat, 6_000_000_000nat);
            lemma_sqrt_floor_bounds(sq as nat);
            lemma_sqrt_ceil_bounds(sq as nat);
            vstd::arithmetic::div_mod::lemma_div_is_ordered_by_denominator(
                4_000_000_000 * (VEL_LIMIT as int), 1, s64 as int);
            vstd::arithmetic::div_mod::lemma_div_basics(4_000_000_000 * (VEL_LIMIT as int));
        }
        let si: i64 = s64 as i64;
        let cx = muldiv_bounded(ax, cfg.max_speed, si, 4_000_000_000, VEL_LIMIT);
        let cz = muldiv_bounded(az, cfg.max_speed, si, 4_000_000_000, VEL_LIMIT);
        linear_velocity.x = cx;
        linear_velocity.z = cz;
    } else {
        linear_velocity.x = ax;
        linear_velocity.z = az;
    }

    // (c) jump: only when grounded and the edge fired this very tick;
    // the impulse overwrites the vertical velocity, it does not add.
    if is_grounded && input.jump_pressed {
        linear_velocity.y = cfg.jump_impulse;
    }

    // (d) look: pitch is clamped to forbid flips, yaw is only reduced
    // modulo a full revolution.
    let dpitch = muldiv_bounded(input.look_y, LOOK_SENS_NUM, LOOK_SENS_DEN, FULL_TURN,
        LOOK_SENS_NUM);
    head.pitch = clamp_i64(head.pitch - dpitch, -PITCH_LIMIT, PITCH_LIMIT);
    let dyaw = muldiv_bounded(input.look_x, LOOK_SENS_NUM, LOOK_SENS_DEN, FULL_TURN,
        LOOK_SENS_NUM);
    body.yaw = wrap_angle(body.yaw - dyaw);
}

/// A fixed-point unit quaternion (components scaled by `SCALE`).
#[derive(Clone, Copy, Debug, PartialEq, Eq, Structural)]
pub struct QuatFix {
    pub x: i64,
    pub y: i64,
    pub z: i64,
    pub w: i64,
}

/// Sine and cosine of half the angle, the two numbers an axis-angle
/// quaternion is built from.
pub open spec fn half_angle_spec(angle: int) -> (int, int) {
    let h = muldiv_spec(angle, 1, 2);
    (sine_spec(h), cosine_spec(h))
}

/// The head's rotation: `pitch` about the local right (x) axis.
pub fn head_rotation_quat(pitch: i64) -> (q: QuatFix)
    requires
        -HALF_TURN <= pitch <= HALF_TURN,
    ensures
        q == (QuatFix {
            x: half_angle_spec(pitch as int).0 as i64,
            y: 0,
            z: 0,
            w: half_angle_spec(pitch as int).1 as i64,
        }),
{
    let h = muldiv_bounded(pitch, 1, 2, HALF_TURN, 1);
    QuatFix { x: sine_fix(h), y: 0, z: 0, w: cosine_fix(h) }
}

/// The body's rotation: `yaw` about the up (y) axis.
pub fn body_rotation_quat(yaw: i64) -> (q: QuatFix)
    requires
        -HALF_TURN <= yaw <= HALF_TURN,
    ensures
        q == (QuatFix {
            x: 0,
            y: half_angle_spec(yaw as int).0 as i64,
            z: 0,
            w: half_angle_spec(yaw as int).1 as i64,
        }),
{
    let h = muldiv_bounded(yaw, 1, 2, HALF_TURN, 1);
    QuatFix { x: 0, y: sine_fix(h), z: 0, w: cosine_fix(h) }
}

/// Forward basis vector of a body facing `yaw` (unit length, horizontal).
pub open spec fn forward_of_yaw(yaw: int) -> V3 {
    V3 { x: -sine_spec(yaw), y: 0, z: -cosine_spec(yaw) }
}

/// Right basis vector of a body facing `yaw` (unit length, horizontal).
pub open spec fn right_of_yaw(yaw: int) -> V3 {
    V3 { x: cosine_spec(yaw), y: 0, z: -sine_spec(yaw) }
}

/// Transform-derived forward and right vectors for a body yaw.
pub fn basis_from_yaw(yaw: i64) -> (b: (Vec3i, Vec3i))
    requires
        -HALF_TURN <= yaw <= HALF_TURN,
    ensures
        b.0@ == forward_of_yaw(yaw as int),
        b.1@ == right_of_yaw(yaw as int),
        -SCALE <= b.0@.x <= SCALE,
        -SCALE <= b.0@.z <= SCALE,
        -SCALE <= b.1@.x <= SCALE,
        -SCALE <= b.1@.z <= SCALE,
{
    let s = sine_fix(yaw);
    let c = cosine_fix(yaw);
    (Vec3i { x: -s, y: 0, z: -c }, Vec3i { x: c, y: 0, z: -s })
}

/// Whether a body this close above the ground plane counts as grounded.
/// Derived fresh each tick from the current position, never persisted.
pub open spec fn grounded_view(position_y: int) -> bool {
    position_y <= GROUND_PROBE
}

/// The ground probe: models a short downward shape-cast against the
/// ground plane.
pub fn grounded_check(position: &Vec3i) -> (r: bool)
    ensures
        r == grounded_view(position@.y),
{
    position.y <= GROUND_PROBE
}

/// Velocity after the per-tick physics glue: horizontal damping while
/// grounded, gravity (with a terminal-velocity floor) while airborne.
pub open spec fn integrate_velocity_view(v: V3, grounded: bool, damping: int) -> V3 {
    if grounded {
        V3 {
            x: muldiv_spec(v.x, damping, SCALE as int),
            y: v.y,
            z: muldiv_spec(v.z, damping, SCALE as int),
        }
    } else {
        let fy = v.y - GRAVITY_PER_TICK;
        V3 { x: v.x, y: if fy < -VEL_LIMIT { -VEL_LIMIT } else { fy }, z: v.z }
    }
}

/// Position advanced by one fixed timestep, kept inside the world bounds.
pub open spec fn advance_position_view(p: V3, v: V3) -> V3 {
    V3 {
        x: clamp_spec(p.x + muldiv_spec(v.x, 1, FIXED_TIMESTEP_HZ as int),
            -POS_LIMIT as int, POS_LIMIT as int),
        y: clamp_spec(p.y + muldiv_spec(v.y, 1, FIXED_TIMESTEP_HZ as int),
            -POS_LIMIT as int, POS_LIMIT as int),
        z: clamp_spec(p.z + muldiv_spec(v.z, 1, FIXED_TIMESTEP_HZ as int),
            -POS_LIMIT as int, POS_LIMIT as int),
    }
}

/// The fixed-step integrator: damping/gravity, then the position advance.
/// Stands in for the physics engine's deterministic step.
pub fn integrate(position: &mut Vec3i, velocity: &mut Vec3i, grounded: bool,
    cfg: &MovementConfig)
    requires
        cfg.wf(),
        v3_bounded(old(velocity)@, VEL_LIMIT as int),
        v3_bounded(old(position)@, POS_LIMIT as int),
    ensures
        final(velocity)@ == integrate_velocity_view(old(velocity)@, grounded,
            cfg.damping as int),
        final(position)@ == advance_position_view(old(position)@, final(velocity)@),
        v3_bounded(final(velocity)@, VEL_LIMIT as int),
        v3_bounded(final(position)@, POS_LIMIT as int),
{
    if grounded {
        velocity.x = muldiv_bounded(velocity.x, cfg.damping, SCALE, VEL_LIMIT, SCALE);
        velocity.z = muldiv_bounded(velocity.z, cfg.damping, SCALE, VEL_LIMIT, SCALE);
    } else {
        let fy = velocity.y - GRAVITY_PER_TICK;
        velocity.y = if fy < -VEL_LIMIT { -VEL_LIMIT } else { fy };
    }
    position.x = clamp_i64(
        position.x + muldiv_bounded(velocity.x, 1, FIXED_TIMESTEP_HZ, VEL_LIMIT, 1),
        -POS_LIMIT, POS_LIMIT);
    position.y = clamp_i64(
        position.y + muldiv_bounded(velocity.y, 1, FIXED_TIMESTEP_HZ, VEL_LIMIT, 1),
        -POS_LIMIT, POS_LIMIT);
    position.z = clamp_i64(
        position.z + muldiv_bounded(velocity.z, 1, FIXED_TIMESTEP_HZ, VEL_LIMIT, 1),
        -POS_LIMIT, POS_LIMIT);
}

/// One whole simulation tick for one player: derive the basis from the
/// yaw, probe the ground, run the movement step, then integrate.
pub open spec fn tick_step_view(s: KinView, cfg: MovementConfig, inp: InputSnapshot)
    -> KinView {
    let grounded = grounded_view(s.position.y);
    let m = movement_step_view(s.velocity, s.yaw, s.pitch, forward_of_yaw(s.yaw),
        right_of_yaw(s.yaw), cfg, grounded, inp);
    let v2 = integrate_velocity_view(m.velocity, grounded, cfg.damping as int);
    KinView {
        position: advance_position_view(s.position, v2),
        velocity: v2,
        yaw: m.yaw,
        pitch: m.pitch,
    }
}

/// Bounds of the movement step's outcome, for any well-formed inputs:
/// the horizontal speed never exceeds `max_speed` (and the clamp leaves
/// the vertical component alone — it is set by the jump rule only), the
/// pitch stays inside its clamp range, and the yaw stays normalized.
pub proof fn lemma_movement_step_bounds(
    v: V3,
    yaw: int,
    pitch: int,
    fwd: V3,
    rt: V3,
    cfg: MovementConfig,
    grounded: bool,
    inp: InputSnapshot,
)
    requires
        cfg.wf(),
        inp.wf(),
        v3_bounded(v, VEL_LIMIT as int),
        -HALF_TURN <= yaw <= HALF_TURN,
    ensures
        ({
            let m = movement_step_view(v, yaw, pitch, fwd, rt, cfg, grounded, inp);
            &&& m.velocity.x * m.velocity.x + m.velocity.z * m.velocity.z
                <= (cfg.max_speed as int) * (cfg.max_speed as int)
            &&& abs_int(m.velocity.x) <= cfg.max_speed
            &&& abs_int(m.velocity.z) <= cfg.max_speed
            &&& m.velocity.y == (if grounded && inp.jump_pressed { cfg.jump_impulse as int }
                else { v.y })
            &&& -VEL_LIMIT <= m.velocity.y <= VEL_LIMIT
            &&& -PITCH_LIMIT <= m.pitch <= PITCH_LIMIT
            &&& -HALF_TURN <= m.yaw < HALF_TURN
        }),
{
    let ax = v.x + accel_delta(inp.move_x as int, inp.move_y as int, rt.x, fwd.x,
        cfg.acceleration as int);
    let az = v.z + accel_delta(inp.move_x as int, inp.move_y as int, rt.z, fwd.z,
        cfg.acceleration as int);
    lemma_clamp_h_in_bound(ax, az, cfg.max_speed as int);
    lemma_muldiv_bound(inp.look_x as int, LOOK_SENS_NUM as int, LOOK_SENS_DEN as int,
        FULL_TURN as int, LOOK_SENS_NUM as int);
}

/// Well-formedness is preserved by a whole tick.
pub proof fn lemma_tick_step_wf(s: KinView, cfg: MovementConfig, inp: InputSnapshot)
    requires
        kin_wf(s),
        cfg.wf(),
        inp.wf(),
    ensures
        kin_wf(tick_step_view(s, cfg, inp)),
{
    let grounded = grounded_view(s.position.y);
    lemma_movement_step_bounds(s.velocity, s.yaw, s.pitch, forward_of_yaw(s.yaw),
        right_of_yaw(s.yaw), cfg, grounded, inp);
    let m = movement_step_view(s.velocity, s.yaw, s.pitch, forward_of_yaw(s.yaw),
        right_of_yaw(s.yaw), cfg, grounded, inp);
    if grounded {
        lemma_muldiv_bound(m.velocity.x, cfg.damping as int, SCALE as int,
            VEL_LIMIT as int, SCALE as int);
        lemma_muldiv_bound(m.velocity.z, cfg.damping as int, SCALE as int,
            VEL_LIMIT as int, SCALE as int);
    }
}

pub fn tick_step(state: &mut KinematicState, cfg: &MovementConfig, input: &InputSnapshot)
    requires
        old(state).wf(),
        cfg.wf(),
        input.wf(),
    ensures
        final(state)@ == tick_step_view(old(state)@, *cfg, *input),
        final(state).wf(),
{
    let basis = basis_from_yaw(state.body.yaw);
    let grounded = grounded_check(&state.position);
    let mut vel = state.velocity;
    let mut body = state.body;
    let mut head = state.head;
    shared_movement(&basis.0, &basis.1, cfg, &mut vel, &mut body, &mut head, grounded,
        input);
    proof {
        lemma_movement_step_bounds(old(state).velocity@, old(state).body.yaw as int,
            old(state).head.pitch as int, forward_of_yaw(old(state).body.yaw as int),
            right_of_yaw(old(state).body.yaw as int), *cfg, grounded, *input);
    }
    let mut pos = state.position;
    integrate(&mut pos, &mut vel, grounded, cfg);
    state.position = pos;
    state.velocity = vel;
    state.body = body;
    state.head = head;
    proof {
        lemma_tick_step_wf(old(state)@, *cfg, *input);
    }
}

/// A run of consecutive ticks, applying one snapshot per tick in order.
pub open spec fn run_ticks_view(s: KinView, cfg: MovementConfig, inputs: Seq<InputSnapshot>)
    -> KinView
    decreases inputs.len(),
{
    if inputs.len() == 0 {
        s
    } else {
        run_ticks_view(tick_step_view(s, cfg, inputs[0]), cfg,
            inputs.subrange(1, inputs.len() as int))
    }
}

/// Well-formedness is preserved by any run of ticks; in particular the
/// head pitch stays within its clamp range after any sequence of steps.
pub proof fn lemma_run_ticks_wf(s: KinView, cfg: MovementConfig, inputs: Seq<InputSnapshot>)
    requires
        kin_wf(s),
        cfg.wf(),
        forall|i: int| 0 <= i < inputs.len() ==> (#[trigger] inputs[i]).wf(),
    ensures
        kin_wf(run_ticks_view(s, cfg, inputs)),
        -PITCH_LIMIT <= run_ticks_view(s, cfg, inputs).pitch <= PITCH_LIMIT,
    decreases inputs.len(),
{
    if inputs.len() > 0 {
        lemma_tick_step_wf(s, cfg, inputs[0]);
        lemma_run_ticks_wf(tick_step_view(s, cfg, inputs[0]), cfg,
            inputs.subrange(1, inputs.len() as int));
    }
}

/// Determinism of the movement step: identical arguments give identical
/// outcomes, bit for bit.  Rollback correctness rests on this.
pub proof fn lemma_movement_step_deterministic(
    v1: V3, yaw1: int, pitch1: int, fwd1: V3, rt1: V3, cfg1: MovementConfig,
    grounded1: bool, inp1: InputSnapshot,
    v2: V3, yaw2: int, pitch2: int, fwd2: V3, rt2: V3, cfg2: MovementConfig,
    grounded2: bool, inp2: InputSnapshot,
)
    requires
        v1 == v2,
        yaw1 == yaw2,
        pitch1 == pitch2,
        fwd1 == fwd2,
        rt1 == rt2,
        cfg1 == cfg2,
        grounded1 == grounded2,
        inp1 == inp2,
    ensures
        movement_step_view(v1, yaw1, pitch1, fwd1, rt1, cfg1, grounded1, inp1)
            == movement_step_view(v2, yaw2, pitch2, fwd2, rt2, cfg2, grounded2, inp2),
{
}

/// Determinism of a whole run of ticks: the same starting state, tuning
/// and input sequence end in the same state, however often replayed.
pub proof fn lemma_run_ticks_deterministic(
    s1: KinView, cfg1: MovementConfig, inputs1: Seq<InputSnapshot>,
    s2: KinView, cfg2: MovementConfig, inputs2: Seq<InputSnapshot>,
)
    requires
        s1 == s2,
        cfg1 == cfg2,
        inputs1 == inputs2,
    ensures
        run_ticks_view(s1, cfg1, inputs1) == run_ticks_view(s2, cfg2, inputs2),
{
}

/// The jump rule: the vertical velocity is set (overwritten, not added)
/// to the jump impulse exactly when the body is grounded and the jump
/// edge fired on this very tick; otherwise it is left unchanged.
pub proof fn lemma_jump_only_on_grounded_edge(
    v: V3, yaw: int, pitch: int, fwd: V3, rt: V3, cfg: MovementConfig,
    grounded: bool, inp: InputSnapshot,
)
    ensures
        ({
            let m = movement_step_view(v, yaw, pitch, fwd, rt, cfg, grounded, inp);
            &&& (grounded && inp.jump_pressed) ==> m.velocity.y == cfg.jump_impulse
            &&& !(grounded && inp.jump_pressed) ==> m.velocity.y == v.y
        }),
{
}

/// Pitch is clamped, yaw is not: the whole look delta reaches the yaw,
/// reduced only modulo full revolutions (which denote the same facing),
/// so the body may turn through any number of full revolutions.
pub proof fn lemma_yaw_never_clamped(
    v: V3, yaw: int, pitch: int, fwd: V3, rt: V3, cfg: MovementConfig,
    grounded: bool, inp: InputSnapshot,
)
    ensures
        ({
            let m = movement_step_view(v, yaw, pitch, fwd, rt, cfg, grounded, inp);
            let raw = yaw - look_delta(inp.look_x as int);
            m.yaw == raw || m.yaw == raw + FULL_TURN || m.yaw == raw - FULL_TURN
        }),
{
    crate::trig::lemma_wrap_angle_congruent(yaw - look_delta(inp.look_x as int));
}

/// Holding the jump key without a fresh press captures no edge, so a
/// held jump never re-triggers: the vertical velocity is untouched.
pub proof fn lemma_held_jump_does_not_retrigger(
    v: V3, yaw: int, pitch: int, fwd: V3, rt: V3, cfg: MovementConfig,
    grounded: bool, inp: InputSnapshot, jump_held: bool, jump_held_prev: bool,
)
    requires
        inp.jump_pressed == (jump_held && !jump_held_prev),
        jump_held_prev,
    ensures
        movement_step_view(v, yaw, pitch, fwd, rt, cfg, grounded, inp).velocity.y == v.y,
{
}

} // verus!
