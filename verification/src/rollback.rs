//! Reconciliation and rollback.
//!
//! When an authoritative snapshot arrives, it is compared against the
//! predicted state stored for the same tick.  Differences below a small
//! absolute tolerance are ignored (they are integration noise, and
//! rolling back on them would oscillate).  On real divergence the local
//! state is reset to the authoritative snapshot and the simulation is
//! re-run tick by tick through the buffered inputs up to the current
//! tick — the same movement step, the same resolution policy, so the
//! replay is bit-identical however often it is retried.

use vstd::prelude::*;
use crate::math::abs_int;
use crate::movement::{
    kin_wf, tick_step, tick_step_view, run_ticks_view, lemma_tick_step_wf, KinematicState,
    MovementConfig, Vec3i, V3, KinView, POS_LIMIT, VEL_LIMIT,
};
use crate::input::{
    buffer_inputs_wf, lemma_resolve_wf, resolve_input, resolve_spec, InputBuffer,
    InputSnapshot,
};
use crate::log::TickLog;

verus! {

/// Absolute per-component tolerance below which predicted and
/// authoritative values count as agreeing (0.0001 world units).
pub const ROLLBACK_THRESHOLD: i64 = 100;

/// Client-side history of predicted states, one per tick, for comparing
/// against authoritative snapshots.
pub type StateHistory = TickLog<KinematicState>;

/// All components agree within an absolute tolerance.
pub open spec fn within_tolerance(a: V3, b: V3, tol: int) -> bool {
    &&& abs_int(a.x - b.x) <= tol
    &&& abs_int(a.y - b.y) <= tol
    &&& abs_int(a.z - b.z) <= tol
}

/// Whether one component pair differs beyond the tolerance.
fn component_diverges(a: i64, b: i64) -> (r: bool)
    requires
        -POS_LIMIT <= a <= POS_LIMIT,
        -POS_LIMIT <= b <= POS_LIMIT,
    ensures
        r == (abs_int(a - b) > ROLLBACK_THRESHOLD),
{
    let d = a - b;
    d > ROLLBACK_THRESHOLD || d < -ROLLBACK_THRESHOLD
}

/// Every state held in a history is well-formed.
pub open spec fn history_states_wf(h: StateHistory) -> bool {
    forall|i: int| 0 <= i < h.entries@.len() ==> (#[trigger] h.entries@[i]).value.wf()
}

/// A present entry of a well-formed history is a well-formed state.
pub proof fn lemma_history_at_wf(h: StateHistory, tick: u64)
    requires
        h.wf(),
        history_states_wf(h),
        h.has(tick),
    ensures
        h.at(tick).wf(),
{
    let j = h.index_of(tick);
    assert(0 <= j < h.entries@.len() && h.entries@[j].tick == tick);
    assert(h.entries@[j].value.wf());
}

/// Record a predicted state; the history keeps holding only well-formed
/// states.
pub fn record_predicted(h: &mut StateHistory, tick: u64, state: KinematicState)
    requires
        old(h).wf(),
        history_states_wf(*old(h)),
        state.wf(),
    ensures
        final(h).wf(),
        history_states_wf(*final(h)),
        forall|k: u64| #[trigger] final(h).has(k) <==> ((old(h).has(k) || k == tick)
            && k + crate::log::RETENTION_TICKS > old(h).newest_after(tick)),
        forall|k: u64| final(h).has(k) ==> #[trigger] final(h).at(k)
            == (if k == tick { state } else { old(h).at(k) }),
    {
    let ghost pre = *h;
    h.record(tick, state);
    proof {
        assert forall|i: int| 0 <= i < h.entries@.len() implies
            (#[trigger] h.entries@[i]).value.wf() by {
            let t = h.entries@[i].tick;
            assert(h.has(t));
            let j = h.index_of(t);
            assert(0 <= j < h.entries@.len() && h.entries@[j].tick == t);
            h.lemma_index_unique(i, j);
            assert(h.at(t) == h.entries@[i].value);
            if t != tick {
                assert(pre.has(t));
                lemma_history_at_wf(pre, t);
            }
        }
    }
}

/// True when the positions differ beyond the rollback tolerance.
pub fn should_rollback_position(this: &Vec3i, that: &Vec3i) -> (r: bool)
    requires
        -POS_LIMIT <= this.x <= POS_LIMIT,
        -POS_LIMIT <= this.y <= POS_LIMIT,
        -POS_LIMIT <= this.z <= POS_LIMIT,
        -POS_LIMIT <= that.x <= POS_LIMIT,
        -POS_LIMIT <= that.y <= POS_LIMIT,
        -POS_LIMIT <= that.z <= POS_LIMIT,
    ensures
        r == !within_tolerance(this@, that@, ROLLBACK_THRESHOLD as int),
{
    component_diverges(this.x, that.x) || component_diverges(this.y, that.y)
        || component_diverges(this.z, that.z)
}

/// True when the linear velocities differ beyond the rollback tolerance.
pub fn should_rollback_linear_velocity(this: &Vec3i, that: &Vec3i) -> (r: bool)
    requires
        -VEL_LIMIT <= this.x <= VEL_LIMIT,
        -VEL_LIMIT <= this.y <= VEL_LIMIT,
        -VEL_LIMIT <= this.z <= VEL_LIMIT,
        -VEL_LIMIT <= that.x <= VEL_LIMIT,
        -VEL_LIMIT <= that.y <= VEL_LIMIT,
        -VEL_LIMIT <= that.z <= VEL_LIMIT,
    ensures
        r == !within_tolerance(this@, that@, ROLLBACK_THRESHOLD as int),
{
    component_diverges(this.x, that.x) || component_diverges(this.y, that.y)
        || component_diverges(this.z, that.z)
}

/// State after resimulating from `from` (exclusive) to `to` (inclusive),
/// resolving each tick's input from the buffer and re-running the
/// movement step once per tick, in tick order.
pub open spec fn resim_view(s: KinView, buf: InputBuffer, from: u64, to: u64,
    cfg: MovementConfig) -> KinView
    decreases to - from,
{
    if to <= from {
        s
    } else {
        resim_view(tick_step_view(s, cfg, resolve_spec(buf, (from + 1) as u64)), buf,
            (from + 1) as u64, to, cfg)
    }
}

/// Peeling one tick off the end of a resimulation.
proof fn lemma_resim_snoc(s: KinView, buf: InputBuffer, from: u64, to: u64,
    cfg: MovementConfig)
    requires
        from < to,
    ensures
        resim_view(s, buf, from, to, cfg) == tick_step_view(
            resim_view(s, buf, from, (to - 1) as u64, cfg), cfg, resolve_spec(buf, to)),
    decreases to - from,
{
    let s1 = tick_step_view(s, cfg, resolve_spec(buf, (from + 1) as u64));
    assert(resim_view(s, buf, from, to, cfg) == resim_view(s1, buf, (from + 1) as u64, to,
        cfg));
    if from + 1 < to {
        lemma_resim_snoc(s1, buf, (from + 1) as u64, to, cfg);
        assert(resim_view(s, buf, from, (to - 1) as u64, cfg)
            == resim_view(s1, buf, (from + 1) as u64, (to - 1) as u64, cfg));
    } else {
        assert(resim_view(s1, buf, (from + 1) as u64, to, cfg) == s1);
        assert(resim_view(s, buf, from, (to - 1) as u64, cfg) == s);
    }
}

/// A resimulation is exactly a run of `to - from` movement steps, one
/// per tick in ascending order, over the resolved inputs.
pub proof fn lemma_resim_is_run(s: KinView, buf: InputBuffer, from: u64, to: u64,
    cfg: MovementConfig)
    requires
        from <= to,
    ensures
        resim_view(s, buf, from, to, cfg) == run_ticks_view(s, cfg,
            Seq::new((to - from) as nat, |i: int| resolve_spec(buf, (from + 1 + i) as u64))),
    decreases to - from,
{
    let inputs = Seq::new((to - from) as nat, |i: int| resolve_spec(buf, (from + 1 + i) as u64));
    if from < to {
        let s1 = tick_step_view(s, cfg, resolve_spec(buf, (from + 1) as u64));
        lemma_resim_is_run(s1, buf, (from + 1) as u64, to, cfg);
        let tail = Seq::new((to - from - 1) as nat,
            |i: int| resolve_spec(buf, (from + 2 + i) as u64));
        assert(inputs[0] == resolve_spec(buf, (from + 1) as u64));
        assert(inputs.subrange(1, inputs.len() as int) =~= tail);
    }
}

/// Resimulating twice from the same snapshot over the same buffer gives
/// the same state: rollback can be retried with no drift.
pub proof fn lemma_resim_deterministic(
    s1: KinView, buf1: InputBuffer, from1: u64, to1: u64, cfg1: MovementConfig,
    s2: KinView, buf2: InputBuffer, from2: u64, to2: u64, cfg2: MovementConfig,
)
    requires
        s1 == s2,
        buf1 == buf2,
        from1 == from2,
        to1 == to2,
        cfg1 == cfg2,
    ensures
        resim_view(s1, buf1, from1, to1, cfg1) == resim_view(s2, buf2, from2, to2, cfg2),
{
}

/// Rewind to an authoritative state at `from_tick` and re-run the
/// simulation forward through the buffered inputs up to `to_tick`.
/// Runs to completion: partially resimulated state is never returned.
pub fn resimulate(start: &KinematicState, buffer: &InputBuffer, from_tick: u64,
    to_tick: u64, cfg: &MovementConfig) -> (s: KinematicState)
    requires
        start.wf(),
        buffer.wf(),
        buffer_inputs_wf(*buffer),
        cfg.wf(),
        from_tick <= to_tick,
    ensures
        s@ == resim_view(start@, *buffer, from_tick, to_tick, *cfg),
        s.wf(),
{
    let mut state = *start;
    let mut t = from_tick;
    while t < to_tick
        invariant
            buffer.wf(),
            buffer_inputs_wf(*buffer),
            cfg.wf(),
            state.wf(),
            from_tick <= t <= to_tick,
            state@ == resim_view(start@, *buffer, from_tick, t, *cfg),
        decreases to_tick - t,
    {
        t = t + 1;
        let inp = resolve_input(buffer, t);
        proof {
            lemma_resolve_wf(*buffer, t);
        }
        tick_step(&mut state, cfg, &inp);
        proof {
            lemma_resim_snoc(start@, *buffer, from_tick, t, *cfg);
        }
    }
    state
}

/// What reconciliation decided for one authoritative snapshot.
#[derive(Clone, Copy, Debug, PartialEq, Eq, Structural)]
pub enum ReconcileOutcome {
    /// Prediction agreed within tolerance; nothing changed.
    InSync,
    /// Divergence detected and the buffered inputs reach back to the
    /// authoritative tick: state rewound and resimulated to now.
    RolledBack { steps: u64 },
    /// No usable prediction or the buffer no longer reaches back that
    /// far: state snapped to the authoritative snapshot, no replay.
    Snapped,
}

/// Whether the retained inputs reach back far enough to replay every
/// tick after `auth_tick`.  When they do not (eviction outran network
/// latency), the divergence is unresimulatable and the policy is a hard
/// snap to the authoritative state rather than a wrong replay.
pub open spec fn resimulatable(buf: InputBuffer, auth_tick: u64) -> bool {
    buf.entries@.len() == 0 || buf.oldest() <= auth_tick + 1
}

/// The predicted and authoritative snapshots agree within tolerance.
pub open spec fn agrees(pred: KinematicState, auth: KinematicState) -> bool {
    &&& within_tolerance(pred@.position, auth@.position, ROLLBACK_THRESHOLD as int)
    &&& within_tolerance(pred@.velocity, auth@.velocity, ROLLBACK_THRESHOLD as int)
}

/// Reconcile one authoritative snapshot at `auth_tick` against the
/// stored prediction, rolling the local state back and resimulating to
/// `current_tick` when they truly diverge.
pub fn reconcile(
    state: &mut KinematicState,
    history: &StateHistory,
    buffer: &InputBuffer,
    auth_tick: u64,
    auth_state: &KinematicState,
    current_tick: u64,
    cfg: &MovementConfig,
) -> (r: ReconcileOutcome)
    requires
        old(state).wf(),
        auth_state.wf(),
        history.wf(),
        history_states_wf(*history),
        buffer.wf(),
        buffer_inputs_wf(*buffer),
        cfg.wf(),
        auth_tick <= current_tick,
    ensures
        final(state).wf(),
        ({
            let pred = history.at(auth_tick);
            if !history.has(auth_tick) {
                r == ReconcileOutcome::Snapped && *final(state) == *auth_state
            } else if agrees(pred, *auth_state) {
                r == ReconcileOutcome::InSync && *final(state) == *old(state)
            } else if resimulatable(*buffer, auth_tick) {
                r == (ReconcileOutcome::RolledBack { steps: (current_tick - auth_tick) as u64 })
                    && final(state)@ == resim_view(auth_state@, *buffer, auth_tick,
                        current_tick, *cfg)
            } else {
                r == ReconcileOutcome::Snapped && *final(state) == *auth_state
            }
        }),
{
    match history.get(auth_tick) {
        None => {
            // Nothing to compare against: adopt the authority.
            *state = *auth_state;
            ReconcileOutcome::Snapped
        }
        Some(pred) => {
            proof {
                lemma_history_at_wf(*history, auth_tick);
            }
            let pos_diverged = should_rollback_position(&pred.position, &auth_state.position);
            let vel_diverged = should_rollback_linear_velocity(&pred.velocity,
                &auth_state.velocity);
            if !pos_diverged && !vel_diverged {
                ReconcileOutcome::InSync
            } else {
                let reachable = if buffer.entries.len() == 0 {
                    true
                } else {
                    buffer.entries[0].tick <= u64_saturating_add_one(auth_tick)
                };
                if reachable {
                    *state = resimulate(auth_state, buffer, auth_tick, current_tick, cfg);
                    ReconcileOutcome::RolledBack { steps: current_tick - auth_tick }
                } else {
                    *state = *auth_state;
                    ReconcileOutcome::Snapped
                }
            }
        }
    }
}

/// `t + 1`, saturating at the largest tick.
fn u64_saturating_add_one(t: u64) -> (r: u64)
    ensures
        r == (if t == u64::MAX { t as int } else { t + 1 }),
{
    if t == u64::MAX { t } else { t + 1 }
}

} // verus!
