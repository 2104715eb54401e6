//! Input capture, the per-player input buffer, and the stale-input
//! resolution policy.
//!
//! A snapshot of player intent is recorded per tick.  The prediction
//! controller asks the buffer which snapshot to feed the movement step:
//! the fresh one when present, the last known one while it is only
//! slightly stale, and the neutral snapshot otherwise.  Resolution is a
//! total function of the buffer contents and the tick, so a rollback
//! replay resolves exactly the same inputs again.

use vstd::prelude::*;
use crate::math::SCALE;
use crate::trig::FULL_TURN;
use crate::log::{TickLog, RETENTION_TICKS};

verus! {

/// Inputs staler than this many ticks are replaced by the neutral input.
pub const MAX_STALE_TICKS: u64 = 6;

/// How many ticks of input history are retained per player.
pub const INPUT_RETENTION_TICKS: u64 = RETENTION_TICKS;

/// The actions a player can express, and how each is controlled.
#[derive(Clone, Copy, Debug, PartialEq, Eq, Structural, Hash)]
pub enum PlayerActions {
    Move,
    LookAround,
    Jump,
}

/// How an action is sampled from hardware.
#[derive(Clone, Copy, Debug, PartialEq, Eq, Structural)]
pub enum InputControlKind {
    DualAxis,
    Button,
}

impl PlayerActions {
    /// Movement and look are two-axis controls; jumping is a button.
    pub fn input_control_kind(&self) -> (k: InputControlKind)
        ensures
            k == (match self {
                PlayerActions::Move | PlayerActions::LookAround => InputControlKind::DualAxis,
                PlayerActions::Jump => InputControlKind::Button,
            }),
    {
        match self {
            PlayerActions::Move | PlayerActions::LookAround => InputControlKind::DualAxis,
            PlayerActions::Jump => InputControlKind::Button,
        }
    }
}

/// Per-tick captured intent: movement axes, look deltas (micro-degrees)
/// and the edge-triggered jump flag.  Immutable once recorded.
#[derive(Clone, Copy, Debug, PartialEq, Eq, Structural)]
pub struct InputSnapshot {
    pub move_x: i64,
    pub move_y: i64,
    pub look_x: i64,
    pub look_y: i64,
    pub jump_pressed: bool,
}

impl InputSnapshot {
    /// The neutral snapshot: no movement, no look, jump not pressed.
    pub open spec fn neutral_spec() -> InputSnapshot {
        InputSnapshot { move_x: 0, move_y: 0, look_x: 0, look_y: 0, jump_pressed: false }
    }

    /// Axes within one unit, look deltas within one revolution.
    pub open spec fn wf(&self) -> bool {
        &&& -SCALE <= self.move_x <= SCALE
        &&& -SCALE <= self.move_y <= SCALE
        &&& -FULL_TURN <= self.look_x <= FULL_TURN
        &&& -FULL_TURN <= self.look_y <= FULL_TURN
    }

    pub fn neutral() -> (s: InputSnapshot)
        ensures
            s == InputSnapshot::neutral_spec(),
            s.wf(),
    {
        InputSnapshot { move_x: 0, move_y: 0, look_x: 0, look_y: 0, jump_pressed: false }
    }
}

impl Default for InputSnapshot {
    /// The default input is the neutral one.
    fn default() -> (s: InputSnapshot)
        ensures
            s == InputSnapshot::neutral_spec(),
    {
        InputSnapshot::neutral()
    }
}

/// Sample one tick of intent into an immutable snapshot.  The jump flag is
/// edge-triggered: it is set only when the key is down this tick and was
/// not down on the previous one, so holding the key does not re-trigger.
pub fn capture_input(
    move_x: i64,
    move_y: i64,
    look_x: i64,
    look_y: i64,
    jump_held: bool,
    jump_held_prev: bool,
) -> (s: InputSnapshot)
    requires
        -SCALE <= move_x <= SCALE,
        -SCALE <= move_y <= SCALE,
        -FULL_TURN <= look_x <= FULL_TURN,
        -FULL_TURN <= look_y <= FULL_TURN,
    ensures
        s == (InputSnapshot {
            move_x,
            move_y,
            look_x,
            look_y,
            jump_pressed: jump_held && !jump_held_prev,
        }),
        s.wf(),
{
    InputSnapshot { move_x, move_y, look_x, look_y, jump_pressed: jump_held && !jump_held_prev }
}

/// Per-player history of inputs, ordered by tick, bounded to the last
/// `INPUT_RETENTION_TICKS` ticks.
pub type InputBuffer = TickLog<InputSnapshot>;

/// Every snapshot held in the buffer is well-formed.
pub open spec fn buffer_inputs_wf(buf: InputBuffer) -> bool {
    forall|i: int| 0 <= i < buf.entries@.len() ==> (#[trigger] buf.entries@[i]).value.wf()
}

/// A present entry of a well-formed buffer is a well-formed snapshot.
pub proof fn lemma_at_wf(buf: InputBuffer, tick: u64)
    requires
        buf.wf(),
        buffer_inputs_wf(buf),
        buf.has(tick),
    ensures
        buf.at(tick).wf(),
{
    let j = buf.index_of(tick);
    assert(0 <= j < buf.entries@.len() && buf.entries@[j].tick == tick);
    assert(buf.entries@[j].value.wf());
}

/// Record a well-formed snapshot; the buffer keeps holding only
/// well-formed snapshots.
pub fn record_input(buf: &mut InputBuffer, tick: u64, snapshot: InputSnapshot)
    requires
        old(buf).wf(),
        buffer_inputs_wf(*old(buf)),
        snapshot.wf(),
    ensures
        final(buf).wf(),
        buffer_inputs_wf(*final(buf)),
        forall|k: u64| #[trigger] final(buf).has(k) <==> ((old(buf).has(k) || k == tick)
            && k + INPUT_RETENTION_TICKS > old(buf).newest_after(tick)),
        forall|k: u64| final(buf).has(k) ==> #[trigger] final(buf).at(k)
            == (if k == tick { snapshot } else { old(buf).at(k) }),
        final(buf).entries@.len() > 0,
        final(buf).newest() == old(buf).newest_after(tick),
{
    let ghost pre = *buf;
    buf.record(tick, snapshot);
    proof {
        assert forall|i: int| 0 <= i < buf.entries@.len() implies
            (#[trigger] buf.entries@[i]).value.wf() by {
            let t = buf.entries@[i].tick;
            assert(buf.has(t));
            let j = buf.index_of(t);
            assert(0 <= j < buf.entries@.len() && buf.entries@[j].tick == t);
            buf.lemma_index_unique(i, j);
            assert(buf.at(t) == buf.entries@[i].value);
            if t != tick {
                assert(pre.has(t));
                lemma_at_wf(pre, t);
            }
        }
    }
}

/// Which snapshot the prediction controller feeds the movement step at
/// `tick`: the fresh one when recorded; otherwise the last known one
/// while it is at most `MAX_STALE_TICKS` old; otherwise (long stall, or
/// nothing recorded yet) the neutral one.
pub open spec fn resolve_spec(buf: InputBuffer, tick: u64) -> InputSnapshot {
    if buf.has(tick) {
        buf.at(tick)
    } else if buf.entries@.len() > 0 {
        if tick > buf.newest() && tick - buf.newest() > MAX_STALE_TICKS {
            InputSnapshot::neutral_spec()
        } else {
            buf.at(buf.newest())
        }
    } else {
        InputSnapshot::neutral_spec()
    }
}

/// Resolve the input to apply at `tick`.  A deterministic, total function
/// of the buffer contents and the tick, with no hidden state, so rollback
/// replays resolve identically.
pub fn resolve_input(buf: &InputBuffer, tick: u64) -> (r: InputSnapshot)
    requires
        buf.wf(),
    ensures
        r == resolve_spec(*buf, tick),
{
    match buf.get(tick) {
        Some(s) => s,
        None => match buf.get_last_with_tick() {
            Some((prev_tick, prev_input)) => {
                let staleness: u64 = if tick > prev_tick { tick - prev_tick } else { 0 };
                if staleness > MAX_STALE_TICKS {
                    // Too stale: repeating old intent is unsafe, go neutral.
                    InputSnapshot::neutral()
                } else {
                    // Briefly stale: repeat the last known intent.
                    prev_input
                }
            }
            // Nothing recorded yet (just connected): neutral.
            None => InputSnapshot::neutral(),
        },
    }
}

/// Resolution of a well-formed buffer is a well-formed snapshot.
pub proof fn lemma_resolve_wf(buf: InputBuffer, tick: u64)
    requires
        buf.wf(),
        buffer_inputs_wf(buf),
    ensures
        resolve_spec(buf, tick).wf(),
{
    if buf.has(tick) {
        lemma_at_wf(buf, tick);
    } else if buf.entries@.len() > 0 {
        assert(buf.entries@[buf.entries@.len() - 1].tick == buf.newest());
        assert(buf.has(buf.newest()));
        lemma_at_wf(buf, buf.newest());
    }
}

/// Identity law: a tick with a fresh recorded input resolves to exactly
/// that input.
pub proof fn lemma_resolve_fresh(buf: InputBuffer, tick: u64)
    requires
        buf.wf(),
        buf.has(tick),
    ensures
        resolve_spec(buf, tick) == buf.at(tick),
{
}

/// No recorded tick can exceed the newest one.
proof fn lemma_no_entry_beyond_newest(buf: InputBuffer, tick: u64)
    requires
        buf.wf(),
        buf.entries@.len() > 0,
        tick > buf.newest(),
    ensures
        !buf.has(tick),
{
    if buf.has(tick) {
        let j = choose|j: int| 0 <= j < buf.entries@.len() && buf.entries@[j].tick == tick;
        buf.lemma_newest_is_max(j);
    }
}

/// Repeat law: when the newest recorded tick is at most `MAX_STALE_TICKS`
/// behind the queried tick, resolution repeats that newest input.
pub proof fn lemma_resolve_repeat(buf: InputBuffer, tick: u64)
    requires
        buf.wf(),
        buf.entries@.len() > 0,
        0 < tick - buf.newest() <= MAX_STALE_TICKS,
    ensures
        resolve_spec(buf, tick) == buf.at(buf.newest()),
{
    lemma_no_entry_beyond_newest(buf, tick);
}

/// Staleness law: when the newest recorded tick is more than
/// `MAX_STALE_TICKS` behind the queried tick, resolution is neutral.
pub proof fn lemma_resolve_stale(buf: InputBuffer, tick: u64)
    requires
        buf.wf(),
        buf.entries@.len() > 0,
        tick - buf.newest() > MAX_STALE_TICKS,
    ensures
        resolve_spec(buf, tick) == InputSnapshot::neutral_spec(),
{
    lemma_no_entry_beyond_newest(buf, tick);
}

/// An empty buffer (startup, just connected) resolves to neutral.
pub proof fn lemma_resolve_empty(buf: InputBuffer, tick: u64)
    requires
        buf.wf(),
        buf.entries@.len() == 0,
    ensures
        resolve_spec(buf, tick) == InputSnapshot::neutral_spec(),
{
}

} // verus!
