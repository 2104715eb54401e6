//! The session layer: player identities, the per-player aggregate, the
//! player registry, and the per-tick controllers.
//!
//! Instead of marker components on an opaque entity graph, a player is
//! one owned aggregate (body and head state, input buffer, prediction
//! history, tuning), and the registry is an explicit indexed collection
//! keyed by `PlayerId`.

use vstd::prelude::*;
use crate::movement::{
    tick_step, tick_step_view, KinematicState, KinView, MovementConfig, V3,
};
use crate::input::{
    buffer_inputs_wf, lemma_resolve_wf, record_input, resolve_input, resolve_spec,
    InputBuffer, InputSnapshot, INPUT_RETENTION_TICKS,
};
use crate::log::TickLog;
use crate::rollback::{
    agrees, history_states_wf, record_predicted, reconcile, resim_view, resimulatable,
    ReconcileOutcome, StateHistory,
};

verus! {

/// Stable identifier of a connected participant; unique per active
/// connection, never reused while connected.
#[derive(Clone, Copy, Debug, PartialEq, Eq, Structural, Hash)]
pub struct PlayerId(pub u64);

impl Default for PlayerId {
    /// The local (host) participant.
    fn default() -> (r: PlayerId)
        ensures
            r == PlayerId(0),
    {
        PlayerId(0)
    }
}

/// Everything the simulation owns for one player: the simulated state
/// (body and head as one aggregate), the input buffer, the client-side
/// prediction history, and the movement tuning.
pub struct Player {
    pub id: PlayerId,
    pub state: KinematicState,
    pub buffer: InputBuffer,
    pub history: StateHistory,
    pub cfg: MovementConfig,
}

impl Player {
    pub open spec fn wf(&self) -> bool {
        &&& self.state.wf()
        &&& self.cfg.wf()
        &&& self.buffer.wf()
        &&& buffer_inputs_wf(self.buffer)
        &&& self.history.wf()
        &&& history_states_wf(self.history)
    }

    /// A freshly connected player: spawn state, empty buffers, default
    /// tuning.
    pub fn new(id: PlayerId) -> (p: Player)
        ensures
            p.id == id,
            p.state@ == (KinView {
                position: V3 { x: 0, y: 5_000_000, z: 0 },
                velocity: V3 { x: 0, y: 0, z: 0 },
                yaw: 0,
                pitch: 0,
            }),
            p.buffer.entries@.len() == 0,
            p.history.entries@.len() == 0,
            forall|k: u64| !p.buffer.has(k),
            forall|k: u64| !p.history.has(k),
            p.cfg == (MovementConfig {
                acceleration: 1_000_000,
                max_speed: 10_000_000,
                damping: 900_000,
                jump_impulse: 7_000_000,
                max_slope_angle: 81_000_000,
            }),
            p.wf(),
    {
        Player {
            id,
            state: KinematicState::spawn(),
            buffer: TickLog::new(),
            history: TickLog::new(),
            cfg: MovementConfig::default(),
        }
    }
}

/// Client prediction controller, one call per fixed tick: resolve which
/// input to feed the movement step (fresh, stale-forward or neutral),
/// apply it to the locally predicted state, and store the predicted
/// state for later reconciliation.
pub fn predict_tick(player: &mut Player, tick: u64)
    requires
        old(player).wf(),
    ensures
        final(player).wf(),
        final(player).id == old(player).id,
        final(player).cfg == old(player).cfg,
        final(player).buffer == old(player).buffer,
        final(player).state@ == tick_step_view(old(player).state@, old(player).cfg,
            resolve_spec(old(player).buffer, tick)),
        forall|k: u64| #[trigger] final(player).history.has(k)
            <==> ((old(player).history.has(k) || k == tick)
                && k + INPUT_RETENTION_TICKS > old(player).history.newest_after(tick)),
        forall|k: u64| final(player).history.has(k) ==> #[trigger] final(player).history.at(k)
            == (if k == tick { final(player).state } else { old(player).history.at(k) }),
{
    let inp = resolve_input(&player.buffer, tick);
    proof {
        lemma_resolve_wf(player.buffer, tick);
    }
    let mut st = player.state;
    tick_step(&mut st, &player.cfg, &inp);
    player.state = st;
    record_predicted(&mut player.history, tick, st);
}

/// Record input captured locally (or received from a remote player) for
/// a tick.  Inputs must be fed in non-decreasing tick order for the
/// retention window to behave as expected, but any order is safe.
pub fn record_player_input(player: &mut Player, tick: u64, snapshot: &InputSnapshot)
    requires
        old(player).wf(),
        snapshot.wf(),
    ensures
        final(player).wf(),
        final(player).id == old(player).id,
        final(player).cfg == old(player).cfg,
        final(player).state == old(player).state,
        final(player).history == old(player).history,
        forall|k: u64| #[trigger] final(player).buffer.has(k)
            <==> ((old(player).buffer.has(k) || k == tick)
                && k + INPUT_RETENTION_TICKS > old(player).buffer.newest_after(tick)),
        forall|k: u64| final(player).buffer.has(k) ==> #[trigger] final(player).buffer.at(k)
            == (if k == tick { *snapshot } else { old(player).buffer.at(k) }),
{
    record_input(&mut player.buffer, tick, *snapshot);
}

/// Server authority controller, one call per fixed tick: apply the
/// actually-received input to the authoritative state (recording it so
/// late joiners and rollback see the same history).
pub fn authority_tick(player: &mut Player, tick: u64, input: &InputSnapshot)
    requires
        old(player).wf(),
        input.wf(),
    ensures
        final(player).wf(),
        final(player).id == old(player).id,
        final(player).cfg == old(player).cfg,
        final(player).history == old(player).history,
        final(player).state@ == tick_step_view(old(player).state@, old(player).cfg, *input),
        forall|k: u64| #[trigger] final(player).buffer.has(k)
            <==> ((old(player).buffer.has(k) || k == tick)
                && k + INPUT_RETENTION_TICKS > old(player).buffer.newest_after(tick)),
        forall|k: u64| final(player).buffer.has(k) ==> #[trigger] final(player).buffer.at(k)
            == (if k == tick { *input } else { old(player).buffer.at(k) }),
{
    record_input(&mut player.buffer, tick, *input);
    let mut st = player.state;
    tick_step(&mut st, &player.cfg, input);
    player.state = st;
}

/// Reconcile one authoritative snapshot against this player's stored
/// prediction, rolling back and resimulating on true divergence.
pub fn reconcile_player(player: &mut Player, auth_tick: u64, auth_state: &KinematicState,
    current_tick: u64) -> (r: ReconcileOutcome)
    requires
        old(player).wf(),
        auth_state.wf(),
        auth_tick <= current_tick,
    ensures
        final(player).wf(),
        final(player).id == old(player).id,
        final(player).cfg == old(player).cfg,
        final(player).buffer == old(player).buffer,
        final(player).history == old(player).history,
        ({
            let pred = old(player).history.at(auth_tick);
            if !old(player).history.has(auth_tick) {
                r == ReconcileOutcome::Snapped && final(player).state == *auth_state
            } else if agrees(pred, *auth_state) {
                r == ReconcileOutcome::InSync && final(player).state == old(player).state
            } else if resimulatable(old(player).buffer, auth_tick) {
                r == (ReconcileOutcome::RolledBack {
                    steps: (current_tick - auth_tick) as u64,
                }) && final(player).state@ == resim_view(auth_state@, old(player).buffer,
                    auth_tick, current_tick, old(player).cfg)
            } else {
                r == ReconcileOutcome::Snapped && final(player).state == *auth_state
            }
        }),
{
    let mut st = player.state;
    let r = reconcile(&mut st, &player.history, &player.buffer, auth_tick, auth_state,
        current_tick, &player.cfg);
    player.state = st;
    r
}

/// All connected players, keyed by `PlayerId`, with direct access in
/// place of entity-graph queries.
pub struct Registry {
    pub players: Vec<Player>,
}

impl Registry {
    /// Ids are unique, and every player aggregate is well-formed.
    pub open spec fn wf(&self) -> bool {
        &&& forall|i: int, j: int| 0 <= i < j < self.players@.len()
            ==> self.players@[i].id != self.players@[j].id
        &&& forall|i: int| 0 <= i < self.players@.len() ==> (#[trigger] self.players@[i]).wf()
    }

    /// Whether a player with this id is connected.
    pub open spec fn has_player(&self, id: PlayerId) -> bool {
        exists|i: int| 0 <= i < self.players@.len() && self.players@[i].id == id
    }

    /// Index of the player with this id (meaningful when present).
    pub open spec fn index_of_player(&self, id: PlayerId) -> int {
        choose|i: int| 0 <= i < self.players@.len() && self.players@[i].id == id
    }

    /// The player with this id (meaningful when present).
    pub open spec fn player_with(&self, id: PlayerId) -> Player {
        self.players@[self.index_of_player(id)]
    }

    /// In a well-formed registry the index for an id is unique.
    pub proof fn lemma_player_index_unique(&self, i: int, j: int)
        requires
            self.wf(),
            0 <= i < self.players@.len(),
            0 <= j < self.players@.len(),
            self.players@[i].id == self.players@[j].id,
        ensures
            i == j,
    {
    }

    pub fn new() -> (r: Registry)
        ensures
            r.wf(),
            r.players@.len() == 0,
            forall|id: PlayerId| !r.has_player(id),
    {
        Registry { players: Vec::new() }
    }

    /// Index of a connected player's slot.
    pub fn lookup(&self, id: PlayerId) -> (r: Option<usize>)
        requires
            self.wf(),
        ensures
            match r {
                Some(i) => {
                    &&& i < self.players@.len()
                    &&& self.players@[i as int].id == id
                    &&& self.has_player(id)
                    &&& i == self.index_of_player(id)
                },
                None => !self.has_player(id),
            },
    {
        let n = self.players.len();
        let mut i: usize = 0;
        while i < n
            invariant
                self.wf(),
                n == self.players@.len(),
                0 <= i <= n,
                forall|j: int| 0 <= j < i ==> self.players@[j].id != id,
            decreases n - i,
        {
            if self.players[i].id == id {
                proof {
                    self.lemma_player_index_unique(i as int, self.index_of_player(id));
                }
                return Some(i);
            }
            i = i + 1;
        }
        None
    }

    /// Connect a player: spawns the aggregate unless the id is already
    /// taken (ids are unique per active connection).
    pub fn connect(&mut self, id: PlayerId) -> (ok: bool)
        requires
            old(self).wf(),
        ensures
            final(self).wf(),
            ok == !old(self).has_player(id),
            forall|k: PlayerId| #[trigger] final(self).has_player(k)
                <==> (old(self).has_player(k) || k == id),
            ok ==> final(self).players@.len() == old(self).players@.len() + 1
                && final(self).player_with(id)
                    == final(self).players@[old(self).players@.len() as int]
                && final(self).player_with(id).id == id
                && final(self).player_with(id).buffer.entries@.len() == 0
                && final(self).player_with(id).history.entries@.len() == 0,
            !ok ==> *final(self) == *old(self),
            forall|k: PlayerId| k != id && final(self).has_player(k)
                ==> #[trigger] final(self).player_with(k) == old(self).player_with(k),
    {
        let ghost pre = *self;
        match self.lookup(id) {
            Some(_) => false,
            None => {
                let p = Player::new(id);
                self.players.push(p);
                proof {
                    let len = pre.players@.len() as int;
                    assert forall|j: int| 0 <= j < self.players@.len() implies
                        #[trigger] self.players@[j]
                            == (if j < len { pre.players@[j] } else { p }) by {}
                    assert forall|k: PlayerId| #[trigger] self.has_player(k)
                        <==> (pre.has_player(k) || k == id) by {
                        if self.has_player(k) {
                            let j = choose|j: int| 0 <= j < self.players@.len()
                                && self.players@[j].id == k;
                            if j < len {
                                assert(pre.players@[j].id == k);
                                assert(pre.has_player(k));
                            }
                        }
                        if pre.has_player(k) {
                            let j = choose|j: int| 0 <= j < pre.players@.len()
                                && pre.players@[j].id == k;
                            assert(self.players@[j].id == k);
                        }
                        if k == id {
                            assert(self.players@[len].id == k);
                        }
                    }
                    assert(self.wf());
                    assert(self.has_player(id));
                    let j0 = self.index_of_player(id);
                    assert(0 <= j0 < self.players@.len() && self.players@[j0].id == id);
                    self.lemma_player_index_unique(j0, len);
                    assert forall|k: PlayerId| k != id && self.has_player(k) implies
                        #[trigger] self.player_with(k) == pre.player_with(k) by {
                        let j = self.index_of_player(k);
                        assert(0 <= j < self.players@.len() && self.players@[j].id == k);
                        assert(j != len);
                        assert(pre.has_player(k));
                        let j2 = pre.index_of_player(k);
                        assert(0 <= j2 < pre.players@.len() && pre.players@[j2].id == k);
                        self.lemma_player_index_unique(j, j2);
                    }
                }
                true
            }
        }
    }

    /// Disconnect a player, destroying its state and buffers.
    pub fn disconnect(&mut self, id: PlayerId) -> (found: bool)
        requires
            old(self).wf(),
        ensures
            final(self).wf(),
            found == old(self).has_player(id),
            !final(self).has_player(id),
            forall|k: PlayerId| k != id ==> (#[trigger] final(self).has_player(k)
                <==> old(self).has_player(k)),
            forall|k: PlayerId| k != id && final(self).has_player(k)
                ==> #[trigger] final(self).player_with(k) == old(self).player_with(k),
            !found ==> *final(self) == *old(self),
    {
        let ghost pre = *self;
        match self.lookup(id) {
            None => false,
            Some(i) => {
                self.players.remove(i);
                proof {
                    let len = pre.players@.len() as int;
                    assert forall|j: int| 0 <= j < self.players@.len() implies
                        #[trigger] self.players@[j]
                            == (if j < i { pre.players@[j] } else { pre.players@[j + 1] })
                        by {}
                    assert(self.wf());
                    if self.has_player(id) {
                        let j = choose|j: int| 0 <= j < self.players@.len()
                            && self.players@[j].id == id;
                        if j < i {
                            pre.lemma_player_index_unique(j, i as int);
                        } else {
                            pre.lemma_player_index_unique(j + 1, i as int);
                        }
                        assert(false);
                    }
                    assert forall|k: PlayerId| k != id implies (#[trigger] self.has_player(k)
                        <==> pre.has_player(k)) by {
                        if self.has_player(k) {
                            let j = choose|j: int| 0 <= j < self.players@.len()
                                && self.players@[j].id == k;
                            if j < i {
                                assert(pre.players@[j].id == k);
                            } else {
                                assert(pre.players@[j + 1].id == k);
                            }
                            assert(pre.has_player(k));
                        }
                        if pre.has_player(k) {
                            let j = choose|j: int| 0 <= j < pre.players@.len()
                                && pre.players@[j].id == k;
                            if j < i {
                                assert(self.players@[j].id == k);
                            } else {
                                assert(j != i);
                                assert(self.players@[j - 1].id == k);
                            }
                            assert(self.has_player(k));
                        }
                    }
                    assert forall|k: PlayerId| k != id && self.has_player(k) implies
                        #[trigger] self.player_with(k) == pre.player_with(k) by {
                        let j = self.index_of_player(k);
                        assert(0 <= j < self.players@.len() && self.players@[j].id == k);
                        let j2 = pre.index_of_player(k);
                        assert(0 <= j2 < pre.players@.len() && pre.players@[j2].id == k);
                        if j < i {
                            pre.lemma_player_index_unique(j, j2);
                        } else {
                            pre.lemma_player_index_unique(j + 1, j2);
                        }
                    }
                }
                true
            }
        }
    }

    /// The ids of all connected players except `sender`, in registry
    /// order.
    pub open spec fn other_ids(players: Seq<Player>, sender: PlayerId) -> Seq<PlayerId>
        decreases players.len(),
    {
        if players.len() == 0 {
            Seq::empty()
        } else {
            let rest = Registry::other_ids(players.drop_last(), sender);
            if players.last().id == sender {
                rest
            } else {
                rest.push(players.last().id)
            }
        }
    }

    /// The ids an input message from `sender` is rebroadcast to: every
    /// other connected player, each exactly once, in registry order.
    pub fn broadcast_targets(&self, sender: PlayerId) -> (out: Vec<PlayerId>)
        requires
            self.wf(),
        ensures
            out@ == Registry::other_ids(self.players@, sender),
            forall|k: int| 0 <= k < out@.len()
                ==> #[trigger] out@[k] != sender && self.has_player(out@[k]),
            forall|i: int| 0 <= i < self.players@.len()
                && (#[trigger] self.players@[i]).id != sender
                ==> out@.contains(self.players@[i].id),
    {
        let n = self.players.len();
        let mut out: Vec<PlayerId> = Vec::new();
        let mut i: usize = 0;
        proof {
            assert(out@ =~= Registry::other_ids(self.players@.subrange(0, 0), sender));
        }
        while i < n
            invariant
                self.wf(),
                n == self.players@.len(),
                0 <= i <= n,
                out@ == Registry::other_ids(self.players@.subrange(0, i as int), sender),
                forall|k: int| 0 <= k < out@.len()
                    ==> #[trigger] out@[k] != sender && self.has_player(out@[k]),
                forall|j: int| 0 <= j < i && (#[trigger] self.players@[j]).id != sender
                    ==> out@.contains(self.players@[j].id),
            decreases n - i,
        {
            let ghost prev = out@;
            if self.players[i].id != sender {
                out.push(self.players[i].id);
                proof {
                    assert(out@[out@.len() - 1] == self.players@[i as int].id);
                    assert(self.has_player(self.players@[i as int].id));
                    assert forall|j: int| 0 <= j < i + 1
                        && (#[trigger] self.players@[j]).id != sender implies
                        out@.contains(self.players@[j].id) by {
                        if j < i {
                            let k = choose|k: int| 0 <= k < prev.len()
                                && prev[k] == self.players@[j].id;
                            assert(out@[k] == self.players@[j].id);
                        } else {
                            assert(out@[out@.len() - 1] == self.players@[j].id);
                        }
                    }
                }
            }
            proof {
                let pref = self.players@.subrange(0, i + 1);
                assert(pref.drop_last() =~= self.players@.subrange(0, i as int));
                assert(pref.last() == self.players@[i as int]);
            }
            i = i + 1;
        }
        proof {
            assert(self.players@.subrange(0, n as int) =~= self.players@);
        }
        out
    }
}

} // verus!
