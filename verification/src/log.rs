//! A tick-indexed bounded history: an ordered map from tick number to a
//! recorded value, retaining only the most recent window of ticks.
//!
//! The input buffer and the predicted-state history are both instances
//! of this structure.

use vstd::prelude::*;

verus! {

/// How many ticks of history are retained per player.
pub const RETENTION_TICKS: u64 = 64;

/// One logged entry: a value together with the tick it belongs to.
#[derive(Clone, Copy, Debug)]
pub struct TickEntry<T> {
    pub tick: u64,
    pub value: T,
}

/// Tick-ordered bounded history of values.
pub struct TickLog<T> {
    pub entries: Vec<TickEntry<T>>,
}

impl<T: Copy> TickLog<T> {
    /// Entries are strictly sorted by tick.
    pub open spec fn wf(&self) -> bool {
        forall|i: int, j: int|
            0 <= i < j < self.entries@.len() ==> self.entries@[i].tick < self.entries@[j].tick
    }

    /// Whether an entry for `tick` is present.
    pub open spec fn has(&self, tick: u64) -> bool {
        exists|i: int| 0 <= i < self.entries@.len() && self.entries@[i].tick == tick
    }

    /// Index of the entry for `tick` (meaningful when `has(tick)`).
    pub open spec fn index_of(&self, tick: u64) -> int {
        choose|i: int| 0 <= i < self.entries@.len() && self.entries@[i].tick == tick
    }

    /// The value recorded for `tick` (meaningful when `has(tick)`).
    pub open spec fn at(&self, tick: u64) -> T {
        self.entries@[self.index_of(tick)].value
    }

    /// The most recent recorded tick (meaningful when nonempty).
    pub open spec fn newest(&self) -> u64 {
        self.entries@[self.entries@.len() - 1].tick
    }

    /// The oldest retained tick (meaningful when nonempty).
    pub open spec fn oldest(&self) -> u64 {
        self.entries@[0].tick
    }

    /// In a well-formed log the entry index for a tick is unique.
    pub proof fn lemma_index_unique(&self, i: int, j: int)
        requires
            self.wf(),
            0 <= i < self.entries@.len(),
            0 <= j < self.entries@.len(),
            self.entries@[i].tick == self.entries@[j].tick,
        ensures
            i == j,
    {
    }

    /// Every recorded tick is at most the newest.
    pub proof fn lemma_newest_is_max(&self, i: int)
        requires
            self.wf(),
            0 <= i < self.entries@.len(),
        ensures
            self.entries@[i].tick <= self.newest(),
    {
    }

    pub fn new() -> (b: TickLog<T>)
        ensures
            b.wf(),
            b.entries@.len() == 0,
            forall|k: u64| !b.has(k),
    {
        TickLog { entries: Vec::new() }
    }

    /// Exact-tick lookup.
    pub fn get(&self, tick: u64) -> (r: Option<T>)
        requires
            self.wf(),
        ensures
            match r {
                Some(s) => self.has(tick) && s == self.at(tick),
                None => !self.has(tick),
            },
    {
        let n = self.entries.len();
        let mut i: usize = 0;
        while i < n
            invariant
                self.wf(),
                n == self.entries@.len(),
                0 <= i <= n,
                forall|j: int| 0 <= j < i ==> self.entries@[j].tick != tick,
            decreases n - i,
        {
            if self.entries[i].tick == tick {
                proof {
                    self.lemma_index_unique(i as int, self.index_of(tick));
                }
                return Some(self.entries[i].value);
            }
            i = i + 1;
        }
        None
    }

    /// The most recent entry, with its tick; `None` when nothing has
    /// been recorded yet.
    pub fn get_last_with_tick(&self) -> (r: Option<(u64, T)>)
        requires
            self.wf(),
        ensures
            match r {
                Some(p) => {
                    &&& self.entries@.len() > 0
                    &&& p.0 == self.newest()
                    &&& self.has(p.0)
                    &&& p.1 == self.at(p.0)
                },
                None => self.entries@.len() == 0,
            },
    {
        let n = self.entries.len();
        if n == 0 {
            None
        } else {
            let e = self.entries[n - 1];
            proof {
                assert(self.entries@[n - 1].tick == self.newest());
                self.lemma_index_unique(n - 1, self.index_of(e.tick));
            }
            Some((e.tick, e.value))
        }
    }

    /// The newest tick after recording `tick` over a previous state.
    pub open spec fn newest_after(&self, tick: u64) -> u64 {
        if self.entries@.len() > 0 && self.newest() > tick {
            self.newest()
        } else {
            tick
        }
    }

    /// Append or overwrite the entry for `tick`, then evict entries that
    /// fall out of the retention window ending at the newest tick.
    pub fn record(&mut self, tick: u64, value: T)
        requires
            old(self).wf(),
        ensures
            final(self).wf(),
            forall|k: u64| #[trigger] final(self).has(k) <==> ((old(self).has(k) || k == tick)
                && k + RETENTION_TICKS > old(self).newest_after(tick)),
            forall|k: u64| final(self).has(k) ==> #[trigger] final(self).at(k)
                == (if k == tick { value } else { old(self).at(k) }),
            final(self).entries@.len() > 0,
            final(self).newest() == old(self).newest_after(tick),
    {
        let ghost pre = *self;
        let n = self.entries.len();
        // Position of the first entry with a tick at or above the new one.
        let mut i: usize = 0;
        while i < n && self.entries[i].tick < tick
            invariant
                *self == pre,
                pre.wf(),
                n == pre.entries@.len(),
                0 <= i <= n,
                forall|j: int| 0 <= j < i ==> pre.entries@[j].tick < tick,
            decreases n - i,
        {
            i = i + 1;
        }
        let e = TickEntry { tick, value };
        if i < n && self.entries[i].tick == tick {
            self.entries[i] = e;
            proof {
                lemma_record_overwrite(pre, *self, i as int, e);
            }
        } else {
            self.entries.insert(i, e);
            proof {
                pre.entries@.insert_ensures(i as int, e);
                lemma_record_insert(pre, *self, i as int, e);
            }
        }
        let ghost mid = *self;
        let newest_tick = self.entries[self.entries.len() - 1].tick;
        proof {
            assert(newest_tick == mid.newest());
        }
        if newest_tick >= RETENTION_TICKS {
            let cutoff = newest_tick - RETENTION_TICKS + 1;
            let ghost mut d: int = 0;
            while self.entries.len() > 0 && self.entries[0].tick < cutoff
                invariant
                    mid.wf(),
                    0 <= d <= mid.entries@.len(),
                    self.entries@ == mid.entries@.skip(d),
                    forall|j: int| 0 <= j < d ==> mid.entries@[j].tick < cutoff,
                decreases self.entries@.len(),
            {
                self.entries.remove(0);
                proof {
                    assert(self.entries@ =~= mid.entries@.skip(d + 1));
                    d = d + 1;
                }
            }
            proof {
                lemma_record_evict(mid, *self, d, cutoff);
            }
        }
    }
}

/// Overwriting the entry at `i` (same tick) keeps order and changes only
/// that value.
proof fn lemma_record_overwrite<T: Copy>(pre: TickLog<T>, cur: TickLog<T>, i: int, e: TickEntry<T>)
    requires
        pre.wf(),
        0 <= i < pre.entries@.len(),
        pre.entries@[i].tick == e.tick,
        cur.entries@ == pre.entries@.update(i, e),
    ensures
        cur.wf(),
        forall|k: u64| #[trigger] cur.has(k) <==> (pre.has(k) || k == e.tick),
        forall|k: u64| cur.has(k) ==> #[trigger] cur.at(k)
            == (if k == e.tick { e.value } else { pre.at(k) }),
        cur.entries@.len() > 0,
        cur.newest() == pre.newest_after(e.tick),
{
    assert forall|j: int| 0 <= j < cur.entries@.len() implies
        #[trigger] cur.entries@[j].tick == pre.entries@[j].tick by {
        if j != i {
            assert(cur.entries@[j] == pre.entries@[j]);
        }
    }
    assert(cur.wf());
    assert forall|k: u64| #[trigger] cur.has(k) <==> (pre.has(k) || k == e.tick) by {
        if cur.has(k) {
            let j = choose|j: int| 0 <= j < cur.entries@.len() && cur.entries@[j].tick == k;
            assert(pre.entries@[j].tick == k);
            assert(pre.has(k));
        }
        if pre.has(k) {
            let j = choose|j: int| 0 <= j < pre.entries@.len() && pre.entries@[j].tick == k;
            assert(cur.entries@[j].tick == k);
            assert(cur.has(k));
        }
    }
    assert forall|k: u64| cur.has(k) implies #[trigger] cur.at(k)
        == (if k == e.tick { e.value } else { pre.at(k) }) by {
        let j = cur.index_of(k);
        assert(0 <= j < cur.entries@.len() && cur.entries@[j].tick == k);
        if k == e.tick {
            assert(cur.entries@[i] == e);
            cur.lemma_index_unique(j, i);
        } else {
            assert(j != i);
            assert(cur.entries@[j] == pre.entries@[j]);
            assert(pre.has(k));
            let j2 = pre.index_of(k);
            assert(0 <= j2 < pre.entries@.len() && pre.entries@[j2].tick == k);
            pre.lemma_index_unique(j, j2);
        }
    }
    pre.lemma_newest_is_max(i);
    assert(cur.entries@[cur.entries@.len() - 1].tick
        == pre.entries@[pre.entries@.len() - 1].tick);
}

/// Inserting a fresh entry at its sorted position keeps order and adds
/// exactly that tick.
proof fn lemma_record_insert<T: Copy>(pre: TickLog<T>, cur: TickLog<T>, i: int, e: TickEntry<T>)
    requires
        pre.wf(),
        0 <= i <= pre.entries@.len(),
        forall|j: int| 0 <= j < i ==> pre.entries@[j].tick < e.tick,
        i < pre.entries@.len() ==> pre.entries@[i].tick > e.tick,
        cur.entries@ == pre.entries@.insert(i, e),
    ensures
        cur.wf(),
        forall|k: u64| #[trigger] cur.has(k) <==> (pre.has(k) || k == e.tick),
        forall|k: u64| cur.has(k) ==> #[trigger] cur.at(k)
            == (if k == e.tick { e.value } else { pre.at(k) }),
        cur.entries@.len() > 0,
        cur.newest() == pre.newest_after(e.tick),
{
    pre.entries@.insert_ensures(i, e);
    let len = pre.entries@.len() as int;
    assert forall|a: int, b: int| 0 <= a < b < cur.entries@.len() implies
        cur.entries@[a].tick < cur.entries@[b].tick by {
        if a < i && b < i {
        } else if a < i && b == i {
            assert(cur.entries@[a] == pre.entries@[a]);
        } else if a < i && b > i {
            assert(cur.entries@[(b - 1) + 1] == pre.entries@[b - 1]);
            if b - 1 > i - 1 && i < len {
                assert(pre.entries@[b - 1].tick >= pre.entries@[i].tick);
            }
        } else if a == i {
            assert(cur.entries@[(b - 1) + 1] == pre.entries@[b - 1]);
            assert(pre.entries@[b - 1].tick >= pre.entries@[i].tick);
        } else {
            assert(cur.entries@[(a - 1) + 1] == pre.entries@[a - 1]);
            assert(cur.entries@[(b - 1) + 1] == pre.entries@[b - 1]);
        }
    }
    assert forall|k: u64| #[trigger] cur.has(k) <==> (pre.has(k) || k == e.tick) by {
        if cur.has(k) {
            let j = choose|j: int| 0 <= j < cur.entries@.len() && cur.entries@[j].tick == k;
            if j < i {
                assert(pre.entries@[j].tick == k);
                assert(pre.has(k));
            } else if j == i {
                assert(k == e.tick);
            } else {
                assert(cur.entries@[(j - 1) + 1] == pre.entries@[j - 1]);
                assert(pre.entries@[j - 1].tick == k);
                assert(pre.has(k));
            }
        }
        if pre.has(k) {
            let j = choose|j: int| 0 <= j < pre.entries@.len() && pre.entries@[j].tick == k;
            if j < i {
                assert(cur.entries@[j].tick == k);
            } else {
                assert(cur.entries@[j + 1] == pre.entries@[j]);
                assert(cur.entries@[j + 1].tick == k);
            }
            assert(cur.has(k));
        }
        if k == e.tick {
            assert(cur.entries@[i].tick == k);
            assert(cur.has(k));
        }
    }
    assert forall|k: u64| cur.has(k) implies #[trigger] cur.at(k)
        == (if k == e.tick { e.value } else { pre.at(k) }) by {
        let j = cur.index_of(k);
        assert(0 <= j < cur.entries@.len() && cur.entries@[j].tick == k);
        if k == e.tick {
            assert(cur.entries@[i] == e);
            cur.lemma_index_unique(j, i);
        } else {
            assert(j != i);
            assert(pre.has(k));
            let j2 = pre.index_of(k);
            assert(0 <= j2 < pre.entries@.len() && pre.entries@[j2].tick == k);
            if j < i {
                assert(cur.entries@[j] == pre.entries@[j]);
                pre.lemma_index_unique(j, j2);
            } else {
                assert(cur.entries@[(j - 1) + 1] == pre.entries@[j - 1]);
                pre.lemma_index_unique(j - 1, j2);
            }
        }
    }
    if i == len {
        assert(cur.entries@[i] == e);
        assert(cur.newest() == e.tick);
        if len > 0 {
            pre.lemma_newest_is_max(len - 1);
            assert(pre.newest() < e.tick);
        }
    } else {
        assert(cur.entries@[(len - 1) + 1] == pre.entries@[len - 1]);
        assert(cur.newest() == pre.newest());
        assert(pre.entries@[i].tick <= pre.newest()) by {
            pre.lemma_newest_is_max(i);
        }
    }
}

/// Dropping a prefix of stale entries keeps order, keeps exactly the
/// ticks inside the retention window, and keeps the newest entry.
proof fn lemma_record_evict<T: Copy>(mid: TickLog<T>, cur: TickLog<T>, d: int, cutoff: u64)
    requires
        mid.wf(),
        mid.entries@.len() > 0,
        0 <= d <= mid.entries@.len(),
        cur.entries@ == mid.entries@.skip(d),
        forall|j: int| 0 <= j < d ==> mid.entries@[j].tick < cutoff,
        cur.entries@.len() > 0 ==> cur.entries@[0].tick >= cutoff,
        cutoff == mid.newest() + 1 - RETENTION_TICKS,
        mid.newest() >= RETENTION_TICKS,
    ensures
        cur.wf(),
        forall|k: u64| #[trigger] cur.has(k)
            <==> (mid.has(k) && k + RETENTION_TICKS > mid.newest()),
        forall|k: u64| cur.has(k) ==> #[trigger] cur.at(k) == mid.at(k),
        cur.entries@.len() > 0,
        cur.newest() == mid.newest(),
{
    let mlen = mid.entries@.len() as int;
    assert forall|j: int| 0 <= j < cur.entries@.len() implies
        #[trigger] cur.entries@[j] == mid.entries@[j + d] by {}
    assert(cur.wf());
    // The newest entry always survives, so the log stays nonempty.
    assert(mid.entries@[mlen - 1].tick == mid.newest());
    if d == mlen {
        assert(mid.entries@[mlen - 1].tick < cutoff);
        assert(false);
    }
    assert(cur.entries@.len() > 0);
    assert(cur.entries@[cur.entries@.len() - 1] == mid.entries@[mlen - 1]);
    assert forall|k: u64| #[trigger] cur.has(k)
        <==> (mid.has(k) && k + RETENTION_TICKS > mid.newest()) by {
        if cur.has(k) {
            let j = choose|j: int| 0 <= j < cur.entries@.len() && cur.entries@[j].tick == k;
            assert(mid.entries@[j + d].tick == k);
            assert(mid.has(k));
            assert(cur.entries@[0].tick <= cur.entries@[j].tick);
            assert(k >= cutoff);
        }
        if mid.has(k) && k + RETENTION_TICKS > mid.newest() {
            let j = choose|j: int| 0 <= j < mid.entries@.len() && mid.entries@[j].tick == k;
            if j < d {
                assert(mid.entries@[j].tick < cutoff);
                assert(false);
            }
            assert(cur.entries@[j - d].tick == k);
            assert(cur.has(k));
        }
    }
    assert forall|k: u64| cur.has(k) implies #[trigger] cur.at(k) == mid.at(k) by {
        let j = cur.index_of(k);
        assert(0 <= j < cur.entries@.len() && cur.entries@[j].tick == k);
        assert(mid.entries@[j + d].tick == k);
        assert(mid.has(k));
        let j2 = mid.index_of(k);
        assert(0 <= j2 < mid.entries@.len() && mid.entries@[j2].tick == k);
        mid.lemma_index_unique(j + d, j2);
    }
}

} // verus!
