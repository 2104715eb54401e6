//! The fixed-rate tick scheduler.
//!
//! The simulation advances exactly once per fixed timestep, independent
//! of how often frames are rendered: wall-clock time is accumulated and
//! converted into a deterministic, integral number of steps.  During a
//! rollback resimulation pass the scheduler exposes the resimulated tick
//! instead of the current one; consumers ask for "whichever is active"
//! rather than assuming normal mode.

use vstd::prelude::*;

verus! {

/// Nanoseconds per simulation tick: exactly 1/64 of a second.
pub const TICK_INTERVAL_NS: u64 = 15_625_000;

/// Drives the fixed-rate simulation loop and numbers its ticks.
#[derive(Clone, Copy, Debug, PartialEq, Eq, Structural)]
pub struct TickScheduler {
    /// The authoritative current tick.
    pub current_tick: u64,
    /// The tick being resimulated, while a rollback pass is running.
    pub rollback_tick: Option<u64>,
    /// Wall-clock time not yet converted into whole ticks.
    pub accumulator_ns: u64,
}

impl TickScheduler {
    pub open spec fn wf(&self) -> bool {
        &&& self.accumulator_ns < TICK_INTERVAL_NS
        &&& match self.rollback_tick {
            Some(t) => t <= self.current_tick,
            None => true,
        }
    }

    pub fn new() -> (s: TickScheduler)
        ensures
            s == (TickScheduler { current_tick: 0, rollback_tick: None::<u64>,
                accumulator_ns: 0 }),
            s.wf(),
    {
        TickScheduler { current_tick: 0, rollback_tick: None, accumulator_ns: 0 }
    }

    /// The authoritative current tick.
    pub fn tick(&self) -> (t: u64)
        ensures
            t == self.current_tick,
    {
        self.current_tick
    }

    /// Whether a rollback resimulation pass is running.
    pub fn is_rollback(&self) -> (r: bool)
        ensures
            r == self.rollback_tick.is_some(),
    {
        self.rollback_tick.is_some()
    }

    /// Whichever tick is active: the resimulated one during a rollback
    /// pass, the current one otherwise.
    pub fn tick_or_rollback_tick(&self) -> (t: u64)
        ensures
            t == (match self.rollback_tick {
                Some(rt) => rt,
                None => self.current_tick,
            }),
    {
        match self.rollback_tick {
            Some(rt) => rt,
            None => self.current_tick,
        }
    }

    /// Turn elapsed wall-clock time into a number of whole simulation
    /// steps owed.  The count is a pure function of the accumulated time,
    /// so rendering jitter cannot change how often the simulation steps.
    pub fn advance_time(&mut self, elapsed_ns: u64) -> (steps: u64)
        requires
            old(self).wf(),
            old(self).accumulator_ns + elapsed_ns <= u64::MAX,
        ensures
            final(self).wf(),
            steps == (old(self).accumulator_ns + elapsed_ns) / (TICK_INTERVAL_NS as int),
            final(self).accumulator_ns == (old(self).accumulator_ns + elapsed_ns)
                % (TICK_INTERVAL_NS as int),
            final(self).current_tick == old(self).current_tick,
            final(self).rollback_tick == old(self).rollback_tick,
    {
        let total = self.accumulator_ns + elapsed_ns;
        let steps = total / TICK_INTERVAL_NS;
        self.accumulator_ns = total % TICK_INTERVAL_NS;
        steps
    }

    /// Advance the current tick by exactly one simulation step.
    pub fn step(&mut self)
        requires
            old(self).wf(),
            old(self).current_tick < u64::MAX,
            old(self).rollback_tick.is_none(),
        ensures
            final(self).wf(),
            final(self).current_tick == old(self).current_tick + 1,
            final(self).rollback_tick.is_none(),
            final(self).accumulator_ns == old(self).accumulator_ns,
    {
        self.current_tick = self.current_tick + 1;
    }

    /// Enter a rollback resimulation pass starting at `target`.
    pub fn begin_rollback(&mut self, target: u64)
        requires
            old(self).wf(),
            target <= old(self).current_tick,
        ensures
            final(self).wf(),
            final(self).rollback_tick == Some(target),
            final(self).current_tick == old(self).current_tick,
            final(self).accumulator_ns == old(self).accumulator_ns,
    {
        self.rollback_tick = Some(target);
    }

    /// Advance the resimulated tick; the pass ends (and normal ticking
    /// resumes) once it reaches the current tick.
    pub fn rollback_step(&mut self)
        requires
            old(self).wf(),
            old(self).rollback_tick.is_some(),
        ensures
            final(self).wf(),
            final(self).current_tick == old(self).current_tick,
            final(self).accumulator_ns == old(self).accumulator_ns,
            final(self).rollback_tick == (if old(self).rollback_tick.unwrap()
                < old(self).current_tick {
                Some((old(self).rollback_tick.unwrap() + 1) as u64)
            } else {
                None::<u64>
            }),
    {
        let t = match self.rollback_tick {
            Some(t) => t,
            None => 0,
        };
        if t < self.current_tick {
            self.rollback_tick = Some(t + 1);
        } else {
            self.rollback_tick = None;
        }
    }
}

} // verus!
