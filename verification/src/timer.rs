//! A cooldown that fires once a fixed period of supplied time has passed.
//!
//! The timer never reads a clock: every call hands in the time that went by,
//! so a run can be replayed exactly.

use vstd::prelude::*;

verus! {

/// Time between two movement steps of the head, in nanoseconds.
pub const MOVE_PERIOD: u64 = 500_000_000;

/// How long the game waits in its loading state before the run starts, in
/// nanoseconds.
pub const SETTLE_DELAY: u64 = 100_000_000;

/// Accumulates elapsed time and fires when it reaches `period`.
#[derive(Clone, Copy, Debug, PartialEq, Eq, Structural)]
pub struct CooldownTimer {
    /// Time that has to pass between two firings.
    pub period: u64,
    /// Time accumulated since the last firing or reset.
    pub elapsed: u64,
}

impl CooldownTimer {
    /// Whether the timer fires when `dt` more time passes.
    pub open spec fn fires_after(self, dt: int) -> bool {
        self.elapsed + dt >= self.period
    }

    /// The timer after `dt` more time has passed: back at zero if that made
    /// it fire, and `dt` further along otherwise.
    pub open spec fn ticked(self, dt: int) -> CooldownTimer {
        if self.fires_after(dt) {
            CooldownTimer { period: self.period, elapsed: 0 }
        } else {
            CooldownTimer { period: self.period, elapsed: (self.elapsed + dt) as u64 }
        }
    }

    /// A timer with nothing accumulated.
    pub fn new(period: u64) -> (timer: CooldownTimer)
        ensures
            timer.period == period,
            timer.elapsed == 0,
    {
        CooldownTimer { period, elapsed: 0 }
    }

    /// Whether `tick(dt)` would fire, without changing the timer.
    pub fn will_fire(&self, dt: u64) -> (fires: bool)
        ensures
            fires == self.fires_after(dt as int),
    {
        self.elapsed.saturating_add(dt) >= self.period
    }

    /// Lets `dt` pass. Returns whether the period was reached; if it was,
    /// the accumulated time starts again from zero.
    pub fn tick(&mut self, dt: u64) -> (fired: bool)
        ensures
            fired == old(self).fires_after(dt as int),
            *final(self) == old(self).ticked(dt as int),
    {
        let total: u64 = self.elapsed.saturating_add(dt);
        if total >= self.period {
            self.elapsed = 0;
            true
        } else {
            self.elapsed = total;
            false
        }
    }

    /// Discards the accumulated time.
    pub fn reset(&mut self)
        ensures
            final(self).period == old(self).period,
            final(self).elapsed == 0,
    {
        self.elapsed = 0;
    }
}

/// As long as the timer does not fire, only the total time matters, not how
/// it was split over calls.
pub proof fn lemma_tick_accumulates(timer: CooldownTimer, first: int, second: int)
    requires
        0 <= first,
        0 <= second,
        !timer.fires_after(first + second),
    ensures
        !timer.fires_after(first),
        timer.ticked(first).ticked(second) == timer.ticked(first + second),
{
}

/// The step on which the period is reached fires, however the time before
/// it was split.
pub proof fn lemma_tick_fires_on_total(timer: CooldownTimer, first: int, second: int)
    requires
        0 <= first,
        0 <= second,
        !timer.fires_after(first),
        timer.fires_after(first + second),
    ensures
        timer.ticked(first).fires_after(second),
        timer.ticked(first).ticked(second).elapsed == 0,
{
}

/// A timer that has been ticked holds less than its period, unless the
/// period is zero.
pub proof fn lemma_ticked_below_period(timer: CooldownTimer, dt: int)
    requires
        0 <= dt,
    ensures
        timer.ticked(dt).period == timer.period,
        timer.period > 0 ==> timer.ticked(dt).elapsed < timer.period,
        timer.period == 0 ==> timer.ticked(dt).elapsed == 0,
{
}

} // verus!
