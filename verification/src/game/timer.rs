//! The repeating timer that paces the pipes. It keeps its time in
//! milliseconds and lets a `bevy::time::Timer` do the ticking.

use bevy::time::{Timer, TimerMode};
use std::time::Duration;
use vstd::prelude::*;

verus! {

/// A repeating timer as mathematics sees it: a period and the time elapsed
/// in the current period, both in milliseconds.
pub struct TimerModel {
    pub period: nat,
    pub elapsed: nat,
}

impl TimerModel {
    /// Whether `dt` more milliseconds complete the current period.
    pub open spec fn finishes(self, dt: nat) -> bool {
        self.elapsed + dt >= self.period
    }

    /// The timer `dt` milliseconds later. A completed period starts the next
    /// one, which keeps the time left over; a timer without a period
    /// completes on every tick and keeps nothing.
    pub open spec fn tick(self, dt: nat) -> TimerModel {
        let total = self.elapsed + dt;
        TimerModel {
            elapsed: if !self.finishes(dt) {
                total
            } else if self.period == 0 {
                0
            } else {
                total % self.period
            },
            ..self
        }
    }

    /// The timer at the start of a period.
    pub open spec fn reset(self) -> TimerModel {
        TimerModel { elapsed: 0, ..self }
    }
}

/// One tick of a repeating `bevy::time::Timer`. The timer is made by
/// `Timer::new` with a period of `period` milliseconds, put `elapsed`
/// milliseconds into its period by `Timer::set_elapsed` and advanced by `dt`
/// milliseconds by `Timer::tick`; returned are the milliseconds that
/// `Timer::elapsed` then reports and the answer of `Timer::finished`.
///
/// The contract is what bevy's source shows of a repeating timer that is not
/// paused: the tick adds `dt` to the elapsed time; the timer has finished if
/// that sum has reached the period; a finished timer keeps the remainder of
/// the sum by the period, and nothing if the period is zero.
#[verifier::external_body]
fn tick_repeating(period: u32, elapsed: u32, dt: u32) -> (after: (u32, bool))
    ensures
        after.1 <==> elapsed + dt >= period,
        !after.1 ==> after.0 == elapsed + dt,
        after.1 && period > 0 ==> after.0 == (elapsed + dt) % (period as int),
        after.1 && period == 0 ==> after.0 == 0,
{
    let mut timer = Timer::new(Duration::from_millis(period as u64), TimerMode::Repeating);
    timer.set_elapsed(Duration::from_millis(elapsed as u64));
    timer.tick(Duration::from_millis(dt as u64));
    (timer.elapsed().as_millis() as u32, timer.finished())
}

/// A repeating countdown in milliseconds.
#[derive(Clone, Copy, Debug)]
pub struct SpawnTimer {
    period: u32,
    elapsed: u32,
}

impl View for SpawnTimer {
    type V = TimerModel;

    closed spec fn view(&self) -> TimerModel {
        TimerModel { period: self.period as nat, elapsed: self.elapsed as nat }
    }
}

impl SpawnTimer {
    /// A timer at the start of a period of `period` milliseconds.
    pub fn new(period: u32) -> (timer: SpawnTimer)
        ensures
            timer@ == (TimerModel { period: period as nat, elapsed: 0 }),
    {
        SpawnTimer { period, elapsed: 0 }
    }

    /// Length of a period in milliseconds.
    pub fn period(&self) -> (period: u32)
        ensures
            period == self@.period,
    {
        self.period
    }

    /// Milliseconds elapsed in the current period.
    pub fn elapsed(&self) -> (elapsed: u32)
        ensures
            elapsed == self@.elapsed,
    {
        self.elapsed
    }

    /// Whether a tick of `dt` milliseconds would complete the period.
    pub fn finishes(&self, dt: u32) -> (finished: bool)
        ensures
            finished == self@.finishes(dt as nat),
    {
        self.elapsed as u64 + dt as u64 >= self.period as u64
    }

    /// Advances the timer by `dt` milliseconds and says whether that
    /// completed a period.
    pub fn tick(&mut self, dt: u32) -> (finished: bool)
        ensures
            finished == old(self)@.finishes(dt as nat),
            final(self)@ == old(self)@.tick(dt as nat),
    {
        let (elapsed, finished) = tick_repeating(self.period, self.elapsed, dt);
        self.elapsed = elapsed;
        finished
    }

    /// Starts the current period over.
    pub fn reset(&mut self)
        ensures
            final(self)@ == old(self)@.reset(),
    {
        self.elapsed = 0;
    }
}

} // verus!
