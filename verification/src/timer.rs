//! The move timer: a repeating countdown that says when the snake advances.
//!
//! Times are whole nanoseconds. The countdown itself is run by
//! `bevy::time::Timer`; this module keeps the timer's state as plain numbers
//! and states what a tick does to them.

use bevy::time::{Timer, TimerMode};
use std::time::Duration;
use vstd::prelude::*;

verus! {

/// Duration of the move timer at the start of a game, in nanoseconds.
pub const TIMER_STARTING_DURATION: u64 = 160_000_000;

/// Share of its current duration, in percent, that the timer loses when the
/// difficulty changes.
pub const TIMER_SCALING_PERCENTAGE: u64 = 15;

/// The duration that follows `duration` when the difficulty changes: the
/// duration less the scaling percentage of it, the cut rounded down.
pub open spec fn scaled_duration(duration: u64) -> int {
    duration - duration * TIMER_SCALING_PERCENTAGE / 100
}

/// How often a repeating timer of `duration` completes when its elapsed time
/// reaches `total`, as the counter of 32 bits reports it.
pub open spec fn completions(duration: u64, total: int) -> int {
    if duration == 0 {
        u32::MAX as int
    } else {
        (total / duration as int) % 0x1_0000_0000
    }
}

/// The elapsed time that a repeating timer of `duration` keeps when its
/// elapsed time reaches `total`.
pub open spec fn remainder(duration: u64, total: int) -> int {
    if duration == 0 {
        0
    } else {
        total % duration as int
    }
}

/// A repeating countdown.
#[derive(Clone, Copy, Debug, PartialEq, Eq, Structural)]
pub struct MoveTimer {
    /// Length of one period.
    pub duration: u64,
    /// Time since the last period ended.
    pub elapsed: u64,
    /// Periods completed by the latest tick.
    pub times_finished: u32,
}

/// Ticks a fresh repeating `bevy::time::Timer` of `duration` nanoseconds,
/// whose elapsed time was set to `elapsed`, by `delta`, and returns its
/// elapsed time and `times_finished_this_tick` afterwards.
///
/// Believed of `Timer::tick` in repeating mode, not proved here: the elapsed
/// time grows by `delta`; the timer counts how often the duration fits into
/// the sum, keeping the low 32 bits of that count, and keeps the rest as the
/// new elapsed time. With a duration of zero it reports `u32::MAX`
/// completions and an elapsed time of zero.
#[verifier::external_body]
fn repeating_tick(duration: u64, elapsed: u64, delta: u64) -> (after: (u64, u32))
    ensures
        after.0 == remainder(duration, elapsed + delta),
        after.1 == completions(duration, elapsed + delta),
{
    let mut timer = Timer::new(Duration::from_nanos(duration), TimerMode::Repeating);
    timer.set_elapsed(Duration::from_nanos(elapsed));
    timer.tick(Duration::from_nanos(delta));
    (timer.elapsed().as_nanos() as u64, timer.times_finished_this_tick())
}

impl MoveTimer {
    /// A timer of the given duration that has not run yet.
    pub fn new(duration: u64) -> (t: MoveTimer)
        ensures
            t == (MoveTimer { duration, elapsed: 0, times_finished: 0 }),
    {
        MoveTimer { duration, elapsed: 0, times_finished: 0 }
    }

    /// The timer after a tick of `delta`.
    pub open spec fn spec_tick(self, delta: u64) -> MoveTimer {
        MoveTimer {
            duration: self.duration,
            elapsed: remainder(self.duration, self.elapsed + delta) as u64,
            times_finished: completions(self.duration, self.elapsed + delta) as u32,
        }
    }

    /// Whether the latest tick completed a period.
    pub open spec fn spec_just_finished(self) -> bool {
        self.times_finished > 0
    }

    /// The timer after the difficulty changed.
    pub open spec fn spec_scale(self) -> MoveTimer {
        MoveTimer { duration: scaled_duration(self.duration) as u64, ..self }
    }

    /// Advances the timer by `delta` nanoseconds.
    pub fn tick(&mut self, delta: u64)
        ensures
            *final(self) == old(self).spec_tick(delta),
            final(self).elapsed == remainder(old(self).duration, old(self).elapsed + delta),
            final(self).times_finished == completions(
                old(self).duration,
                old(self).elapsed + delta,
            ),
    {
        let after = repeating_tick(self.duration, self.elapsed, delta);
        self.elapsed = after.0;
        self.times_finished = after.1;
    }

    /// Whether the latest tick completed a period.
    pub fn just_finished(&self) -> (fired: bool)
        ensures
            fired == self.spec_just_finished(),
    {
        self.times_finished > 0
    }

    /// Length of one period in nanoseconds.
    pub fn duration(&self) -> (d: u64)
        ensures
            d == self.duration,
    {
        self.duration
    }

    /// Sets the length of one period; the elapsed time stays.
    pub fn set_duration(&mut self, duration: u64)
        ensures
            *final(self) == (MoveTimer { duration, ..*old(self) }),
    {
        self.duration = duration;
    }

    /// Shortens the period by the scaling percentage of its current length.
    pub fn scale(&mut self)
        ensures
            *final(self) == old(self).spec_scale(),
            final(self).duration == scaled_duration(old(self).duration),
    {
        proof {
            lemma_scaled_duration(self.duration);
        }
        let cut: u128 = (self.duration as u128) * (TIMER_SCALING_PERCENTAGE as u128) / 100;
        self.duration = self.duration - (cut as u64);
    }
}

/// A timer that completes within `2^32` periods fires exactly when the elapsed
/// time reaches its duration, and keeps less than one period.
pub proof fn lemma_tick_fires(t: MoveTimer, delta: u64)
    requires
        t.duration > 0,
        t.elapsed + delta < t.duration * 0x1_0000_0000,
    ensures
        t.spec_tick(delta).spec_just_finished() <==> t.elapsed + delta >= t.duration,
        t.spec_tick(delta).elapsed < t.duration,
        t.spec_tick(delta).elapsed + t.spec_tick(delta).times_finished * t.duration == t.elapsed
            + delta,
{
    let total: int = t.elapsed + delta;
    let d: int = t.duration as int;
    let q: int = total / d;
    vstd::arithmetic::div_mod::lemma_fundamental_div_mod(total, d);
    vstd::arithmetic::div_mod::lemma_mod_bound(total, d);
    assert(0 <= q < 0x1_0000_0000 && (q > 0 <==> total >= d)) by (nonlinear_arith)
        requires
            d > 0,
            0 <= total < d * 0x1_0000_0000,
            total == d * q + total % d,
            0 <= total % d < d,
    ;
    assert(q * d == d * q) by (nonlinear_arith);
}

/// Scaling never lengthens the period, shortens every period of at least
/// seven nanoseconds, and never brings a positive period to zero.
pub proof fn lemma_scaled_duration(duration: u64)
    ensures
        scaled_duration(duration) <= duration,
        duration >= 7 ==> scaled_duration(duration) < duration,
        duration >= 1 ==> scaled_duration(duration) >= 1,
        0 <= scaled_duration(duration),
        duration * TIMER_SCALING_PERCENTAGE == 15 * duration,
{
    assert(duration * TIMER_SCALING_PERCENTAGE == 15 * duration) by (nonlinear_arith)
        requires
            TIMER_SCALING_PERCENTAGE == 15,
    ;
}

} // verus!
