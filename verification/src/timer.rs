//! The rate controller: a repeating countdown that says when the next
//! generation is due, with a period that can be halved and doubled within
//! fixed limits, and a pause flag.
//!
//! The countdown is a `bevy::time::Timer`. Verus does not read bevy: what
//! this module assumes of the timer is written on the items marked
//! `external_body` below, and everything else is proved from that.

use bevy::time::Timer;
use bevy::time::TimerMode;
use std::time::Duration;
use vstd::prelude::*;

verus! {

/// The shortest period of the countdown, in nanoseconds (a hundredth of a
/// second).
pub const MIN_AGE_DURATION: u64 = 10_000_000;

/// The longest period of the countdown, in nanoseconds (ten seconds).
pub const MAX_AGE_DURATION: u64 = 10_000_000_000;

/// The period a new simulation starts with, in nanoseconds (a tenth of a
/// second).
pub const INITIAL_AGE_DURATION: u64 = 100_000_000;

/// `bevy::time::Timer`, carried as an opaque value: nothing is known of a
/// timer but what the items below say of it.
#[verifier::external_type_specification]
#[verifier::external_body]
pub struct ExTimer(Timer);

/// What `Timer::duration` returns for `t`, in nanoseconds.
pub uninterp spec fn period_of(t: Timer) -> nat;

/// What `Timer::elapsed` returns for `t`, in nanoseconds.
pub uninterp spec fn elapsed_of(t: Timer) -> nat;

/// What `Timer::finished` returns for `t`.
pub uninterp spec fn finished_of(t: Timer) -> bool;

/// Whether `Timer::mode` returns `TimerMode::Repeating` for `t`.
pub uninterp spec fn repeating_of(t: Timer) -> bool;

/// What `Timer::paused` returns for `t`.
pub uninterp spec fn paused_of(t: Timer) -> bool;

/// `Timer::new` with `TimerMode::Repeating`: the timer has the given
/// period, no time elapsed, is not finished and not paused.
#[verifier::external_body]
fn timer_new(nanos: u64) -> (t: Timer)
    ensures
        period_of(t) == nanos,
        elapsed_of(t) == 0,
        !finished_of(t),
        repeating_of(t),
        !paused_of(t),
{
    Timer::new(Duration::from_nanos(nanos), TimerMode::Repeating)
}

/// `Timer::tick` on a repeating timer that is not paused: the time is
/// added to the elapsed time; the timer is finished exactly if the sum has
/// reached the period, and then keeps the remainder of the sum by the
/// period (nothing, for a period of zero).
#[verifier::external_body]
fn timer_tick(t: &mut Timer, delta: u64)
    requires
        repeating_of(*old(t)),
        !paused_of(*old(t)),
        period_of(*old(t)) <= u64::MAX,
        elapsed_of(*old(t)) <= u64::MAX,
    ensures
        period_of(*final(t)) == period_of(*old(t)),
        repeating_of(*final(t)),
        !paused_of(*final(t)),
        finished_of(*final(t)) == (elapsed_of(*old(t)) + delta >= period_of(*old(t))),
        elapsed_of(*final(t)) == if elapsed_of(*old(t)) + delta < period_of(*old(t)) {
            elapsed_of(*old(t)) + delta
        } else if period_of(*old(t)) == 0 {
            0
        } else {
            (elapsed_of(*old(t)) + delta) % (period_of(*old(t)) as int)
        },
{
    t.tick(Duration::from_nanos(delta));
}

/// `Timer::finished`.
#[verifier::external_body]
fn timer_finished(t: &Timer) -> (b: bool)
    ensures
        b == finished_of(*t),
{
    t.finished()
}

/// `Timer::duration`, in nanoseconds.
#[verifier::external_body]
fn timer_duration(t: &Timer) -> (nanos: u128)
    ensures
        nanos == period_of(*t),
{
    t.duration().as_nanos()
}

/// `Timer::elapsed`, in nanoseconds.
#[verifier::external_body]
fn timer_elapsed(t: &Timer) -> (nanos: u128)
    ensures
        nanos == elapsed_of(*t),
{
    t.elapsed().as_nanos()
}

/// A period brought into the allowed range.
pub open spec fn normalized(nanos: int) -> int {
    if nanos < MIN_AGE_DURATION {
        MIN_AGE_DURATION as int
    } else if nanos > MAX_AGE_DURATION {
        MAX_AGE_DURATION as int
    } else {
        nanos
    }
}

/// Brings a period, in nanoseconds, into the allowed range.
pub fn normolize_speed(speed: u64) -> (r: u64)
    ensures
        r == normalized(speed as int),
{
    if speed < MIN_AGE_DURATION {
        return MIN_AGE_DURATION;
    }
    if speed > MAX_AGE_DURATION {
        return MAX_AGE_DURATION;
    }
    speed
}

/// The state of a countdown: its period, the time accumulated since it
/// last fired, both in nanoseconds, and whether it fired at its last tick.
pub struct Countdown {
    pub period: int,
    pub elapsed: int,
    pub finished: bool,
}

/// A countdown of the given period that has accumulated nothing.
pub open spec fn restarted(period: int) -> Countdown {
    Countdown { period, elapsed: 0, finished: false }
}

/// A countdown after `delta` nanoseconds more: it fires if the accumulated
/// time reaches the period, and keeps what goes beyond a whole number of
/// periods.
pub open spec fn ticked(c: Countdown, delta: int) -> Countdown {
    Countdown {
        period: c.period,
        elapsed: (c.elapsed + delta) % c.period,
        finished: c.elapsed + delta >= c.period,
    }
}

/// The countdown to the next generation.
pub struct AgeTimer(Timer);

impl View for AgeTimer {
    type V = Countdown;

    closed spec fn view(&self) -> Countdown {
        Countdown {
            period: period_of(self.0) as int,
            elapsed: elapsed_of(self.0) as int,
            finished: finished_of(self.0),
        }
    }
}

impl AgeTimer {
    /// The countdown repeats and runs, its period is within the limits and
    /// the accumulated time is less than the period.
    pub closed spec fn wf(&self) -> bool {
        &&& repeating_of(self.0)
        &&& !paused_of(self.0)
        &&& MIN_AGE_DURATION <= period_of(self.0) <= MAX_AGE_DURATION
        &&& elapsed_of(self.0) < period_of(self.0)
    }

    /// What `wf` says of the period and the accumulated time.
    pub proof fn lemma_wf(&self)
        requires
            self.wf(),
        ensures
            MIN_AGE_DURATION <= self@.period <= MAX_AGE_DURATION,
            0 <= self@.elapsed < self@.period,
    {
    }

    /// A countdown with the given period, brought into the allowed range,
    /// and nothing accumulated.
    pub fn new(nanos: u64) -> (timer: AgeTimer)
        ensures
            timer.wf(),
            timer@ == restarted(normalized(nanos as int)),
    {
        AgeTimer(timer_new(normolize_speed(nanos)))
    }

    /// The period, in nanoseconds.
    pub fn duration(&self) -> (nanos: u64)
        requires
            self.wf(),
        ensures
            nanos == self@.period,
            MIN_AGE_DURATION <= nanos <= MAX_AGE_DURATION,
    {
        timer_duration(&self.0) as u64
    }

    /// The period, in whole milliseconds.
    pub fn duration_millis(&self) -> (millis: u64)
        requires
            self.wf(),
        ensures
            millis == self@.period / 1_000_000,
    {
        self.duration() / 1_000_000
    }

    /// The accumulated time, in nanoseconds.
    pub fn elapsed(&self) -> (nanos: u64)
        requires
            self.wf(),
        ensures
            nanos == self@.elapsed,
            nanos < self@.period,
    {
        timer_elapsed(&self.0) as u64
    }

    /// Whether the countdown fired at its last tick.
    pub fn finished(&self) -> (b: bool)
        ensures
            b == self@.finished,
    {
        timer_finished(&self.0)
    }

    /// Adds `delta` nanoseconds to the accumulated time, and says whether
    /// the countdown is due.
    pub fn tick(&mut self, delta: u64) -> (due: bool)
        requires
            old(self).wf(),
        ensures
            final(self).wf(),
            final(self)@ == ticked(old(self)@, delta as int),
            due == final(self)@.finished,
    {
        proof {
            let e = self@.elapsed + delta;
            let d = self@.period;
            if e < d {
                vstd::arithmetic::div_mod::lemma_small_mod(e as nat, d as nat);
            } else {
                vstd::arithmetic::div_mod::lemma_mod_bound(e, d);
            }
        }
        timer_tick(&mut self.0, delta);
        timer_finished(&self.0)
    }
}

/// Halves the period, within the limits, and starts the countdown afresh.
pub fn speed_up_age_speed(timer: &mut AgeTimer)
    ensures
        final(timer).wf(),
        final(timer)@ == restarted(normalized(old(timer)@.period / 2)),
{
    let period: u128 = timer_duration(&timer.0);
    let half: u128 = period / 2;
    let next: u64 = if half > MAX_AGE_DURATION as u128 {
        MAX_AGE_DURATION
    } else {
        normolize_speed(half as u64)
    };
    *timer = AgeTimer(timer_new(next));
}

/// Doubles the period, within the limits, and starts the countdown afresh.
pub fn slow_age_speed(timer: &mut AgeTimer)
    ensures
        final(timer).wf(),
        final(timer)@ == restarted(normalized(old(timer)@.period * 2)),
{
    let period: u128 = timer_duration(&timer.0);
    let next: u64 = if period > MAX_AGE_DURATION as u128 {
        MAX_AGE_DURATION
    } else {
        normolize_speed((period * 2) as u64)
    };
    *timer = AgeTimer(timer_new(next));
}

/// Whether the simulation is paused.
pub struct IsPaused(pub bool);

/// Pauses a running simulation and resumes a paused one.
pub fn toggle_pause(is_paused: &mut IsPaused)
    ensures
        final(is_paused).0 == !old(is_paused).0,
{
    is_paused.0 = !is_paused.0;
}

} // verus!
