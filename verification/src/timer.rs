//! The engine's countdown timer, as far as the animator drives it.
//!
//! Nothing here is proved: each contract restates what the engine's source
//! does, over [`timer_view`].

use bevy::time::Timer;
use bevy::time::TimerMode;
use std::time::Duration;
use vstd::prelude::*;

verus! {

/// `bevy::time::Timer`: a stopwatch with a duration to count up to.
#[verifier::external_type_specification]
#[verifier::external_body]
pub struct ExTimer(Timer);

/// What a timer holds, in nanoseconds and flags.
pub struct TimerView {
    /// Time on the stopwatch.
    pub elapsed: nat,
    /// Time at which the timer is done.
    pub duration: nat,
    /// Whether the timer has reached its duration.
    pub finished: bool,
    /// Whether it reached its duration in the latest tick.
    pub just_finished: bool,
    /// Whether ticks are ignored for now.
    pub paused: bool,
    /// Whether the timer starts over each time it is done.
    pub repeating: bool,
}

/// The contents of a timer: its stopwatch's elapsed time, its duration, its
/// `finished` flag, whether it finished in the latest tick, whether it is
/// paused and whether its mode is `Repeating`.
pub uninterp spec fn timer_view(timer: Timer) -> TimerView;

/// A timer that has not run yet.
pub open spec fn fresh(duration: nat) -> TimerView {
    TimerView {
        elapsed: 0,
        duration,
        finished: false,
        just_finished: false,
        paused: false,
        repeating: false,
    }
}

/// A running, unfinished one-shot timer after `delta` more nanoseconds: it
/// stops at its duration and says so once.
pub open spec fn ticked(before: TimerView, delta: nat) -> TimerView {
    if before.elapsed + delta >= before.duration {
        TimerView { elapsed: before.duration, finished: true, just_finished: true, ..before }
    } else {
        TimerView {
            elapsed: before.elapsed + delta,
            finished: false,
            just_finished: false,
            ..before
        }
    }
}

/// `Timer::new` with `TimerMode::Once`. The engine fills every other field
/// from its defaults: a stopwatch at zero that is not paused, neither flag set.
#[verifier::external_body]
pub(crate) fn start_timer(duration: u64) -> (timer: Timer)
    ensures
        timer_view(timer) == fresh(duration as nat),
{
    Timer::new(Duration::from_nanos(duration), TimerMode::Once)
}

/// `Timer::tick` on a running one-shot timer that has not finished. The
/// engine adds `delta` to the stopwatch and compares with the duration: once
/// reached, it sets the stopwatch back to the duration and records one
/// finish for this tick; else it records none. Duration, pause and mode stay.
/// The stopwatch's addition cannot overflow from a start within `u64`
/// nanoseconds.
#[verifier::external_body]
pub(crate) fn tick_timer(timer: &mut Timer, delta: u64)
    requires
        !timer_view(*old(timer)).paused,
        !timer_view(*old(timer)).repeating,
        !timer_view(*old(timer)).finished,
        timer_view(*old(timer)).elapsed <= u64::MAX,
    ensures
        timer_view(*final(timer)) == ticked(timer_view(*old(timer)), delta as nat),
{
    timer.tick(Duration::from_nanos(delta));
}

/// `Timer`'s `Clone::clone`. The engine derives it, and every field of a
/// timer is plain data, so the copy is the same value.
pub assume_specification[ <Timer as Clone>::clone ](timer: &Timer) -> (copy: Timer)
    ensures
        copy == *timer,
;

/// `Timer::just_finished`: whether the latest tick recorded a finish.
pub assume_specification[ Timer::just_finished ](timer: &Timer) -> (yes: bool)
    ensures
        yes == timer_view(*timer).just_finished,
;

} // verus!
