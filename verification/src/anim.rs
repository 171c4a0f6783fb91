//! Clocks and the timing of animations.

use std::time::Instant;

use vstd::prelude::*;

verus! {

/// A point in time, as the operating system's monotonic clock gives it.
#[verifier::external_type_specification]
#[verifier::external_body]
pub struct ExInstant(std::time::Instant);

/// `Instant::now` reads the clock. Nothing is known of the reading.
pub assume_specification[ Instant::now ]() -> Instant;

/// The curve that an animation follows.
#[derive(Debug, Clone, Copy, PartialEq, Eq, Structural)]
pub enum Easing {
    Linear,
    EaseOutCubic,
    EaseInOutCubic,
}

/// Where "now" comes from: the system, or a fixed point for tests.
#[derive(Debug, Clone, Copy)]
pub enum Clock {
    System,
    Frozen(Instant),
}

impl Default for Clock {
    fn default() -> (clock: Clock)
        ensures
            clock is System,
    {
        Clock::System
    }
}

impl Clock {
    /// Whether the clock can read `at`: a frozen one reads only its own point.
    pub open spec fn reads(self, at: Instant) -> bool {
        match self {
            Clock::System => true,
            Clock::Frozen(t) => t == at,
        }
    }

    /// The point in time that the clock reads.
    pub fn now(&self) -> (at: Instant)
        ensures
            self.reads(at),
    {
        match self {
            Clock::System => Instant::now(),
            Clock::Frozen(t) => *t,
        }
    }

    /// A clock that always reads `at`.
    pub fn frozen(at: Instant) -> (clock: Clock)
        ensures
            clock == Clock::Frozen(at),
    {
        Clock::Frozen(at)
    }
}

/// A reading of the clocks: the point in time, and for how many milliseconds
/// the search modal has been open.
#[derive(Debug, Clone, Copy)]
pub struct Moment {
    pub at: Instant,
    pub search_millis: u128,
}

/// How far an animation is.
#[derive(Debug, Clone, Copy, PartialEq, Eq, Structural)]
pub enum Phase {
    /// It shows where it starts from.
    AtStart,
    /// It is between its two ends.
    Running,
    /// It shows where it leads to.
    AtEnd,
}

/// How far an animation of `duration` is. `elapsed` is the time since its
/// start, or none where the start is not past.
pub open spec fn phase_at(elapsed: Option<u128>, duration: u128) -> Phase {
    match elapsed {
        None => Phase::AtStart,
        Some(e) => if e >= duration {
            Phase::AtEnd
        } else {
            Phase::Running
        },
    }
}

/// How far an animation of `duration` is. `elapsed` is the time since its
/// start, or none where the start is not past.
pub fn phase(elapsed: Option<u128>, duration: u128) -> (p: Phase)
    ensures
        p == phase_at(elapsed, duration),
{
    match elapsed {
        None => Phase::AtStart,
        Some(e) => {
            if e >= duration {
                Phase::AtEnd
            } else {
                Phase::Running
            }
        },
    }
}

/// An animation never goes back: later it is at least as far.
pub proof fn animations_only_go_forward(e1: u128, e2: u128, duration: u128)
    requires
        e1 <= e2,
    ensures
        phase_at(Some(e1), duration) == Phase::AtEnd ==> phase_at(Some(e2), duration)
            == Phase::AtEnd,
        phase_at(Some(e2), duration) != Phase::AtStart,
{
}

/// An animation shows its start until it has begun, and its end from its
/// duration on; in between it is under way.
pub proof fn animations_end_on_time(elapsed: u128, duration: u128)
    ensures
        phase_at(None, duration) == Phase::AtStart,
        elapsed < duration ==> phase_at(Some(elapsed), duration) == Phase::Running,
        elapsed >= duration ==> phase_at(Some(elapsed), duration) == Phase::AtEnd,
{
}

} // verus!
