//! Clocks and the timing of animations.

use std::time::{Duration, Instant};

use threadhop_tui::anim::{phase, Clock, Phase};

#[test]
fn a_frozen_clock_stands_still() {
    let at = Instant::now();
    let clock = Clock::frozen(at);
    assert_eq!(clock.now(), at);
    assert_eq!(clock.now(), at);
}

#[test]
fn the_system_clock_goes_on() {
    let before = Instant::now();
    let clock = Clock::default();
    assert!(matches!(clock, Clock::System));
    assert!(clock.now() >= before);
    assert!(clock.now() < before + Duration::from_secs(3600));
}

#[test]
fn an_animation_starts_runs_and_ends() {
    assert_eq!(phase(None, 150), Phase::AtStart);
    assert_eq!(phase(Some(0), 150), Phase::Running);
    assert_eq!(phase(Some(149), 150), Phase::Running);
    assert_eq!(phase(Some(150), 150), Phase::AtEnd);
    assert_eq!(phase(Some(u128::MAX), 150), Phase::AtEnd);
    assert_eq!(phase(Some(0), 0), Phase::AtEnd);
}
