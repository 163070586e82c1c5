use reina_download::limiter::{Acquire, Adaptive, Gate};
use reina_download::time::{Clock, Duration, Instant};

#[test]
fn gate_caps_in_flight() {
    let mut gate = Gate::new(2);
    assert_eq!(gate.acquire(false), Acquire::Granted);
    assert_eq!(gate.acquire(false), Acquire::Granted);
    assert_eq!(gate.acquire(false), Acquire::Wait);
    gate.release();
    assert_eq!(gate.acquire(false), Acquire::Granted);
    gate.release();
    gate.release();
    assert_eq!(gate.in_flight, 0);
}

#[test]
fn adaptive_halves_then_grows() {
    let mut clock = Clock::start();
    let mut adaptive = Adaptive::new(1, 8, 8, 2);
    let start = clock.now();
    adaptive.on_rate_limited(&mut clock, start, Duration::from_millis(0));
    assert_eq!(adaptive.current(), 4);
    // Same window: a second failure from an earlier attempt does not reduce again.
    adaptive.on_rate_limited(&mut clock, start, Duration::from_millis(0));
    assert_eq!(adaptive.current(), 4);
    adaptive.on_success();
    adaptive.on_success();
    assert_eq!(adaptive.current(), 5);
}

#[test]
fn adaptive_respects_floor() {
    let mut clock = Clock::start();
    let mut adaptive = Adaptive::new(2, 2, 8, 4);
    let start = clock.now();
    adaptive.on_rate_limited(&mut clock, start, Duration::from_millis(0));
    assert_eq!(adaptive.current(), 2);
}

#[test]
fn gate_has_at_least_one_slot() {
    let mut gate = Gate::new(0);
    assert_eq!(gate.max, 1);
    assert_eq!(gate.acquire(false), Acquire::Granted);
    assert_eq!(gate.acquire(false), Acquire::Wait);
    assert_eq!(gate.acquire(true), Acquire::Cancelled);
    assert_eq!(gate.in_flight, 1);
}

#[test]
fn gate_release_stops_at_zero() {
    let mut gate = Gate::new(3);
    gate.release();
    assert_eq!(gate.in_flight, 0);
}

#[test]
fn adaptive_new_repairs_its_bounds() {
    let adaptive = Adaptive::new(0, 9, 0, 4);
    assert_eq!((adaptive.min, adaptive.current(), adaptive.max), (1, 1, 1));
    let adaptive = Adaptive::new(3, 1, 8, 4);
    assert_eq!(adaptive.current(), 3);
}

#[test]
fn adaptive_rounds_halves_up() {
    let mut adaptive = Adaptive::new(1, 5, 8, 4);
    adaptive.on_rate_limited_at(Instant { nanos: 10 }, Instant { nanos: 20 }, Duration { nanos: 0 });
    assert_eq!(adaptive.current(), 3);
    // An attempt from after the reduction opens the next window.
    adaptive.on_rate_limited_at(Instant { nanos: 21 }, Instant { nanos: 30 }, Duration { nanos: 0 });
    assert_eq!(adaptive.current(), 2);
}

#[test]
fn adaptive_pause_only_extends() {
    let mut adaptive = Adaptive::new(1, 4, 8, 4);
    adaptive.on_rate_limited_at(Instant { nanos: 1 }, Instant { nanos: 5 }, Duration { nanos: 100 });
    assert_eq!(adaptive.remaining_pause_at(Instant { nanos: 50 }).nanos, 55);
    adaptive.on_rate_limited_at(Instant { nanos: 1 }, Instant { nanos: 6 }, Duration { nanos: 10 });
    assert_eq!(adaptive.remaining_pause_at(Instant { nanos: 50 }).nanos, 55);
    assert_eq!(adaptive.remaining_pause_at(Instant { nanos: 105 }).nanos, 0);
}

#[test]
fn adaptive_grows_only_on_consecutive_successes() {
    let mut adaptive = Adaptive::new(1, 2, 3, 2);
    adaptive.on_success();
    adaptive.on_failure();
    adaptive.on_success();
    assert_eq!(adaptive.current(), 2);
    adaptive.on_success();
    assert_eq!(adaptive.current(), 3);
    adaptive.on_success();
    adaptive.on_success();
    assert_eq!(adaptive.current(), 3);
}

#[test]
fn clock_moves_on() {
    let mut clock = Clock::start();
    let first = clock.now();
    let mut adaptive = Adaptive::new(1, 4, 8, 4);
    adaptive.on_rate_limited(&mut clock, first, Duration::from_secs(3600));
    let left = adaptive.remaining_pause(&mut clock).nanos;
    assert!(left > 3_000_000_000_000);
    assert!(left <= 3_600_000_000_000 + clock.now().nanos);
    assert!(clock.now().nanos >= first.nanos);
}

#[test]
fn adaptive_grows_once_per_run() {
    let mut adaptive = Adaptive::new(1, 2, 5, 3);
    for _ in 0..7 {
        adaptive.on_success();
    }
    assert_eq!((adaptive.current(), adaptive.successes), (4, 1));
    let mut eager = Adaptive::new(1, 2, 5, 0);
    eager.on_success();
    eager.on_success();
    assert_eq!((eager.current(), eager.successes), (4, 0));
    eager.on_success();
    eager.on_success();
    assert_eq!(eager.current(), 5);
}
