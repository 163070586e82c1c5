//! Time as plain numbers: spans, and moments counted from a clock's start.

use vstd::prelude::*;

verus! {

/// Nanoseconds in a millisecond.
pub const NANOS_PER_MILLI: u128 = 1_000_000;

/// Nanoseconds in a second.
pub const NANOS_PER_SEC: u128 = 1_000_000_000;

/// A span of time.
#[derive(Debug, Clone, Copy, PartialEq, Eq, Structural)]
pub struct Duration {
    pub nanos: u128,
}

impl Duration {
    /// The span of `secs` seconds.
    pub open spec fn secs(secs: u64) -> Duration {
        Duration { nanos: (secs * NANOS_PER_SEC) as u128 }
    }

    /// The span of `millis` milliseconds.
    pub open spec fn millis(millis: u64) -> Duration {
        Duration { nanos: (millis * NANOS_PER_MILLI) as u128 }
    }

    /// The shorter of two spans.
    pub open spec fn shorter(self, other: Duration) -> Duration {
        if other.nanos < self.nanos {
            other
        } else {
            self
        }
    }

    /// The longer of two spans.
    pub open spec fn longer(self, other: Duration) -> Duration {
        if other.nanos > self.nanos {
            other
        } else {
            self
        }
    }

    #[must_use]
    pub fn from_secs(secs: u64) -> (r: Duration)
        ensures
            r == Duration::secs(secs),
            r.nanos == secs * NANOS_PER_SEC,
    {
        Duration { nanos: secs as u128 * NANOS_PER_SEC }
    }

    #[must_use]
    pub fn from_millis(millis: u64) -> (r: Duration)
        ensures
            r == Duration::millis(millis),
            r.nanos == millis * NANOS_PER_MILLI,
    {
        Duration { nanos: millis as u128 * NANOS_PER_MILLI }
    }

    /// The whole seconds of the span.
    #[must_use]
    pub fn as_secs(self) -> (r: u128)
        ensures
            r == self.nanos / NANOS_PER_SEC,
    {
        self.nanos / NANOS_PER_SEC
    }

    #[must_use]
    pub fn is_zero(self) -> (r: bool)
        ensures
            r == (self.nanos == 0),
    {
        self.nanos == 0
    }

    #[must_use]
    pub fn min(self, other: Duration) -> (r: Duration)
        ensures
            r == self.shorter(other),
    {
        if other.nanos < self.nanos {
            other
        } else {
            self
        }
    }

    #[must_use]
    pub fn max(self, other: Duration) -> (r: Duration)
        ensures
            r == self.longer(other),
    {
        if other.nanos > self.nanos {
            other
        } else {
            self
        }
    }
}

/// A moment, counted from the start of a [`Clock`].
#[derive(Debug, Clone, Copy, PartialEq, Eq, Structural)]
pub struct Instant {
    pub nanos: u128,
}

impl Instant {
    /// The moment `delay` after this one, or the last one there is.
    pub open spec fn plus(self, delay: Duration) -> Instant {
        if self.nanos + delay.nanos > u128::MAX {
            Instant { nanos: u128::MAX }
        } else {
            Instant { nanos: (self.nanos + delay.nanos) as u128 }
        }
    }

    /// The span from `earlier` to this moment, none if that lies later.
    pub open spec fn since(self, earlier: Instant) -> Duration {
        if self.nanos > earlier.nanos {
            Duration { nanos: (self.nanos - earlier.nanos) as u128 }
        } else {
            Duration { nanos: 0 }
        }
    }

    #[must_use]
    pub fn saturating_add(self, delay: Duration) -> (r: Instant)
        ensures
            r == self.plus(delay),
    {
        Instant { nanos: self.nanos.saturating_add(delay.nanos) }
    }

    #[must_use]
    pub fn saturating_duration_since(self, earlier: Instant) -> (r: Duration)
        ensures
            r == self.since(earlier),
    {
        Duration { nanos: self.nanos.saturating_sub(earlier.nanos) }
    }
}

/// `std::time::Instant`, read only through the time that has passed since.
#[verifier::external_type_specification]
#[verifier::external_body]
pub struct ExInstant(std::time::Instant);

/// `std::time::Instant::now` reads the monotonic clock: nothing is claimed of
/// the moment it returns.
pub assume_specification[ std::time::Instant::now ]() -> std::time::Instant
;

/// `std::time::Instant::elapsed` reads the monotonic clock again: nothing is
/// claimed of the span it returns.
pub assume_specification[ std::time::Instant::elapsed ](
    start: &std::time::Instant,
) -> std::time::Duration
;

/// The nanoseconds of a span: the outcome of `std::time::Duration::as_nanos`.
pub uninterp spec fn whole_nanos(span: std::time::Duration) -> u128;

/// `std::time::Duration::as_nanos`: its answer is a function of the span.
pub assume_specification[ std::time::Duration::as_nanos ](span: &std::time::Duration) -> (r: u128)
    ensures
        r == whole_nanos(*span),
;

/// A monotonic clock that counts from the moment it was started.
#[derive(Debug)]
pub struct Clock {
    origin: std::time::Instant,
    latest: Instant,
}

impl Clock {
    /// The last moment that was read, or the start.
    pub closed spec fn latest(self) -> Instant {
        self.latest
    }

    /// What is read when `passed` has gone by since the start: never a moment
    /// before the last one that was read.
    pub open spec fn reading(self, passed: std::time::Duration) -> Instant {
        if whole_nanos(passed) > self.latest().nanos {
            Instant { nanos: whole_nanos(passed) }
        } else {
            self.latest()
        }
    }

    /// Starts a clock.
    #[must_use]
    pub fn start() -> (r: Clock)
        ensures
            r.latest() == (Instant { nanos: 0 }),
    {
        Clock { origin: std::time::Instant::now(), latest: Instant { nanos: 0 } }
    }

    /// The present moment. It depends on when it is asked for, and never goes
    /// back.
    pub fn now(&mut self) -> (r: Instant)
        ensures
            exists|passed: std::time::Duration| r == #[trigger] old(self).reading(passed),
            final(self).latest() == r,
            old(self).latest().nanos <= r.nanos,
    {
        let passed = self.origin.elapsed();
        let now = Instant { nanos: passed.as_nanos() };
        assert(old(self).reading(passed).nanos >= now.nanos);
        if now.nanos > self.latest.nanos {
            self.latest = now;
        }
        self.latest
    }
}

/// Spans are counted in nanoseconds, and the shorter and the longer of two are
/// one of them each.
pub proof fn law_spans_are_ordered(a: Duration, b: Duration, count: u64)
    ensures
        Duration::secs(count).nanos == count * 1_000_000_000,
        Duration::millis(count).nanos == count * 1_000_000,
        a.shorter(b) == a || a.shorter(b) == b,
        a.shorter(b).nanos <= a.nanos && a.shorter(b).nanos <= b.nanos,
        a.longer(b) == a || a.longer(b) == b,
        a.longer(b).nanos >= a.nanos && a.longer(b).nanos >= b.nanos,
{
}

/// The time since a moment undoes the wait from it, and nothing has passed
/// since a moment that is still to come.
pub proof fn law_waiting_and_looking_back(moment: Instant, delay: Duration, other: Instant)
    ensures
        moment.nanos + delay.nanos <= u128::MAX ==> moment.plus(delay).since(moment) == delay,
        moment.plus(delay).nanos >= moment.nanos,
        moment.nanos + delay.nanos > u128::MAX ==> moment.plus(delay).nanos == u128::MAX,
        other.nanos >= moment.nanos ==> moment.since(other).nanos == 0,
        other.nanos <= moment.nanos ==> other.nanos + moment.since(other).nanos == moment.nanos,
{
}

/// A clock never goes back, and never lags behind the time that has passed.
pub proof fn law_clock_never_goes_back(clock: Clock, passed: std::time::Duration)
    ensures
        clock.reading(passed).nanos >= clock.latest().nanos,
        clock.reading(passed).nanos >= whole_nanos(passed),
        clock.reading(passed).nanos == clock.latest().nanos || clock.reading(passed).nanos
            == whole_nanos(passed),
{
}

} // verus!
