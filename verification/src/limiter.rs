//! Concurrency control.
//!
//! [`Gate`] is a counting limiter used for the cross-download budget.
//! [`Adaptive`] tracks a per-download connection target that halves on rate
//! limiting and grows back after a run of successes.

use vstd::arithmetic::div_mod::{lemma_fundamental_div_mod, lemma_fundamental_div_mod_converse};
use vstd::prelude::*;

use crate::time::{Clock, Duration, Instant};

verus! {

/// What became of a request for a slot of a [`Gate`].
#[derive(Debug, Clone, Copy, PartialEq, Eq, Structural)]
pub enum Acquire {
    /// A slot was taken; it has to be released.
    Granted,
    /// All slots are taken: ask again after a release.
    Wait,
    /// The wait was cut short by a cancellation.
    Cancelled,
}

/// A counting semaphore.
#[derive(Debug)]
pub struct Gate {
    pub max: usize,
    pub in_flight: usize,
}

impl Gate {
    /// There is at least one slot, and no more slots are taken than there are.
    pub open spec fn wf(self) -> bool {
        1 <= self.max && self.in_flight <= self.max
    }

    /// The state after a request for a slot, and the answer.
    pub open spec fn asked(self, cancelled: bool) -> (Gate, Acquire) {
        if cancelled {
            (self, Acquire::Cancelled)
        } else if self.in_flight < self.max {
            (Gate { in_flight: (self.in_flight + 1) as usize, ..self }, Acquire::Granted)
        } else {
            (self, Acquire::Wait)
        }
    }

    /// The state after a slot was given back.
    pub open spec fn given_back(self) -> Gate {
        if self.in_flight > 0 {
            Gate { in_flight: (self.in_flight - 1) as usize, ..self }
        } else {
            self
        }
    }

    #[must_use]
    pub fn new(max: usize) -> (r: Self)
        ensures
            r.wf(),
            r.in_flight == 0,
            r.max == if max == 0 {
                1
            } else {
                max
            },
    {
        Self {
            max: if max == 0 {
                1
            } else {
                max
            },
            in_flight: 0,
        }
    }

    /// Asks for a slot. A caller that has to wait asks again after each
    /// release, and says with `cancelled` that it was woken by a cancellation
    /// instead.
    pub fn acquire(&mut self, cancelled: bool) -> (r: Acquire)
        requires
            old(self).wf(),
        ensures
            final(self).wf(),
            final(self).max == old(self).max,
            r == (if cancelled {
                Acquire::Cancelled
            } else if old(self).in_flight < old(self).max {
                Acquire::Granted
            } else {
                Acquire::Wait
            }),
            final(self).in_flight == old(self).in_flight + if r is Granted {
                1int
            } else {
                0
            },
            (*final(self), r) == old(self).asked(cancelled),
    {
        if cancelled {
            return Acquire::Cancelled;
        }
        if self.in_flight < self.max {
            self.in_flight = self.in_flight + 1;
            return Acquire::Granted;
        }
        Acquire::Wait
    }

    /// Gives one slot back.
    pub fn release(&mut self)
        requires
            old(self).wf(),
        ensures
            final(self).wf(),
            final(self).max == old(self).max,
            final(self).in_flight == if old(self).in_flight > 0 {
                old(self).in_flight - 1
            } else {
                0
            },
            *final(self) == old(self).given_back(),
    {
        self.in_flight = self.in_flight.saturating_sub(1);
    }
}

/// Per-download adaptive connection target.
#[derive(Debug)]
pub struct Adaptive {
    pub min: usize,
    pub max: usize,
    pub target: usize,
    pub grow_after: u32,
    pub successes: usize,
    pub last_change: Option<Instant>,
    pub not_before: Instant,
}

impl Adaptive {
    /// The target stays between a positive floor and its ceiling, and a run
    /// of successes ends when it is long enough to grow the target.
    pub open spec fn wf(self) -> bool {
        &&& 1 <= self.min <= self.target <= self.max
        &&& self.successes == 0 || self.successes < self.grow_after
    }

    /// The target that a rate limit leaves: half of it, rounded up, but not
    /// below the floor.
    pub open spec fn halved(self) -> usize {
        let half = (self.target + 1) / 2;
        if half < self.min {
            self.min
        } else {
            half as usize
        }
    }

    /// Whether a rate limit met by an attempt from `attempt_started` lowers
    /// the target: not one from before the last reduction, and not one at the
    /// floor.
    pub open spec fn reduces(self, attempt_started: Instant) -> bool {
        &&& self.last_change matches Some(last) ==> attempt_started.nanos > last.nanos
        &&& self.target > self.min
    }

    /// The state after a reduction asked for by an attempt from
    /// `attempt_started`.
    pub open spec fn after_decrease(self, attempt_started: Instant, now: Instant) -> Adaptive {
        if self.reduces(attempt_started) {
            Adaptive { target: self.halved(), last_change: Some(now), ..self }
        } else {
            self
        }
    }

    /// The state after a rate limit.
    pub open spec fn after_rate_limit(
        self,
        attempt_started: Instant,
        now: Instant,
        delay: Duration,
    ) -> Adaptive {
        Adaptive {
            successes: 0,
            not_before: if now.plus(delay).nanos > self.not_before.nanos {
                now.plus(delay)
            } else {
                self.not_before
            },
            ..self.after_decrease(attempt_started, now)
        }
    }

    /// The state after a success.
    pub open spec fn after_success(self) -> Adaptive {
        if self.successes + 1 < self.grow_after {
            Adaptive { successes: (self.successes + 1) as usize, ..self }
        } else if self.target < self.max {
            Adaptive { successes: 0, target: (self.target + 1) as usize, ..self }
        } else {
            Adaptive { successes: 0, ..self }
        }
    }

    /// The state after a failure other than a rate limit.
    pub open spec fn after_failure(self) -> Adaptive {
        Adaptive { successes: 0, ..self }
    }

    /// The state after `n` successes in a row.
    pub open spec fn after_successes(self, n: nat) -> Adaptive
        decreases n,
    {
        if n == 0 {
            self
        } else {
            self.after_successes((n - 1) as nat).after_success()
        }
    }

    /// The state before anything has happened.
    pub open spec fn first(min: usize, initial: usize, max: usize, grow_after: u32) -> Adaptive {
        let low = if min == 0 {
            1
        } else {
            min
        };
        let high = if max < low {
            low
        } else {
            max
        };
        Adaptive {
            min: low,
            max: high,
            target: if initial < low {
                low
            } else if initial > high {
                high
            } else {
                initial
            },
            grow_after,
            successes: 0,
            last_change: None,
            not_before: Instant { nanos: 0 },
        }
    }

    #[must_use]
    pub fn new(min: usize, initial: usize, max: usize, grow_after: u32) -> (r: Self)
        ensures
            r == Adaptive::first(min, initial, max, grow_after),
            r.wf(),
            r.min == if min == 0 {
                1
            } else {
                min
            },
            r.max == if max < r.min {
                r.min
            } else {
                max
            },
            r.target == if initial < r.min {
                r.min
            } else if initial > r.max {
                r.max
            } else {
                initial
            },
            r.grow_after == grow_after,
            r.successes == 0,
            r.last_change is None,
            r.not_before.nanos == 0,
    {
        let low: usize = if min == 0 {
            1
        } else {
            min
        };
        let high: usize = if max < low {
            low
        } else {
            max
        };
        Self {
            min: low,
            max: high,
            target: if initial < low {
                low
            } else if initial > high {
                high
            } else {
                initial
            },
            grow_after,
            successes: 0,
            last_change: None,
            not_before: Instant { nanos: 0 },
        }
    }

    #[must_use]
    pub fn current(&self) -> (r: usize)
        ensures
            r == self.target,
    {
        self.target
    }

    /// Delay to wait before the next request, from a `Retry-After`-driven pause.
    #[must_use]
    pub fn remaining_pause(&self, clock: &mut Clock) -> (r: Duration)
        ensures
            exists|passed: std::time::Duration|
                r == self.not_before.since(#[trigger] old(clock).reading(passed))
                    && final(clock).latest() == old(clock).reading(passed),
    {
        let now = clock.now();
        self.remaining_pause_at(now)
    }

    /// The delay to wait at `now`.
    #[must_use]
    pub fn remaining_pause_at(&self, now: Instant) -> (r: Duration)
        ensures
            r == self.not_before.since(now),
    {
        self.not_before.saturating_duration_since(now)
    }

    /// Records a rate limit observed by an attempt that started at
    /// `attempt_started`. Halves the target once per change window and extends
    /// the shared pause by `delay`.
    pub fn on_rate_limited(&mut self, clock: &mut Clock, attempt_started: Instant, delay: Duration)
        requires
            old(self).wf(),
        ensures
            final(self).wf(),
            exists|passed: std::time::Duration|
                *final(self) == old(self).after_rate_limit(
                    attempt_started,
                    #[trigger] old(clock).reading(passed),
                    delay,
                ) && final(clock).latest() == old(clock).reading(passed),
    {
        let now = clock.now();
        self.on_rate_limited_at(attempt_started, now, delay);
    }

    /// Records a rate limit observed at `now`.
    pub fn on_rate_limited_at(&mut self, attempt_started: Instant, now: Instant, delay: Duration)
        requires
            old(self).wf(),
        ensures
            final(self).wf(),
            *final(self) == old(self).after_rate_limit(attempt_started, now, delay),
    {
        let until = now.saturating_add(delay);
        if until.nanos > self.not_before.nanos {
            self.not_before = until;
        }
        self.decrease(attempt_started, now);
        self.successes = 0;
    }

    /// Records a finished piece. Grows the target after enough of them in a
    /// row.
    pub fn on_success(&mut self)
        requires
            old(self).wf(),
        ensures
            final(self).wf(),
            *final(self) == old(self).after_success(),
    {
        let streak: usize = self.successes + 1;
        if streak >= self.grow_after as usize {
            self.successes = 0;
            let current: usize = self.current();
            if current < self.max {
                self.target = current + 1;
            }
        } else {
            self.successes = streak;
        }
    }

    /// Records a failure other than a rate limit: it ends a run of successes,
    /// for only consecutive ones grow the target.
    pub fn on_failure(&mut self)
        requires
            old(self).wf(),
        ensures
            final(self).wf(),
            *final(self) == (Adaptive { successes: 0, ..*old(self) }),
            *final(self) == old(self).after_failure(),
    {
        self.successes = 0;
    }

    /// Only one reduction per window, so a burst of failures from the same
    /// batch does not collapse the target all the way to the floor.
    fn decrease(&mut self, attempt_started: Instant, now: Instant)
        requires
            old(self).wf(),
        ensures
            final(self).wf(),
            *final(self) == old(self).after_decrease(attempt_started, now),
    {
        if let Some(last) = self.last_change {
            if attempt_started.nanos <= last.nanos {
                return;
            }
        }
        let current: usize = self.current();
        if current <= self.min {
            return;
        }
        let half: usize = current / 2 + current % 2;
        self.target = if half < self.min {
            self.min
        } else {
            half
        };
        self.last_change = Some(now);
    }
}

/// One reduction per window: after a rate limit at `now` has lowered the
/// target, no rate limit met by an attempt that started by then lowers it
/// again, whatever comes in between from the same batch.
pub proof fn law_one_reduction_per_window(
    adaptive: Adaptive,
    started: Instant,
    now: Instant,
    delay: Duration,
    other_started: Instant,
    later: Instant,
    other_delay: Duration,
)
    requires
        adaptive.wf(),
        adaptive.reduces(started),
        other_started.nanos <= now.nanos,
    ensures
        ({
            let once = adaptive.after_rate_limit(started, now, delay);
            let twice = once.after_rate_limit(other_started, later, other_delay);
            &&& once.target == adaptive.halved() < adaptive.target
            &&& twice.target == once.target
            &&& twice.last_change == once.last_change
        }),
{
}

/// A batch costs one reduction: of the rate limits met by attempts that started
/// at a moment read from this clock, whatever the clock reads when they come
/// in, no second one lowers the target.
pub proof fn law_a_batch_reduces_once(
    adaptive: Adaptive,
    clock: Clock,
    started: Instant,
    passed: std::time::Duration,
    delay: Duration,
    later: Instant,
    other_delay: Duration,
)
    requires
        adaptive.wf(),
        started.nanos <= clock.latest().nanos,
    ensures
        ({
            let once = adaptive.after_rate_limit(started, clock.reading(passed), delay);
            let twice = once.after_rate_limit(started, later, other_delay);
            &&& once.target <= adaptive.target
            &&& twice.target == once.target
            &&& twice.last_change == once.last_change
        }),
{
}

/// A rate limit never takes the target below its floor nor below half of it,
/// and never raises it.
pub proof fn law_reduction_is_bounded(
    adaptive: Adaptive,
    started: Instant,
    now: Instant,
    delay: Duration,
)
    requires
        adaptive.wf(),
    ensures
        ({
            let after = adaptive.after_rate_limit(started, now, delay);
            &&& after.wf()
            &&& adaptive.min <= after.target <= adaptive.target
            &&& adaptive.target <= 2 * after.target
        }),
{
}

/// A pause is never shortened, and lasts at least `delay` from the rate limit
/// that asked for it.
pub proof fn law_pause_only_extends(
    adaptive: Adaptive,
    started: Instant,
    now: Instant,
    delay: Duration,
)
    ensures
        ({
            let after = adaptive.after_rate_limit(started, now, delay);
            &&& after.not_before.nanos >= adaptive.not_before.nanos
            &&& now.nanos + delay.nanos <= u128::MAX ==> after.not_before.since(now).nanos
                >= delay.nanos
        }),
{
}

/// Each run of `grow_after` successes raises the target by exactly one, up to
/// the ceiling, and starts the next run. Without a length, every success is a
/// run.
pub proof fn law_grows_after_a_run(adaptive: Adaptive, n: nat)
    requires
        adaptive.wf(),
        adaptive.successes == 0,
    ensures
        ({
            let run = if adaptive.grow_after == 0 {
                1int
            } else {
                adaptive.grow_after as int
            };
            let grown = adaptive.target + n as int / run;
            adaptive.after_successes(n) == (Adaptive {
                target: if grown < adaptive.max {
                    grown as usize
                } else {
                    adaptive.max
                },
                successes: (n as int % run) as usize,
                ..adaptive
            })
        }),
    decreases n,
{
    let run = if adaptive.grow_after == 0 {
        1int
    } else {
        adaptive.grow_after as int
    };
    if n == 0 {
        lemma_fundamental_div_mod_converse(0, run, 0, 0);
    } else {
        law_grows_after_a_run(adaptive, (n - 1) as nat);
        let whole = (n - 1) / run;
        let rest = (n - 1) % run;
        lemma_fundamental_div_mod(n - 1, run);
        assert(run * (whole + 1) == run * whole + run) by (nonlinear_arith);
        assert(run * whole == whole * run && run * (whole + 1) == (whole + 1) * run)
            by (nonlinear_arith);
        assert(whole >= 0) by (nonlinear_arith)
            requires
                run * whole + rest == n - 1,
                0 <= rest < run,
                n > 0,
        ;
        if rest + 1 < run {
            lemma_fundamental_div_mod_converse(n as int, run, whole, rest + 1);
        } else {
            lemma_fundamental_div_mod_converse(n as int, run, whole + 1, 0);
        }
    }
}

/// What a rate limit does to the target. One met by an attempt from before the
/// last reduction changes nothing of it, nor does one at the floor; any other
/// leaves half of it, rounded up, or the floor where that is more.
pub proof fn law_rate_limit_halves(
    adaptive: Adaptive,
    started: Instant,
    now: Instant,
    delay: Duration,
)
    requires
        adaptive.wf(),
    ensures
        ({
            let after = adaptive.after_rate_limit(started, now, delay);
            let stale = adaptive.last_change is Some && started.nanos
                <= adaptive.last_change->0.nanos;
            &&& stale || adaptive.target == adaptive.min ==> after.target == adaptive.target
                && after.last_change == adaptive.last_change
            &&& !stale && adaptive.target > adaptive.min ==> {
                &&& after.last_change == Some(now)
                &&& after.target >= adaptive.min
                &&& after.target > adaptive.min ==> adaptive.target <= 2 * after.target
                    <= adaptive.target + 1
                &&& after.target == adaptive.min ==> adaptive.target <= 2 * adaptive.min
            }
            &&& after.successes == 0
            &&& after.min == adaptive.min
            &&& after.max == adaptive.max
            &&& after.grow_after == adaptive.grow_after
        }),
{
}

/// The shared pause ends at the later of the moment it had and the moment that
/// the rate limit asks for.
pub proof fn law_pause_is_what_was_asked_for(
    adaptive: Adaptive,
    started: Instant,
    now: Instant,
    delay: Duration,
)
    requires
        now.nanos + delay.nanos <= u128::MAX,
    ensures
        ({
            let until = adaptive.after_rate_limit(started, now, delay).not_before.nanos;
            &&& until >= now.nanos + delay.nanos
            &&& until >= adaptive.not_before.nanos
            &&& until == now.nanos + delay.nanos || until == adaptive.not_before.nanos
        }),
{
}

/// A success moves nothing but the target and the run, and the target never
/// down nor past its ceiling.
pub proof fn law_success_only_grows(adaptive: Adaptive)
    requires
        adaptive.wf(),
    ensures
        ({
            let after = adaptive.after_success();
            &&& after.wf()
            &&& adaptive.target <= after.target <= adaptive.target + 1
            &&& after.target > adaptive.target <==> adaptive.successes + 1 >= adaptive.grow_after
                && adaptive.target < adaptive.max
            &&& after.not_before == adaptive.not_before
            &&& after.last_change == adaptive.last_change
            &&& after.min == adaptive.min
            &&& after.max == adaptive.max
            &&& after.grow_after == adaptive.grow_after
        }),
{
}

/// A budget is a budget: a slot is granted exactly when one is free and the
/// request was not cancelled, at most `max` are ever taken, and a slot that is
/// given back can be taken again.
pub proof fn law_budget_is_kept(gate: Gate, cancelled: bool)
    requires
        gate.wf(),
    ensures
        ({
            let (after, answer) = gate.asked(cancelled);
            &&& after.in_flight <= after.max == gate.max
            &&& answer is Granted <==> !cancelled && gate.in_flight < gate.max
            &&& answer is Cancelled <==> cancelled
            &&& answer is Granted ==> after.in_flight == gate.in_flight + 1
            &&& !(answer is Granted) ==> after.in_flight == gate.in_flight
            &&& answer is Granted ==> after.given_back() == gate
            &&& gate.given_back().asked(false).1 is Granted
            &&& gate.given_back().max == gate.max
            &&& gate.in_flight > 0 ==> gate.given_back().in_flight == gate.in_flight - 1
            &&& gate.in_flight == 0 ==> gate.given_back() == gate
        }),
{
}

/// The bounds of a connection target are made to fit each other: the floor is
/// positive, the ceiling no lower, and the first target the value nearest to
/// the one asked for.
pub proof fn law_bounds_fit(min: usize, initial: usize, max: usize, grow_after: u32)
    ensures
        ({
            let first = Adaptive::first(min, initial, max, grow_after);
            &&& first.wf()
            &&& min > 0 ==> first.min == min
            &&& min == 0 ==> first.min == 1
            &&& max >= first.min ==> first.max == max
            &&& max < first.min ==> first.max == first.min
            &&& first.min <= initial <= first.max ==> first.target == initial
            &&& initial < first.min ==> first.target == first.min
            &&& initial > first.max ==> first.target == first.max
            &&& first.grow_after == grow_after
            &&& first.successes == 0
            &&& first.last_change is None
            &&& first.not_before.nanos == 0
        }),
{
}

/// Only consecutive successes count: a failure starts the run anew, and a rate
/// limit does so too. A failure moves nothing else.
pub proof fn law_failures_end_a_run(
    adaptive: Adaptive,
    started: Instant,
    now: Instant,
    delay: Duration,
)
    requires
        adaptive.wf(),
    ensures
        adaptive.after_failure() == (Adaptive { successes: 0, ..adaptive }),
        adaptive.after_failure().wf(),
        adaptive.after_rate_limit(started, now, delay).successes == 0,
        adaptive.grow_after > 1 ==> adaptive.after_failure().after_success().target
            == adaptive.target,
{
}

} // verus!
