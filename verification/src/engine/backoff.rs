//! Pauses before a retry.

use std::time::{SystemTime, SystemTimeError};

use vstd::arithmetic::power2::{lemma_pow2_strictly_increases, lemma_pow2_unfold, pow2};
use vstd::prelude::*;

use crate::time::{whole_nanos, Duration};

verus! {

/// The pause before the first retry, in milliseconds. A rate limit that names
/// no pause of its own costs as much.
pub const BASE_BACKOFF_MILLIS: u64 = 500;

/// The longest pause, in milliseconds.
pub const MAX_BACKOFF_MILLIS: u64 = 30_000;

/// The number of doublings after which the pause stops growing.
pub const MAX_DOUBLINGS: u32 = 6;

/// The jitter stays below this many milliseconds.
pub const JITTER_MILLIS: u64 = 250;

/// The pause before retry `attempt` in milliseconds, without the jitter: it
/// doubles from one retry to the next, up to the longest pause.
pub open spec fn base_millis(attempt: u32) -> int {
    if attempt == 0 {
        0
    } else {
        let doublings = if attempt - 1 < MAX_DOUBLINGS {
            (attempt - 1) as nat
        } else {
            MAX_DOUBLINGS as nat
        };
        let grown = BASE_BACKOFF_MILLIS * pow2(doublings);
        if grown < MAX_BACKOFF_MILLIS {
            grown
        } else {
            MAX_BACKOFF_MILLIS as int
        }
    }
}

/// The pause before retry `attempt`, jittered by a reading of the clock.
pub open spec fn pause_of(attempt: u32, noise: u32) -> Duration {
    if attempt == 0 {
        Duration { nanos: 0 }
    } else {
        Duration::millis((base_millis(attempt) + noise % JITTER_MILLIS as u32) as u64)
    }
}

proof fn lemma_small_powers()
    ensures
        pow2(0) == 1,
        pow2(1) == 2,
        pow2(2) == 4,
        pow2(3) == 8,
        pow2(4) == 16,
        pow2(5) == 32,
        pow2(6) == 64,
{
    vstd::arithmetic::power2::lemma2_to64();
}

/// The pause before retry `attempt`, for a given reading of the clock.
#[must_use]
pub fn backoff_at(attempt: u32, noise: u32) -> (r: Duration)
    ensures
        r == pause_of(attempt, noise),
{
    if attempt == 0 {
        return Duration::from_millis(0);
    }
    let doublings: u32 = if attempt - 1 < MAX_DOUBLINGS {
        attempt - 1
    } else {
        MAX_DOUBLINGS
    };
    let mut factor: u64 = 1;
    let mut i: u32 = 0;
    proof {
        lemma_small_powers();
    }
    while i < doublings
        invariant
            i <= doublings <= MAX_DOUBLINGS,
            factor == pow2(i as nat),
        decreases doublings - i,
    {
        proof {
            lemma_small_powers();
            lemma_pow2_unfold((i + 1) as nat);
        }
        factor = factor * 2;
        i = i + 1;
    }
    let grown: u64 = BASE_BACKOFF_MILLIS * factor;
    let base: u64 = if grown < MAX_BACKOFF_MILLIS {
        grown
    } else {
        MAX_BACKOFF_MILLIS
    };
    Duration::from_millis(base + (noise % JITTER_MILLIS as u32) as u64)
}

/// `std::time::SystemTime`, read only through the time since the epoch.
#[verifier::external_type_specification]
#[verifier::external_body]
pub struct ExSystemTime(SystemTime);

/// `std::time::SystemTimeError`, never looked into.
#[verifier::external_type_specification]
#[verifier::external_body]
pub struct ExSystemTimeError(SystemTimeError);

/// `SystemTime::now` reads the wall clock: nothing is claimed of what it
/// returns.
pub assume_specification[ SystemTime::now ]() -> SystemTime
;

/// The span from the Unix epoch to a moment: the outcome of
/// `SystemTime::duration_since`, which is an error for a moment before it.
pub uninterp spec fn epoch_span(now: SystemTime) -> Result<std::time::Duration, SystemTimeError>;

/// Calls `SystemTime::duration_since` with the Unix epoch. The claim is only
/// that the outcome is a function of the moment.
#[verifier::external_body]
fn since_epoch(now: SystemTime) -> (r: Result<std::time::Duration, SystemTimeError>)
    ensures
        r == epoch_span(now),
{
    now.duration_since(std::time::UNIX_EPOCH)
}

/// `Duration::subsec_nanos` returns the fractional part of a span: what is left
/// of its nanoseconds without the whole seconds.
pub assume_specification[ std::time::Duration::subsec_nanos ](span: &std::time::Duration) -> (r:
    u32)
    ensures
        r == whole_nanos(*span) % 1_000_000_000,
;

/// The clock noise of a moment: its nanoseconds behind the last whole second,
/// none for a moment before the Unix epoch.
pub open spec fn noise_at(now: SystemTime) -> u32 {
    match epoch_span(now) {
        Ok(span) => (whole_nanos(span) % 1_000_000_000) as u32,
        Err(_) => 0,
    }
}

/// Cheap jitter without a source of randomness: sub-second clock noise.
#[must_use]
pub fn clock_noise() -> (r: u32)
    ensures
        exists|now: SystemTime| r == #[trigger] noise_at(now),
        r < 1_000_000_000,
{
    let now = SystemTime::now();
    assert(noise_at(now) < 1_000_000_000);
    match since_epoch(now) {
        Ok(span) => span.subsec_nanos(),
        Err(_) => 0,
    }
}

/// The pause before retry `attempt`. The clock decides the jitter.
#[must_use]
pub fn backoff(attempt: u32) -> (r: Duration)
    ensures
        exists|now: SystemTime| r == pause_of(attempt, #[trigger] noise_at(now)),
{
    let noise: u32 = clock_noise();
    backoff_at(attempt, noise)
}

/// The pause before the next probe, for a given clock noise.
pub open spec fn probe_wait(attempt: u32, noise: u32, stall_timeout: Duration) -> Duration {
    pause_of(attempt, noise).shorter(stall_timeout)
}

/// The pause before a piece is asked for, for a given clock noise.
pub open spec fn worker_wait(attempt: u32, noise: u32, shared_pause: Duration) -> Duration {
    pause_of(attempt, noise).longer(shared_pause)
}

/// The pause before the next probe: no longer than a stalled transfer is
/// waited for.
#[must_use]
pub fn probe_pause(attempt: u32, stall_timeout: Duration) -> (r: Duration)
    ensures
        exists|now: SystemTime|
            r == pause_of(attempt, #[trigger] noise_at(now)).shorter(stall_timeout),
        exists|now: SystemTime| r == probe_wait(attempt, #[trigger] noise_at(now), stall_timeout),
{
    let pause = backoff(attempt);
    pause.min(stall_timeout)
}

/// The pause before a piece is asked for: its own, or the one that all wait
/// for after a rate limit, whichever is longer.
#[must_use]
pub fn worker_delay(attempt: u32, shared_pause: Duration) -> (r: Duration)
    ensures
        exists|now: SystemTime|
            r == pause_of(attempt, #[trigger] noise_at(now)).longer(shared_pause),
        exists|now: SystemTime| r == worker_wait(attempt, #[trigger] noise_at(now), shared_pause),
{
    let pause = backoff(attempt);
    pause.max(shared_pause)
}

/// A first attempt does not wait. A retry waits at least half a second, at
/// most the longest pause, and less than a quarter of a second more.
pub proof fn law_backoff_is_bounded(attempt: u32, noise: u32)
    ensures
        attempt == 0 <==> pause_of(attempt, noise).nanos == 0,
        attempt > 0 ==> 500 <= base_millis(attempt) <= 30_000,
        base_millis(attempt) * 1_000_000 <= pause_of(attempt, noise).nanos,
        attempt > 0 ==> pause_of(attempt, noise).nanos < (base_millis(attempt) + 250) * 1_000_000,
{
    lemma_small_powers();
    if attempt > 1 {
        let doublings = if attempt - 1 < MAX_DOUBLINGS {
            (attempt - 1) as nat
        } else {
            MAX_DOUBLINGS as nat
        };
        lemma_pow2_strictly_increases(0, doublings);
        if doublings < 6 {
            lemma_pow2_strictly_increases(doublings, 6);
        }
    }
}

/// Later retries never wait less, but for the jitter.
pub proof fn law_backoff_grows(attempt: u32, later: u32)
    requires
        attempt <= later,
    ensures
        base_millis(attempt) <= base_millis(later),
{
    lemma_small_powers();
    law_backoff_is_bounded(later, 0);
    if 0 < attempt < later {
        let a = if attempt - 1 < MAX_DOUBLINGS {
            (attempt - 1) as nat
        } else {
            MAX_DOUBLINGS as nat
        };
        let b = if later - 1 < MAX_DOUBLINGS {
            (later - 1) as nat
        } else {
            MAX_DOUBLINGS as nat
        };
        if a < b {
            lemma_pow2_strictly_increases(a, b);
        }
    }
}

/// The pause of each retry follows from the one before: half a second at
/// first, twice as long each time, and never beyond half a minute.
pub proof fn law_backoff_doubles(attempt: u32)
    requires
        0 < attempt < u32::MAX,
    ensures
        base_millis(1) == 500,
        base_millis((attempt + 1) as u32) == (if 2 * base_millis(attempt) < 30_000 {
            2 * base_millis(attempt)
        } else {
            30_000
        }),
{
    lemma_small_powers();
    law_backoff_is_bounded(attempt, 0);
    if attempt <= MAX_DOUBLINGS {
        lemma_pow2_unfold(attempt as nat);
    }
}

/// The jitter adds less than a quarter of a second to a pause, as much as the
/// clock noise leaves over whole quarters in milliseconds, and nothing to a
/// first attempt.
pub proof fn law_jitter_is_the_clock_noise(attempt: u32, noise: u32)
    ensures
        attempt == 0 ==> pause_of(attempt, noise).nanos == 0,
        attempt > 0 ==> pause_of(attempt, noise).nanos == (base_millis(attempt) + noise % 250)
            * 1_000_000,
{
    law_backoff_is_bounded(attempt, noise);
}

/// Of the clock only the fraction of the second is used.
pub proof fn law_noise_is_below_a_second(now: SystemTime)
    ensures
        noise_at(now) < 1_000_000_000,
        epoch_span(now) matches Ok(span) ==> (whole_nanos(span) - noise_at(now)) % 1_000_000_000
            == 0,
        epoch_span(now) is Err ==> noise_at(now) == 0,
{
}

/// A probe waits for its backoff, but no longer than for a stalled transfer; a
/// worker waits for its backoff and for the shared pause, until both are over.
pub proof fn law_waits_keep_both_bounds(attempt: u32, noise: u32, other: Duration)
    ensures
        ({
            let own = pause_of(attempt, noise);
            let probe = probe_wait(attempt, noise, other);
            let worker = worker_wait(attempt, noise, other);
            &&& probe.nanos <= own.nanos && probe.nanos <= other.nanos
            &&& probe.nanos == own.nanos || probe.nanos == other.nanos
            &&& worker.nanos >= own.nanos && worker.nanos >= other.nanos
            &&& worker.nanos == own.nanos || worker.nanos == other.nanos
        }),
{
}

} // verus!
