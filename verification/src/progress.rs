//! Progress reporting: a shared snapshot and a phase enum.
//!
//! An emitter samples the shared state on a fixed short interval and pushes a
//! [`Progress`] to the caller, so UI updates stay smooth regardless of how the
//! transfer bunches up. The smoothed speed is a floating-point number and is
//! added by the emitter.

use vstd::prelude::*;

use crate::error::DownloadError;
use crate::types::Outcome;

verus! {

/// Coarse stage of a download, surfaced to the UI.
#[derive(Debug, Clone, Copy, PartialEq, Eq, Structural)]
pub enum Phase {
    /// Sending the initial range probe.
    Probing,
    /// Downloading with parallel range requests.
    Downloading,
    /// Server does not support ranges; downloading in one stream.
    SingleStream,
    /// Flushing the last bytes and removing the control file.
    Finalizing,
    /// Finished successfully.
    Done,
    /// Stopped for pause or cancel.
    Cancelled,
}

impl Phase {
    /// The number a phase is stored as.
    pub open spec fn number(self) -> u8 {
        match self {
            Phase::Probing => 0,
            Phase::Downloading => 1,
            Phase::SingleStream => 2,
            Phase::Finalizing => 3,
            Phase::Done => 4,
            Phase::Cancelled => 5,
        }
    }

    /// The phase that a number stands for; a number of no phase reads as the
    /// end.
    pub open spec fn of_number(value: u8) -> Phase {
        match value {
            0 => Phase::Probing,
            1 => Phase::Downloading,
            2 => Phase::SingleStream,
            3 => Phase::Finalizing,
            5 => Phase::Cancelled,
            _ => Phase::Done,
        }
    }

    #[must_use]
    pub fn to_u8(self) -> (r: u8)
        ensures
            r == self.number(),
    {
        match self {
            Self::Probing => 0,
            Self::Downloading => 1,
            Self::SingleStream => 2,
            Self::Finalizing => 3,
            Self::Done => 4,
            Self::Cancelled => 5,
        }
    }

    #[must_use]
    pub fn from_u8(value: u8) -> (r: Self)
        ensures
            r == Phase::of_number(value),
    {
        match value {
            0 => Self::Probing,
            1 => Self::Downloading,
            2 => Self::SingleStream,
            3 => Self::Finalizing,
            5 => Self::Cancelled,
            _ => Self::Done,
        }
    }
}

/// A stored phase reads back as itself.
pub proof fn law_phase_round_trip(phase: Phase)
    ensures
        Phase::of_number(phase.number()) == phase,
{
}

/// A point-in-time snapshot, but for the speed.
#[derive(Debug, Clone, Copy, PartialEq, Eq, Structural)]
pub struct Progress {
    pub phase: Phase,
    /// Total size in bytes; `0` until the probe completes.
    pub total: u64,
    /// Bytes flushed to disk and recorded in the control file. Survives a crash.
    pub committed: u64,
    /// Bytes written to the page cache. Monotonic; use this for the UI bar.
    pub written: u64,
    /// Active connection count target.
    pub connections: usize,
    /// Cumulative retry count.
    pub retries: u32,
}

impl Progress {
    /// What is seen before anything has happened.
    pub open spec fn nothing_yet() -> Progress {
        Progress {
            phase: Phase::Probing,
            total: 0,
            committed: 0,
            written: 0,
            connections: 0,
            retries: 0,
        }
    }

    /// The value to seed the caller's channel with.
    #[must_use]
    pub fn initial() -> (r: Self)
        ensures
            r == Progress::nothing_yet(),
    {
        Self {
            phase: Phase::Probing,
            total: 0,
            committed: 0,
            written: 0,
            connections: 0,
            retries: 0,
        }
    }
}

/// Backing store updated by the workers and committer.
#[derive(Debug)]
pub struct Shared {
    pub phase: u8,
    pub total: u64,
    pub written: u64,
    pub committed: u64,
    pub connections: usize,
    pub retries: u32,
}

impl Shared {
    /// What an observer sees.
    pub open spec fn seen(self) -> Progress {
        Progress {
            phase: Phase::of_number(self.phase),
            total: self.total,
            committed: self.committed,
            written: self.written,
            connections: self.connections,
            retries: self.retries,
        }
    }

    #[must_use]
    pub fn new() -> (r: Self)
        ensures
            r == (Shared {
                phase: 0,
                total: 0,
                written: 0,
                committed: 0,
                connections: 0,
                retries: 0,
            }),
            r.seen() == Progress::nothing_yet(),
    {
        Self {
            phase: Phase::Probing.to_u8(),
            total: 0,
            written: 0,
            committed: 0,
            connections: 0,
            retries: 0,
        }
    }

    pub fn set_phase(&mut self, phase: Phase)
        ensures
            *final(self) == (Shared { phase: phase.number(), ..*old(self) }),
            final(self).seen().phase == phase,
    {
        self.phase = phase.to_u8();
    }

    pub fn set_total(&mut self, total: u64)
        ensures
            *final(self) == (Shared { total, ..*old(self) }),
    {
        self.total = total;
    }

    /// Takes over the progress that a resumed download starts from.
    pub fn resume_from(&mut self, already: u64)
        ensures
            *final(self) == (Shared { written: already, committed: already, ..*old(self) }),
    {
        self.written = already;
        self.committed = already;
    }

    /// Counts bytes that reached the page cache. The count wraps around at its
    /// largest value.
    pub fn add_written(&mut self, bytes: u64)
        ensures
            *final(self) == old(self).after_written(bytes),
    {
        self.written = self.written.wrapping_add(bytes);
    }

    /// The state with `bytes` more bytes counted.
    pub open spec fn after_written(self, bytes: u64) -> Shared {
        Shared {
            written: if self.written + bytes <= u64::MAX {
                (self.written + bytes) as u64
            } else {
                (self.written + bytes - u64::MAX - 1) as u64
            },
            ..self
        }
    }

    /// Takes note of how far a stream has come. A stream that started over
    /// counts again only behind the bytes that an earlier pass has written.
    pub fn reach(&mut self, absolute: u64)
        ensures
            *final(self) == old(self).after_reach(absolute),
    {
        if absolute > self.written {
            self.written = absolute;
        }
    }

    /// The state of a stream that has come to `absolute`.
    pub open spec fn after_reach(self, absolute: u64) -> Shared {
        Shared {
            written: if absolute > self.written {
                absolute
            } else {
                self.written
            },
            ..self
        }
    }

    /// Takes note of what is durable.
    pub fn set_committed(&mut self, committed: u64)
        ensures
            *final(self) == (Shared { committed, ..*old(self) }),
    {
        self.committed = committed;
    }

    pub fn set_connections(&mut self, connections: usize)
        ensures
            *final(self) == (Shared { connections, ..*old(self) }),
    {
        self.connections = connections;
    }

    /// Counts a retry. The count wraps around at its largest value.
    pub fn count_retry(&mut self)
        ensures
            *final(self) == old(self).after_retry(),
    {
        self.retries = self.retries.wrapping_add(1);
    }

    /// The state with one more retry counted.
    pub open spec fn after_retry(self) -> Shared {
        Shared {
            retries: if self.retries < u32::MAX {
                (self.retries + 1) as u32
            } else {
                0
            },
            ..self
        }
    }

    /// The state after the download has ended like this.
    pub open spec fn closed(self, result: Result<Outcome, DownloadError>) -> Shared {
        match result {
            Ok(Outcome::Completed) => Shared { phase: Phase::Done.number(), ..self },
            Ok(Outcome::Cancelled) => Shared { phase: Phase::Cancelled.number(), ..self },
            Err(_) => self,
        }
    }

    /// Sets the last phase: an error leaves it where the download stopped.
    pub fn close(&mut self, result: &Result<Outcome, DownloadError>)
        ensures
            *final(self) == (match *result {
                Ok(Outcome::Completed) => Shared { phase: Phase::Done.number(), ..*old(self) },
                Ok(Outcome::Cancelled) => Shared { phase: Phase::Cancelled.number(), ..*old(self) },
                Err(_) => *old(self),
            }),
            *final(self) == old(self).closed(*result),
    {
        match result {
            Ok(Outcome::Completed) => self.set_phase(Phase::Done),
            Ok(Outcome::Cancelled) => self.set_phase(Phase::Cancelled),
            Err(_) => {},
        }
    }

    #[must_use]
    pub fn snapshot(&self) -> (r: Progress)
        ensures
            r == self.seen(),
    {
        Progress {
            phase: Phase::from_u8(self.phase),
            total: self.total,
            committed: self.committed,
            written: self.written,
            connections: self.connections,
            retries: self.retries,
        }
    }
}

/// An observer sees what was stored last: the phase and the total in whichever
/// order they were set, and every other number as it was.
pub proof fn law_snapshot_shows_what_was_stored(shared: Shared, phase: Phase, total: u64)
    ensures
        ({
            let phase_first = Shared {
                total,
                ..(Shared { phase: phase.number(), ..shared })
            };
            let total_first = Shared {
                phase: phase.number(),
                ..(Shared { total, ..shared })
            };
            &&& phase_first == total_first
            &&& phase_first.seen() == (Progress { phase, total, ..shared.seen() })
            &&& shared.seen().committed == shared.committed
            &&& shared.seen().written == shared.written
            &&& shared.seen().connections == shared.connections
            &&& shared.seen().retries == shared.retries
        }),
{
}

/// What an observer sees as written never goes back: not by a chunk, not by a
/// retry, and not by a stream that starts over.
pub proof fn law_written_is_monotonic(shared: Shared, bytes: u64, absolute: u64)
    requires
        shared.written + bytes <= u64::MAX,
    ensures
        shared.after_written(bytes).seen().written == shared.seen().written + bytes,
        shared.after_reach(absolute).seen().written >= shared.seen().written,
        shared.after_reach(absolute).seen().written >= absolute,
        shared.after_retry().seen().written == shared.seen().written,
{
}

/// The last phase tells how a download ended, and an error leaves the phase
/// that it came in. No number moves.
pub proof fn law_last_phase_tells_the_end(shared: Shared, error: DownloadError)
    ensures
        shared.closed(Ok(Outcome::Completed)).seen() == (Progress {
            phase: Phase::Done,
            ..shared.seen()
        }),
        shared.closed(Ok(Outcome::Cancelled)).seen() == (Progress {
            phase: Phase::Cancelled,
            ..shared.seen()
        }),
        shared.closed(Err(error)).seen() == shared.seen(),
{
}

/// Counting moves one number each: bytes the bytes, a stream the farther of
/// where it was and where it is, and a retry the retries, by one.
pub proof fn law_counting_moves_one_number(shared: Shared, bytes: u64, absolute: u64)
    ensures
        shared.written + bytes <= u64::MAX ==> shared.after_written(bytes) == (Shared {
            written: (shared.written + bytes) as u64,
            ..shared
        }),
        shared.after_reach(absolute) == (Shared {
            written: shared.after_reach(absolute).written,
            ..shared
        }),
        shared.after_reach(absolute).written == absolute || shared.after_reach(absolute).written
            == shared.written,
        shared.after_reach(absolute).written >= absolute,
        shared.after_reach(absolute).written >= shared.written,
        shared.retries < u32::MAX ==> shared.after_retry() == (Shared {
            retries: (shared.retries + 1) as u32,
            ..shared
        }),
{
}

/// The numbers of the phases are all different, and a number of no phase reads
/// as the end.
pub proof fn law_phases_have_their_own_numbers(a: Phase, b: Phase, value: u8)
    ensures
        a.number() == b.number() <==> a == b,
        value > 5 ==> Phase::of_number(value) is Done,
        value <= 5 ==> Phase::of_number(value).number() == value,
{
}

} // verus!
