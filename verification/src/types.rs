//! What a caller hands to a download, and how one ends.

use std::ops::RangeInclusive;
use std::path::PathBuf;

use vstd::prelude::*;
use vstd::string::*;

use crate::error::{outcome_view, DownloadError, ErrorView};
use crate::limiter::Gate;
use crate::text::{copy_text, text_view};
use crate::time::Duration;

verus! {

/// Default piece size: small enough that a pause or crash loses seconds, large
/// enough that a multi-gigabyte file stays under a few thousand requests.
pub const DEFAULT_PIECE_SIZE: u64 = 4 * 1024 * 1024;

/// What to download and where to put it.
#[derive(Debug)]
pub struct DownloadRequest {
    /// Source URL. May differ from the URL used on a previous attempt; resume
    /// keys on size and identity, not URL.
    pub url: String,
    /// Destination path. The control file stands beside it.
    pub target: PathBuf,
    /// Size the caller expects, from the install request. The server's reported
    /// size must match this.
    pub expected_size: u64,
    /// Stable content identity such as `"sha256:abc..."`. When present, changed
    /// `ETag`/`Last-Modified` do not abort a resume, because the caller verifies
    /// the finished file anyway.
    pub identity: Option<String>,
}

impl Clone for DownloadRequest {
    fn clone(&self) -> (r: Self)
        ensures
            r.url@ == self.url@,
            r.target == self.target,
            r.expected_size == self.expected_size,
            text_view(r.identity) == text_view(self.identity),
    {
        Self {
            url: self.url.clone(),
            target: self.target.clone(),
            expected_size: self.expected_size,
            identity: copy_text(&self.identity),
        }
    }
}

/// A shared cap on concurrent connections across several downloads, so running
/// two installs at once cannot flood one CDN.
#[derive(Debug)]
pub struct SharedBudget(pub Gate);

impl SharedBudget {
    /// Creates a budget allowing `max` concurrent connections in total, and
    /// one if `max` is zero.
    #[must_use]
    pub fn new(max: usize) -> (r: Self)
        ensures
            r.0.wf(),
            r.0.in_flight == 0,
            r.0.max == if max == 0 {
                1
            } else {
                max
            },
    {
        Self(Gate::new(max))
    }
}

/// Tunables for a single download.
#[derive(Debug, Clone, Copy)]
pub struct DownloadOptions {
    pub piece_size: u64,
    pub min_connections: usize,
    pub initial_connections: usize,
    pub max_connections: usize,
    /// Disconnect and retry a piece after this long without any body bytes.
    pub stall_timeout: Duration,
    /// How often durable progress is flushed to the control file.
    pub commit_interval: Duration,
    /// How often a progress snapshot is pushed to the watch channel.
    pub progress_interval: Duration,
    /// Grow the connection target after this many consecutive piece successes.
    pub grow_after_successes: u32,
    /// Fail the whole download after this many consecutive retryable failures.
    pub max_consecutive_failures: u32,
}

impl Default for DownloadOptions {
    fn default() -> (r: Self)
        ensures
            r.piece_size == 4_194_304,
            r.min_connections == 1,
            r.initial_connections == 4,
            r.max_connections == 8,
            r.stall_timeout == Duration::secs(20),
            r.commit_interval == Duration::secs(2),
            r.progress_interval == Duration::millis(250),
            r.grow_after_successes == 8,
            r.max_consecutive_failures == 20,
            r.is_valid(),
    {
        Self {
            piece_size: DEFAULT_PIECE_SIZE,
            min_connections: 1,
            initial_connections: 4,
            max_connections: 8,
            stall_timeout: Duration::from_secs(20),
            commit_interval: Duration::from_secs(2),
            progress_interval: Duration::from_millis(250),
            grow_after_successes: 8,
            max_consecutive_failures: 20,
        }
    }
}

impl DownloadOptions {
    /// The options describe a download that can run.
    pub open spec fn is_valid(self) -> bool {
        self.piece_size > 0 && 1 <= self.min_connections <= self.max_connections
    }

    /// What is wrong with the options, if anything is.
    pub open spec fn config_error(self) -> Option<ErrorView> {
        if self.piece_size == 0 {
            Some(ErrorView::InvalidConfig("piece_size must be positive"@))
        } else if self.min_connections == 0 {
            Some(ErrorView::InvalidConfig("min_connections must be >= 1"@))
        } else if self.max_connections < self.min_connections {
            Some(ErrorView::InvalidConfig("max_connections must be >= min_connections"@))
        } else {
            None
        }
    }

    /// The first connection count, kept between the smallest and the largest.
    pub open spec fn first_connections(self) -> usize {
        if self.initial_connections < self.min_connections {
            self.min_connections
        } else if self.initial_connections > self.max_connections {
            self.max_connections
        } else {
            self.initial_connections
        }
    }

    #[must_use]
    pub fn connections(&self) -> (r: RangeInclusive<usize>)
        ensures
            r@.start == self.min_connections,
            r@.end == self.max_connections,
            !r@.exhausted,
    {
        RangeInclusive::new(self.min_connections, self.max_connections)
    }

    /// Checks the options before anything is touched.
    pub fn validate(&self) -> (r: Result<(), DownloadError>)
        ensures
            r is Ok <==> self.is_valid(),
            outcome_view(r) == (match self.config_error() {
                Some(error) => Err(error),
                None => Ok(()),
            }),
    {
        if self.piece_size == 0 {
            return Err(DownloadError::InvalidConfig("piece_size must be positive".to_string()));
        }
        if self.min_connections == 0 {
            return Err(DownloadError::InvalidConfig("min_connections must be >= 1".to_string()));
        }
        if self.max_connections < self.min_connections {
            return Err(
                DownloadError::InvalidConfig(
                    "max_connections must be >= min_connections".to_string(),
                ),
            );
        }
        Ok(())
    }

    /// The connection count to start with.
    #[must_use]
    pub fn clamped_initial(&self) -> (r: usize)
        requires
            self.min_connections <= self.max_connections,
        ensures
            r == self.first_connections(),
            self.min_connections <= r <= self.max_connections,
    {
        if self.initial_connections < self.min_connections {
            self.min_connections
        } else if self.initial_connections > self.max_connections {
            self.max_connections
        } else {
            self.initial_connections
        }
    }

    /// The period of the durable commits.
    pub open spec fn commits_every(self) -> Duration {
        self.commit_interval.longer(Duration::millis(100))
    }

    /// The period of the progress snapshots.
    pub open spec fn shows_every(self) -> Duration {
        self.progress_interval.longer(Duration::millis(50))
    }

    /// The period of the durable commits: never shorter than a tenth of a
    /// second.
    #[must_use]
    pub fn commit_period(&self) -> (r: Duration)
        ensures
            r == self.commit_interval.longer(Duration::millis(100)),
            r == self.commits_every(),
    {
        self.commit_interval.max(Duration::from_millis(100))
    }

    /// The period of the progress snapshots: never shorter than a twentieth of
    /// a second.
    #[must_use]
    pub fn progress_period(&self) -> (r: Duration)
        ensures
            r == self.progress_interval.longer(Duration::millis(50)),
            r == self.shows_every(),
    {
        self.progress_interval.max(Duration::from_millis(50))
    }
}

/// How a download ended.
#[derive(Debug, Clone, Copy, PartialEq, Eq, Structural)]
pub enum Outcome {
    /// The target file is complete and the control file removed.
    Completed,
    /// Cancellation was observed; progress is persisted for a later resume.
    Cancelled,
}

/// Which options describe a download: pieces of some size, at least one
/// connection, and no fewer at most than at least. Nothing is wrong with those,
/// and something is with any others.
pub proof fn law_valid_options(options: DownloadOptions)
    ensures
        ({
            let valid = options.piece_size >= 1 && options.min_connections >= 1
                && options.min_connections <= options.max_connections;
            &&& options.is_valid() <==> valid
            &&& options.config_error() is None <==> valid
            &&& options.config_error() matches Some(error) ==> error is InvalidConfig
                && !error.is_retryable()
        }),
{
}

/// A download starts with the connections that were asked for, or with the
/// nearest count that is allowed.
pub proof fn law_first_connections_are_nearest(options: DownloadOptions)
    requires
        options.min_connections <= options.max_connections,
    ensures
        ({
            let first = options.first_connections();
            &&& options.min_connections <= first <= options.max_connections
            &&& options.min_connections <= options.initial_connections <= options.max_connections
                ==> first == options.initial_connections
            &&& options.initial_connections < options.min_connections ==> first
                == options.min_connections
            &&& options.initial_connections > options.max_connections ==> first
                == options.max_connections
        }),
{
}

/// The periods are those that were asked for, unless they are too short.
pub proof fn law_periods_have_a_floor(options: DownloadOptions)
    ensures
        options.commit_interval.nanos >= 100_000_000 ==> options.commits_every()
            == options.commit_interval,
        options.commit_interval.nanos < 100_000_000 ==> options.commits_every().nanos
            == 100_000_000,
        options.progress_interval.nanos >= 50_000_000 ==> options.shows_every()
            == options.progress_interval,
        options.progress_interval.nanos < 50_000_000 ==> options.shows_every().nanos == 50_000_000,
{
}

} // verus!
