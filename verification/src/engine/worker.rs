//! The way of one piece through its pauses, the budget and the transfer.

use vstd::prelude::*;
use vstd::string::*;

use crate::engine::fetch::{fail_outcome, plain_fail, FailView, WorkerFail};
use crate::error::{DownloadError, ErrorView};
use crate::time::{Duration, Instant};

verus! {

/// What became of one attempt at one piece.
#[derive(Debug)]
pub struct WorkerReport {
    pub index: u64,
    pub attempt: u32,
    pub result: Result<(), WorkerFail>,
}

/// What a [`WorkerReport`] says.
pub struct ReportView {
    pub index: u64,
    pub attempt: u32,
    pub result: Result<(), FailView>,
}

impl View for WorkerReport {
    type V = ReportView;

    open spec fn view(&self) -> ReportView {
        ReportView {
            index: self.index,
            attempt: self.attempt,
            result: fail_outcome(self.result),
        }
    }
}

/// What a worker does next.
#[derive(Debug, Clone, Copy, PartialEq, Eq, Structural)]
pub enum WorkerStep {
    /// Wait this long, or until the download is cancelled.
    Sleep(Duration),
    /// Take a slot of the shared budget, or wait until the download is
    /// cancelled.
    Acquire,
    /// Transfer the piece.
    Fetch,
}

/// One attempt at one piece, from its start to its report.
#[derive(Debug, Clone, Copy)]
pub struct PieceWorker {
    pub index: u64,
    pub attempt: u32,
    /// Whether connections are shared with other downloads.
    pub budgeted: bool,
}

impl PieceWorker {
    /// What follows the pauses: the budget, where there is one.
    pub open spec fn rested(self) -> WorkerStep {
        if self.budgeted {
            WorkerStep::Acquire
        } else {
            WorkerStep::Fetch
        }
    }

    /// The first step of a worker that has to wait for `delay`.
    pub open spec fn first_step(self, delay: Duration) -> WorkerStep {
        if delay.nanos != 0 {
            WorkerStep::Sleep(delay)
        } else {
            self.rested()
        }
    }

    /// The first step: backoff for retries and any shared rate-limit pause,
    /// then the budget.
    #[must_use]
    pub fn begin(&self, delay: Duration) -> (r: WorkerStep)
        ensures
            r == (if delay.nanos != 0 {
                WorkerStep::Sleep(delay)
            } else {
                self.rested()
            }),
            r == self.first_step(delay),
    {
        if !delay.is_zero() {
            WorkerStep::Sleep(delay)
        } else {
            self.after_sleep()
        }
    }

    /// The step after the pauses.
    #[must_use]
    pub fn after_sleep(&self) -> (r: WorkerStep)
        ensures
            r == self.rested(),
    {
        if self.budgeted {
            WorkerStep::Acquire
        } else {
            WorkerStep::Fetch
        }
    }

    /// What a worker that was cancelled before it sent anything reports.
    pub open spec fn cancellation(self, now: Instant) -> ReportView {
        ReportView {
            index: self.index,
            attempt: self.attempt,
            result: Err(plain_fail(ErrorView::Network("cancelled"@), now)),
        }
    }

    /// The report of a worker that was cancelled before it sent anything.
    #[must_use]
    pub fn cancelled(&self, now: Instant) -> (r: WorkerReport)
        ensures
            r@ == (ReportView {
                index: self.index,
                attempt: self.attempt,
                result: Err(plain_fail(ErrorView::Network("cancelled"@), now)),
            }),
            r@ == self.cancellation(now),
    {
        self.report(
            Err(
                WorkerFail {
                    error: DownloadError::Network("cancelled".to_string()),
                    rate_limited: false,
                    retry_after: None,
                    attempt_started: now,
                },
            ),
        )
    }

    /// The report of a worker that has done its part.
    #[must_use]
    pub fn report(&self, result: Result<(), WorkerFail>) -> (r: WorkerReport)
        ensures
            r.index == self.index,
            r.attempt == self.attempt,
            r.result == result,
    {
        WorkerReport { index: self.index, attempt: self.attempt, result }
    }
}

/// A worker waits first, exactly as long as it has to, then takes a slot of the
/// budget where there is one, and only then sends anything.
pub proof fn law_waits_before_it_sends(worker: PieceWorker, delay: Duration)
    ensures
        delay.nanos > 0 ==> worker.first_step(delay) == WorkerStep::Sleep(delay),
        delay.nanos == 0 ==> worker.first_step(delay) == worker.rested(),
        worker.budgeted ==> worker.rested() is Acquire,
        !worker.budgeted ==> worker.rested() is Fetch,
{
}

/// A worker that was cancelled reports its own piece and attempt, with a
/// failure of the network that asks for no pause.
pub proof fn law_cancelled_worker_can_be_retried(worker: PieceWorker, now: Instant)
    ensures
        worker.cancellation(now).index == worker.index,
        worker.cancellation(now).attempt == worker.attempt,
        worker.cancellation(now).result matches Err(fail) && fail.error is Network
            && fail.error.is_retryable() && !fail.rate_limited && fail.retry_after is None
            && fail.attempt_started == now,
{
}

} // verus!
