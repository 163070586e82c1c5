//! Segmented mode: which piece is fetched when, and when the download ends.

use std::collections::VecDeque;

use vstd::prelude::*;

use crate::engine::backoff::BASE_BACKOFF_MILLIS;
use crate::engine::fetch::FailView;
use crate::engine::worker::{ReportView, WorkerReport};
use crate::error::{outcome_view, DownloadError, ErrorView};
use crate::limiter::Adaptive;
use crate::pieces::{counters_fit, counters_full, lemma_count, len_of, piece_len, PieceTable};
use crate::progress::{Progress, Shared};
use crate::time::{Duration, Instant};
use crate::types::{DownloadOptions, Outcome};

verus! {

/// How long a scheduler that could start nothing waits, in milliseconds.
pub const YIELD_MILLIS: u64 = 10;

/// What the scheduler waits for.
#[derive(Debug, Clone, Copy, PartialEq, Eq, Structural)]
pub enum Poll {
    /// Nothing: every piece is done, or the download was cancelled.
    Ended(Outcome),
    /// Nothing runs though work is queued: wait this long and look again.
    Yield(Duration),
    /// The report of a worker, or a cancellation.
    Await,
}

/// The pieces of one download: queued, running, done.
#[derive(Debug)]
pub struct Scheduler {
    pub adaptive: Adaptive,
    /// Pieces to fetch, each with the number of attempts behind it.
    pub pending: VecDeque<(u64, u32)>,
    /// Pieces being fetched.
    pub running: Vec<(u64, u32)>,
    pub consecutive_failures: u32,
    pub max_failures: u32,
}

/// What a [`Scheduler`] holds.
#[verifier::ext_equal]
pub struct SchedulerView {
    pub adaptive: Adaptive,
    pub pending: Seq<(u64, u32)>,
    pub running: Seq<(u64, u32)>,
    pub consecutive_failures: u32,
    pub max_failures: u32,
}

impl View for Scheduler {
    type V = SchedulerView;

    open spec fn view(&self) -> SchedulerView {
        SchedulerView {
            adaptive: self.adaptive,
            pending: self.pending@,
            running: self.running@,
            consecutive_failures: self.consecutive_failures,
            max_failures: self.max_failures,
        }
    }
}

/// The pieces among the first `k` that are not full, in order, none of them
/// tried yet.
pub open spec fn unfinished(size: u64, piece_size: u64, counters: Seq<u64>, k: int) -> Seq<
    (u64, u32),
>
    decreases k,
{
    if k <= 0 {
        Seq::empty()
    } else if counters[k - 1] < len_of(size, piece_size, k - 1) {
        unfinished(size, piece_size, counters, k - 1).push(((k - 1) as u64, 0u32))
    } else {
        unfinished(size, piece_size, counters, k - 1)
    }
}

/// A piece stands in a list.
pub open spec fn lists(list: Seq<(u64, u32)>, index: u64) -> bool {
    exists|k: int| 0 <= k < list.len() && (#[trigger] list[k]).0 == index
}

/// No piece stands twice in a list.
pub open spec fn no_repeats(list: Seq<(u64, u32)>) -> bool {
    forall|i: int, j: int|
        0 <= i < j < list.len() ==> (#[trigger] list[i]).0 != (#[trigger] list[j]).0
}

/// No piece stands in both lists.
pub open spec fn apart(a: Seq<(u64, u32)>, b: Seq<(u64, u32)>) -> bool {
    forall|i: int, j: int|
        0 <= i < a.len() && 0 <= j < b.len() ==> (#[trigger] a[i]).0 != (#[trigger] b[j]).0
}

impl SchedulerView {
    /// A piece is queued once, or runs once, or is done, and no more of them
    /// run than there may be connections.
    pub open spec fn wf(self) -> bool {
        &&& self.adaptive.wf()
        &&& no_repeats(self.pending)
        &&& no_repeats(self.running)
        &&& apart(self.pending, self.running)
        &&& self.running.len() <= self.adaptive.max
        &&& self.consecutive_failures <= self.max_failures
    }

    /// The piece is not done yet.
    pub open spec fn owes(self, index: u64) -> bool {
        lists(self.pending, index) || lists(self.running, index)
    }

    /// Every piece that is not owed is full.
    pub open spec fn accounts_for(self, table: PieceTable) -> bool {
        forall|i: int|
            0 <= i < table.written@.len() && !self.owes(i as u64) ==> #[trigger] table.written@[i]
                == len_of(table.size, table.piece_size, i)
    }

    /// There is work, and a connection for it.
    pub open spec fn can_start(self) -> bool {
        self.running.len() < self.adaptive.target && self.pending.len() > 0
    }

    /// The state after the first queued piece was started.
    pub open spec fn started(self) -> SchedulerView {
        SchedulerView {
            pending: self.pending.skip(1),
            running: self.running.push(self.pending[0]),
            ..self
        }
    }

    /// The state after every piece that can be started was started.
    pub open spec fn filled_up(self) -> SchedulerView
        decreases self.pending.len(),
    {
        if self.can_start() {
            self.started().filled_up()
        } else {
            self
        }
    }

    /// What to wait for.
    pub open spec fn awaited(self, cancelled: bool) -> Poll {
        if cancelled {
            Poll::Ended(Outcome::Cancelled)
        } else if self.running.len() > 0 {
            Poll::Await
        } else if self.pending.len() > 0 {
            Poll::Yield(Duration::millis(YIELD_MILLIS))
        } else {
            Poll::Ended(Outcome::Completed)
        }
    }

    /// What an observer sees once all that can be started was started.
    pub open spec fn shown_after_fill(self, cancelled: bool, shared: Shared) -> Shared {
        if cancelled {
            shared
        } else {
            Shared { connections: self.adaptive.target, ..shared }
        }
    }

    /// The state that a transfer of these pieces starts with.
    pub open spec fn initial(options: DownloadOptions, table: PieceTable) -> SchedulerView {
        SchedulerView {
            adaptive: Adaptive::first(
                options.min_connections,
                options.first_connections(),
                options.max_connections,
                options.grow_after_successes,
            ),
            pending: unfinished(
                table.size,
                table.piece_size,
                table.written@,
                table.written@.len() as int,
            ),
            running: Seq::empty(),
            consecutive_failures: 0,
            max_failures: options.max_consecutive_failures,
        }
    }

    /// The state without a running piece.
    pub open spec fn stopped(self, index: u64, attempt: u32) -> SchedulerView {
        SchedulerView {
            running: self.running.remove(self.running.index_of((index, attempt))),
            ..self
        }
    }

    /// The end that a report brings, if it brings one: an error that no retry
    /// can mend, a cancellation, or one failure too many.
    pub open spec fn verdict(self, report: ReportView, cancelled: bool) -> Option<
        Result<Outcome, ErrorView>,
    > {
        match report.result {
            Ok(()) => None,
            Err(fail) => if !fail.error.is_retryable() {
                Some(Err(fail.error))
            } else if cancelled {
                Some(Ok(Outcome::Cancelled))
            } else if self.consecutive_failures + 1 > self.max_failures {
                Some(
                    Err(
                        ErrorView::RetriesExhausted {
                            attempts: (self.consecutive_failures + 1) as u32,
                            last: Box::new(fail.error),
                        },
                    ),
                )
            } else {
                None
            },
        }
    }

    /// The state after a report that does not end the download.
    pub open spec fn continued(self, report: ReportView, now: Instant) -> SchedulerView {
        let rest = self.stopped(report.index, report.attempt);
        match report.result {
            Ok(()) => SchedulerView {
                adaptive: self.adaptive.after_success(),
                consecutive_failures: 0,
                ..rest
            },
            Err(fail) => SchedulerView {
                adaptive: self.slowed(fail, now),
                consecutive_failures: (self.consecutive_failures + 1) as u32,
                pending: self.pending.push((report.index, (report.attempt + 1) as u32)),
                ..rest
            },
        }
    }

    /// The connection target after a failure that is retried.
    pub open spec fn slowed(self, fail: FailView, now: Instant) -> Adaptive {
        if fail.rate_limited {
            let delay = match fail.retry_after {
                Some(delay) => delay,
                None => Duration::millis(BASE_BACKOFF_MILLIS),
            };
            self.adaptive.after_rate_limit(fail.attempt_started, now, delay)
        } else {
            self.adaptive.after_failure()
        }
    }
}

/// A failure that could be retried.
pub open spec fn counts_as_retry(report: ReportView) -> bool {
    match report.result {
        Ok(()) => false,
        Err(fail) => fail.error.is_retryable(),
    }
}

/// The end of a download, with the error taken by its view.
pub open spec fn end_view(end: Option<Result<Outcome, DownloadError>>) -> Option<
    Result<Outcome, ErrorView>,
> {
    match end {
        Some(r) => Some(outcome_view(r)),
        None => None,
    }
}

proof fn lemma_unfinished(size: u64, piece_size: u64, counters: Seq<u64>, k: int)
    requires
        0 <= k <= counters.len() <= u64::MAX,
    ensures
        no_repeats(unfinished(size, piece_size, counters, k)),
        forall|j: int|
            0 <= j < unfinished(size, piece_size, counters, k).len() ==> (#[trigger] unfinished(
                size,
                piece_size,
                counters,
                k,
            )[j]).0 < k,
        forall|i: u64|
            #![trigger lists(unfinished(size, piece_size, counters, k), i)]
            lists(unfinished(size, piece_size, counters, k), i) <==> i < k && counters[i as int]
                < len_of(size, piece_size, i as int),
    decreases k,
{
    if k > 0 {
        lemma_unfinished(size, piece_size, counters, k - 1);
        let before = unfinished(size, piece_size, counters, k - 1);
        let after = unfinished(size, piece_size, counters, k);
        if counters[k - 1] < len_of(size, piece_size, k - 1) {
            assert(after[before.len() as int].0 == (k - 1) as u64);
            assert forall|i: u64| #![trigger lists(after, i)]
                lists(after, i) <==> i < k && counters[i as int] < len_of(
                    size,
                    piece_size,
                    i as int,
                ) by {
                if lists(before, i) {
                    let j = choose|j: int| 0 <= j < before.len() && (#[trigger] before[j]).0 == i;
                    assert(after[j].0 == i);
                }
                if lists(after, i) && i != k - 1 {
                    let j = choose|j: int| 0 <= j < after.len() && (#[trigger] after[j]).0 == i;
                    assert(before[j].0 == i);
                }
            }
        }
    }
}

impl Scheduler {
    /// Queues the pieces that are not full.
    #[must_use]
    pub fn new(options: &DownloadOptions, table: &PieceTable) -> (r: Self)
        requires
            options.is_valid(),
            table.wf(),
        ensures
            r@.wf(),
            r@.pending == unfinished(
                table.size,
                table.piece_size,
                table.written@,
                table.written@.len() as int,
            ),
            r@.running == Seq::<(u64, u32)>::empty(),
            r@.consecutive_failures == 0,
            r@.max_failures == options.max_consecutive_failures,
            r@.adaptive == (Adaptive {
                min: options.min_connections,
                max: options.max_connections,
                target: options.first_connections(),
                grow_after: options.grow_after_successes,
                successes: 0,
                last_change: None,
                not_before: Instant { nanos: 0 },
            }),
            forall|i: u64|
                #[trigger] r@.owes(i) <==> i < table.written@.len() && table.written@[i as int]
                    < len_of(table.size, table.piece_size, i as int),
            r@.accounts_for(*table),
            r@ == SchedulerView::initial(*options, *table),
    {
        let adaptive = Adaptive::new(
            options.min_connections,
            options.clamped_initial(),
            options.max_connections,
            options.grow_after_successes,
        );
        let mut pending: VecDeque<(u64, u32)> = VecDeque::new();
        let mut index: usize = 0;
        while index < table.written.len()
            invariant
                index <= table.written@.len(),
                pending@ == unfinished(
                    table.size,
                    table.piece_size,
                    table.written@,
                    index as int,
                ),
            decreases table.written.len() - index,
        {
            if table.written[index] < piece_len(table.size, table.piece_size, index as u64) {
                pending.push_back((index as u64, 0));
            }
            index = index + 1;
        }
        let scheduler = Self {
            adaptive,
            pending,
            running: Vec::new(),
            consecutive_failures: 0,
            max_failures: options.max_consecutive_failures,
        };
        proof {
            lemma_unfinished(table.size, table.piece_size, table.written@, index as int);
            assert forall|i: u64| #[trigger]
                scheduler@.owes(i) <==> i < table.written@.len() && table.written@[i as int]
                    < len_of(table.size, table.piece_size, i as int) by {
                assert(lists(scheduler@.pending, i) <==> i < index && table.written@[i as int]
                    < len_of(table.size, table.piece_size, i as int));
            }
        }
        scheduler
    }

    /// Starts the first queued piece, if a connection is free for it and the
    /// download has not been cancelled.
    pub fn next_spawn(&mut self, cancelled: bool) -> (r: Option<(u64, u32)>)
        requires
            old(self)@.wf(),
        ensures
            final(self)@.wf(),
            r is Some <==> !cancelled && old(self)@.can_start(),
            r matches Some(piece) ==> piece == old(self)@.pending[0] && final(self)@ == old(
                self,
            )@.started(),
            r is None ==> final(self)@ == old(self)@,
            forall|i: u64| #[trigger] final(self)@.owes(i) == old(self)@.owes(i),
    {
        if cancelled || self.running.len() >= self.adaptive.current() {
            return None;
        }
        let ghost before = self@;
        let piece = match self.pending.pop_front() {
            Some(piece) => piece,
            None => {
                return None;
            },
        };
        self.running.push(piece);
        proof {
            assert(self@.pending =~= before.pending.skip(1));
            lemma_started(before);
        }
        Some(piece)
    }

    /// Publishes the connection target of a download that goes on, and says
    /// what to wait for.
    pub fn after_fill(&self, cancelled: bool, shared: &mut Shared) -> (r: Poll)
        ensures
            r == self@.awaited(cancelled),
            *final(shared) == (if cancelled {
                *old(shared)
            } else {
                Shared { connections: self@.adaptive.target, ..*old(shared) }
            }),
            *final(shared) == self@.shown_after_fill(cancelled, *old(shared)),
    {
        if cancelled {
            return Poll::Ended(Outcome::Cancelled);
        }
        shared.set_connections(self.adaptive.current());
        if self.running.len() == 0 {
            if self.pending.len() == 0 {
                return Poll::Ended(Outcome::Completed);
            }
            return Poll::Yield(Duration::from_millis(YIELD_MILLIS));
        }
        Poll::Await
    }

    /// Takes a cancellation that came during the wait for a report.
    pub fn on_cancelled(&self) -> (r: Result<Outcome, DownloadError>)
        ensures
            r == Ok::<Outcome, DownloadError>(Outcome::Cancelled),
    {
        Ok(Outcome::Cancelled)
    }

    /// Takes the report of a worker, and returns the end of the download if it
    /// brings one. `cancelled` tells whether the download has been cancelled
    /// by now: an interruption is then no failure to retry.
    pub fn on_report(
        &mut self,
        report: WorkerReport,
        now: Instant,
        cancelled: bool,
        shared: &mut Shared,
    ) -> (r: Option<Result<Outcome, DownloadError>>)
        requires
            old(self)@.wf(),
            old(self)@.running.contains((report.index, report.attempt)),
            report.attempt < u32::MAX,
            old(self)@.consecutive_failures < u32::MAX,
        ensures
            final(self)@.wf(),
            end_view(r) == old(self)@.verdict(report@, cancelled),
            r is None ==> final(self)@ == old(self)@.continued(report@, now),
            r is Some ==> final(self)@ == old(self)@.stopped(report.index, report.attempt),
            *final(shared) == (if counts_as_retry(report@) {
                old(shared).after_retry()
            } else {
                *old(shared)
            }),
            forall|i: u64|
                r is None ==> (#[trigger] final(self)@.owes(i) <==> old(self)@.owes(i) && !(
                report.result is Ok && i == report.index)),
    {
        let ghost before = self@;
        self.stop(report.index, report.attempt);
        let ghost rest = self@;
        proof {
            lemma_stopped(before, report.index, report.attempt);
        }
        match report.result {
            Ok(()) => {
                self.adaptive.on_success();
                self.consecutive_failures = 0;
                assert forall|i: u64| #[trigger] self@.owes(i) <==> before.owes(i) && i
                    != report.index by {
                    assert(self@.owes(i) == rest.owes(i));
                }
                None
            },
            Err(fail) => {
                if !fail.error.is_retryable() {
                    return Some(Err(fail.error));
                }
                shared.count_retry();
                if cancelled {
                    return Some(Ok(Outcome::Cancelled));
                }
                let failures: u32 = self.consecutive_failures + 1;
                if failures > self.max_failures {
                    return Some(
                        Err(
                            DownloadError::RetriesExhausted {
                                attempts: failures,
                                last: Box::new(fail.error),
                            },
                        ),
                    );
                }
                self.consecutive_failures = failures;
                if fail.rate_limited {
                    let delay = match fail.retry_after {
                        Some(delay) => delay,
                        None => Duration::from_millis(BASE_BACKOFF_MILLIS),
                    };
                    self.adaptive.on_rate_limited_at(fail.attempt_started, now, delay);
                } else {
                    self.adaptive.on_failure();
                }
                self.pending.push_back((report.index, report.attempt + 1));
                proof {
                    lemma_requeued(rest, report.index, (report.attempt + 1) as u32, self@);
                }
                None
            },
        }
    }

    fn stop(&mut self, index: u64, attempt: u32)
        requires
            old(self)@.wf(),
            old(self)@.running.contains((index, attempt)),
        ensures
            final(self)@ == old(self)@.stopped(index, attempt),
    {
        let mut k: usize = 0;
        while self.running[k].0 != index
            invariant
                k < self.running.len(),
                self.running@.contains((index, attempt)),
                forall|j: int| 0 <= j < k ==> (#[trigger] self.running@[j]).0 != index,
            decreases self.running@.len() - k,
        {
            proof {
                let at = self.running@.index_of((index, attempt));
                assert(self.running@[at] == (index, attempt));
            }
            k = k + 1;
        }
        proof {
            let at = self.running@.index_of((index, attempt));
            assert(self.running@[at] == (index, attempt));
            assert(at == k);
        }
        let _ = self.running.remove(k);
    }
}

proof fn lemma_started(before: SchedulerView)
    requires
        before.wf(),
        before.can_start(),
    ensures
        before.started().wf(),
        forall|i: u64| #[trigger] before.started().owes(i) == before.owes(i),
{
    let after = before.started();
    assert forall|i: u64| #[trigger] after.owes(i) == before.owes(i) by {
        if lists(before.pending, i) {
            let j = choose|j: int|
                0 <= j < before.pending.len() && (#[trigger] before.pending[j]).0 == i;
            if j == 0 {
                assert(after.running[before.running.len() as int].0 == i);
            } else {
                assert(after.pending[j - 1].0 == i);
            }
        }
        if lists(before.running, i) {
            let j = choose|j: int|
                0 <= j < before.running.len() && (#[trigger] before.running[j]).0 == i;
            assert(after.running[j].0 == i);
        }
        if lists(after.pending, i) {
            let j = choose|j: int|
                0 <= j < after.pending.len() && (#[trigger] after.pending[j]).0 == i;
            assert(before.pending[j + 1].0 == i);
        }
        if lists(after.running, i) {
            let j = choose|j: int|
                0 <= j < after.running.len() && (#[trigger] after.running[j]).0 == i;
            if j < before.running.len() {
                assert(before.running[j].0 == i);
            } else {
                assert(before.pending[0].0 == i);
            }
        }
    }
    assert(apart(after.pending, after.running)) by {
        assert forall|i: int, j: int|
            0 <= i < after.pending.len() && 0 <= j < after.running.len() implies (
        #[trigger] after.pending[i]).0 != (#[trigger] after.running[j]).0 by {
            assert(after.pending[i] == before.pending[i + 1]);
            if j < before.running.len() {
                assert(after.running[j] == before.running[j]);
            } else {
                assert(after.running[j] == before.pending[0]);
            }
        }
    }
}

proof fn lemma_stopped(before: SchedulerView, index: u64, attempt: u32)
    requires
        before.wf(),
        before.running.contains((index, attempt)),
    ensures
        before.stopped(index, attempt).wf(),
        !before.stopped(index, attempt).owes(index),
        before.owes(index),
        forall|i: u64|
            #[trigger] before.stopped(index, attempt).owes(i) <==> before.owes(i) && i != index,
{
    let after = before.stopped(index, attempt);
    let at = before.running.index_of((index, attempt));
    assert(before.running[at] == (index, attempt));
    assert forall|i: u64| #[trigger] after.owes(i) <==> before.owes(i) && i != index by {
        if lists(before.running, i) && i != index {
            let j = choose|j: int|
                0 <= j < before.running.len() && (#[trigger] before.running[j]).0 == i;
            if j < at {
                assert(after.running[j].0 == i);
            } else {
                assert(after.running[j - 1].0 == i);
            }
        }
        if lists(after.running, i) {
            let j = choose|j: int|
                0 <= j < after.running.len() && (#[trigger] after.running[j]).0 == i;
            if j < at {
                assert(before.running[j].0 == i);
            } else {
                assert(before.running[j + 1].0 == i);
            }
        }
    }
}

proof fn lemma_requeued(rest: SchedulerView, index: u64, attempt: u32, after: SchedulerView)
    requires
        rest.wf(),
        !rest.owes(index),
        after.pending == rest.pending.push((index, attempt)),
        after.running == rest.running,
    ensures
        no_repeats(after.pending),
        apart(after.pending, after.running),
        forall|i: u64| #[trigger] after.owes(i) <==> rest.owes(i) || i == index,
{
    let last = rest.pending.len() as int;
    assert(after.pending[last] == (index, attempt));
    assert forall|i: u64| #[trigger] after.owes(i) <==> rest.owes(i) || i == index by {
        if lists(rest.pending, i) {
            let j = choose|j: int|
                0 <= j < rest.pending.len() && (#[trigger] rest.pending[j]).0 == i;
            assert(after.pending[j].0 == i);
        }
        if lists(after.pending, i) && i != index {
            let j = choose|j: int|
                0 <= j < after.pending.len() && (#[trigger] after.pending[j]).0 == i;
            assert(rest.pending[j].0 == i);
        }
        if i == index {
            assert(after.pending[last].0 == i);
        }
    }
    assert forall|i: int, j: int| 0 <= i < j < after.pending.len() implies (
    #[trigger] after.pending[i]).0 != (#[trigger] after.pending[j]).0 by {
        assert(after.pending[i] == rest.pending[i]);
        if j == last {
            if rest.pending[i].0 == index {
                assert(lists(rest.pending, index));
            }
        } else {
            assert(after.pending[j] == rest.pending[j]);
        }
    }
    assert forall|i: int, j: int|
        0 <= i < after.pending.len() && 0 <= j < after.running.len() implies (
    #[trigger] after.pending[i]).0 != (#[trigger] after.running[j]).0 by {
        if i == last {
            if rest.running[j].0 == index {
                assert(lists(rest.running, index));
            }
        } else {
            assert(after.pending[i] == rest.pending[i]);
        }
    }
}

/// Completion means completeness: as long as a piece is owed until its worker
/// has reported it full, a scheduler with nothing left to wait for has a file
/// whose every piece is full.
pub proof fn law_completed_means_full(scheduler: SchedulerView, table: PieceTable)
    requires
        scheduler.accounts_for(table),
        table.wf(),
        scheduler.awaited(false) == Poll::Ended(Outcome::Completed),
    ensures
        counters_full(table.size, table.piece_size, table.written@),
{
    lemma_count(table.size, table.piece_size);
    assert forall|i: int| 0 <= i < table.written@.len() implies #[trigger] table.written@[i]
        == len_of(table.size, table.piece_size, i) by {
        assert(!lists(scheduler.pending, i as u64));
        assert(!lists(scheduler.running, i as u64));
    }
}

/// A piece stays accounted for through every report: a worker that succeeds
/// leaves its piece full, and any other report leaves the piece owed.
pub proof fn law_reports_keep_the_account(
    before: SchedulerView,
    report: ReportView,
    now: Instant,
    cancelled: bool,
    table: PieceTable,
)
    requires
        before.wf(),
        before.running.contains((report.index, report.attempt)),
        before.verdict(report, cancelled) is None,
        before.accounts_for(table),
        table.wf(),
        report.result is Ok ==> report.index < table.written@.len()
            && table.written@[report.index as int] == len_of(
            table.size,
            table.piece_size,
            report.index as int,
        ),
    ensures
        before.continued(report, now).accounts_for(table),
{
    let after = before.continued(report, now);
    let rest = before.stopped(report.index, report.attempt);
    lemma_count(table.size, table.piece_size);
    lemma_stopped(before, report.index, report.attempt);
    if report.result is Err {
        lemma_requeued(rest, report.index, (report.attempt + 1) as u32, after);
    }
    assert forall|i: int| 0 <= i < table.written@.len() && !after.owes(i as u64) implies
        #[trigger] table.written@[i] == len_of(table.size, table.piece_size, i) by {
        assert(report.result is Ok ==> (after.owes(i as u64) <==> rest.owes(i as u64)));
        assert(rest.owes(i as u64) <==> before.owes(i as u64) && i as u64 != report.index);
    }
}

/// A piece stays accounted for while workers write: counters only grow, and a
/// full one stays full.
pub proof fn law_progress_keeps_the_account(
    scheduler: SchedulerView,
    before: PieceTable,
    after: PieceTable,
)
    requires
        scheduler.accounts_for(before),
        after.wf(),
        after.size == before.size,
        after.piece_size == before.piece_size,
        after.written@.len() == before.written@.len(),
        forall|i: int|
            0 <= i < before.written@.len() ==> before.written@[i] <= #[trigger] after.written@[i],
    ensures
        scheduler.accounts_for(after),
{
    assert forall|i: int| 0 <= i < after.written@.len() && !scheduler.owes(i as u64) implies
        #[trigger] after.written@[i] == len_of(after.size, after.piece_size, i) by {
        assert(before.written@[i] == len_of(before.size, before.piece_size, i));
    }
}

/// Queued work never waits without need: once no further piece can be started,
/// either a worker runs or nothing is left.
pub proof fn law_never_idle_with_work(scheduler: SchedulerView)
    requires
        scheduler.wf(),
        !scheduler.can_start(),
    ensures
        !(scheduler.awaited(false) is Yield),
{
}

/// Connections stay below their limit: starting all that can be started leaves
/// no more pieces running than ran before or the target allows, each of them
/// once, and neither that nor a report moves the limit.
pub proof fn law_connections_stay_below_the_limit(
    scheduler: SchedulerView,
    report: ReportView,
    now: Instant,
)
    requires
        scheduler.wf(),
    ensures
        ({
            let full = scheduler.filled_up();
            &&& full.wf()
            &&& !full.can_start()
            &&& no_repeats(full.running)
            &&& full.running.len() <= scheduler.running.len() || full.running.len()
                <= scheduler.adaptive.target
            &&& full.running.len() <= scheduler.adaptive.max
            &&& full.adaptive == scheduler.adaptive
        }),
        scheduler.continued(report, now).adaptive.max == scheduler.adaptive.max,
    decreases scheduler.pending.len(),
{
    if scheduler.can_start() {
        lemma_started(scheduler);
        law_connections_stay_below_the_limit(scheduler.started(), report, now);
    }
}

/// Each failure in a row counts, and any success starts the count anew: the
/// download gives up on the first failure beyond the limit, with the number of
/// failures in a row and the last of them.
pub proof fn law_gives_up_beyond_the_limit(scheduler: SchedulerView, report: ReportView)
    requires
        scheduler.wf(),
        report.result matches Err(fail) && fail.error.is_retryable(),
    ensures
        scheduler.verdict(report, false) is Some <==> scheduler.consecutive_failures
            == scheduler.max_failures,
        scheduler.verdict(report, false) is Some && scheduler.consecutive_failures < u32::MAX
            ==> scheduler.verdict(report, false) == Some::<Result<Outcome, ErrorView>>(
            Err(
                ErrorView::RetriesExhausted {
                    attempts: (scheduler.max_failures + 1) as u32,
                    last: Box::new(report.result->Err_0.error),
                },
            ),
        ),
{
}

/// A cancellation is never an error: once the download is cancelled nothing is
/// waited for, and a failure that could be retried ends it as cancelled.
pub proof fn law_cancelled_is_no_error(scheduler: SchedulerView, report: ReportView)
    requires
        report.result matches Err(fail) && fail.error.is_retryable(),
    ensures
        scheduler.awaited(true) == Poll::Ended(Outcome::Cancelled),
        scheduler.verdict(report, true) == Some::<Result<Outcome, ErrorView>>(
            Ok(Outcome::Cancelled),
        ),
{
}

/// The pause that a server asks for is kept: after a rate limit that names one
/// nothing is sent for as long, counted from the report. One that names none
/// costs half a second. A pause that was to last longer is kept too.
pub proof fn law_rate_limit_pause_is_kept(
    scheduler: SchedulerView,
    report: ReportView,
    now: Instant,
    asked: Duration,
)
    requires
        report.result matches Err(fail) && fail.rate_limited && (fail.retry_after == Some(asked) || (
        fail.retry_after is None && asked.nanos == 500_000_000)),
        now.nanos + asked.nanos <= u128::MAX,
    ensures
        ({
            let until = scheduler.continued(report, now).adaptive.not_before;
            let before = scheduler.adaptive.not_before;
            &&& until.since(now).nanos >= asked.nanos
            &&& until.nanos >= before.nanos
            &&& until.nanos == now.nanos + asked.nanos || until.nanos == before.nanos
        }),
{
}

/// A rate limit lowers the target as the limiter does, for the attempt that met
/// it; any other failure leaves the target and the pause alone, and only ends
/// the run of successes.
pub proof fn law_only_rate_limits_slow_down(
    scheduler: SchedulerView,
    report: ReportView,
    now: Instant,
)
    requires
        scheduler.wf(),
        report.result is Err,
    ensures
        ({
            let fail = report.result->Err_0;
            let before = scheduler.adaptive;
            let after = scheduler.continued(report, now).adaptive;
            let stale = before.last_change is Some && fail.attempt_started.nanos
                <= before.last_change->0.nanos;
            &&& after.successes == 0
            &&& after.target <= before.target
            &&& !fail.rate_limited ==> after.target == before.target && after.not_before
                == before.not_before && after.last_change == before.last_change
            &&& fail.rate_limited && stale ==> after.target == before.target
            &&& fail.rate_limited && !stale && before.target > before.min ==> after.target
                < before.target && before.target <= 2 * after.target && after.last_change == Some(
                now,
            )
        }),
{
}

/// What becomes of the reported piece. One that failed waits behind all others
/// for its next attempt; one that is done is queued no more, and a success
/// clears the failures.
pub proof fn law_failed_pieces_wait_their_turn(
    scheduler: SchedulerView,
    report: ReportView,
    now: Instant,
    cancelled: bool,
)
    requires
        scheduler.wf(),
        scheduler.running.contains((report.index, report.attempt)),
        report.attempt < u32::MAX,
        scheduler.consecutive_failures < u32::MAX,
        scheduler.verdict(report, cancelled) is None,
    ensures
        ({
            let after = scheduler.continued(report, now);
            &&& after.running.len() == scheduler.running.len() - 1
            &&& !lists(after.running, report.index)
            &&& after.max_failures == scheduler.max_failures
            &&& report.result is Ok ==> {
                &&& after.pending == scheduler.pending
                &&& after.consecutive_failures == 0
                &&& !after.owes(report.index)
            }
            &&& report.result is Err ==> {
                &&& after.pending.len() == scheduler.pending.len() + 1
                &&& after.pending.last().0 == report.index
                &&& after.pending.last().1 == report.attempt + 1
                &&& after.pending.drop_last() == scheduler.pending
                &&& after.consecutive_failures == scheduler.consecutive_failures + 1
                &&& after.owes(report.index)
            }
        }),
{
    let rest = scheduler.stopped(report.index, report.attempt);
    let after = scheduler.continued(report, now);
    let at = scheduler.running.index_of((report.index, report.attempt));
    assert(scheduler.running[at] == (report.index, report.attempt));
    lemma_stopped(scheduler, report.index, report.attempt);
    assert(after.running == rest.running);
    assert(rest.owes(report.index) == false);
    if report.result is Err {
        lemma_requeued(rest, report.index, (report.attempt + 1) as u32, after);
        assert(after.pending.drop_last() =~= scheduler.pending);
        assert(after.owes(report.index));
    } else {
        assert(after.pending == rest.pending);
        assert(!after.owes(report.index));
    }
}

/// Which reports end a download: never a success, and never a failure that
/// could be retried within the limit; an error that no retry can mend always,
/// with that very error.
pub proof fn law_only_final_errors_end_at_once(
    scheduler: SchedulerView,
    report: ReportView,
    cancelled: bool,
)
    requires
        scheduler.wf(),
    ensures
        report.result is Ok ==> scheduler.verdict(report, cancelled) is None,
        report.result matches Err(fail) ==> {
            &&& !fail.error.is_retryable() ==> scheduler.verdict(report, cancelled) == Some::<
                Result<Outcome, ErrorView>,
            >(Err(fail.error))
            &&& fail.error.is_retryable() && !cancelled && scheduler.consecutive_failures
                < scheduler.max_failures ==> scheduler.verdict(report, cancelled) is None
        },
        counts_as_retry(report) <==> report.result is Err
            && report.result->Err_0.error.is_retryable(),
{
}

/// What a scheduler starts and waits for. A piece starts exactly when one is
/// queued and fewer run than the target, and it is the one that has waited
/// longest. The transfer is complete exactly when nothing runs and nothing is
/// queued.
pub proof fn law_starts_and_waits_as_it_should(scheduler: SchedulerView)
    requires
        scheduler.wf(),
    ensures
        scheduler.can_start() <==> scheduler.pending.len() > 0 && scheduler.running.len()
            < scheduler.adaptive.target,
        scheduler.can_start() ==> {
            let after = scheduler.started();
            &&& after.running.last() == scheduler.pending[0]
            &&& after.running.drop_last() == scheduler.running
            &&& seq![scheduler.pending[0]] + after.pending == scheduler.pending
            &&& after.adaptive == scheduler.adaptive
            &&& after.consecutive_failures == scheduler.consecutive_failures
            &&& after.max_failures == scheduler.max_failures
        },
        scheduler.awaited(false) == Poll::Ended(Outcome::Completed) <==> scheduler.running.len()
            == 0 && scheduler.pending.len() == 0,
        scheduler.awaited(false) is Await <==> scheduler.running.len() > 0,
        scheduler.awaited(false) is Yield ==> scheduler.awaited(false)->Yield_0.nanos
            == 10_000_000,
{
    if scheduler.can_start() {
        let after = scheduler.started();
        assert(after.running.drop_last() =~= scheduler.running);
        assert(seq![scheduler.pending[0]] + after.pending =~= scheduler.pending);
    }
}

/// What a transfer starts with: the pieces that are not full, each once, in the
/// order of the file, and none of them tried before.
pub proof fn law_unfinished_pieces_in_order(size: u64, piece_size: u64, counters: Seq<u64>)
    requires
        counters_fit(size, piece_size, counters),
        counters.len() <= u64::MAX,
    ensures
        ({
            let queue = unfinished(size, piece_size, counters, counters.len() as int);
            &&& forall|i: int, j: int|
                0 <= i < j < queue.len() ==> (#[trigger] queue[i]).0 < (#[trigger] queue[j]).0
            &&& forall|i: int|
                0 <= i < queue.len() ==> (#[trigger] queue[i]).1 == 0 && queue[i].0
                    < counters.len() && counters[queue[i].0 as int] < len_of(
                    size,
                    piece_size,
                    queue[i].0 as int,
                )
            &&& forall|index: u64|
                index < counters.len() && counters[index as int] < len_of(
                    size,
                    piece_size,
                    index as int,
                ) ==> #[trigger] lists(queue, index)
        }),
{
    lemma_unfinished(size, piece_size, counters, counters.len() as int);
    lemma_unfinished_in_order(size, piece_size, counters, counters.len() as int);
    let queue = unfinished(size, piece_size, counters, counters.len() as int);
    assert forall|i: int| 0 <= i < queue.len() implies (#[trigger] queue[i]).0 < counters.len()
        && counters[queue[i].0 as int] < len_of(size, piece_size, queue[i].0 as int) by {
        assert(lists(queue, queue[i].0));
    }
}

proof fn lemma_unfinished_in_order(size: u64, piece_size: u64, counters: Seq<u64>, k: int)
    requires
        0 <= k <= counters.len() <= u64::MAX,
    ensures
        ({
            let queue = unfinished(size, piece_size, counters, k);
            &&& forall|i: int, j: int|
                0 <= i < j < queue.len() ==> (#[trigger] queue[i]).0 < (#[trigger] queue[j]).0
            &&& forall|i: int| 0 <= i < queue.len() ==> (#[trigger] queue[i]).1 == 0
        }),
    decreases k,
{
    if k > 0 {
        lemma_unfinished_in_order(size, piece_size, counters, k - 1);
        lemma_unfinished(size, piece_size, counters, k - 1);
    }
}

/// A transfer starts with nothing running, no failures, the limits of its
/// options, and the connection target that they ask for.
pub proof fn law_transfers_start_by_their_options(options: DownloadOptions, table: PieceTable)
    requires
        options.is_valid(),
    ensures
        ({
            let first = SchedulerView::initial(options, table);
            &&& first.running.len() == 0
            &&& first.consecutive_failures == 0
            &&& first.max_failures == options.max_consecutive_failures
            &&& first.adaptive.min == options.min_connections
            &&& first.adaptive.max == options.max_connections
            &&& first.adaptive.grow_after == options.grow_after_successes
            &&& first.adaptive.min <= options.initial_connections <= first.adaptive.max
                ==> first.adaptive.target == options.initial_connections
            &&& first.adaptive.min <= first.adaptive.target <= first.adaptive.max
        }),
{
}

/// An observer sees the connection target of a transfer that goes on, and
/// nothing else change.
pub proof fn law_connections_are_shown(scheduler: SchedulerView, shared: Shared)
    ensures
        scheduler.shown_after_fill(false, shared).seen() == (Progress {
            connections: scheduler.adaptive.target,
            ..shared.seen()
        }),
        scheduler.shown_after_fill(true, shared) == shared,
{
}

} // verus!
