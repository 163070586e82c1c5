//! Single-stream fallback for servers that ignore ranges: the whole file in
//! one response, from zero again after an interruption.

use std::time::SystemTime;

use vstd::prelude::*;
use vstd::string::*;

use crate::engine::backoff::{backoff, noise_at, pause_of};
use crate::engine::fetch::{joined, put, BodyEvent};
use crate::engine::segmented::end_view;
use crate::error::{outcome_view, DownloadError, ErrorView};
use crate::http;
use crate::http::{content_length, ensure_identity, status_error, ResponseHead};
use crate::pieces::{
    count_of, counters_fit, counters_full, filled, law_stream_progress_adds_up,
    law_total_is_size_when_full, lemma_count, lemma_piece, len_of, sum, PieceTable,
};
use crate::progress::Shared;
use crate::text::{dec, decimal, join};
use crate::time::Duration;
use crate::types::Outcome;

verus! {

/// What to do about an event of a stream.
#[derive(Debug)]
pub enum StreamStep {
    /// Wait on.
    Continue,
    /// Write the chunk to the file at this offset, and tell of it.
    WriteAt(u64),
    /// The pass is over. `Ok(true)` = complete, `Ok(false)` = cancelled.
    Finished(Result<bool, DownloadError>),
}

/// What a [`StreamStep`] says.
pub enum StreamStepView {
    Continue,
    WriteAt(u64),
    Finished(Result<bool, ErrorView>),
}

impl View for StreamStep {
    type V = StreamStepView;

    open spec fn view(&self) -> StreamStepView {
        match *self {
            StreamStep::Continue => StreamStepView::Continue,
            StreamStep::WriteAt(offset) => StreamStepView::WriteAt(offset),
            StreamStep::Finished(r) => StreamStepView::Finished(outcome_view(r)),
        }
    }
}

/// One full pass.
#[derive(Debug)]
pub struct StreamPass {
    pub size: u64,
    /// The bytes of this pass that are in the file.
    pub absolute: u64,
}

/// The counters of a file that is there up to `reached` and no further.
pub open spec fn stream_counters(size: u64, piece_size: u64, count: nat, reached: u64) -> Seq<u64> {
    filled(size, piece_size, Seq::new(count, |i: int| 0u64), reached)
}

impl StreamPass {
    pub open spec fn wf(self) -> bool {
        self.absolute <= self.size
    }

    /// The counters show exactly the bytes of this pass.
    pub open spec fn matches(self, table: PieceTable) -> bool {
        &&& table.wf()
        &&& table.size == self.size
        &&& table.written@ == stream_counters(
            table.size,
            table.piece_size,
            table.written@.len(),
            self.absolute,
        )
    }

    /// The pass with `count` more bytes in place.
    pub open spec fn grown(self, count: u64) -> StreamPass {
        StreamPass { absolute: (self.absolute + count) as u64, ..self }
    }

    /// Starts a pass over a file of `size` bytes.
    #[must_use]
    pub fn begin(size: u64) -> (r: Self)
        ensures
            r.wf(),
            r.size == size,
            r.absolute == 0,
    {
        Self { size, absolute: 0 }
    }

    /// Whether the head of a response announces the whole file, and if not,
    /// what is wrong with it.
    pub open spec fn judged(self, head: ResponseHead) -> Result<(), ErrorView> {
        if head.status != http::OK {
            Err(ErrorView::Http { status: head.status, retryable: http::is_transient(head.status) })
        } else if !head.plain_body() {
            Err(ErrorView::Protocol("compressed response body"@))
        } else {
            match head.stated_length() {
                Err(error) => Err(error),
                Ok(None) => Ok(()),
                Ok(Some(length)) => if length == self.size {
                    Ok(())
                } else {
                    Err(ErrorView::SizeMismatch { expected: self.size, actual: length })
                },
            }
        }
    }

    /// Checks the head of the response.
    pub fn on_head(&self, head: &ResponseHead) -> (r: Result<(), DownloadError>)
        ensures
            outcome_view(r) == self.judged(*head),
    {
        if head.status != http::OK {
            return Err(status_error(head.status));
        }
        if let Err(error) = ensure_identity(head) {
            return Err(error);
        }
        match content_length(head) {
            Err(error) => Err(error),
            Ok(None) => Ok(()),
            Ok(Some(length)) => {
                if length == self.size {
                    Ok(())
                } else {
                    Err(DownloadError::SizeMismatch { expected: self.size, actual: length })
                }
            },
        }
    }

    /// What to do about an event while the body comes in.
    pub open spec fn body_step(self, event: BodyEvent) -> StreamStepView {
        match event {
            BodyEvent::Cancelled => StreamStepView::Finished(Ok(false)),
            BodyEvent::Stalled => StreamStepView::Finished(
                Err(ErrorView::Network("single stream stalled"@)),
            ),
            BodyEvent::Broken(error) => StreamStepView::Finished(Err(error@)),
            BodyEvent::Chunk(count) => if count == 0 {
                StreamStepView::Continue
            } else if self.absolute + count > self.size {
                StreamStepView::Finished(Err(ErrorView::Protocol("body exceeded expected size"@)))
            } else {
                StreamStepView::WriteAt(self.absolute)
            },
            BodyEvent::End => if self.absolute == self.size {
                StreamStepView::Finished(Ok(true))
            } else {
                StreamStepView::Finished(
                    Err(
                        ErrorView::Network(
                            "single stream ended early: "@ + dec(self.absolute as nat) + " of "@
                                + dec(self.size as nat) + " bytes"@,
                        ),
                    ),
                )
            },
        }
    }

    /// Decides on an event while the body comes in.
    pub fn on_event(&self, event: BodyEvent) -> (r: StreamStep)
        requires
            self.wf(),
        ensures
            r@ == self.body_step(event),
    {
        match event {
            BodyEvent::Cancelled => StreamStep::Finished(Ok(false)),
            BodyEvent::Stalled => StreamStep::Finished(
                Err(DownloadError::Network("single stream stalled".to_string())),
            ),
            BodyEvent::Broken(error) => StreamStep::Finished(Err(error)),
            BodyEvent::Chunk(count) => {
                if count == 0 {
                    StreamStep::Continue
                } else if count > self.size - self.absolute {
                    StreamStep::Finished(
                        Err(DownloadError::Protocol("body exceeded expected size".to_string())),
                    )
                } else {
                    StreamStep::WriteAt(self.absolute)
                }
            },
            BodyEvent::End => {
                if self.absolute == self.size {
                    StreamStep::Finished(Ok(true))
                } else {
                    StreamStep::Finished(
                        Err(
                            DownloadError::Network(
                                join(
                                    "single stream ended early: ",
                                    decimal(self.absolute as u128).as_str(),
                                ).concat(" of ").concat(
                                    decimal(self.size as u128).as_str(),
                                ).concat(" bytes"),
                            ),
                        ),
                    )
                }
            },
        }
    }

    /// Takes note of a chunk that was written where [`Self::on_event`] said:
    /// contiguous progress fills every fully or partially covered piece.
    pub fn on_written(&mut self, count: u64, table: &mut PieceTable, shared: &mut Shared)
        requires
            old(self).wf(),
            old(self).absolute + count <= old(self).size,
            old(table).wf(),
            old(table).size == old(self).size,
        ensures
            final(self).wf(),
            final(self).size == old(self).size,
            final(self).absolute == old(self).absolute + count,
            *final(self) == old(self).grown(count),
            final(table).wf(),
            final(table).size == old(table).size,
            final(table).piece_size == old(table).piece_size,
            final(table).written@ == filled(
                old(table).size,
                old(table).piece_size,
                old(table).written@,
                final(self).absolute,
            ),
            old(self).matches(*old(table)) ==> final(self).matches(*final(table)),
            *final(shared) == old(shared).after_reach(final(self).absolute),
    {
        let ghost before = self.absolute;
        let ghost counters = table.written@;
        self.absolute = self.absolute + count;
        shared.reach(self.absolute);
        table.fill(self.absolute);
        proof {
            if counters == stream_counters(
                table.size,
                table.piece_size,
                counters.len(),
                before,
            ) {
                lemma_refill(table.size, table.piece_size, counters.len(), before, self.absolute);
            }
        }
    }
}

proof fn lemma_refill(size: u64, piece_size: u64, count: nat, before: u64, after: u64)
    requires
        before <= after,
    ensures
        filled(size, piece_size, stream_counters(size, piece_size, count, before), after)
            == stream_counters(size, piece_size, count, after),
{
    assert(filled(size, piece_size, stream_counters(size, piece_size, count, before), after)
        =~= stream_counters(size, piece_size, count, after));
}

/// What comes before the next pass.
#[derive(Debug, Clone, Copy, PartialEq, Eq, Structural)]
pub enum Turn {
    /// No further pass: the download is over.
    Ended(Outcome),
    /// A pause. The pass follows if the download is not cancelled meanwhile.
    Pause(Duration),
    /// Nothing: send the request.
    Send,
}

/// The passes of one download.
#[derive(Debug)]
pub struct SingleStream {
    /// The failures so far, all of them retryable.
    pub attempt: u32,
    pub max_failures: u32,
}

impl SingleStream {
    pub open spec fn wf(self) -> bool {
        self.attempt <= self.max_failures
    }

    #[must_use]
    pub fn new(max_failures: u32, shared: &mut Shared) -> (r: Self)
        ensures
            r.wf(),
            r.attempt == 0,
            r.max_failures == max_failures,
            *final(shared) == (Shared { connections: 1, ..*old(shared) }),
    {
        shared.set_connections(1);
        Self { attempt: 0, max_failures }
    }

    /// What comes before the next pass, for a given clock noise.
    pub open spec fn turn(self, cancelled: bool, noise: u32) -> Turn {
        if cancelled {
            Turn::Ended(Outcome::Cancelled)
        } else if self.attempt > 0 {
            Turn::Pause(pause_of(self.attempt, noise))
        } else {
            Turn::Send
        }
    }

    /// The stream after a pass that ended like this.
    pub open spec fn after_pass(self, result: Result<bool, ErrorView>) -> SingleStream {
        if self.restarts(result) {
            SingleStream { attempt: (self.attempt + 1) as u32, ..self }
        } else {
            self
        }
    }

    /// The counters after a pass that ended like this.
    pub open spec fn counters_after_pass(
        self,
        result: Result<bool, ErrorView>,
        counters: Seq<u64>,
    ) -> Seq<u64> {
        if self.restarts(result) {
            Seq::new(counters.len(), |i: int| 0u64)
        } else {
            counters
        }
    }

    /// What an observer sees after a pass that ended like this.
    pub open spec fn shown_after_pass(
        self,
        result: Result<bool, ErrorView>,
        shared: Shared,
    ) -> Shared {
        match result {
            Ok(_) => shared,
            Err(error) => if error.is_retryable() {
                shared.after_retry()
            } else {
                shared
            },
        }
    }

    /// What comes before the next pass. The clock decides the jitter of a
    /// pause.
    #[must_use]
    pub fn next_pass(&self, cancelled: bool) -> (r: Turn)
        ensures
            cancelled ==> r == Turn::Ended(Outcome::Cancelled),
            !cancelled && self.attempt == 0 ==> r == Turn::Send,
            !cancelled && self.attempt > 0 ==> exists|now: SystemTime|
                r == Turn::Pause(pause_of(self.attempt, #[trigger] noise_at(now))),
            exists|now: SystemTime| r == self.turn(cancelled, #[trigger] noise_at(now)),
    {
        proof {
            let any: SystemTime = arbitrary();
            assert(self.attempt == 0 || cancelled ==> self.turn(cancelled, noise_at(any))
                == self.turn(cancelled, 0));
        }
        if cancelled {
            return Turn::Ended(Outcome::Cancelled);
        }
        if self.attempt > 0 {
            return Turn::Pause(backoff(self.attempt));
        }
        Turn::Send
    }

    /// Takes a cancellation that came during a pause.
    pub fn on_cancelled(&self) -> (r: Result<Outcome, DownloadError>)
        ensures
            r == Ok::<Outcome, DownloadError>(Outcome::Cancelled),
    {
        Ok(Outcome::Cancelled)
    }

    /// The end that a pass brings, if it brings one: its own, an error that no
    /// retry can mend, a cancellation, or one failure too many.
    pub open spec fn verdict(self, result: Result<bool, ErrorView>, cancelled: bool) -> Option<
        Result<Outcome, ErrorView>,
    > {
        match result {
            Ok(true) => Some(Ok(Outcome::Completed)),
            Ok(false) => Some(Ok(Outcome::Cancelled)),
            Err(error) => if !error.is_retryable() {
                Some(Err(error))
            } else if cancelled {
                Some(Ok(Outcome::Cancelled))
            } else if self.attempt + 1 > self.max_failures {
                Some(
                    Err(
                        ErrorView::RetriesExhausted {
                            attempts: (self.attempt + 1) as u32,
                            last: Box::new(error),
                        },
                    ),
                )
            } else {
                None
            },
        }
    }

    /// Whether a pass that ended like this is one to start over from: its
    /// failure could be retried and is within the limit.
    pub open spec fn restarts(self, result: Result<bool, ErrorView>) -> bool {
        match result {
            Ok(_) => false,
            Err(error) => error.is_retryable() && self.attempt + 1 <= self.max_failures,
        }
    }

    /// Takes the result of a pass, and returns the end of the download if it
    /// brings one. `cancelled` tells whether the download has been cancelled
    /// by now: a failure is then no reason for another pass. A failure within
    /// the limit takes back what was counted, cancelled or not. If there is no
    /// end, the next pass starts from zero, after the pause
    /// that belongs to [`Self::attempt`].
    pub fn on_pass(
        &mut self,
        result: Result<bool, DownloadError>,
        cancelled: bool,
        table: &mut PieceTable,
        shared: &mut Shared,
    ) -> (r: Option<Result<Outcome, DownloadError>>)
        requires
            old(self).wf(),
            old(self).attempt < u32::MAX,
            old(table).wf(),
        ensures
            final(self).wf(),
            final(self).max_failures == old(self).max_failures,
            end_view(r) == old(self).verdict(
                outcome_view(result),
                cancelled,
            ),
            final(self).attempt == old(self).attempt + if old(self).restarts(outcome_view(result)) {
                1int
            } else {
                0
            },
            final(table).wf(),
            final(table).size == old(table).size,
            final(table).piece_size == old(table).piece_size,
            final(table).written@ == (if old(self).restarts(outcome_view(result)) {
                Seq::new(old(table).written@.len(), |i: int| 0u64)
            } else {
                old(table).written@
            }),
            *final(shared) == (match result {
                Ok(_) => *old(shared),
                Err(error) => if error@.is_retryable() {
                    old(shared).after_retry()
                } else {
                    *old(shared)
                },
            }),
            *final(self) == old(self).after_pass(outcome_view(result)),
            final(table).written@ == old(self).counters_after_pass(
                outcome_view(result),
                old(table).written@,
            ),
            *final(shared) == old(self).shown_after_pass(outcome_view(result), *old(shared)),
    {
        match result {
            Ok(complete) => {
                if complete {
                    Some(Ok(Outcome::Completed))
                } else {
                    Some(Ok(Outcome::Cancelled))
                }
            },
            Err(error) => {
                if !error.is_retryable() {
                    return Some(Err(error));
                }
                shared.count_retry();
                let attempt: u32 = self.attempt + 1;
                if attempt > self.max_failures {
                    if cancelled {
                        return Some(Ok(Outcome::Cancelled));
                    }
                    return Some(
                        Err(
                            DownloadError::RetriesExhausted {
                                attempts: attempt,
                                last: Box::new(error),
                            },
                        ),
                    );
                }
                self.attempt = attempt;
                // Restart from zero: the server does not honor ranges.
                table.reset();
                if cancelled {
                    Some(Ok(Outcome::Cancelled))
                } else {
                    None
                }
            },
        }
    }
}

/// A cancellation is never an error: once the download is cancelled, a pass
/// that failed in a way that could be retried ends it as cancelled.
pub proof fn law_cancelled_stream_is_no_error(stream: SingleStream, error: ErrorView)
    requires
        error.is_retryable(),
    ensures
        stream.verdict(Err(error), true) == Some::<Result<Outcome, ErrorView>>(
            Ok(Outcome::Cancelled),
        ),
        stream.verdict(Ok(false), true) == Some::<Result<Outcome, ErrorView>>(
            Ok(Outcome::Cancelled),
        ),
{
}

/// A stream gives up on the first failure beyond the limit, with the number of
/// failures and the last of them.
pub proof fn law_stream_gives_up_beyond_the_limit(stream: SingleStream, error: ErrorView)
    requires
        stream.wf(),
        stream.attempt < u32::MAX,
        error.is_retryable(),
    ensures
        stream.verdict(Err(error), false) == (if stream.attempt == stream.max_failures {
            Some::<Result<Outcome, ErrorView>>(
                Err(
                    ErrorView::RetriesExhausted {
                        attempts: (stream.max_failures + 1) as u32,
                        last: Box::new(error),
                    },
                ),
            )
        } else {
            None
        }),
{
}

proof fn lemma_zero_counters(size: u64, piece_size: u64, count: nat)
    requires
        piece_size > 0,
        count == count_of(size, piece_size),
    ensures
        Seq::new(count, |i: int| 0u64) == stream_counters(size, piece_size, count, 0),
{
    let zeros = Seq::new(count, |i: int| 0u64);
    assert forall|i: int| 0 <= i < count implies #[trigger] zeros[i] == stream_counters(
        size,
        piece_size,
        count,
        0,
    )[i] by {
        lemma_piece(size, piece_size, i);
        if i == 0 {
            assert(0 * piece_size == 0);
        }
    }
    assert(zeros =~= stream_counters(size, piece_size, count, 0));
}

/// A pass that has not begun matches counters that are all zero, such as a
/// restart leaves them.
pub proof fn law_restart_is_from_zero(pass: StreamPass, table: PieceTable)
    requires
        table.wf(),
        pass.size == table.size,
        pass.absolute == 0,
        table.written@ == Seq::new(table.written@.len(), |i: int| 0u64),
    ensures
        pass.matches(table),
{
    lemma_zero_counters(table.size, table.piece_size, table.written@.len());
}

/// The counters of a pass add up to the bytes it has written, and a pass that
/// completes leaves every piece full.
pub proof fn law_complete_pass_fills_the_file(pass: StreamPass, table: PieceTable)
    requires
        pass.wf(),
        pass.matches(table),
    ensures
        sum(table.written@) == pass.absolute,
        pass.body_step(BodyEvent::End) == StreamStepView::Finished(Ok(true)) <==> counters_full(
            table.size,
            table.piece_size,
            table.written@,
        ),
{
    let zeros = Seq::new(table.written@.len(), |i: int| 0u64);
    assert(counters_fit(table.size, table.piece_size, zeros)) by {
        assert forall|i: int| 0 <= i < zeros.len() implies 0 <= #[trigger] zeros[i] <= len_of(
            table.size,
            table.piece_size,
            i,
        ) by {
            lemma_piece(table.size, table.piece_size, i);
        }
    }
    law_stream_progress_adds_up(table.size, table.piece_size, zeros, pass.absolute);
    law_total_is_size_when_full(table.size, table.piece_size, table.written@);
}

/// A pass with all that it changes.
pub struct Flow {
    pub pass: StreamPass,
    /// The counters of all pieces.
    pub counters: Seq<u64>,
    /// What an observer sees.
    pub shown: Shared,
    /// The bytes of the target.
    pub file: Seq<u8>,
    /// The error that a chunk has ended the pass with.
    pub refusal: Option<ErrorView>,
}

impl Flow {
    /// A pass over a file, before its body comes in.
    pub open spec fn fresh(self, piece_size: u64) -> bool {
        &&& piece_size > 0
        &&& self.pass.absolute == 0
        &&& self.counters == Seq::new(
            count_of(self.pass.size, piece_size) as nat,
            |i: int| 0u64,
        )
        &&& self.file.len() == self.pass.size
        &&& self.refusal is None
    }

    /// The pass after one more chunk.
    pub open spec fn after_chunk(self, piece_size: u64, chunk: Seq<u8>) -> Flow {
        let count = chunk.len() as u64;
        if self.refusal is Some {
            self
        } else {
            match self.pass.body_step(BodyEvent::Chunk(count)) {
                StreamStepView::Continue => self,
                StreamStepView::WriteAt(offset) => {
                    let pass = self.pass.grown(count);
                    Flow {
                        pass,
                        counters: filled(pass.size, piece_size, self.counters, pass.absolute),
                        shown: self.shown.after_reach(pass.absolute),
                        file: put(self.file, offset as int, chunk),
                        refusal: None,
                    }
                },
                StreamStepView::Finished(end) => Flow {
                    refusal: match end {
                        Ok(_) => None,
                        Err(error) => Some(error),
                    },
                    ..self
                },
            }
        }
    }

    /// The pass after these chunks of its body. Whatever ends a pass, be it a
    /// stall, a cancellation, the transport or the disk, it ends in such a
    /// state.
    pub open spec fn after_chunks(self, piece_size: u64, chunks: Seq<Seq<u8>>) -> Flow
        decreases chunks.len(),
    {
        if chunks.len() == 0 {
            self
        } else {
            self.after_chunks(piece_size, chunks.drop_last()).after_chunk(
                piece_size,
                chunks.last(),
            )
        }
    }

    /// What the pass has changed since `before`, while `body` came in: the file
    /// starts with as many of the first bytes of the body as the pass counts,
    /// and the rest is as it was; the counters and the bytes shown say so.
    pub open spec fn kept_its_place(self, before: Flow, piece_size: u64, body: Seq<u8>) -> bool {
        let absolute = self.pass.absolute;
        &&& self.pass.size == before.pass.size
        &&& absolute <= self.pass.size
        &&& absolute <= body.len()
        &&& self.counters == stream_counters(
            self.pass.size,
            piece_size,
            before.counters.len(),
            absolute,
        )
        &&& self.shown == before.shown.after_reach(absolute)
        &&& self.file.len() == before.file.len()
        &&& forall|at: int|
            0 <= at < self.file.len() ==> #[trigger] self.file[at] == if at < absolute {
                body[at]
            } else {
                before.file[at]
            }
        &&& self.refusal is None ==> absolute == body.len()
        &&& self.refusal matches Some(error) ==> error is Protocol && body.len() > self.pass.size
    }
}

proof fn lemma_one_chunk(
    before: Flow,
    reached: Flow,
    piece_size: u64,
    body: Seq<u8>,
    chunk: Seq<u8>,
)
    requires
        before.file.len() == before.pass.size,
        reached.kept_its_place(before, piece_size, body),
        chunk.len() <= u64::MAX,
    ensures
        reached.after_chunk(piece_size, chunk).kept_its_place(before, piece_size, body + chunk),
{
    let count = chunk.len() as u64;
    if reached.refusal is None {
        if count == 0 {
            assert(body + chunk =~= body);
        } else if reached.pass.absolute + count <= reached.pass.size {
            lemma_refill(
                reached.pass.size,
                piece_size,
                before.counters.len(),
                reached.pass.absolute,
                (reached.pass.absolute + count) as u64,
            );
        }
    }
}

/// Byte placement over a whole pass. However the body is cut into chunks, and
/// wherever the pass ends, the file starts with the first bytes of the body, in
/// order, as many as the pass counts, and no other byte has changed; the
/// counters claim these bytes. A body that is too long is a protocol error.
pub proof fn law_pass_keeps_its_place(before: Flow, piece_size: u64, chunks: Seq<Seq<u8>>)
    requires
        before.fresh(piece_size),
        forall|i: int| 0 <= i < chunks.len() ==> (#[trigger] chunks[i]).len() <= u64::MAX,
    ensures
        before.after_chunks(piece_size, chunks).kept_its_place(
            before,
            piece_size,
            joined(chunks),
        ),
    decreases chunks.len(),
{
    if chunks.len() == 0 {
        lemma_count(before.pass.size, piece_size);
        lemma_zero_counters(before.pass.size, piece_size, before.counters.len());
    } else {
        let init = chunks.drop_last();
        let chunk = chunks.last();
        assert(chunk == chunks[chunks.len() - 1]);
        assert forall|i: int| 0 <= i < init.len() implies (#[trigger] init[i]).len()
            <= u64::MAX by {
            assert(init[i] == chunks[i]);
        }
        law_pass_keeps_its_place(before, piece_size, init);
        lemma_one_chunk(
            before,
            before.after_chunks(piece_size, init),
            piece_size,
            joined(init),
            chunk,
        );
    }
}

/// However the body is cut into chunks, a pass completes exactly when the body
/// has as many bytes as the file, and the file is then the body.
pub proof fn law_completes_on_exactly_the_file(
    before: Flow,
    piece_size: u64,
    chunks: Seq<Seq<u8>>,
)
    requires
        before.fresh(piece_size),
        forall|i: int| 0 <= i < chunks.len() ==> (#[trigger] chunks[i]).len() <= u64::MAX,
    ensures
        ({
            let after = before.after_chunks(piece_size, chunks);
            let completes = after.refusal is None && after.pass.body_step(BodyEvent::End)
                == StreamStepView::Finished(Ok(true));
            &&& completes <==> joined(chunks).len() == before.pass.size
            &&& completes ==> after.file == joined(chunks)
        }),
{
    law_pass_keeps_its_place(before, piece_size, chunks);
    let after = before.after_chunks(piece_size, chunks);
    if after.refusal is None && after.pass.absolute == after.pass.size {
        assert(after.file =~= joined(chunks));
    }
}

/// How a pass ends before its body does. A broken transport ends it with the
/// transport's own error, a stall as a failure of the network, and a
/// cancellation is no error.
pub proof fn law_stream_interruptions_keep_their_error(pass: StreamPass, error: DownloadError)
    ensures
        pass.body_step(BodyEvent::Broken(error)) == StreamStepView::Finished(Err(error@)),
        pass.body_step(BodyEvent::Stalled) matches StreamStepView::Finished(Err(stall)) && stall
            is Network && stall.is_retryable(),
        pass.body_step(BodyEvent::Cancelled) == StreamStepView::Finished(Ok(false)),
{
}

/// An interruption within the limit starts the stream over: a pass that the
/// transport broke, or that came to nothing for want of bytes, brings no end,
/// and what was counted is taken back.
pub proof fn law_interruption_starts_over(
    stream: SingleStream,
    pass: StreamPass,
    error: DownloadError,
)
    requires
        stream.attempt < stream.max_failures,
        pass.wf(),
        error@.is_retryable(),
    ensures
        ({
            let starts_over = |event: BodyEvent|
                pass.body_step(event) matches StreamStepView::Finished(result) && stream.verdict(
                    result,
                    false,
                ) is None && stream.restarts(result);
            &&& starts_over(BodyEvent::Broken(error))
            &&& starts_over(BodyEvent::Stalled)
            &&& pass.absolute < pass.size ==> starts_over(BodyEvent::End)
        }),
{
}

/// What a pass that ended says of the download: a complete one completes it, a
/// cancelled one cancels it, and an error that no retry can mend ends it as
/// that very error. Only a failure within the limit is started over from.
pub proof fn law_ends_as_its_passes_do(stream: SingleStream, error: ErrorView, cancelled: bool)
    ensures
        stream.verdict(Ok(true), cancelled) == Some::<Result<Outcome, ErrorView>>(
            Ok(Outcome::Completed),
        ),
        stream.verdict(Ok(false), cancelled) == Some::<Result<Outcome, ErrorView>>(
            Ok(Outcome::Cancelled),
        ),
        !error.is_retryable() ==> stream.verdict(Err(error), cancelled) == Some::<
            Result<Outcome, ErrorView>,
        >(Err(error)),
        !stream.restarts(Ok(true)) && !stream.restarts(Ok(false)),
        stream.restarts(Err(error)) <==> error.is_retryable() && stream.attempt
            < stream.max_failures,
        stream.verdict(Err(error), cancelled) is None ==> stream.restarts(Err(error)),
{
}

/// An answer is accepted exactly when it is the whole file: a plain body with
/// status 200, and of the size of the file where it states a length. Another
/// length is a mismatch of the two sizes; another status is told as it is.
pub proof fn law_accepts_exactly_the_whole_file(pass: StreamPass, head: ResponseHead)
    ensures
        pass.judged(head) is Ok <==> {
            &&& head.status == 200
            &&& head.plain_body()
            &&& head.stated_length() matches Ok(length) && (length is None || length->0
                == pass.size)
        },
        head.status != 200 ==> pass.judged(head) == Err::<(), ErrorView>(
            ErrorView::Http {
                status: head.status,
                retryable: head.status == 429 || 500 <= head.status <= 599,
            },
        ),
        head.status == 200 && !head.plain_body() ==> (pass.judged(head) matches Err(error) && error
            is Protocol),
        head.status == 200 && head.plain_body() ==> (head.stated_length() matches Ok(Some(length))
            ==> (length != pass.size ==> pass.judged(head) == Err::<(), ErrorView>(
            ErrorView::SizeMismatch { expected: pass.size, actual: length },
        ))),
{
}

/// Where a chunk of a stream goes: right behind the bytes of this pass, if it
/// fits into the file, and nowhere if not. A body that ends early is a failure
/// of the network.
pub proof fn law_chunks_follow_each_other(pass: StreamPass, count: u64)
    requires
        pass.wf(),
    ensures
        count == 0 ==> pass.body_step(BodyEvent::Chunk(count)) is Continue,
        0 < count <= pass.size - pass.absolute ==> pass.body_step(BodyEvent::Chunk(count))
            == StreamStepView::WriteAt(pass.absolute),
        count > pass.size - pass.absolute ==> (pass.body_step(BodyEvent::Chunk(count)) matches
            StreamStepView::Finished(Err(error)) && error is Protocol),
        pass.absolute == pass.size ==> pass.body_step(BodyEvent::End) == StreamStepView::Finished(
            Ok(true),
        ),
        pass.absolute < pass.size ==> (pass.body_step(BodyEvent::End) matches
            StreamStepView::Finished(Err(error)) && error is Network),
{
}

/// What a pass leaves behind. A failure that is started over from counts one
/// more attempt, and every counter is zero; any other end leaves both alone.
/// Each failure that could be retried is one retry more, and nothing else is
/// seen to change.
pub proof fn law_restarts_take_back_what_was_counted(
    stream: SingleStream,
    error: ErrorView,
    counters: Seq<u64>,
    shared: Shared,
    index: int,
)
    requires
        stream.wf(),
        stream.attempt < u32::MAX,
        shared.retries < u32::MAX,
    ensures
        ({
            let over = error.is_retryable() && stream.attempt < stream.max_failures;
            let after = stream.after_pass(Err(error));
            let left = stream.counters_after_pass(Err(error), counters);
            &&& after.max_failures == stream.max_failures
            &&& over ==> after.attempt == stream.attempt + 1
            &&& !over ==> after == stream && left == counters
            &&& left.len() == counters.len()
            &&& over && 0 <= index < counters.len() ==> left[index] == 0
            &&& error.is_retryable() ==> stream.shown_after_pass(Err(error), shared) == (Shared {
                retries: (shared.retries + 1) as u32,
                ..shared
            })
            &&& !error.is_retryable() ==> stream.shown_after_pass(Err(error), shared) == shared
        }),
        forall|complete: bool|
            #![auto]
            stream.after_pass(Ok(complete)) == stream && stream.counters_after_pass(
                Ok(complete),
                counters,
            ) == counters && stream.shown_after_pass(Ok(complete), shared) == shared,
{
}

/// A cancelled stream sends nothing more. Otherwise the first pass is sent at
/// once, and each later one after the pause that belongs to its attempt.
pub proof fn law_passes_wait_their_backoff(stream: SingleStream, noise: u32)
    ensures
        stream.turn(true, noise) == Turn::Ended(Outcome::Cancelled),
        stream.attempt == 0 ==> stream.turn(false, noise) is Send,
        stream.attempt > 0 ==> stream.turn(false, noise) == Turn::Pause(
            pause_of(stream.attempt, noise),
        ),
{
}

} // verus!
