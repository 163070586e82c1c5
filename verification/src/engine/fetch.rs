//! One attempt at one piece: the request, the checks of the answer, and the
//! place of every byte of the body.

use vstd::prelude::*;
use vstd::string::*;

use crate::error::{outcome_view, DownloadError, ErrorView};
use crate::http;
use crate::http::{
    ascii, content_length, content_range, ensure_identity, law_numbers_read_back,
    law_ranges_read_back, range_value, retry_after, status_error, ResponseHead,
};
use crate::pieces::{
    count_of, counters_fit, law_each_byte_in_one_piece, law_total_is_size_when_full, lemma_piece,
    lemma_sum_update, len_of, piece_len, sum, PieceTable,
};
use crate::progress::Shared;
use crate::text::{dec, decimal, join};
use crate::time::{Duration, Instant, NANOS_PER_SEC};

verus! {

/// Why an attempt at a piece failed.
#[derive(Debug)]
pub struct WorkerFail {
    pub error: DownloadError,
    pub rate_limited: bool,
    pub retry_after: Option<Duration>,
    pub attempt_started: Instant,
}

/// What a [`WorkerFail`] says.
pub struct FailView {
    pub error: ErrorView,
    pub rate_limited: bool,
    pub retry_after: Option<Duration>,
    pub attempt_started: Instant,
}

impl View for WorkerFail {
    type V = FailView;

    open spec fn view(&self) -> FailView {
        FailView {
            error: self.error@,
            rate_limited: self.rate_limited,
            retry_after: self.retry_after,
            attempt_started: self.attempt_started,
        }
    }
}

/// A failure that asks for no pause of its own.
pub open spec fn plain_fail(error: ErrorView, attempt_started: Instant) -> FailView {
    FailView { error, rate_limited: false, retry_after: None, attempt_started }
}

/// An attempt's result, with the failure taken by its view.
pub open spec fn fail_outcome(r: Result<(), WorkerFail>) -> Result<(), FailView> {
    match r {
        Ok(()) => Ok(()),
        Err(fail) => Err(fail@),
    }
}

/// What came of one wait for body bytes.
#[derive(Debug)]
pub enum BodyEvent {
    /// The download was cancelled.
    Cancelled,
    /// No byte came for too long.
    Stalled,
    /// The transport failed.
    Broken(DownloadError),
    /// This many bytes came.
    Chunk(u64),
    /// The body ended.
    End,
}

/// What to do about it.
#[derive(Debug)]
pub enum BodyStep {
    /// Wait on.
    Continue,
    /// Write the chunk to the file at this offset, and tell of it.
    WriteAt(u64),
    /// The attempt is over.
    Finished(Result<(), WorkerFail>),
}

/// What a [`BodyStep`] says.
pub enum BodyStepView {
    Continue,
    WriteAt(u64),
    Finished(Result<(), FailView>),
}

impl View for BodyStep {
    type V = BodyStepView;

    open spec fn view(&self) -> BodyStepView {
        match *self {
            BodyStep::Continue => BodyStepView::Continue,
            BodyStep::WriteAt(offset) => BodyStepView::WriteAt(offset),
            BodyStep::Finished(r) => BodyStepView::Finished(fail_outcome(r)),
        }
    }
}

/// One attempt at one piece.
#[derive(Debug)]
pub struct PieceFetch {
    pub index: u64,
    /// The offset of the piece in the file.
    pub piece_start: u64,
    /// The length of the piece.
    pub len: u64,
    /// The bytes of the piece that were there before.
    pub already: u64,
    /// The bytes of the piece that are there now.
    pub written: u64,
    pub attempt_started: Instant,
}

impl PieceFetch {
    /// Something was missing, and what is there does not leave the piece.
    pub open spec fn wf(self) -> bool {
        &&& self.already < self.len
        &&& self.already <= self.written <= self.len
        &&& self.piece_start + self.len <= u64::MAX
    }

    /// The attempt is at a piece of this file.
    pub open spec fn of_file(self, size: u64, piece_size: u64) -> bool {
        &&& piece_size > 0
        &&& self.index < count_of(size, piece_size)
        &&& self.piece_start == self.index * piece_size
        &&& self.len == len_of(size, piece_size, self.index as int)
    }

    /// The first byte to ask for.
    pub open spec fn range_start(self) -> int {
        self.piece_start + self.already
    }

    /// The last byte to ask for.
    pub open spec fn range_end(self) -> int {
        self.piece_start + self.len - 1
    }

    /// An attempt at piece `index`, of which `already` bytes are there, if any
    /// are missing.
    pub open spec fn at(
        size: u64,
        piece_size: u64,
        index: u64,
        already: u64,
        attempt_started: Instant,
    ) -> Option<PieceFetch> {
        let len = len_of(size, piece_size, index as int) as u64;
        if already >= len {
            None
        } else {
            Some(
                PieceFetch {
                    index,
                    piece_start: (index * piece_size) as u64,
                    len,
                    already,
                    written: already,
                    attempt_started,
                },
            )
        }
    }

    /// The attempt with `count` more bytes in place.
    pub open spec fn grown(self, count: u64) -> PieceFetch {
        PieceFetch { written: (self.written + count) as u64, ..self }
    }

    /// Starts an attempt at piece `index`, of which `already` bytes are there.
    /// `None` means that nothing is missing.
    #[must_use]
    pub fn begin(size: u64, piece_size: u64, index: u64, already: u64, attempt_started: Instant)
        -> (r: Option<Self>)
        requires
            piece_size > 0,
            index < count_of(size, piece_size),
        ensures
            r is None <==> already >= len_of(size, piece_size, index as int),
            r matches Some(fetch) ==> {
                &&& fetch.wf()
                &&& fetch.of_file(size, piece_size)
                &&& fetch.index == index
                &&& fetch.already == already
                &&& fetch.written == already
                &&& fetch.attempt_started == attempt_started
            },
            r == PieceFetch::at(size, piece_size, index, already, attempt_started),
    {
        proof {
            lemma_piece(size, piece_size, index as int);
        }
        let piece_start: u64 = index * piece_size;
        let len: u64 = piece_len(size, piece_size, index);
        if already >= len {
            return None;
        }
        Some(PieceFetch { index, piece_start, len, already, written: already, attempt_started })
    }

    /// The `Range` value of the request.
    pub open spec fn wanted(self) -> Seq<char> {
        "bytes="@ + dec(self.range_start() as nat) + "-"@ + dec(self.range_end() as nat)
    }

    /// The `Range` value of the request: the bytes of the piece that are
    /// missing.
    #[must_use]
    pub fn range_header(&self) -> (r: String)
        requires
            self.wf(),
        ensures
            r@ == "bytes="@ + dec(self.range_start() as nat) + "-"@ + dec(self.range_end() as nat),
            r@ == self.wanted(),
    {
        join(
            "bytes=",
            decimal((self.piece_start + self.already) as u128).as_str(),
        ).concat("-").concat(decimal((self.piece_start + self.len - 1) as u128).as_str())
    }

    fn plain(&self, error: DownloadError) -> (r: WorkerFail)
        ensures
            r@ == plain_fail(error@, self.attempt_started),
    {
        WorkerFail {
            error,
            rate_limited: false,
            retry_after: None,
            attempt_started: self.attempt_started,
        }
    }

    /// The failure that an attempt ends with when something around it failed.
    #[must_use]
    pub fn failed(&self, error: DownloadError) -> (r: WorkerFail)
        ensures
            r@ == plain_fail(error@, self.attempt_started),
    {
        self.plain(error)
    }

    /// Whether the head of a response announces exactly the bytes that were
    /// asked for, and if not, what is wrong with it.
    pub open spec fn judged(self, head: ResponseHead, now: u64) -> Result<(), FailView> {
        if head.status != http::PARTIAL_CONTENT {
            Err(
                FailView {
                    error: if head.status == http::OK {
                        ErrorView::Protocol("server stopped honoring range requests"@)
                    } else {
                        ErrorView::Http {
                            status: head.status,
                            retryable: http::is_transient(head.status),
                        }
                    },
                    rate_limited: head.status == http::TOO_MANY_REQUESTS,
                    retry_after: head.stated_pause(now),
                    attempt_started: self.attempt_started,
                },
            )
        } else {
            match self.judged_partial(head) {
                Ok(()) => Ok(()),
                Err(error) => Err(plain_fail(error, self.attempt_started)),
            }
        }
    }

    /// The same for a partial response.
    pub open spec fn judged_partial(self, head: ResponseHead) -> Result<(), ErrorView> {
        if !head.plain_body() {
            Err(ErrorView::Protocol("compressed response body"@))
        } else {
            match head.stated_range() {
                Err(error) => Err(error),
                Ok(None) => Err(ErrorView::Protocol("206 without Content-Range"@)),
                Ok(Some(range)) => if range.start != self.range_start() || range.end
                    != self.range_end() {
                    Err(
                        ErrorView::Protocol(
                            "Content-Range mismatch: asked "@ + dec(self.range_start() as nat)
                                + "-"@ + dec(self.range_end() as nat) + ", got "@ + dec(
                                range.start as nat,
                            ) + "-"@ + dec(range.end as nat),
                        ),
                    )
                } else {
                    match head.stated_length() {
                        Err(error) => Err(error),
                        Ok(None) => Ok(()),
                        Ok(Some(length)) => if length == self.len - self.already {
                            Ok(())
                        } else {
                            Err(
                                ErrorView::Protocol(
                                    "Content-Length mismatch for piece "@ + dec(self.index as nat)
                                        + ": expected "@ + dec((self.len - self.already) as nat)
                                        + ", got "@ + dec(length as nat),
                                ),
                            )
                        },
                    }
                },
            }
        }
    }

    /// Checks the head of the response, `now` being the seconds since the Unix
    /// epoch.
    pub fn on_head(&self, head: &ResponseHead, now: u64) -> (r: Result<(), WorkerFail>)
        requires
            self.wf(),
        ensures
            fail_outcome(r) == self.judged(*head, now),
    {
        if head.status != http::PARTIAL_CONTENT {
            let pause = retry_after(head, now);
            let error = if head.status == http::OK {
                DownloadError::Protocol("server stopped honoring range requests".to_string())
            } else {
                status_error(head.status)
            };
            return Err(
                WorkerFail {
                    error,
                    rate_limited: head.status == http::TOO_MANY_REQUESTS,
                    retry_after: pause,
                    attempt_started: self.attempt_started,
                },
            );
        }
        match self.check_partial(head) {
            Ok(()) => Ok(()),
            Err(error) => Err(self.plain(error)),
        }
    }

    fn check_partial(&self, head: &ResponseHead) -> (r: Result<(), DownloadError>)
        requires
            self.wf(),
        ensures
            outcome_view(r) == self.judged_partial(*head),
    {
        if let Err(error) = ensure_identity(head) {
            return Err(error);
        }
        let range = match content_range(head) {
            Err(error) => {
                return Err(error);
            },
            Ok(None) => {
                return Err(DownloadError::Protocol("206 without Content-Range".to_string()));
            },
            Ok(Some(range)) => range,
        };
        let start: u64 = self.piece_start + self.already;
        let end: u64 = self.piece_start + self.len - 1;
        if range.start != start || range.end != end {
            return Err(
                DownloadError::Protocol(
                    join("Content-Range mismatch: asked ", decimal(start as u128).as_str()).concat(
                        "-",
                    ).concat(decimal(end as u128).as_str()).concat(", got ").concat(
                        decimal(range.start as u128).as_str(),
                    ).concat("-").concat(decimal(range.end as u128).as_str()),
                ),
            );
        }
        match content_length(head) {
            Err(error) => Err(error),
            Ok(None) => Ok(()),
            Ok(Some(length)) => {
                let missing: u64 = self.len - self.already;
                if length == missing {
                    Ok(())
                } else {
                    Err(
                        DownloadError::Protocol(
                            join(
                                "Content-Length mismatch for piece ",
                                decimal(self.index as u128).as_str(),
                            ).concat(": expected ").concat(
                                decimal(missing as u128).as_str(),
                            ).concat(", got ").concat(decimal(length as u128).as_str()),
                        ),
                    )
                }
            },
        }
    }

    /// What to do about an event while the body comes in.
    pub open spec fn body_step(self, event: BodyEvent, stall_timeout: Duration) -> BodyStepView {
        let over = |error: ErrorView|
            BodyStepView::Finished(Err(plain_fail(error, self.attempt_started)));
        match event {
            BodyEvent::Cancelled => over(ErrorView::Network("cancelled"@)),
            BodyEvent::Stalled => over(
                ErrorView::Network(
                    "no data for "@ + dec(
                        (stall_timeout.nanos / NANOS_PER_SEC) as nat,
                    ) + " s on piece "@ + dec(self.index as nat),
                ),
            ),
            BodyEvent::Broken(error) => over(error@),
            BodyEvent::Chunk(count) => if count == 0 {
                BodyStepView::Continue
            } else if self.written + count > self.len {
                over(
                    ErrorView::Protocol(
                        "piece "@ + dec(self.index as nat) + " body exceeded "@ + dec(
                            self.len as nat,
                        ) + " bytes"@,
                    ),
                )
            } else {
                BodyStepView::WriteAt((self.piece_start + self.written) as u64)
            },
            BodyEvent::End => if self.written == self.len {
                BodyStepView::Finished(Ok(()))
            } else {
                over(
                    ErrorView::Network(
                        "piece "@ + dec(self.index as nat) + " ended early: "@ + dec(
                            self.written as nat,
                        ) + " of "@ + dec(self.len as nat) + " bytes"@,
                    ),
                )
            },
        }
    }

    /// Decides on an event while the body comes in.
    pub fn on_event(&self, event: BodyEvent, stall_timeout: Duration) -> (r: BodyStep)
        requires
            self.wf(),
        ensures
            r@ == self.body_step(event, stall_timeout),
    {
        let error = match event {
            // Reported as a retryable network interruption; the scheduler sees
            // the cancellation and stops before requeueing.
            BodyEvent::Cancelled => DownloadError::Network("cancelled".to_string()),
            BodyEvent::Stalled => DownloadError::Network(
                join("no data for ", decimal(stall_timeout.as_secs()).as_str()).concat(
                    " s on piece ",
                ).concat(decimal(self.index as u128).as_str()),
            ),
            BodyEvent::Broken(error) => error,
            BodyEvent::Chunk(count) => {
                if count == 0 {
                    return BodyStep::Continue;
                }
                if count <= self.len - self.written {
                    return BodyStep::WriteAt(self.piece_start + self.written);
                }
                DownloadError::Protocol(
                    join("piece ", decimal(self.index as u128).as_str()).concat(
                        " body exceeded ",
                    ).concat(decimal(self.len as u128).as_str()).concat(" bytes"),
                )
            },
            BodyEvent::End => {
                if self.written == self.len {
                    return BodyStep::Finished(Ok(()));
                }
                DownloadError::Network(
                    join("piece ", decimal(self.index as u128).as_str()).concat(
                        " ended early: ",
                    ).concat(decimal(self.written as u128).as_str()).concat(" of ").concat(
                        decimal(self.len as u128).as_str(),
                    ).concat(" bytes"),
                )
            },
        };
        BodyStep::Finished(Err(self.plain(error)))
    }

    /// Takes note of a chunk that was written where [`Self::on_event`] said,
    /// and counts it for the piece and for the whole download.
    pub fn on_written(&mut self, count: u64, table: &mut PieceTable, shared: &mut Shared)
        requires
            old(self).wf(),
            old(self).written + count <= old(self).len,
            old(table).wf(),
            old(self).of_file(old(table).size, old(table).piece_size),
        ensures
            final(self).wf(),
            *final(self) == (PieceFetch {
                written: (old(self).written + count) as u64,
                ..*old(self)
            }),
            *final(self) == old(self).grown(count),
            final(table).wf(),
            final(table).size == old(table).size,
            final(table).piece_size == old(table).piece_size,
            final(table).written@ == old(table).written@.update(
                old(self).index as int,
                final(self).written,
            ),
            *final(shared) == old(shared).after_written(count),
    {
        self.written = self.written + count;
        table.record(self.index, self.written);
        shared.add_written(count);
    }
}

/// The bytes that an observer sees as written are those that the counters of
/// the pieces add up to, and so never more than the file has.
pub proof fn law_written_is_what_pieces_hold(
    fetch: PieceFetch,
    table: PieceTable,
    shared: Shared,
    count: u64,
)
    requires
        fetch.wf(),
        table.wf(),
        fetch.of_file(table.size, table.piece_size),
        table.written@[fetch.index as int] == fetch.written,
        fetch.written + count <= fetch.len,
        shared.written == sum(table.written@),
    ensures
        ({
            let after = table.written@.update(
                fetch.index as int,
                (fetch.written + count) as u64,
            );
            &&& shared.after_written(count).written == sum(after)
            &&& sum(after) == shared.written + count
            &&& sum(after) <= table.size
        }),
{
    let value = (fetch.written + count) as u64;
    let after = table.written@.update(fetch.index as int, value);
    lemma_sum_update(table.written@, fetch.index as int, value);
    law_total_is_size_when_full(table.size, table.piece_size, after);
}

/// Where an attempt puts a chunk: the bytes never leave the piece, so never
/// the file, and follow what is already there without a gap.
pub proof fn law_writes_stay_in_the_piece(
    fetch: PieceFetch,
    size: u64,
    piece_size: u64,
    count: u64,
    stall_timeout: Duration,
)
    requires
        fetch.wf(),
        fetch.of_file(size, piece_size),
        fetch.body_step(BodyEvent::Chunk(count), stall_timeout) is WriteAt,
    ensures
        ({
            let offset = fetch.body_step(BodyEvent::Chunk(count), stall_timeout)->WriteAt_0;
            &&& offset == fetch.piece_start + fetch.written
            &&& fetch.piece_start <= offset
            &&& offset + count <= fetch.piece_start + fetch.len <= size
        }),
{
    lemma_piece(size, piece_size, fetch.index as int);
}

/// Attempts at different pieces never write the same byte.
pub proof fn law_pieces_never_overlap(
    a: PieceFetch,
    b: PieceFetch,
    size: u64,
    piece_size: u64,
    offset: int,
)
    requires
        a.of_file(size, piece_size),
        b.of_file(size, piece_size),
        a.index != b.index,
        a.piece_start <= offset < a.piece_start + a.len,
    ensures
        !(b.piece_start <= offset < b.piece_start + b.len),
{
    lemma_piece(size, piece_size, a.index as int);
    law_each_byte_in_one_piece(size, piece_size, offset);
    assert(a.index * piece_size <= offset < (a.index * piece_size) + len_of(
        size,
        piece_size,
        a.index as int,
    ));
    if b.piece_start <= offset < b.piece_start + b.len {
        assert(b.index * piece_size <= offset < (b.index * piece_size) + len_of(
            size,
            piece_size,
            b.index as int,
        ));
    }
}

/// The bytes of a body that came in these chunks.
pub open spec fn joined(chunks: Seq<Seq<u8>>) -> Seq<u8>
    decreases chunks.len(),
{
    if chunks.len() == 0 {
        Seq::empty()
    } else {
        joined(chunks.drop_last()) + chunks.last()
    }
}

/// A file after `data` was written at `offset`.
pub open spec fn put(file: Seq<u8>, offset: int, data: Seq<u8>) -> Seq<u8> {
    Seq::new(
        file.len(),
        |at: int|
            if offset <= at < offset + data.len() {
                data[at - offset]
            } else {
                file[at]
            },
    )
}

/// An attempt with all that it changes.
pub struct Attempt {
    pub fetch: PieceFetch,
    /// The counters of all pieces.
    pub counters: Seq<u64>,
    /// What an observer sees.
    pub shown: Shared,
    /// The bytes of the target.
    pub file: Seq<u8>,
    /// The failure that a chunk has ended the attempt with.
    pub refusal: Option<FailView>,
}

impl Attempt {
    /// An attempt at a piece of a file, before its body comes in.
    pub open spec fn fresh(self, size: u64, piece_size: u64) -> bool {
        &&& self.fetch.wf()
        &&& self.fetch.of_file(size, piece_size)
        &&& self.fetch.written == self.fetch.already
        &&& counters_fit(size, piece_size, self.counters)
        &&& self.counters[self.fetch.index as int] == self.fetch.already
        &&& self.file.len() == size
        &&& self.refusal is None
    }

    /// The attempt after one more chunk.
    pub open spec fn after_chunk(self, chunk: Seq<u8>) -> Attempt {
        let count = chunk.len() as u64;
        if self.refusal is Some {
            self
        } else {
            match self.fetch.body_step(BodyEvent::Chunk(count), Duration { nanos: 0 }) {
                BodyStepView::Continue => self,
                BodyStepView::WriteAt(offset) => {
                    let fetch = self.fetch.grown(count);
                    Attempt {
                        fetch,
                        counters: self.counters.update(fetch.index as int, fetch.written),
                        shown: self.shown.after_written(count),
                        file: put(self.file, offset as int, chunk),
                        refusal: None,
                    }
                },
                BodyStepView::Finished(end) => Attempt {
                    refusal: match end {
                        Ok(()) => None,
                        Err(fail) => Some(fail),
                    },
                    ..self
                },
            }
        }
    }

    /// The attempt after these chunks of its body. Whatever ends an attempt, be
    /// it a stall, a cancellation, the transport or the disk, it ends in such a
    /// state.
    pub open spec fn after_chunks(self, chunks: Seq<Seq<u8>>) -> Attempt
        decreases chunks.len(),
    {
        if chunks.len() == 0 {
            self
        } else {
            self.after_chunks(chunks.drop_last()).after_chunk(chunks.last())
        }
    }

    /// The bytes that the attempt has gained since `before`.
    pub open spec fn gained(self, before: Attempt) -> int {
        self.fetch.written - before.fetch.already
    }

    /// What the attempt has changed since `before`, while `body` came in: its
    /// own counter, the bytes shown, and the bytes of its piece that were
    /// missing, by as many of the first bytes of the body.
    pub open spec fn kept_its_place(self, before: Attempt, body: Seq<u8>) -> bool {
        let gained = self.gained(before);
        let start = before.fetch.range_start();
        &&& self.fetch == (PieceFetch { written: self.fetch.written, ..before.fetch })
        &&& before.fetch.already <= self.fetch.written <= before.fetch.len
        &&& self.counters == before.counters.update(
            before.fetch.index as int,
            self.fetch.written,
        )
        &&& self.shown == before.shown.after_written(gained as u64)
        &&& gained <= body.len()
        &&& self.file.len() == before.file.len()
        &&& forall|at: int|
            0 <= at < self.file.len() ==> #[trigger] self.file[at] == if start <= at < start
                + gained {
                body[at - start]
            } else {
                before.file[at]
            }
        &&& self.refusal is None ==> gained == body.len()
        &&& self.refusal matches Some(fail) ==> fail.error is Protocol && body.len()
            > before.fetch.len - before.fetch.already
    }
}

proof fn lemma_shown_adds_up(shown: Shared, a: u64, b: u64)
    requires
        a + b <= u64::MAX,
    ensures
        shown.after_written(a).after_written(b) == shown.after_written((a + b) as u64),
        shown.after_written(0) == shown,
{
}

/// Byte placement over a whole attempt. However the body is cut into chunks,
/// and wherever the attempt ends, only its own counter has changed, by the
/// bytes that the observer sees added; these are the first bytes of the body,
/// in order, right behind what was there; no byte outside the range that was
/// asked for has changed. A body that is too long is a protocol error.
pub proof fn law_attempt_keeps_its_place(
    before: Attempt,
    size: u64,
    piece_size: u64,
    chunks: Seq<Seq<u8>>,
)
    requires
        before.fresh(size, piece_size),
        forall|i: int| 0 <= i < chunks.len() ==> (#[trigger] chunks[i]).len() <= u64::MAX,
    ensures
        before.after_chunks(chunks).kept_its_place(before, joined(chunks)),
        counters_fit(size, piece_size, before.after_chunks(chunks).counters),
    decreases chunks.len(),
{
    let after = before.after_chunks(chunks);
    lemma_piece(size, piece_size, before.fetch.index as int);
    if chunks.len() == 0 {
        lemma_shown_adds_up(before.shown, 0, 0);
        assert(before.counters.update(before.fetch.index as int, before.fetch.already)
            =~= before.counters);
    } else {
        let init = chunks.drop_last();
        let chunk = chunks.last();
        assert(chunk == chunks[chunks.len() - 1]);
        assert forall|i: int| 0 <= i < init.len() implies (#[trigger] init[i]).len()
            <= u64::MAX by {
            assert(init[i] == chunks[i]);
        }
        law_attempt_keeps_its_place(before, size, piece_size, init);
        lemma_one_chunk(before, before.after_chunks(init), joined(init), chunk);
    }
    assert forall|i: int| 0 <= i < after.counters.len() implies 0 <= #[trigger] after.counters[i]
        <= len_of(size, piece_size, i) by {
        if i != before.fetch.index {
            assert(after.counters[i] == before.counters[i]);
        }
    }
}

proof fn lemma_one_chunk(before: Attempt, reached: Attempt, body: Seq<u8>, chunk: Seq<u8>)
    requires
        before.fetch.wf(),
        before.fetch.index < before.counters.len(),
        before.fetch.piece_start + before.fetch.len <= before.file.len(),
        before.fetch.written == before.fetch.already,
        reached.kept_its_place(before, body),
        chunk.len() <= u64::MAX,
    ensures
        reached.after_chunk(chunk).kept_its_place(before, body + chunk),
{
    let after = reached.after_chunk(chunk);
    let count = chunk.len() as u64;
    if reached.refusal is None {
        if count == 0 {
            assert(body + chunk =~= body);
        } else if reached.fetch.written + count <= reached.fetch.len {
            lemma_shown_adds_up(before.shown, reached.gained(before) as u64, count);
            assert(after.counters =~= before.counters.update(
                before.fetch.index as int,
                after.fetch.written,
            ));
        }
    }
}

/// However the body is cut into chunks, the attempt succeeds exactly when the
/// body has the bytes that were missing, no more and no fewer, and then the
/// piece is full.
pub proof fn law_succeeds_on_exactly_the_missing_bytes(
    before: Attempt,
    size: u64,
    piece_size: u64,
    chunks: Seq<Seq<u8>>,
)
    requires
        before.fresh(size, piece_size),
        forall|i: int| 0 <= i < chunks.len() ==> (#[trigger] chunks[i]).len() <= u64::MAX,
    ensures
        ({
            let after = before.after_chunks(chunks);
            let succeeds = after.refusal is None && after.fetch.body_step(
                BodyEvent::End,
                Duration { nanos: 0 },
            ) == BodyStepView::Finished(Ok(()));
            &&& succeeds <==> joined(chunks).len() == before.fetch.len - before.fetch.already
            &&& succeeds ==> after.counters[before.fetch.index as int] == len_of(
                size,
                piece_size,
                before.fetch.index as int,
            )
        }),
{
    law_attempt_keeps_its_place(before, size, piece_size, chunks);
}

/// What an attempt asks for is what the piece lacks: from the first byte that
/// is not there to the last byte of the piece, and nothing of the next one.
pub proof fn law_asks_for_what_is_missing(fetch: PieceFetch, size: u64, piece_size: u64)
    requires
        fetch.wf(),
        fetch.of_file(size, piece_size),
    ensures
        fetch.range_start() == fetch.index * piece_size + fetch.already,
        fetch.range_start() <= fetch.range_end() < size,
        fetch.range_end() + 1 == (fetch.index + 1) * piece_size || fetch.range_end() + 1 == size,
        fetch.range_end() < (fetch.index + 1) * piece_size,
{
    lemma_piece(size, piece_size, fetch.index as int);
}

/// An answer is accepted exactly when it is the range that was asked for: a
/// plain partial body from the first byte to the last one of the request, of
/// as many bytes as lie between them where it states a length.
pub proof fn law_accepts_exactly_the_asked_range(fetch: PieceFetch, head: ResponseHead, now: u64)
    requires
        fetch.wf(),
    ensures
        ({
            let first = fetch.piece_start + fetch.already;
            let last = fetch.piece_start + fetch.len - 1;
            fetch.judged(head, now) is Ok <==> {
                &&& head.status == 206
                &&& head.plain_body()
                &&& head.stated_range() matches Ok(Some(range)) && range.start == first && range.end
                    == last
                &&& head.stated_length() matches Ok(length) && (length is None || length->0 == last
                    - first + 1)
            }
        }),
{
}

/// A length is held against the range that was asked for, whatever was there
/// before: the same length suits every attempt that asks for as many bytes.
pub proof fn law_length_is_that_of_the_range(
    fetch: PieceFetch,
    head: ResponseHead,
    length: u64,
    now: u64,
)
    requires
        fetch.wf(),
        head.status == 206,
        head.plain_body(),
        head.stated_range() matches Ok(Some(range)) && range.start == fetch.range_start()
            && range.end == fetch.range_end(),
        head.stated_length() == Ok::<Option<u64>, ErrorView>(Some(length)),
    ensures
        fetch.judged(head, now) is Ok <==> length == fetch.range_end() - fetch.range_start() + 1,
        fetch.judged(head, now) matches Err(fail) ==> fail.error is Protocol,
{
}

/// What is said of an answer that is no partial content: the status, but for a
/// server that has stopped honoring ranges, and the pause that it asks for. It
/// is a rate limit exactly if the server says so.
pub proof fn law_refused_answers_tell_their_status(
    fetch: PieceFetch,
    head: ResponseHead,
    now: u64,
)
    requires
        head.status != 206,
    ensures
        fetch.judged(head, now) matches Err(fail) && {
            &&& head.status == 200 ==> fail.error is Protocol
            &&& head.status != 200 ==> fail.error == (ErrorView::Http {
                status: head.status,
                retryable: head.status == 429 || 500 <= head.status <= 599,
            })
            &&& fail.rate_limited <==> head.status == 429
            &&& fail.retry_after == head.stated_pause(now)
            &&& fail.attempt_started == fetch.attempt_started
        },
{
}

/// A partial answer that is not accepted breaks the protocol, and is worth
/// another attempt without a pause of its own.
pub proof fn law_wrong_ranges_break_the_protocol(fetch: PieceFetch, head: ResponseHead, now: u64)
    requires
        fetch.wf(),
        head.status == 206,
    ensures
        fetch.judged(head, now) matches Err(fail) ==> {
            &&& fail.error is Protocol
            &&& fail.error.is_retryable()
            &&& !fail.rate_limited
            &&& fail.retry_after is None
            &&& fail.attempt_started == fetch.attempt_started
        },
{
}

/// How an attempt ends before its body does. A broken transport ends it with
/// the transport's own error; a cancellation or a stall is a failure of the
/// network, which another attempt can mend.
pub proof fn law_interruptions_keep_their_error(
    fetch: PieceFetch,
    error: DownloadError,
    stall_timeout: Duration,
)
    ensures
        ({
            let ends_with = |event: BodyEvent, fail: FailView|
                fetch.body_step(event, stall_timeout) == BodyStepView::Finished(Err(fail))
                    && !fail.rate_limited && fail.retry_after is None && fail.attempt_started
                    == fetch.attempt_started;
            &&& fetch.body_step(BodyEvent::Broken(error), stall_timeout) matches
                BodyStepView::Finished(Err(fail)) && ends_with(BodyEvent::Broken(error), fail)
                && fail.error == error@
            &&& fetch.body_step(BodyEvent::Cancelled, stall_timeout) matches BodyStepView::Finished(
                Err(fail),
            ) && ends_with(BodyEvent::Cancelled, fail) && fail.error is Network
                && fail.error.is_retryable()
            &&& fetch.body_step(BodyEvent::Stalled, stall_timeout) matches BodyStepView::Finished(
                Err(fail),
            ) && ends_with(BodyEvent::Stalled, fail) && fail.error is Network
                && fail.error.is_retryable()
        }),
{
}

/// A body that ends early is a failure of the network, one that is too long a
/// violation of the protocol, and an empty chunk is neither.
pub proof fn law_bodies_end_where_they_should(
    fetch: PieceFetch,
    count: u64,
    stall_timeout: Duration,
)
    requires
        fetch.wf(),
    ensures
        fetch.written < fetch.len ==> (fetch.body_step(BodyEvent::End, stall_timeout) matches
            BodyStepView::Finished(Err(fail)) && fail.error is Network),
        fetch.written == fetch.len ==> fetch.body_step(BodyEvent::End, stall_timeout)
            == BodyStepView::Finished(Ok(())),
        count == 0 ==> fetch.body_step(BodyEvent::Chunk(count), stall_timeout) is Continue,
        count > fetch.len - fetch.written ==> (fetch.body_step(
            BodyEvent::Chunk(count),
            stall_timeout,
        ) matches BodyStepView::Finished(Err(fail)) && fail.error is Protocol),
        0 < count <= fetch.len - fetch.written ==> fetch.body_step(
            BodyEvent::Chunk(count),
            stall_timeout,
        ) == BodyStepView::WriteAt((fetch.piece_start + fetch.written) as u64),
{
}

/// The request and the answer speak of one range: an answer whose
/// `Content-Range` writes the two ends of the request is accepted, with the
/// length between them or without a length.
pub proof fn law_answer_to_the_request_is_accepted(
    fetch: PieceFetch,
    head: ResponseHead,
    first: u64,
    last: u64,
    total: u64,
    now: u64,
)
    requires
        fetch.wf(),
        fetch.wanted() == "bytes="@ + dec(first as nat) + "-"@ + dec(last as nat),
        first == fetch.piece_start + fetch.already,
        last == fetch.piece_start + fetch.len - 1,
        last < total,
        head.status == 206,
        head.content_encoding is None,
        head.content_range is Some,
        (head.content_range->0)@ == range_value(first, last, dec(total as nat)),
        head.content_length is None || (head.content_length->0)@ == ascii(
            dec((last - first + 1) as nat),
        ),
    ensures
        fetch.judged(head, now) is Ok,
{
    law_ranges_read_back(first, last, total);
    law_numbers_read_back((last - first + 1) as u64);
}

/// The request names the first byte that is missing and the last one of the
/// piece.
pub proof fn law_request_names_the_missing_bytes(fetch: PieceFetch, size: u64, piece_size: u64)
    requires
        fetch.wf(),
        fetch.of_file(size, piece_size),
    ensures
        fetch.wanted() == "bytes="@ + dec((fetch.index * piece_size + fetch.already) as nat) + "-"@
            + dec(
            (fetch.index * piece_size + len_of(size, piece_size, fetch.index as int) - 1) as nat,
        ),
{
}

/// An attempt is made exactly if something is missing, at the piece that was
/// named, and counts from what is there.
pub proof fn law_attempts_start_from_what_is_there(
    size: u64,
    piece_size: u64,
    index: u64,
    already: u64,
    attempt_started: Instant,
    count: u64,
)
    requires
        piece_size > 0,
        index < count_of(size, piece_size),
    ensures
        ({
            let made = PieceFetch::at(size, piece_size, index, already, attempt_started);
            let end = if (index + 1) * piece_size < size {
                (index + 1) * piece_size
            } else {
                size as int
            };
            &&& made is Some <==> index * piece_size + already < end
            &&& made matches Some(fetch) ==> {
                &&& fetch.wf()
                &&& fetch.index == index
                &&& fetch.piece_start == index * piece_size
                &&& fetch.piece_start + fetch.len == end
                &&& fetch.already == already
                &&& fetch.written == already
                &&& fetch.attempt_started == attempt_started
                &&& fetch.written + count <= fetch.len ==> {
                    let later = fetch.grown(count);
                    &&& later.written == already + count
                    &&& later.range_start() == fetch.range_start()
                    &&& later.range_end() == fetch.range_end()
                    &&& later.attempt_started == attempt_started
                }
            }
        }),
{
    lemma_piece(size, piece_size, index as int);
}

} // verus!
