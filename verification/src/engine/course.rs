//! A whole download on its disk: every state that it can pass through, and
//! what holds of all of them.
//!
//! The steps of a [`crate::engine::run::Run`], the writes of its transfer and
//! the periodic commits beside them may come in any order that each of them
//! allows, and each may fail.

use vstd::prelude::*;

use crate::control::{lemma_cleared_fits, lemma_fresh_fits, ControlView};
use crate::engine::disk::{
    claimed, counts_written, law_commit_never_overclaims, law_crash_keeps_claims,
    law_full_claims_the_file, lemma_zeros_claim_nothing, may_commit, recording, stretch,
    ControlState, Disk,
};
use crate::engine::probe::ProbeView;
use crate::engine::resume::reconciled;
use crate::engine::run::{admission, RunView, StageView, StepView};
use crate::error::ErrorView;
use crate::pieces::{counters_fit, counters_full, PieceTable};
use crate::text::text_view;
use crate::types::{DownloadOptions, DownloadRequest, Outcome};

verus! {

/// What an earlier run has left in a control file.
pub open spec fn stored(disk: Disk) -> Option<ControlView> {
    match disk.control {
        ControlState::Readable(control) => Some(control),
        _ => None,
    }
}

/// A disk that a download can start from.
pub open spec fn can_start_from(disk: Disk, size: u64) -> bool {
    &&& disk.honest(size)
    &&& stored(disk) matches Some(control) ==> control.wf()
}

/// A run, its counters and its disk fit together.
pub open spec fn in_step(run: RunView, table: PieceTable, disk: Disk, size: u64) -> bool {
    let control = run.control->0;
    let transferring = {
        &&& disk.target
        &&& disk.control is Readable
        &&& table.wf()
        &&& table.size == size
        &&& control.size == size
        &&& table.piece_size == control.piece_size
        &&& claimed(table.piece_size, table.written@).subset_of(disk.cached)
    };
    &&& run.wf()
    &&& can_start_from(disk, size)
    &&& match run.stage {
        StageView::Probing => true,
        StageView::Saving(_) => {
            &&& control.size == size
            &&& stored(disk) == Some(control) || claimed(control.piece_size, control.pieces)
                == Set::<int>::empty()
        },
        StageView::Opening(_) => control.size == size && stored(disk) == Some(control),
        StageView::Transferring => transferring,
        StageView::Committing(end) => {
            &&& transferring
            &&& end == Ok::<Outcome, ErrorView>(Outcome::Completed) ==> counters_full(
                table.size,
                table.piece_size,
                table.written@,
            )
        },
        StageView::Syncing => {
            &&& disk.target
            &&& disk.control is Readable
            &&& stretch(0, size as int).subset_of(disk.cached)
        },
        StageView::Removing => disk.target && stretch(0, size as int).subset_of(disk.durable),
        StageView::Ended => true,
    }
}

/// What the step of a stage may leave on the disk. The states in between are
/// given by `middle`. To save any other state than the stored one discards
/// what is there.
pub open spec fn may_perform(
    run: RunView,
    table: PieceTable,
    disk: Disk,
    middle: Disk,
    after: Disk,
    middle_ok: bool,
    succeeded: bool,
) -> bool {
    match run.stage {
        StageView::Saving(_) => if stored(disk) == run.control {
            disk.may_save(run.control->0, after, succeeded)
        } else {
            disk.may_discard(run.control->0, after, succeeded)
        },
        StageView::Opening(_) => disk.may_open(after, succeeded),
        StageView::Committing(_) => {
            &&& may_commit(
                disk,
                recording(run.control->0, table.written@),
                middle,
                after,
                middle_ok,
                succeeded,
            )
            &&& succeeded ==> middle_ok
        },
        StageView::Syncing => disk.may_sync(after, succeeded),
        StageView::Removing => disk.may_remove(after, succeeded),
        _ => after == disk,
    }
}

/// The counters are those that a transfer starts from.
pub open spec fn starts_transfer(run: RunView, table: PieceTable) -> bool {
    let control = run.control->0;
    &&& table.size == control.size
    &&& table.piece_size == control.piece_size
    &&& table.written@ == control.pieces
}

/// A probed download starts in step with its disk: what it goes on from claims
/// only what an earlier run has made durable, and nothing where it discards
/// what that run has left.
pub proof fn law_resume_claims_only_durable_bytes(
    run: RunView,
    table: PieceTable,
    disk: Disk,
    result: Result<ProbeView, ErrorView>,
    request: DownloadRequest,
    options: DownloadOptions,
)
    requires
        in_step(run, table, disk, request.expected_size),
        run.stage is Probing,
        options.is_valid(),
    ensures
        in_step(
            run.after_probe(result, stored(disk), request, options).0,
            table,
            disk,
            request.expected_size,
        ),
{
    let existing = stored(disk);
    let next = run.after_probe(result, existing, request, options).0;
    if next.stage is Saving {
        let control = next.control->0;
        lemma_fresh_fits(
            request.expected_size,
            options.piece_size,
            text_view(request.identity),
            result->Ok_0.etag,
            result->Ok_0.last_modified,
        );
        let chosen = reconciled(
            existing,
            request,
            result->Ok_0,
            options.piece_size,
            request.expected_size,
        );
        lemma_cleared_fits(chosen);
        if existing != Some(control) {
            lemma_zeros_claim_nothing(control.piece_size, control.pieces);
        }
    }
}

/// A target without a control file is complete, at every moment: no step of a
/// download, whether it succeeds or fails half-way, ever leaves a disk of
/// which that is not true, nor one whose control file claims too much.
pub proof fn law_disk_stays_honest(
    run: RunView,
    table: PieceTable,
    disk: Disk,
    size: u64,
    middle: Disk,
    after: Disk,
    middle_ok: bool,
    result: Result<(), ErrorView>,
)
    requires
        in_step(run, table, disk, size),
        run.awaits_disk(),
        run.stage is Opening ==> starts_transfer(run, table),
        may_perform(run, table, disk, middle, after, middle_ok, result is Ok),
    ensures
        in_step(run.after_done(result).0, table, after, size),
        after.honest(size),
{
    let control = run.control->0;
    match run.stage {
        StageView::Opening(mode) => {
            if mode is Nothing {
                law_full_claims_the_file(size, control.piece_size, control.pieces);
            }
        },
        StageView::Committing(end) => {
            law_commit_never_overclaims(
                disk,
                disk,
                size,
                recording(control, table.written@),
                middle,
                after,
                middle_ok,
                result is Ok,
            );
            if end == Ok::<Outcome, ErrorView>(Outcome::Completed) {
                law_full_claims_the_file(size, table.piece_size, table.written@);
            }
        },
        _ => {},
    }
}

/// An admitted-as-complete download is complete: on an honest disk, a target
/// that is left alone has every byte, durably.
pub proof fn law_already_complete_means_durable(
    disk: Disk,
    options: DownloadOptions,
    request: DownloadRequest,
    len: u64,
)
    requires
        disk.honest(request.expected_size),
        disk.target,
        admission(options, request, !(disk.control is Absent), Some(len)) == Ok::<
            Option<Outcome>,
            ErrorView,
        >(Some(Outcome::Completed)),
    ensures
        stretch(0, request.expected_size as int).subset_of(disk.durable),
{
}

/// Something that happens in the course of a download.
pub enum Event {
    /// The download was cancelled while the server was probed.
    ProbeCancelled,
    /// The server was probed.
    Probed(Result<ProbeView, ErrorView>),
    /// The step on the disk that the run waits for was tried, and left this
    /// disk. `table` are the counters from then on.
    Done {
        middle: Disk,
        middle_ok: bool,
        after: Disk,
        table: PieceTable,
        result: Result<(), ErrorView>,
    },
    /// The transfer wrote bytes of the content to the target, or started over.
    /// `table` are the counters from then on.
    Written { offset: int, count: int, table: PieceTable },
    /// A periodic commit took its snapshot.
    CommitBegun,
    /// A periodic commit tried to make the data durable.
    CommitSynced { after: Disk, succeeded: bool },
    /// A periodic commit tried to record its snapshot.
    CommitSaved { after: Disk, succeeded: bool },
    /// The transfer ended.
    TransferEnded(Result<Outcome, ErrorView>),
}

/// A periodic commit under way.
pub struct Snapshot {
    pub counters: Seq<u64>,
    /// The data has been made durable since.
    pub synced: bool,
}

/// Where a download and its disk stand.
pub struct Moment {
    pub run: RunView,
    /// What the run asked for last.
    pub step: StepView,
    pub table: PieceTable,
    pub disk: Disk,
    /// The periodic commit under way.
    pub commit: Option<Snapshot>,
    /// How the transfer ended.
    pub transfer: Option<Result<Outcome, ErrorView>>,
}

impl Moment {
    /// A download that begins.
    pub open spec fn begins(self, size: u64) -> bool {
        &&& self.run == (RunView { stage: StageView::Probing, control: None })
        &&& self.step is Probe
        &&& self.commit is None
        &&& self.transfer is None
        &&& can_start_from(self.disk, size)
    }

    /// Whether something can happen now.
    pub open spec fn allows(self, event: Event) -> bool {
        let control = self.run.control->0;
        match event {
            Event::ProbeCancelled => self.run.stage is Probing,
            Event::Probed(_) => self.run.stage is Probing,
            Event::Done { middle, middle_ok, after, table, result } => {
                &&& self.run.awaits_disk()
                &&& if self.run.stage is Opening {
                    starts_transfer(self.run, table)
                } else {
                    table == self.table
                }
                &&& may_perform(
                    self.run,
                    self.table,
                    self.disk,
                    middle,
                    after,
                    middle_ok,
                    result is Ok,
                )
            },
            Event::Written { offset, count, table } => {
                &&& self.run.stage is Transferring
                &&& counts_written(self.table, table, offset, count)
            },
            Event::CommitBegun => self.run.stage is Transferring && self.commit is None,
            Event::CommitSynced { after, succeeded } => {
                &&& self.commit matches Some(snapshot) && !snapshot.synced
                &&& self.disk.may_sync(after, succeeded)
            },
            Event::CommitSaved { after, succeeded } => {
                &&& self.commit matches Some(snapshot) && snapshot.synced
                &&& self.disk.may_save(recording(control, (self.commit->0).counters), after, succeeded)
            },
            Event::TransferEnded(end) => {
                &&& self.run.stage is Transferring
                &&& self.commit is None
                &&& end == Ok::<Outcome, ErrorView>(Outcome::Completed) ==> counters_full(
                    self.table.size,
                    self.table.piece_size,
                    self.table.written@,
                )
            },
        }
    }

    /// Where the download stands after that.
    pub open spec fn after(
        self,
        event: Event,
        request: DownloadRequest,
        options: DownloadOptions,
    ) -> Moment {
        match event {
            Event::ProbeCancelled => {
                let next = self.run.after_cancel();
                Moment { run: next.0, step: next.1, ..self }
            },
            Event::Probed(result) => {
                let next = self.run.after_probe(result, stored(self.disk), request, options);
                Moment { run: next.0, step: next.1, ..self }
            },
            Event::Done { after, table, result, .. } => {
                let next = self.run.after_done(result);
                Moment { run: next.0, step: next.1, disk: after, table, ..self }
            },
            Event::Written { offset, count, table } => Moment {
                disk: self.disk.written(offset, count),
                table,
                ..self
            },
            Event::CommitBegun => Moment {
                commit: Some(Snapshot { counters: self.table.written@, synced: false }),
                ..self
            },
            Event::CommitSynced { after, succeeded } => Moment {
                disk: after,
                commit: if succeeded {
                    Some(Snapshot { synced: true, ..self.commit->0 })
                } else {
                    None
                },
                ..self
            },
            Event::CommitSaved { after, .. } => Moment { disk: after, commit: None, ..self },
            Event::TransferEnded(end) => {
                let next = self.run.after_transfer(end);
                Moment { run: next.0, step: next.1, transfer: Some(end), ..self }
            },
        }
    }

    /// Each of these events can happen after those before it.
    pub open spec fn allows_all(
        self,
        events: Seq<Event>,
        request: DownloadRequest,
        options: DownloadOptions,
    ) -> bool
        decreases events.len(),
    {
        events.len() == 0 || {
            &&& self.allows_all(events.drop_last(), request, options)
            &&& self.after_all(events.drop_last(), request, options).allows(events.last())
        }
    }

    /// Where the download stands after these events.
    pub open spec fn after_all(
        self,
        events: Seq<Event>,
        request: DownloadRequest,
        options: DownloadOptions,
    ) -> Moment
        decreases events.len(),
    {
        if events.len() == 0 {
            self
        } else {
            self.after_all(events.drop_last(), request, options).after(
                events.last(),
                request,
                options,
            )
        }
    }

    /// The snapshot of a periodic commit claims what is there.
    pub open spec fn commit_is_sound(self, size: u64) -> bool {
        let control = self.run.control->0;
        self.commit matches Some(snapshot) ==> {
            &&& self.run.stage is Transferring
            &&& counters_fit(size, control.piece_size, snapshot.counters)
            &&& claimed(control.piece_size, snapshot.counters).subset_of(self.disk.cached)
            &&& snapshot.synced ==> claimed(control.piece_size, snapshot.counters).subset_of(
                self.disk.durable,
            )
        }
    }

    /// What a download says at its end is so. A completed one has the target,
    /// every byte of it durable, and no control file. A cancelled one that was
    /// transferring has recorded its counters as they were, and every byte that
    /// they claim is durable. A transfer that failed ends the download with its
    /// own error, and the target and a control file are kept.
    pub open spec fn ends_well(self, size: u64) -> bool {
        &&& self.step is End
        &&& self.step == StepView::End(Ok(Outcome::Completed)) ==> {
            &&& self.disk.target
            &&& self.disk.control is Absent
            &&& stretch(0, size as int).subset_of(self.disk.durable)
        }
        &&& self.step == StepView::End(Ok(Outcome::Cancelled)) && self.run.control is Some ==> {
            &&& self.disk.target
            &&& stored(self.disk) == Some(recording(self.run.control->0, self.table.written@))
            &&& claimed(self.table.piece_size, self.table.written@).subset_of(self.disk.durable)
        }
        &&& self.transfer matches Some(Err(error)) ==> {
            &&& self.step == StepView::End(Err(error))
            &&& self.disk.target
            &&& self.disk.control is Readable
        }
    }

    /// What holds at every moment of a download.
    pub open spec fn sound(self, size: u64) -> bool {
        &&& in_step(self.run, self.table, self.disk, size)
        &&& self.commit_is_sound(size)
        &&& match self.run.stage {
            StageView::Probing => self.transfer is None && self.run.control is None,
            StageView::Saving(_) => self.transfer is None,
            StageView::Opening(_) => self.transfer is None,
            StageView::Transferring => self.transfer is None,
            StageView::Committing(end) => self.transfer == Some(end),
            StageView::Syncing => !(self.transfer matches Some(Err(_))),
            StageView::Removing => !(self.transfer matches Some(Err(_))),
            StageView::Ended => self.ends_well(size),
        }
    }
}

proof fn lemma_event_keeps_soundness(
    moment: Moment,
    event: Event,
    request: DownloadRequest,
    options: DownloadOptions,
)
    requires
        moment.sound(request.expected_size),
        moment.allows(event),
        options.is_valid(),
    ensures
        moment.after(event, request, options).sound(request.expected_size),
{
    let size = request.expected_size;
    let next = moment.after(event, request, options);
    match event {
        Event::Probed(result) => {
            law_resume_claims_only_durable_bytes(
                moment.run,
                moment.table,
                moment.disk,
                result,
                request,
                options,
            );
        },
        Event::Done { middle, middle_ok, after, table, result } => {
            law_disk_stays_honest(
                moment.run,
                table,
                moment.disk,
                size,
                middle,
                after,
                middle_ok,
                result,
            );
        },
        _ => {},
    }
}

/// Every moment of every download is sound: from any disk that one can start
/// from, whatever happens and whatever fails, the disk stays honest, and what
/// the download says at its end is so.
pub proof fn law_every_moment_is_sound(
    start: Moment,
    events: Seq<Event>,
    request: DownloadRequest,
    options: DownloadOptions,
)
    requires
        start.begins(request.expected_size),
        start.allows_all(events, request, options),
        options.is_valid(),
    ensures
        start.after_all(events, request, options).sound(request.expected_size),
        start.after_all(events, request, options).disk.honest(request.expected_size),
    decreases events.len(),
{
    if events.len() > 0 {
        law_every_moment_is_sound(start, events.drop_last(), request, options);
        lemma_event_keeps_soundness(
            start.after_all(events.drop_last(), request, options),
            events.last(),
            request,
            options,
        );
    }
}

/// A download can go on after a crash at any moment: what the crash leaves is
/// a disk to start from, with the same control file.
pub proof fn law_a_crash_can_be_resumed_from(moment: Moment, size: u64)
    requires
        moment.sound(size),
    ensures
        can_start_from(moment.disk.crashed(), size),
        stored(moment.disk.crashed()) == stored(moment.disk),
{
    law_crash_keeps_claims(moment.disk, size);
}

/// A download ends as completed only with the target there, every byte of it
/// durable, and the control file gone.
pub proof fn law_completed_means_durable(
    start: Moment,
    events: Seq<Event>,
    request: DownloadRequest,
    options: DownloadOptions,
)
    requires
        start.begins(request.expected_size),
        start.allows_all(events, request, options),
        options.is_valid(),
        start.after_all(events, request, options).run.stage is Ended,
        start.after_all(events, request, options).step == StepView::End(Ok(Outcome::Completed)),
    ensures
        ({
            let disk = start.after_all(events, request, options).disk;
            &&& disk.target
            &&& disk.control is Absent
            &&& stretch(0, request.expected_size as int).subset_of(disk.durable)
        }),
{
    law_every_moment_is_sound(start, events, request, options);
}

/// A download that was cancelled while it transferred has flushed its state:
/// the control file on disk records the counters as they were, and every byte
/// it claims is durable.
pub proof fn law_cancelled_has_saved_its_progress(
    start: Moment,
    events: Seq<Event>,
    request: DownloadRequest,
    options: DownloadOptions,
)
    requires
        start.begins(request.expected_size),
        start.allows_all(events, request, options),
        options.is_valid(),
        start.after_all(events, request, options).run.stage is Ended,
        start.after_all(events, request, options).run.control is Some,
        start.after_all(events, request, options).step == StepView::End(Ok(Outcome::Cancelled)),
    ensures
        ({
            let end = start.after_all(events, request, options);
            &&& stored(end.disk) == Some(recording(end.run.control->0, end.table.written@))
            &&& claimed(end.table.piece_size, end.table.written@).subset_of(end.disk.durable)
        }),
{
    law_every_moment_is_sound(start, events, request, options);
}

/// A transfer that fails ends the download with its own error, even if the
/// final commit fails too, and leaves the target and a control file for a
/// later run.
pub proof fn law_failure_keeps_the_partial_file(
    start: Moment,
    events: Seq<Event>,
    request: DownloadRequest,
    options: DownloadOptions,
    error: ErrorView,
)
    requires
        start.begins(request.expected_size),
        start.allows_all(events, request, options),
        options.is_valid(),
        start.after_all(events, request, options).run.stage is Ended,
        start.after_all(events, request, options).transfer == Some::<Result<Outcome, ErrorView>>(
            Err(error),
        ),
    ensures
        ({
            let end = start.after_all(events, request, options);
            &&& end.step == StepView::End(Err(error))
            &&& end.disk.target
            &&& end.disk.control is Readable
            &&& can_start_from(end.disk, request.expected_size)
        }),
{
    law_every_moment_is_sound(start, events, request, options);
}

/// A cancellation is never an error of its own: a transfer that was cancelled
/// ends the download as cancelled, unless its final commit fails, and then with
/// the error of the commit.
pub proof fn law_cancelled_transfer_ends_as_cancelled(
    run: RunView,
    result: Result<(), ErrorView>,
)
    requires
        run.stage == StageView::Committing(Ok(Outcome::Cancelled)),
    ensures
        run.after_done(result).1 == (match result {
            Ok(()) => StepView::End(Ok(Outcome::Cancelled)),
            Err(error) => StepView::End(Err(error)),
        }),
{
}

} // verus!
