//! The course of a download from its admission to its end.
//!
//! The control file is on disk before the target is, and goes away only after
//! every byte of the target is durable. So a target without a control file is
//! always a finished download: see [`crate::engine::course`].

use vstd::prelude::*;

use crate::control::{ControlFile, ControlView};
use crate::engine::disk::recording;
use crate::engine::probe::{probe_outcome, ProbeResult, ProbeView};
use crate::engine::resume::{
    control_view, lemma_sum_of_zeros, reconcile, reconciled, still_valid,
};
use crate::error::{outcome_view, DownloadError, ErrorView};
use crate::pieces::{copy_counters, count_of, law_total_is_size_when_full, sum, PieceTable};
use crate::progress::{Phase, Shared};
use crate::types::{DownloadOptions, DownloadRequest, Outcome};

verus! {

/// What is known about a target before anything is sent.
pub open spec fn admission(
    options: DownloadOptions,
    request: DownloadRequest,
    control_exists: bool,
    target_len: Option<u64>,
) -> Result<Option<Outcome>, ErrorView> {
    match (options.config_error(), target_len) {
        (Some(error), _) => Err(error),
        (None, Some(len)) => if control_exists {
            Ok(None)
        } else if len == request.expected_size {
            Ok(Some(Outcome::Completed))
        } else {
            Err(ErrorView::TargetConflict(request.target))
        },
        (None, None) => Ok(None),
    }
}

/// Decides whether there is anything to do, `target_len` being the length of
/// the target where there is one. Invalid options are refused. A target
/// without a control file is either an already-finished download or a foreign
/// file that must not be touched. A corrupt control file still counts as a
/// download in progress: that one starts over. `None` asks for the download to
/// run.
pub fn preflight(
    options: &DownloadOptions,
    request: &DownloadRequest,
    control_exists: bool,
    target_len: Option<u64>,
) -> (r: Result<Option<Outcome>, DownloadError>)
    ensures
        outcome_view(r) == admission(*options, *request, control_exists, target_len),
        r == Ok::<Option<Outcome>, DownloadError>(None) ==> options.is_valid(),
{
    if let Err(error) = options.validate() {
        return Err(error);
    }
    if !control_exists {
        if let Some(len) = target_len {
            if len == request.expected_size {
                return Ok(Some(Outcome::Completed));
            }
            return Err(DownloadError::TargetConflict(request.target.clone()));
        }
    }
    Ok(None)
}

/// How the bytes come.
#[derive(Debug, Clone, Copy, PartialEq, Eq, Structural)]
pub enum Mode {
    /// They are all there.
    Nothing,
    /// Parallel range requests.
    Segmented,
    /// One response.
    SingleStream,
}

/// Where a download stands: each stage waits for the step it is named after.
#[derive(Debug)]
pub enum Stage {
    Probing,
    Saving(Mode),
    Opening(Mode),
    Transferring,
    Committing(Result<Outcome, DownloadError>),
    Syncing,
    Removing,
    Ended,
}

/// What a [`Stage`] says.
pub enum StageView {
    Probing,
    Saving(Mode),
    Opening(Mode),
    Transferring,
    Committing(Result<Outcome, ErrorView>),
    Syncing,
    Removing,
    Ended,
}

impl View for Stage {
    type V = StageView;

    open spec fn view(&self) -> StageView {
        match *self {
            Stage::Probing => StageView::Probing,
            Stage::Saving(mode) => StageView::Saving(mode),
            Stage::Opening(mode) => StageView::Opening(mode),
            Stage::Transferring => StageView::Transferring,
            Stage::Committing(end) => StageView::Committing(outcome_view(end)),
            Stage::Syncing => StageView::Syncing,
            Stage::Removing => StageView::Removing,
            Stage::Ended => StageView::Ended,
        }
    }
}

/// What to do next.
#[derive(Debug)]
pub enum Step {
    /// Probe the server, with retries.
    Probe,
    /// Replace the control file by [`Run::control`].
    SaveControl,
    /// Open or create the target at its full size.
    OpenTarget,
    /// Transfer the pieces by range requests.
    RunSegmented,
    /// Transfer the file in one stream.
    RunSingleStream,
    /// Take a durable commit.
    Commit,
    /// Make the target durable, its metadata included.
    SyncAll,
    /// Remove the control file if it is there.
    RemoveControl,
    /// The download is over.
    End(Result<Outcome, DownloadError>),
}

/// What a [`Step`] says.
pub enum StepView {
    Probe,
    SaveControl,
    OpenTarget,
    RunSegmented,
    RunSingleStream,
    Commit,
    SyncAll,
    RemoveControl,
    End(Result<Outcome, ErrorView>),
}

impl View for Step {
    type V = StepView;

    open spec fn view(&self) -> StepView {
        match *self {
            Step::Probe => StepView::Probe,
            Step::SaveControl => StepView::SaveControl,
            Step::OpenTarget => StepView::OpenTarget,
            Step::RunSegmented => StepView::RunSegmented,
            Step::RunSingleStream => StepView::RunSingleStream,
            Step::Commit => StepView::Commit,
            Step::SyncAll => StepView::SyncAll,
            Step::RemoveControl => StepView::RemoveControl,
            Step::End(end) => StepView::End(outcome_view(end)),
        }
    }
}

/// The course of one download.
#[derive(Debug)]
pub struct Run {
    pub stage: Stage,
    /// The state that the download goes on from, once the server was probed.
    pub control: Option<ControlFile>,
}

/// What a [`Run`] holds.
pub struct RunView {
    pub stage: StageView,
    pub control: Option<ControlView>,
}

impl View for Run {
    type V = RunView;

    open spec fn view(&self) -> RunView {
        RunView { stage: self.stage@, control: control_view(self.control) }
    }
}

/// The state that a probed download goes on from: nothing of a partial file
/// counts for a server that ignores ranges.
pub open spec fn planned(
    existing: Option<ControlView>,
    request: DownloadRequest,
    options: DownloadOptions,
    probe: ProbeView,
) -> ControlView {
    let control = reconciled(
        existing,
        request,
        probe,
        options.piece_size,
        request.expected_size,
    );
    if probe.range_supported {
        control
    } else {
        control.cleared()
    }
}

/// How the missing bytes come.
pub open spec fn mode_of(control: ControlView, probe: ProbeView) -> Mode {
    if control.complete() {
        Mode::Nothing
    } else if probe.range_supported {
        Mode::Segmented
    } else {
        Mode::SingleStream
    }
}

/// The phase that shows a way of transfer.
pub open spec fn phase_of(mode: Mode) -> Phase {
    match mode {
        Mode::Nothing => Phase::Finalizing,
        Mode::Segmented => Phase::Downloading,
        Mode::SingleStream => Phase::SingleStream,
    }
}

impl RunView {
    /// The stages from the first save on have a state to save, and a download
    /// with nothing to transfer is complete.
    pub open spec fn wf(self) -> bool {
        &&& !(self.stage is Probing || self.stage is Ended) ==> self.control is Some
        &&& self.control matches Some(control) ==> control.wf()
        &&& self.stage matches StageView::Saving(mode) ==> (mode is Nothing
            ==> self.control->0.complete())
        &&& self.stage matches StageView::Opening(mode) ==> (mode is Nothing
            ==> self.control->0.complete())
    }

    /// The stage waits for a step that does something to the disk.
    pub open spec fn awaits_disk(self) -> bool {
        match self.stage {
            StageView::Probing => false,
            StageView::Transferring => false,
            StageView::Ended => false,
            _ => true,
        }
    }

    /// The state after the server was probed, and the next step.
    pub open spec fn after_probe(
        self,
        result: Result<ProbeView, ErrorView>,
        existing: Option<ControlView>,
        request: DownloadRequest,
        options: DownloadOptions,
    ) -> (RunView, StepView) {
        let ended = RunView { stage: StageView::Ended, ..self };
        match result {
            Err(error) => (ended, StepView::End(Err(error))),
            Ok(probe) => {
                let mismatch = match probe.total {
                    Some(total) => total != request.expected_size,
                    None => false,
                };
                if mismatch {
                    (
                        ended,
                        StepView::End(
                            Err(
                                ErrorView::SizeMismatch {
                                    expected: request.expected_size,
                                    actual: probe.total->0,
                                },
                            ),
                        ),
                    )
                } else {
                    let control = planned(existing, request, options, probe);
                    (
                        RunView {
                            stage: StageView::Saving(mode_of(control, probe)),
                            control: Some(control),
                        },
                        StepView::SaveControl,
                    )
                }
            },
        }
    }

    /// The state after a cancellation that came before the probe was over, and
    /// the next step.
    pub open spec fn after_cancel(self) -> (RunView, StepView) {
        (RunView { stage: StageView::Ended, ..self }, StepView::End(Ok(Outcome::Cancelled)))
    }

    /// The state after the transfer has ended, and the next step.
    pub open spec fn after_transfer(self, end: Result<Outcome, ErrorView>) -> (RunView, StepView) {
        (RunView { stage: StageView::Committing(end), ..self }, StepView::Commit)
    }

    /// What an observer sees once the server was probed.
    pub open spec fn shown_after_probe(
        self,
        result: Result<ProbeView, ErrorView>,
        request: DownloadRequest,
        shared: Shared,
    ) -> Shared {
        match result {
            Ok(_) => Shared { total: request.expected_size, ..shared },
            Err(_) => shared,
        }
    }

    /// The state after a step on the disk, and the next step.
    pub open spec fn after_done(self, result: Result<(), ErrorView>) -> (RunView, StepView) {
        let at = |stage: StageView| RunView { stage, ..self };
        match self.stage {
            StageView::Saving(mode) => match result {
                Ok(()) => (at(StageView::Opening(mode)), StepView::OpenTarget),
                Err(error) => (at(StageView::Ended), StepView::End(Err(error))),
            },
            StageView::Opening(mode) => match result {
                Ok(()) => match mode {
                    Mode::Nothing => (at(StageView::Syncing), StepView::SyncAll),
                    Mode::Segmented => (at(StageView::Transferring), StepView::RunSegmented),
                    Mode::SingleStream => (at(StageView::Transferring), StepView::RunSingleStream),
                },
                Err(error) => (at(StageView::Ended), StepView::End(Err(error))),
            },
            StageView::Committing(end) => match (end, result) {
                (Err(error), _) => (at(StageView::Ended), StepView::End(Err(error))),
                (Ok(_), Err(error)) => (at(StageView::Ended), StepView::End(Err(error))),
                (Ok(Outcome::Completed), Ok(())) => (at(StageView::Syncing), StepView::SyncAll),
                (Ok(Outcome::Cancelled), Ok(())) => (
                    at(StageView::Ended),
                    StepView::End(Ok(Outcome::Cancelled)),
                ),
            },
            StageView::Syncing => match result {
                Ok(()) => (at(StageView::Removing), StepView::RemoveControl),
                Err(error) => (at(StageView::Ended), StepView::End(Err(error))),
            },
            _ => match result {
                Ok(()) => (at(StageView::Ended), StepView::End(Ok(Outcome::Completed))),
                Err(error) => (at(StageView::Ended), StepView::End(Err(error))),
            },
        }
    }

    /// What an observer sees change with that.
    pub open spec fn shown_after_done(self, result: Result<(), ErrorView>, shared: Shared) -> Shared {
        match (self.stage, result) {
            (StageView::Opening(mode), Ok(())) => {
                let already = sum(self.control->0.pieces) as u64;
                Shared {
                    written: already,
                    committed: already,
                    phase: phase_of(mode).number(),
                    ..shared
                }
            },
            (StageView::Committing(Ok(Outcome::Completed)), Ok(())) => Shared {
                phase: Phase::Finalizing.number(),
                ..shared
            },
            _ => shared,
        }
    }
}

impl Run {
    /// Starts a download with the probe.
    pub fn begin(shared: &mut Shared) -> (r: (Self, Step))
        ensures
            r.0@.wf(),
            r.0@ == (RunView { stage: StageView::Probing, control: None }),
            r.1@ is Probe,
            *final(shared) == (Shared { phase: Phase::Probing.number(), ..*old(shared) }),
    {
        shared.set_phase(Phase::Probing);
        (Run { stage: Stage::Probing, control: None }, Step::Probe)
    }

    /// Takes a cancellation that came before the probe was over.
    pub fn on_cancelled(&mut self) -> (r: Step)
        requires
            old(self)@.wf(),
            old(self)@.stage is Probing,
        ensures
            final(self)@ == (RunView { stage: StageView::Ended, ..old(self)@ }),
            r@ == StepView::End(Ok(Outcome::Cancelled)),
            (final(self)@, r@) == old(self)@.after_cancel(),
    {
        self.stage = Stage::Ended;
        Step::End(Ok(Outcome::Cancelled))
    }

    /// Takes the outcome of the probe, and what an earlier run left behind.
    pub fn on_probe(
        &mut self,
        result: Result<ProbeResult, DownloadError>,
        existing: Option<ControlFile>,
        request: &DownloadRequest,
        options: &DownloadOptions,
        shared: &mut Shared,
    ) -> (r: Step)
        requires
            old(self)@.wf(),
            old(self)@.stage is Probing,
            options.is_valid(),
            count_of(request.expected_size, options.piece_size) <= usize::MAX,
            existing matches Some(control) ==> control@.wf(),
        ensures
            final(self)@.wf(),
            (final(self)@, r@) == old(self)@.after_probe(
                probe_outcome(result),
                control_view(existing),
                *request,
                *options,
            ),
            *final(shared) == (if result is Ok {
                Shared { total: request.expected_size, ..*old(shared) }
            } else {
                *old(shared)
            }),
            *final(shared) == old(self)@.shown_after_probe(
                probe_outcome(result),
                *request,
                *old(shared),
            ),
    {
        let probe = match result {
            Ok(probe) => probe,
            Err(error) => {
                self.stage = Stage::Ended;
                return Step::End(Err(error));
            },
        };
        shared.set_total(request.expected_size);
        if let Some(total) = probe.total {
            if total != request.expected_size {
                self.stage = Stage::Ended;
                return Step::End(
                    Err(
                        DownloadError::SizeMismatch {
                            expected: request.expected_size,
                            actual: total,
                        },
                    ),
                );
            }
        }
        // Reconcile any previous state with what the server now reports.

        let mut control = reconcile(
            existing,
            request,
            &probe,
            options.piece_size,
            request.expected_size,
        );
        if !probe.range_supported {
            // A server that ignores ranges cannot resume a partial file.
            control.clear();
        }
        let mode = if control.is_complete() {
            Mode::Nothing
        } else if probe.range_supported {
            Mode::Segmented
        } else {
            Mode::SingleStream
        };
        self.control = Some(control);
        self.stage = Stage::Saving(mode);
        Step::SaveControl
    }

    /// The counters that the transfer starts from.
    pub fn table(&self) -> (r: PieceTable)
        requires
            self@.wf(),
            self@.control is Some,
        ensures
            r.wf(),
            r.size == self@.control->0.size,
            r.piece_size == self@.control->0.piece_size,
            r.written@ == self@.control->0.pieces,
    {
        let control = self.control.as_ref().unwrap();
        PieceTable {
            size: control.size,
            piece_size: control.piece_size,
            written: copy_counters(&control.pieces),
        }
    }

    /// Takes the outcome of the transfer. Whatever it is, one final durable
    /// commit follows, so that a pause, a cancellation or an error never loses
    /// more than the page cache.
    pub fn on_transfer(&mut self, end: Result<Outcome, DownloadError>) -> (r: Step)
        requires
            old(self)@.wf(),
            old(self)@.stage is Transferring,
        ensures
            final(self)@.wf(),
            final(self)@ == (RunView {
                stage: StageView::Committing(outcome_view(end)),
                ..old(self)@
            }),
            r@ is Commit,
            (final(self)@, r@) == old(self)@.after_transfer(outcome_view(end)),
    {
        self.stage = Stage::Committing(end);
        Step::Commit
    }

    /// Takes what came of a step on the disk.
    pub fn on_done(&mut self, result: Result<(), DownloadError>, shared: &mut Shared) -> (r: Step)
        requires
            old(self)@.wf(),
            old(self)@.awaits_disk(),
        ensures
            final(self)@.wf(),
            (final(self)@, r@) == old(self)@.after_done(outcome_view(result)),
            *final(shared) == old(self)@.shown_after_done(outcome_view(result), *old(shared)),
    {
        let mut stage = Stage::Ended;
        std::mem::swap(&mut stage, &mut self.stage);
        if let Err(error) = result {
            return match stage {
                Stage::Committing(Err(first)) => Step::End(Err(first)),
                _ => Step::End(Err(error)),
            };
        }
        match stage {
            Stage::Saving(mode) => {
                self.stage = Stage::Opening(mode);
                Step::OpenTarget
            },
            Stage::Opening(mode) => {
                let already: u64 = self.control.as_ref().unwrap().written_total();
                shared.resume_from(already);
                match mode {
                    Mode::Nothing => self.finalize(shared),
                    Mode::Segmented => {
                        shared.set_phase(Phase::Downloading);
                        self.stage = Stage::Transferring;
                        Step::RunSegmented
                    },
                    Mode::SingleStream => {
                        shared.set_phase(Phase::SingleStream);
                        self.stage = Stage::Transferring;
                        Step::RunSingleStream
                    },
                }
            },
            Stage::Committing(end) => match end {
                Ok(Outcome::Completed) => self.finalize(shared),
                Ok(Outcome::Cancelled) => Step::End(Ok(Outcome::Cancelled)),
                Err(error) => Step::End(Err(error)),
            },
            Stage::Syncing => {
                self.stage = Stage::Removing;
                Step::RemoveControl
            },
            _ => Step::End(Ok(Outcome::Completed)),
        }
    }

    /// Begins the end: everything is flushed, then the control file goes.
    fn finalize(&mut self, shared: &mut Shared) -> (r: Step)
        ensures
            final(self).control == old(self).control,
            final(self).stage is Syncing,
            r@ is SyncAll,
            *final(shared) == (Shared { phase: Phase::Finalizing.number(), ..*old(shared) }),
    {
        shared.set_phase(Phase::Finalizing);
        self.stage = Stage::Syncing;
        Step::SyncAll
    }
}

/// A pause costs nothing: a later run of the same request, against a server
/// that still takes ranges and has not changed the resource, goes on from
/// exactly the counters that the commit has recorded.
pub proof fn law_resumes_where_it_stopped(
    template: ControlView,
    counters: Seq<u64>,
    request: DownloadRequest,
    options: DownloadOptions,
    probe: ProbeView,
)
    requires
        template.size == request.expected_size,
        template.piece_size == options.piece_size,
        still_valid(
            template,
            request,
            probe,
            options.piece_size,
            request.expected_size,
        ),
        probe.range_supported,
    ensures
        planned(Some(recording(template, counters)), request, options, probe).pieces == counters,
{
}

/// A server that ignores ranges gets the file from zero.
pub proof fn law_no_ranges_means_from_zero(
    existing: Option<ControlView>,
    request: DownloadRequest,
    options: DownloadOptions,
    probe: ProbeView,
)
    requires
        !probe.range_supported,
    ensures
        sum(planned(existing, request, options, probe).pieces) == 0,
{
    lemma_sum_of_zeros(
        reconciled(
            existing,
            request,
            probe,
            options.piece_size,
            request.expected_size,
        ).pieces.len(),
    );
}

/// Which downloads are admitted. Invalid options never are. With valid ones a
/// target without a control file is a finished download exactly if it has the
/// size that is expected, and a foreign file, which is named, at any other
/// size. Everything else runs.
pub proof fn law_only_the_expected_size_is_finished(
    options: DownloadOptions,
    request: DownloadRequest,
    len: u64,
    control_exists: bool,
    target_len: Option<u64>,
)
    ensures
        ({
            let valid = options.piece_size >= 1 && 1 <= options.min_connections
                <= options.max_connections;
            let run = Ok::<Option<Outcome>, ErrorView>(None);
            let finished = Ok::<Option<Outcome>, ErrorView>(Some(Outcome::Completed));
            let foreign = Err::<Option<Outcome>, ErrorView>(
                ErrorView::TargetConflict(request.target),
            );
            &&& valid && len == request.expected_size ==> admission(
                options,
                request,
                false,
                Some(len),
            ) == finished
            &&& valid && len != request.expected_size ==> admission(
                options,
                request,
                false,
                Some(len),
            ) == foreign
            &&& valid ==> admission(options, request, true, target_len) == run
            &&& valid ==> admission(options, request, control_exists, None) == run
            &&& !valid ==> (admission(options, request, control_exists, target_len) matches Err(
                error,
            ) && error is InvalidConfig)
        }),
{
}

/// What follows a probe. A probe that failed ends the download with its error,
/// and a size other than the expected one with a mismatch of the two; any
/// other answer leads to the control file, with the state to go on from.
pub proof fn law_wrong_sizes_end_the_download(
    run: RunView,
    probe: ProbeView,
    error: ErrorView,
    existing: Option<ControlView>,
    request: DownloadRequest,
    options: DownloadOptions,
)
    ensures
        run.after_probe(Err(error), existing, request, options).1 == StepView::End(Err(error)),
        ({
            let (after, step) = run.after_probe(Ok(probe), existing, request, options);
            &&& probe.total is Some && probe.total->0 != request.expected_size ==> step
                == StepView::End(
                Err(
                    ErrorView::SizeMismatch {
                        expected: request.expected_size,
                        actual: probe.total->0,
                    },
                ),
            ) && after.stage is Ended
            &&& probe.total is None || probe.total->0 == request.expected_size ==> {
                &&& step is SaveControl
                &&& after.stage is Saving
                &&& after.control == Some(planned(existing, request, options, probe))
                &&& after.stage->Saving_0 == mode_of(after.control->0, probe)
            }
        }),
{
}

/// What a probed download goes on from: with ranges, what is left of an earlier
/// run; without, the same with every counter at zero.
pub proof fn law_ranges_decide_what_counts(
    existing: Option<ControlView>,
    request: DownloadRequest,
    options: DownloadOptions,
    probe: ProbeView,
)
    ensures
        ({
            let kept = reconciled(
                existing,
                request,
                probe,
                options.piece_size,
                request.expected_size,
            );
            let next = planned(existing, request, options, probe);
            &&& probe.range_supported ==> next == kept
            &&& next.size == kept.size
            &&& next.piece_size == kept.piece_size
            &&& next.identity == kept.identity
            &&& next.etag == kept.etag
            &&& next.last_modified == kept.last_modified
            &&& next.pieces.len() == kept.pieces.len()
            &&& !probe.range_supported ==> forall|i: int|
                0 <= i < next.pieces.len() ==> #[trigger] next.pieces[i] == 0
        }),
{
}

/// How the bytes come: not at all exactly if they are all there, and else in
/// ranges exactly if the server takes ranges.
pub proof fn law_mode_fits_the_server(control: ControlView, probe: ProbeView)
    requires
        control.wf(),
    ensures
        mode_of(control, probe) is Nothing <==> sum(control.pieces) == control.size,
        mode_of(control, probe) is Segmented <==> sum(control.pieces) < control.size
            && probe.range_supported,
        mode_of(control, probe) is SingleStream <==> sum(control.pieces) < control.size
            && !probe.range_supported,
{
    law_total_is_size_when_full(control.size, control.piece_size, control.pieces);
}

/// A step that fails ends the download with its error, but for the last commit
/// of a transfer that has failed before: that one's error is the one to tell.
pub proof fn law_failed_steps_end_the_download(run: RunView, error: ErrorView, first: ErrorView)
    requires
        run.awaits_disk(),
    ensures
        run.after_done(Err(error)).0.stage is Ended,
        !(run.stage matches StageView::Committing(Err(_))) ==> run.after_done(Err(error)).1
            == StepView::End(Err(error)),
        run.stage == StageView::Committing(Err(first)) ==> run.after_done(Err(error)).1
            == StepView::End(Err(first)) && run.after_done(Ok(())).1 == StepView::End(Err(first)),
{
}

/// The order of a download: the control file is saved before the target is
/// opened, the target is opened before the transfer, everything is made durable
/// before the control file goes, and only then is the download complete.
pub proof fn law_steps_keep_their_order(run: RunView)
    requires
        run.awaits_disk(),
    ensures
        ({
            let (after, step) = run.after_done(Ok(()));
            &&& after.control == run.control
            &&& step is OpenTarget <==> run.stage is Saving
            &&& step is OpenTarget ==> after.stage is Opening && after.stage->Opening_0
                == run.stage->Saving_0
            &&& step is RunSegmented <==> run.stage == StageView::Opening(Mode::Segmented)
            &&& step is RunSingleStream <==> run.stage == StageView::Opening(Mode::SingleStream)
            &&& step is RunSegmented || step is RunSingleStream ==> after.stage is Transferring
            &&& step is SyncAll <==> run.stage == StageView::Opening(Mode::Nothing) || run.stage
                == StageView::Committing(Ok(Outcome::Completed))
            &&& step is SyncAll ==> after.stage is Syncing
            &&& step is RemoveControl <==> run.stage is Syncing
            &&& step is RemoveControl ==> after.stage is Removing
            &&& step == StepView::End(Ok(Outcome::Completed)) <==> run.stage is Removing
            &&& step == StepView::End(Ok(Outcome::Cancelled)) <==> run.stage
                == StageView::Committing(Ok(Outcome::Cancelled))
            &&& step is End <==> after.stage is Ended
        }),
{
}

/// What an observer sees of the steps: the bytes that a resumed download starts
/// from, once its target is open, and the phase it goes into. Nothing else
/// moves, and a step that fails moves nothing.
pub proof fn law_resumed_bytes_are_shown(run: RunView, error: ErrorView, shared: Shared)
    requires
        run.wf(),
        run.awaits_disk(),
    ensures
        run.shown_after_done(Err(error), shared) == shared,
        ({
            let after = run.shown_after_done(Ok(()), shared);
            let seen = after.seen();
            &&& run.stage is Opening ==> {
                &&& seen.written == sum(run.control->0.pieces)
                &&& seen.committed == seen.written
                &&& run.stage->Opening_0 is Segmented ==> seen.phase is Downloading
                &&& run.stage->Opening_0 is SingleStream ==> seen.phase is SingleStream
                &&& run.stage->Opening_0 is Nothing ==> seen.phase is Finalizing
            }
            &&& run.stage == StageView::Committing(Ok(Outcome::Completed)) ==> seen.phase
                is Finalizing && seen.written == shared.written && seen.committed
                == shared.committed
            &&& !(run.stage is Opening) && run.stage != StageView::Committing(
                Ok(Outcome::Completed),
            ) ==> after == shared
            &&& after.total == shared.total
            &&& after.connections == shared.connections
            &&& after.retries == shared.retries
        }),
{
    if run.stage is Opening {
        let control = run.control->0;
        law_total_is_size_when_full(control.size, control.piece_size, control.pieces);
    }
}

/// A cancellation before the probe was over ends the download as cancelled, and
/// every end of a transfer is committed before it is told, as it came.
pub proof fn law_every_transfer_is_committed(run: RunView, end: Result<Outcome, ErrorView>)
    ensures
        run.after_cancel().1 == StepView::End(Ok(Outcome::Cancelled)),
        run.after_cancel().0.stage is Ended,
        run.after_transfer(end).1 is Commit,
        run.after_transfer(end).0.stage == StageView::Committing(end),
        run.after_transfer(end).0.control == run.control,
{
}

/// The total is shown once the server has answered the probe, and not before.
pub proof fn law_total_is_shown_after_the_probe(
    run: RunView,
    probe: ProbeView,
    error: ErrorView,
    request: DownloadRequest,
    shared: Shared,
)
    ensures
        run.shown_after_probe(Ok(probe), request, shared) == (Shared {
            total: request.expected_size,
            ..shared
        }),
        run.shown_after_probe(Err(error), request, shared) == shared,
{
}

} // verus!
