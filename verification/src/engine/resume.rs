//! Whether a partial download can go on where it stopped.

use vstd::prelude::*;

use crate::control::{ControlFile, ControlView};
use crate::engine::probe::{ProbeResult, ProbeView};
use crate::pieces::{count_of, lemma_count, sum};
use crate::text::{copy_text, text_view};
use crate::types::DownloadRequest;

verus! {

/// Two validators that are both known and differ.
pub open spec fn changed(stored: Option<Seq<char>>, current: Option<Seq<char>>) -> bool {
    match (stored, current) {
        (Some(stored), Some(current)) => stored != current,
        _ => false,
    }
}

/// Whether the stored state describes what the server has now. The geometry
/// has to be the same. Then the declared content decides, where both sides
/// declare it, and the server's validators where not.
pub open spec fn still_valid(
    control: ControlView,
    request: DownloadRequest,
    probe: ProbeView,
    piece_size: u64,
    size: u64,
) -> bool {
    &&& control.size == size
    &&& control.piece_size == piece_size
    &&& match (text_view(request.identity), control.identity) {
        (Some(ours), Some(theirs)) => ours == theirs,
        _ => !changed(control.etag, probe.etag) && !changed(
            control.last_modified,
            probe.last_modified,
        ),
    }
}

/// Why the state of an earlier run is of no use.
#[derive(Debug, Clone, Copy, PartialEq, Eq, Structural)]
pub enum Discard {
    /// The size of the file or of its pieces changed.
    Geometry,
    /// The declared content changed.
    Identity,
    /// The server's validators changed.
    Validators,
}

/// Why the stored state does not describe what the server has now, if it does
/// not: the first reason that holds.
pub open spec fn reason_to_discard(
    control: ControlView,
    request: DownloadRequest,
    probe: ProbeView,
    piece_size: u64,
    size: u64,
) -> Option<Discard> {
    if still_valid(control, request, probe, piece_size, size) {
        None
    } else if control.size != size || control.piece_size != piece_size {
        Some(Discard::Geometry)
    } else if changed(control.identity, text_view(request.identity)) {
        Some(Discard::Identity)
    } else {
        Some(Discard::Validators)
    }
}

/// The state of a download that starts over.
pub open spec fn restarted(
    request: DownloadRequest,
    probe: ProbeView,
    piece_size: u64,
    size: u64,
) -> ControlView {
    ControlView::fresh(
        size,
        piece_size,
        text_view(request.identity),
        probe.etag,
        probe.last_modified,
    )
}

/// The state that a download goes on from.
pub open spec fn reconciled(
    existing: Option<ControlView>,
    request: DownloadRequest,
    probe: ProbeView,
    piece_size: u64,
    size: u64,
) -> ControlView {
    match existing {
        Some(control) => if still_valid(control, request, probe, piece_size, size) {
            control
        } else {
            restarted(request, probe, piece_size, size)
        },
        None => restarted(request, probe, piece_size, size),
    }
}

/// The view of a state that may be missing.
pub open spec fn control_view(control: Option<ControlFile>) -> Option<ControlView> {
    match control {
        Some(control) => Some(control@),
        None => None,
    }
}

/// Whether `stored` and `current` may be of one resource: a validator that
/// either side does not know says nothing.
fn validator_matches(stored: &Option<String>, current: &Option<String>) -> (r: bool)
    ensures
        r == !changed(text_view(*stored), text_view(*current)),
{
    match (stored, current) {
        (Some(stored), Some(current)) => *stored == *current,
        _ => true,
    }
}

fn fresh(request: &DownloadRequest, probe: &ProbeResult, piece_size: u64, size: u64) -> (r:
    ControlFile)
    requires
        piece_size > 0,
        count_of(size, piece_size) <= usize::MAX,
    ensures
        r@ == restarted(*request, probe@, piece_size, size),
        r@.wf(),
{
    ControlFile::new(
        size,
        piece_size,
        copy_text(&request.identity),
        copy_text(&probe.etag),
        copy_text(&probe.last_modified),
    )
}

/// Tells why the state of an earlier run has to be discarded, if it has to.
pub fn discard_reason(
    control: &ControlFile,
    request: &DownloadRequest,
    probe: &ProbeResult,
    piece_size: u64,
    size: u64,
) -> (r: Option<Discard>)
    ensures
        r == reason_to_discard(control@, *request, probe@, piece_size, size),
        r is None <==> still_valid(control@, *request, probe@, piece_size, size),
{
    if control.size != size || control.piece_size != piece_size {
        return Some(Discard::Geometry);
    }
    if let (Some(ours), Some(theirs)) = (&request.identity, &control.identity) {
        if *ours == *theirs {
            // Same declared content: validator drift (CDN edges disagreeing on
            // ETag) is tolerated because the caller verifies the final hash.
            return None;
        }
        return Some(Discard::Identity);
    }
    // No checksum to fall back on: validators are the only safety net.

    let etag_matches = validator_matches(&control.etag, &probe.etag);
    let modified_matches = validator_matches(&control.last_modified, &probe.last_modified);
    if etag_matches && modified_matches {
        None
    } else {
        Some(Discard::Validators)
    }
}

/// Reconciles the state of an earlier run with what the server now reports.
pub fn reconcile(
    existing: Option<ControlFile>,
    request: &DownloadRequest,
    probe: &ProbeResult,
    piece_size: u64,
    size: u64,
) -> (r: ControlFile)
    requires
        piece_size > 0,
        count_of(size, piece_size) <= usize::MAX,
        existing matches Some(control) ==> control@.wf(),
    ensures
        r@ == reconciled(control_view(existing), *request, probe@, piece_size, size),
        r@.wf(),
{
    match existing {
        Some(control) => {
            if discard_reason(&control, request, probe, piece_size, size).is_none() {
                control
            } else {
                fresh(request, probe, piece_size, size)
            }
        },
        None => fresh(request, probe, piece_size, size),
    }
}

/// The URL is not part of what a download is known by: a refreshed link
/// resumes where the old one stopped.
pub proof fn law_resume_ignores_the_url(
    existing: Option<ControlView>,
    request: DownloadRequest,
    refreshed: DownloadRequest,
    probe: ProbeView,
    piece_size: u64,
    size: u64,
)
    requires
        text_view(refreshed.identity) == text_view(request.identity),
    ensures
        reconciled(existing, refreshed, probe, piece_size, size) == reconciled(
            existing,
            request,
            probe,
            piece_size,
            size,
        ),
{
}

/// With the same size and the same declared content, a download resumes
/// whatever the server's validators say.
pub proof fn law_declared_content_outranks_validators(
    control: ControlView,
    request: DownloadRequest,
    probe: ProbeView,
)
    requires
        control.identity is Some,
        text_view(request.identity) == control.identity,
    ensures
        reconciled(Some(control), request, probe, control.piece_size, control.size) == control,
{
}

/// Without declared content, a changed validator discards the partial file:
/// not one byte of it counts.
pub proof fn law_changed_validators_discard(
    control: ControlView,
    request: DownloadRequest,
    probe: ProbeView,
    piece_size: u64,
    size: u64,
)
    requires
        piece_size > 0,
        request.identity is None || control.identity is None,
        changed(control.etag, probe.etag) || changed(control.last_modified, probe.last_modified),
    ensures
        reconciled(Some(control), request, probe, piece_size, size) == restarted(
            request,
            probe,
            piece_size,
            size,
        ),
        sum(reconciled(Some(control), request, probe, piece_size, size).pieces) == 0,
{
    lemma_sum_of_zeros(count_of(size, piece_size) as nat);
}

/// Changed content, or a changed size, discards the partial file too.
pub proof fn law_changed_content_discards(
    control: ControlView,
    request: DownloadRequest,
    probe: ProbeView,
    piece_size: u64,
    size: u64,
)
    requires
        piece_size > 0,
        control.size != size || control.piece_size != piece_size || changed(
            control.identity,
            text_view(request.identity),
        ),
    ensures
        reconciled(Some(control), request, probe, piece_size, size) == restarted(
            request,
            probe,
            piece_size,
            size,
        ),
        sum(reconciled(Some(control), request, probe, piece_size, size).pieces) == 0,
{
    lemma_sum_of_zeros(count_of(size, piece_size) as nat);
}

/// Counters that are all zero add up to nothing.
pub proof fn lemma_sum_of_zeros(count: nat)
    ensures
        sum(Seq::new(count, |i: int| 0u64)) == 0,
    decreases count,
{
    if count > 0 {
        lemma_sum_of_zeros((count - 1) as nat);
        assert(Seq::new(count, |i: int| 0u64).drop_last() =~= Seq::new(
            (count - 1) as nat,
            |i: int| 0u64,
        ));
    }
}

/// A validator that differs by as much as a character discards the partial
/// file where the content is not declared on both sides, and keeps its
/// geometry: every counter of what the download goes on from is zero.
pub proof fn law_different_validators_start_over(
    control: ControlView,
    request: DownloadRequest,
    probe: ProbeView,
    stored: Seq<char>,
    current: Seq<char>,
)
    requires
        request.identity is None || control.identity is None,
        stored != current,
        (control.etag == Some(stored) && probe.etag == Some(current)) || (control.last_modified
            == Some(stored) && probe.last_modified == Some(current)),
    ensures
        ({
            let next = reconciled(
                Some(control),
                request,
                probe,
                control.piece_size,
                control.size,
            );
            &&& forall|i: int| 0 <= i < next.pieces.len() ==> #[trigger] next.pieces[i] == 0
            &&& next.size == control.size
            &&& next.piece_size == control.piece_size
            &&& next.etag == probe.etag
            &&& next.last_modified == probe.last_modified
            &&& next.identity == text_view(request.identity)
        }),
        reason_to_discard(control, request, probe, control.piece_size, control.size) == Some(
            Discard::Validators,
        ),
{
}

/// Validators that agree, or that one side does not know, keep the partial
/// file as it is.
pub proof fn law_agreeing_validators_resume(
    control: ControlView,
    request: DownloadRequest,
    probe: ProbeView,
)
    requires
        request.identity is None || control.identity is None,
        control.etag is None || probe.etag is None || control.etag->0 == probe.etag->0,
        control.last_modified is None || probe.last_modified is None || control.last_modified->0
            == probe.last_modified->0,
    ensures
        reconciled(Some(control), request, probe, control.piece_size, control.size) == control,
        reason_to_discard(control, request, probe, control.piece_size, control.size) is None,
{
}

/// Where both sides declare the content, that alone decides: the same text
/// keeps the partial file, and a different one starts over.
pub proof fn law_declared_content_decides(
    control: ControlView,
    request: DownloadRequest,
    probe: ProbeView,
)
    requires
        control.identity is Some,
        request.identity is Some,
    ensures
        ({
            let next = reconciled(
                Some(control),
                request,
                probe,
                control.piece_size,
                control.size,
            );
            let reason = reason_to_discard(
                control,
                request,
                probe,
                control.piece_size,
                control.size,
            );
            let same = control.identity->0 == (request.identity->0)@;
            &&& same ==> next == control && reason is None
            &&& !same ==> reason == Some(Discard::Identity)
            &&& !same ==> forall|i: int|
                0 <= i < next.pieces.len() ==> #[trigger] next.pieces[i] == 0
            &&& !same ==> next.identity == Some((request.identity->0)@)
        }),
{
}

/// Another size, of the file or of its pieces, starts over, and so does a
/// download without a past: one counter of zero for each piece.
pub proof fn law_changed_geometry_starts_over(
    existing: Option<ControlView>,
    request: DownloadRequest,
    probe: ProbeView,
    piece_size: u64,
    size: u64,
)
    requires
        piece_size > 0,
        existing is None || existing->0.size != size || existing->0.piece_size != piece_size,
    ensures
        ({
            let next = reconciled(existing, request, probe, piece_size, size);
            &&& next.size == size
            &&& next.piece_size == piece_size
            &&& next.pieces.len() == count_of(size, piece_size)
            &&& forall|i: int| 0 <= i < next.pieces.len() ==> #[trigger] next.pieces[i] == 0
            &&& next.etag == probe.etag
            &&& next.last_modified == probe.last_modified
            &&& next.identity == text_view(request.identity)
        }),
        existing is Some ==> reason_to_discard(existing->0, request, probe, piece_size, size)
            == Some(Discard::Geometry),
{
    lemma_count(size, piece_size);
}

} // verus!
