//! What is on disk, and the durable commits that record it.
//!
//! A commit takes a snapshot of the counters, makes the data durable, and only
//! then records the snapshot. That order is why the control file never claims
//! a byte that a crash could take away.

use vstd::arithmetic::div_mod::{lemma_fundamental_div_mod, lemma_fundamental_div_mod_converse};
use vstd::prelude::*;

use crate::control::{ControlFile, ControlView};
use crate::engine::fetch::PieceFetch;
use crate::engine::stream::{stream_counters, StreamPass};
use crate::error::{outcome_view, DownloadError, ErrorView};
use crate::pieces::{
    counters_fit, counters_full, law_each_byte_in_one_piece, lemma_piece, len_of,
    sum, PieceTable,
};
use crate::progress::Shared;

verus! {

/// What stands in the place of the control file.
pub enum ControlState {
    Absent,
    /// A file that cannot be read as a control file.
    Unreadable,
    Readable(ControlView),
}

/// The target and the control file of one download. The sets hold offsets of
/// bytes of the target that hold what the server sent of the content that the
/// control file stands for. What is left of discarded content is in neither.
pub struct Disk {
    pub target: bool,
    pub control: ControlState,
    /// Bytes in the page cache.
    pub cached: Set<int>,
    /// Bytes that a crash leaves in place.
    pub durable: Set<int>,
}

/// The bytes from `from` up to, not including, `to`.
pub open spec fn stretch(from: int, to: int) -> Set<int> {
    Set::new(|offset: int| from <= offset < to)
}

/// The bytes of a file that its counters claim.
pub open spec fn claimed(piece_size: u64, counters: Seq<u64>) -> Set<int> {
    Set::new(
        |offset: int|
            {
                let home = offset / piece_size as int;
                &&& 0 <= offset
                &&& 0 <= home < counters.len()
                &&& offset - home * piece_size < counters[home]
            },
    )
}

impl Disk {
    /// Nothing is claimed that a crash could take away: the control file
    /// claims only durable bytes, and a target without a control file is
    /// complete.
    pub open spec fn honest(self, size: u64) -> bool {
        &&& self.durable.subset_of(self.cached)
        &&& self.control matches ControlState::Readable(control) ==> claimed(
            control.piece_size,
            control.pieces,
        ).subset_of(self.durable)
        &&& self.target && self.control is Absent ==> stretch(0, size as int).subset_of(self.durable)
    }

    /// The disk after a crash: what was only cached is gone.
    pub open spec fn crashed(self) -> Disk {
        Disk { cached: self.durable, ..self }
    }

    /// The disk after a chunk was written.
    pub open spec fn written(self, offset: int, count: int) -> Disk {
        Disk { cached: self.cached.union(stretch(offset, offset + count)), ..self }
    }

    /// What an attempt to make the data durable may leave. One that succeeds
    /// leaves every cached byte durable.
    pub open spec fn may_sync(self, after: Disk, succeeded: bool) -> bool {
        &&& after.target == self.target
        &&& after.control == self.control
        &&& after.cached == self.cached
        &&& self.durable.subset_of(after.durable)
        &&& after.durable.subset_of(self.cached)
        &&& succeeded ==> after.durable == self.cached
    }

    /// What an attempt to replace the control file may leave: the old one or,
    /// always if it succeeds, the new one.
    pub open spec fn may_save(self, control: ControlView, after: Disk, succeeded: bool) -> bool {
        let saved = Disk { control: ControlState::Readable(control), ..self };
        after == saved || (!succeeded && after == self)
    }

    /// What an attempt to discard a partial file may leave: the old state or,
    /// always if it succeeds, a control file that starts over. Nothing in the
    /// target counts for that one.
    pub open spec fn may_discard(self, control: ControlView, after: Disk, succeeded: bool) -> bool {
        let discarded = Disk {
            control: ControlState::Readable(control),
            cached: Set::empty(),
            durable: Set::empty(),
            ..self
        };
        after == discarded || (!succeeded && after == self)
    }

    /// What an attempt to open the target may leave.
    pub open spec fn may_open(self, after: Disk, succeeded: bool) -> bool {
        after == (Disk { target: true, ..self }) || (!succeeded && after == self)
    }

    /// What an attempt to remove the control file may leave.
    pub open spec fn may_remove(self, after: Disk, succeeded: bool) -> bool {
        after == (Disk { control: ControlState::Absent, ..self }) || (!succeeded && after == self)
    }
}

/// What a commit does next.
#[derive(Debug)]
pub enum CommitStep {
    /// Make the data of the target durable.
    SyncData,
    /// Replace the control file by [`Commit::control`].
    SaveControl,
    /// The commit is over.
    Done(Result<(), DownloadError>),
}

/// What a [`CommitStep`] says.
pub enum CommitStepView {
    SyncData,
    SaveControl,
    Done(Result<(), ErrorView>),
}

impl View for CommitStep {
    type V = CommitStepView;

    open spec fn view(&self) -> CommitStepView {
        match *self {
            CommitStep::SyncData => CommitStepView::SyncData,
            CommitStep::SaveControl => CommitStepView::SaveControl,
            CommitStep::Done(r) => CommitStepView::Done(outcome_view(r)),
        }
    }
}

/// One durable commit.
#[derive(Debug)]
pub struct Commit {
    /// What will be recorded.
    pub control: ControlFile,
    /// The bytes that it claims.
    pub total: u64,
    /// The data has been made durable since the snapshot.
    pub synced: bool,
}

/// The control file that records these counters.
pub open spec fn recording(template: ControlView, counters: Seq<u64>) -> ControlView {
    ControlView { pieces: counters, ..template }
}

impl Commit {
    /// The total is that of what will be recorded.
    pub open spec fn wf(self) -> bool {
        self.control@.wf() && self.total == sum(self.control@.pieces)
    }

    /// Takes a snapshot of the counters. The data is made durable first.
    pub fn begin(template: &ControlFile, table: &PieceTable) -> (r: (Self, CommitStep))
        requires
            table.wf(),
            template.size == table.size,
            template.piece_size == table.piece_size,
        ensures
            r.0.wf(),
            r.0.control@ == recording(template@, table.written@),
            !r.0.synced,
            r.1@ is SyncData,
    {
        let mut control = template.clone();
        control.pieces = table.snapshot();
        let total: u64 = table.total();
        (Commit { control, total, synced: false }, CommitStep::SyncData)
    }

    /// What a commit does after a step that came to this.
    pub open spec fn after_step(self, result: Result<(), ErrorView>) -> CommitStepView {
        match result {
            Err(error) => CommitStepView::Done(Err(error)),
            Ok(()) => if self.synced {
                CommitStepView::Done(Ok(()))
            } else {
                CommitStepView::SaveControl
            },
        }
    }

    /// Takes what came of the last step. The snapshot is recorded only once
    /// the data is durable, and counted as committed only once it is recorded.
    pub fn on_done(&mut self, result: Result<(), DownloadError>, shared: &mut Shared) -> (r:
        CommitStep)
        requires
            old(self).wf(),
        ensures
            final(self).wf(),
            final(self).control == old(self).control,
            match outcome_view(result) {
                Err(error) => r@ == CommitStepView::Done(Err(error)) && *final(self) == *old(self),
                Ok(()) => if old(self).synced {
                    r@ == CommitStepView::Done(Ok(())) && *final(self) == *old(self)
                } else {
                    r@ is SaveControl && final(self).synced
                },
            },
            r@ == old(self).after_step(outcome_view(result)),
            *final(shared) == (if r@ == CommitStepView::Done(Ok(())) {
                Shared { committed: sum(old(self).control@.pieces) as u64, ..*old(shared) }
            } else {
                *old(shared)
            }),
    {
        match result {
            Err(error) => CommitStep::Done(Err(error)),
            Ok(()) => {
                if self.synced {
                    shared.set_committed(self.total);
                    CommitStep::Done(Ok(()))
                } else {
                    self.synced = true;
                    CommitStep::SaveControl
                }
            },
        }
    }
}

/// What a whole commit may leave, over what its two steps may leave.
pub open spec fn may_commit(
    disk: Disk,
    control: ControlView,
    synced: Disk,
    after: Disk,
    sync_ok: bool,
    save_ok: bool,
) -> bool {
    &&& disk.may_sync(synced, sync_ok)
    &&& if sync_ok {
        synced.may_save(control, after, save_ok)
    } else {
        after == synced
    }
}

/// The control file never over-claims: whatever is written between the
/// snapshot and the sync, and whichever step fails, a commit keeps an honest
/// disk honest, and one that succeeds records exactly the snapshot.
pub proof fn law_commit_never_overclaims(
    before: Disk,
    disk: Disk,
    size: u64,
    control: ControlView,
    synced: Disk,
    after: Disk,
    sync_ok: bool,
    save_ok: bool,
)
    requires
        disk.honest(size),
        claimed(control.piece_size, control.pieces).subset_of(before.cached),
        before.cached.subset_of(disk.cached),
        may_commit(disk, control, synced, after, sync_ok, save_ok),
    ensures
        synced.honest(size),
        after.honest(size),
        sync_ok && save_ok ==> after.control == ControlState::Readable(control),
        after.cached == disk.cached,
        after.target == disk.target,
{
    assert(claimed(control.piece_size, control.pieces).subset_of(disk.cached));
}

/// A crash never makes a dishonest disk of an honest one: what the control
/// file claims is still there.
pub proof fn law_crash_keeps_claims(disk: Disk, size: u64)
    requires
        disk.honest(size),
    ensures
        disk.crashed().honest(size),
{
}

/// What counts as committed survives a crash: after a commit that succeeded,
/// the control file still records the snapshot, and every byte that it claims
/// is still there.
pub proof fn law_committed_survives_a_crash(
    disk: Disk,
    control: ControlView,
    synced: Disk,
    after: Disk,
)
    requires
        claimed(control.piece_size, control.pieces).subset_of(disk.cached),
        may_commit(disk, control, synced, after, true, true),
    ensures
        after.crashed().control == ControlState::Readable(control),
        claimed(control.piece_size, control.pieces).subset_of(after.crashed().cached),
{
}

/// A counter claims the bytes of its piece from the start up to the count.
proof fn lemma_claimed(size: u64, piece_size: u64, counters: Seq<u64>, offset: int)
    requires
        counters_fit(size, piece_size, counters),
    ensures
        claimed(piece_size, counters).contains(offset) <==> exists|i: int|
            0 <= i < counters.len() && #[trigger] (i * piece_size) <= offset < i * piece_size
                + counters[i],
{
    let ps = piece_size as int;
    let home = offset / ps;
    lemma_fundamental_div_mod(offset, ps);
    assert(home * ps == ps * home) by (nonlinear_arith);
    if claimed(piece_size, counters).contains(offset) {
        assert(home * piece_size <= offset < home * piece_size + counters[home]);
    }
    if exists|i: int|
        0 <= i < counters.len() && #[trigger] (i * piece_size) <= offset < i * piece_size
            + counters[i] {
        let i = choose|i: int|
            0 <= i < counters.len() && #[trigger] (i * piece_size) <= offset < i * piece_size
                + counters[i];
        lemma_piece(size, piece_size, i);
        lemma_fundamental_div_mod_converse(offset, ps, i, offset - i * ps);
    }
}

/// Counters claim nothing outside the file, and full ones claim all of it.
pub proof fn law_full_claims_the_file(size: u64, piece_size: u64, counters: Seq<u64>)
    requires
        counters_fit(size, piece_size, counters),
    ensures
        claimed(piece_size, counters).subset_of(stretch(0, size as int)),
        counters_full(size, piece_size, counters) ==> claimed(piece_size, counters) == stretch(
            0,
            size as int,
        ),
{
    assert forall|offset: int| claimed(piece_size, counters).contains(offset) implies stretch(
        0,
        size as int,
    ).contains(offset) by {
        lemma_claimed(size, piece_size, counters, offset);
        let i = choose|i: int|
            0 <= i < counters.len() && #[trigger] (i * piece_size) <= offset < i * piece_size
                + counters[i];
        lemma_piece(size, piece_size, i);
    }
    if counters_full(size, piece_size, counters) {
        assert forall|offset: int| stretch(0, size as int).contains(offset) implies claimed(
            piece_size,
            counters,
        ).contains(offset) by {
            law_each_byte_in_one_piece(size, piece_size, offset);
            let home = offset / piece_size as int;
            assert(counters[home] == len_of(size, piece_size, home));
        }
        assert(claimed(piece_size, counters) =~= stretch(0, size as int));
    }
}

/// `count` bytes were written at `offset`, and the counters went from those of
/// `before` to those of `after`: these claim only bytes that were claimed
/// before or have just been written.
pub open spec fn counts_written(
    before: PieceTable,
    after: PieceTable,
    offset: int,
    count: int,
) -> bool {
    &&& after.wf()
    &&& after.size == before.size
    &&& after.piece_size == before.piece_size
    &&& claimed(after.piece_size, after.written@).subset_of(
        claimed(before.piece_size, before.written@).union(stretch(offset, offset + count)),
    )
}

/// A chunk of a piece that was written and counted claims only bytes that were
/// claimed before or have just been written.
pub proof fn law_counted_bytes_were_written(
    fetch: PieceFetch,
    before: PieceTable,
    after: PieceTable,
    count: u64,
)
    requires
        fetch.wf(),
        before.wf(),
        fetch.of_file(before.size, before.piece_size),
        before.written@[fetch.index as int] == fetch.written,
        fetch.written + count <= fetch.len,
        after.size == before.size,
        after.piece_size == before.piece_size,
        after.written@ == before.written@.update(
            fetch.index as int,
            (fetch.written + count) as u64,
        ),
    ensures
        counts_written(before, after, fetch.piece_start + fetch.written, count as int),
{
    let offset = fetch.piece_start + fetch.written;
    assert forall|i: int| 0 <= i < after.written@.len() implies 0 <= #[trigger] after.written@[i]
        <= len_of(after.size, after.piece_size, i) by {
        if i != fetch.index {
            assert(after.written@[i] == before.written@[i]);
        }
    }
    assert forall|at: int| claimed(after.piece_size, after.written@).contains(at) implies claimed(
        before.piece_size,
        before.written@,
    ).union(stretch(offset, offset + count)).contains(at) by {
        let home = at / before.piece_size as int;
        lemma_fundamental_div_mod(at, before.piece_size as int);
        if home != fetch.index || at - home * before.piece_size < fetch.written {
            assert(claimed(before.piece_size, before.written@).contains(at));
        }
    }
}

/// A stream claims the bytes it has written, and no others.
pub proof fn law_stream_claims_its_bytes(pass: StreamPass, table: PieceTable)
    requires
        pass.wf(),
        pass.matches(table),
    ensures
        claimed(table.piece_size, table.written@) == stretch(0, pass.absolute as int),
{
    let ps = table.piece_size;
    let counters = table.written@;
    assert forall|offset: int| claimed(ps, counters).contains(offset) <==> stretch(
        0,
        pass.absolute as int,
    ).contains(offset) by {
        if 0 <= offset < table.size {
            law_each_byte_in_one_piece(table.size, ps, offset);
        }
        if claimed(ps, counters).contains(offset) {
            law_full_claims_the_file(table.size, ps, counters);
            assert(stretch(0, table.size as int).contains(offset));
        }
        if 0 <= offset < table.size {
            let home = offset / ps as int;
            lemma_piece(table.size, ps, home);
            assert(counters[home] == stream_counters(
                table.size,
                ps,
                counters.len(),
                pass.absolute,
            )[home]);
            if home == 0 {
                assert(0 * ps == 0);
            }
        }
    }
    assert(claimed(ps, counters) =~= stretch(0, pass.absolute as int));
}

/// A chunk of a stream that was written and counted claims only bytes that
/// this pass has written.
pub proof fn law_streamed_bytes_were_written(
    pass: StreamPass,
    before: PieceTable,
    next: StreamPass,
    after: PieceTable,
)
    requires
        pass.wf(),
        pass.matches(before),
        next.wf(),
        next.matches(after),
        next.size == pass.size,
        after.piece_size == before.piece_size,
        pass.absolute <= next.absolute,
    ensures
        counts_written(before, after, pass.absolute as int, next.absolute - pass.absolute),
{
    law_stream_claims_its_bytes(pass, before);
    law_stream_claims_its_bytes(next, after);
}

/// A stream that starts over claims nothing.
pub proof fn law_restart_claims_nothing(before: PieceTable, after: PieceTable)
    requires
        before.wf(),
        after.size == before.size,
        after.piece_size == before.piece_size,
        after.written@ == Seq::new(before.written@.len(), |i: int| 0u64),
    ensures
        claimed(after.piece_size, after.written@) == Set::<int>::empty(),
        counts_written(before, after, 0, 0),
{
    assert forall|i: int| 0 <= i < after.written@.len() implies 0 <= #[trigger] after.written@[i]
        <= len_of(after.size, after.piece_size, i) by {
        lemma_piece(before.size, before.piece_size, i);
    }
    lemma_zeros_claim_nothing(after.piece_size, after.written@);
}

/// Counters that are all zero claim nothing.
pub proof fn lemma_zeros_claim_nothing(piece_size: u64, counters: Seq<u64>)
    requires
        piece_size > 0,
        forall|i: int| 0 <= i < counters.len() ==> #[trigger] counters[i] == 0,
    ensures
        claimed(piece_size, counters) == Set::<int>::empty(),
{
    assert forall|offset: int| !claimed(piece_size, counters).contains(offset) by {
        if claimed(piece_size, counters).contains(offset) {
            let home = offset / piece_size as int;
            assert(counters[home] == 0);
            lemma_fundamental_div_mod(offset, piece_size as int);
            assert(home * piece_size == piece_size * home) by (nonlinear_arith);
        }
    }
    assert(claimed(piece_size, counters) =~= Set::<int>::empty());
}

/// The order of a commit: the control file is replaced only after the data was
/// made durable, the commit succeeds only after the control file was replaced,
/// and the first failure ends it with its error.
pub proof fn law_commit_keeps_its_order(commit: Commit, error: ErrorView)
    ensures
        commit.after_step(Err(error)) == CommitStepView::Done(Err(error)),
        !commit.synced ==> commit.after_step(Ok(())) is SaveControl,
        commit.synced ==> commit.after_step(Ok(())) == CommitStepView::Done(Ok(())),
{
}

/// A commit records the counters of the snapshot, and keeps all else of the
/// control file.
pub proof fn law_commit_records_the_snapshot(template: ControlView, counters: Seq<u64>)
    ensures
        ({
            let control = recording(template, counters);
            &&& control.pieces == counters
            &&& control.size == template.size
            &&& control.piece_size == template.piece_size
            &&& control.identity == template.identity
            &&& control.etag == template.etag
            &&& control.last_modified == template.last_modified
        }),
{
}

} // verus!
