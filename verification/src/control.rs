//! The control file: what a download remembers from one run to the next.

use vstd::prelude::*;

use crate::pieces::{
    copy_counters, count_of, counters_fit, counters_full, law_total_is_size_when_full, lemma_count,
    lemma_piece, len_of, piece_count, sum, total_of, zero,
};
use crate::text::{copy_text, text_view};

verus! {

/// The state of a download: the geometry of its file, what the content is
/// known by, and the contiguous bytes of each piece that are durable.
#[derive(Debug)]
pub struct ControlFile {
    pub size: u64,
    pub piece_size: u64,
    pub identity: Option<String>,
    pub etag: Option<String>,
    pub last_modified: Option<String>,
    pub pieces: Vec<u64>,
}

/// What a control file says.
#[verifier::ext_equal]
pub struct ControlView {
    pub size: u64,
    pub piece_size: u64,
    pub identity: Option<Seq<char>>,
    pub etag: Option<Seq<char>>,
    pub last_modified: Option<Seq<char>>,
    pub pieces: Seq<u64>,
}

impl View for ControlFile {
    type V = ControlView;

    open spec fn view(&self) -> ControlView {
        ControlView {
            size: self.size,
            piece_size: self.piece_size,
            identity: text_view(self.identity),
            etag: text_view(self.etag),
            last_modified: text_view(self.last_modified),
            pieces: self.pieces@,
        }
    }
}

impl ControlView {
    /// One counter for each piece, none beyond the bytes of its piece.
    pub open spec fn wf(self) -> bool {
        counters_fit(self.size, self.piece_size, self.pieces)
    }

    /// Every piece is full.
    pub open spec fn complete(self) -> bool {
        counters_full(self.size, self.piece_size, self.pieces)
    }

    /// The same file with no progress.
    pub open spec fn cleared(self) -> ControlView {
        ControlView { pieces: Seq::new(self.pieces.len(), |i: int| 0u64), ..self }
    }

    /// The state of a download that has not begun.
    pub open spec fn fresh(
        size: u64,
        piece_size: u64,
        identity: Option<Seq<char>>,
        etag: Option<Seq<char>>,
        last_modified: Option<Seq<char>>,
    ) -> ControlView {
        ControlView {
            size,
            piece_size,
            identity,
            etag,
            last_modified,
            pieces: Seq::new(count_of(size, piece_size) as nat, |i: int| 0u64),
        }
    }
}

/// A download that has not begun has one counter for each piece.
pub proof fn lemma_fresh_fits(
    size: u64,
    piece_size: u64,
    identity: Option<Seq<char>>,
    etag: Option<Seq<char>>,
    last_modified: Option<Seq<char>>,
)
    requires
        piece_size > 0,
    ensures
        ControlView::fresh(size, piece_size, identity, etag, last_modified).wf(),
{
    let control = ControlView::fresh(size, piece_size, identity, etag, last_modified);
    lemma_count(size, piece_size);
    assert forall|i: int| 0 <= i < control.pieces.len() implies 0 <= #[trigger] control.pieces[i]
        <= len_of(size, piece_size, i) by {
        lemma_piece(size, piece_size, i);
    }
}

/// Forgetting progress keeps one counter for each piece.
pub proof fn lemma_cleared_fits(control: ControlView)
    requires
        control.wf(),
    ensures
        control.cleared().wf(),
{
    assert forall|i: int| 0 <= i < control.cleared().pieces.len() implies 0
        <= #[trigger] control.cleared().pieces[i] <= len_of(
        control.size,
        control.piece_size,
        i,
    ) by {
        assert(0 <= control.pieces[i]);
    }
}

impl Clone for ControlFile {
    fn clone(&self) -> (r: Self)
        ensures
            r@ == self@,
    {
        Self {
            size: self.size,
            piece_size: self.piece_size,
            identity: copy_text(&self.identity),
            etag: copy_text(&self.etag),
            last_modified: copy_text(&self.last_modified),
            pieces: copy_counters(&self.pieces),
        }
    }
}

impl ControlFile {
    /// The state of a download that has not begun. The number of pieces has
    /// to fit in memory.
    #[must_use]
    pub fn new(
        size: u64,
        piece_size: u64,
        identity: Option<String>,
        etag: Option<String>,
        last_modified: Option<String>,
    ) -> (r: Self)
        requires
            piece_size > 0,
            count_of(size, piece_size) <= usize::MAX,
        ensures
            r@ == ControlView::fresh(
                size,
                piece_size,
                text_view(identity),
                text_view(etag),
                text_view(last_modified),
            ),
            r@.wf(),
    {
        let count: u64 = piece_count(size, piece_size);
        let mut pieces: Vec<u64> = Vec::new();
        let mut index: u64 = 0;
        while index < count
            invariant
                index <= count == count_of(size, piece_size),
                pieces@ == Seq::new(index as nat, |i: int| 0u64),
            decreases count - index,
        {
            pieces.push(0);
            index = index + 1;
            assert(pieces@ =~= Seq::new(index as nat, |i: int| 0u64));
        }
        proof {
            lemma_fresh_fits(
                size,
                piece_size,
                text_view(identity),
                text_view(etag),
                text_view(last_modified),
            );
        }
        Self { size, piece_size, identity, etag, last_modified, pieces }
    }

    /// The bytes recorded over all pieces.
    #[must_use]
    pub fn written_total(&self) -> (r: u64)
        requires
            self@.wf(),
        ensures
            r == sum(self@.pieces),
    {
        total_of(self.size, self.piece_size, &self.pieces)
    }

    /// Whether every piece is full.
    #[must_use]
    pub fn is_complete(&self) -> (r: bool)
        requires
            self@.wf(),
        ensures
            r == self@.complete(),
    {
        proof {
            law_total_is_size_when_full(self.size, self.piece_size, self.pieces@);
        }
        self.written_total() == self.size
    }

    /// Forgets all progress.
    pub fn clear(&mut self)
        requires
            old(self)@.wf(),
        ensures
            final(self)@ == old(self)@.cleared(),
            final(self)@.wf(),
    {
        zero(&mut self.pieces);
    }
}

/// A control file is complete exactly when the bytes that it records are those
/// of the file.
pub proof fn law_complete_records_every_byte(control: ControlView)
    requires
        control.wf(),
    ensures
        control.complete() <==> sum(control.pieces) == control.size,
        sum(control.pieces) <= control.size,
{
    law_total_is_size_when_full(control.size, control.piece_size, control.pieces);
}

/// Forgetting progress keeps everything else, and a download that has not begun
/// has one counter of zero for each piece.
pub proof fn law_nothing_but_progress_is_forgotten(
    control: ControlView,
    size: u64,
    piece_size: u64,
    identity: Option<Seq<char>>,
    etag: Option<Seq<char>>,
    last_modified: Option<Seq<char>>,
)
    requires
        piece_size > 0,
    ensures
        ({
            let cleared = control.cleared();
            &&& cleared == (ControlView { pieces: cleared.pieces, ..control })
            &&& cleared.pieces.len() == control.pieces.len()
            &&& forall|i: int| 0 <= i < cleared.pieces.len() ==> #[trigger] cleared.pieces[i] == 0
        }),
        ({
            let fresh = ControlView::fresh(size, piece_size, identity, etag, last_modified);
            &&& fresh.size == size
            &&& fresh.piece_size == piece_size
            &&& fresh.identity == identity
            &&& fresh.etag == etag
            &&& fresh.last_modified == last_modified
            &&& fresh.pieces.len() == count_of(size, piece_size)
            &&& forall|i: int| 0 <= i < fresh.pieces.len() ==> #[trigger] fresh.pieces[i] == 0
        }),
{
    lemma_count(size, piece_size);
}

} // verus!
