//! Piece geometry and the per-piece progress counters.
//!
//! A file is split into fixed-size pieces; only the last one may be shorter.
//! Progress within a piece is one contiguous byte count from its start.

use vstd::arithmetic::div_mod::{lemma_fundamental_div_mod, lemma_fundamental_div_mod_converse};
use vstd::prelude::*;

verus! {

/// The number of bytes of piece `index`: a full piece, what is left at the end
/// of the file, or nothing beyond it.
pub open spec fn len_of(size: u64, piece_size: u64, index: int) -> int {
    if index * piece_size >= size {
        0
    } else if size - index * piece_size < piece_size {
        size - index * piece_size
    } else {
        piece_size as int
    }
}

/// The number of pieces that a file of `size` bytes has.
pub open spec fn count_of(size: u64, piece_size: u64) -> int {
    (size + piece_size - 1) / piece_size as int
}

/// The sum of a sequence of counters.
pub open spec fn sum(counters: Seq<u64>) -> int
    decreases counters.len(),
{
    if counters.len() == 0 {
        0
    } else {
        sum(counters.drop_last()) + counters.last()
    }
}

/// `counters` hold one contiguous byte count for each piece of the file.
pub open spec fn counters_fit(size: u64, piece_size: u64, counters: Seq<u64>) -> bool {
    &&& piece_size > 0
    &&& counters.len() == count_of(size, piece_size)
    &&& forall|i: int|
        0 <= i < counters.len() ==> 0 <= #[trigger] counters[i] <= len_of(size, piece_size, i)
}

/// Every piece is there to its last byte.
pub open spec fn counters_full(size: u64, piece_size: u64, counters: Seq<u64>) -> bool {
    forall|i: int|
        0 <= i < counters.len() ==> #[trigger] counters[i] == len_of(size, piece_size, i)
}

/// The count of contiguous bytes from the start of the file that falls into the
/// first `k` pieces, `reached` bytes being there.
pub open spec fn prefix_of(piece_size: u64, reached: int, k: int) -> int {
    if k * piece_size < reached {
        k * piece_size
    } else {
        reached
    }
}

/// The pieces up to the last one, and no further, start inside the file.
pub proof fn lemma_count(size: u64, piece_size: u64)
    requires
        piece_size > 0,
    ensures
        0 <= count_of(size, piece_size) <= size,
        count_of(size, piece_size) * piece_size >= size,
        size > 0 ==> (count_of(size, piece_size) - 1) * piece_size < size,
        size == 0 ==> count_of(size, piece_size) == 0,
{
    let n = count_of(size, piece_size);
    let ps = piece_size as int;
    lemma_fundamental_div_mod(size + piece_size - 1, ps);
    let rem = (size + piece_size - 1) % ps;
    assert(n * ps == size + ps - 1 - rem) by (nonlinear_arith)
        requires
            size + ps - 1 == ps * n + rem,
    ;
    assert((n - 1) * ps == n * ps - ps) by (nonlinear_arith);
    assert(0 <= rem < ps);
    assert(n >= 0) by (nonlinear_arith)
        requires
            n * ps >= 0,
            ps > 0,
    ;
    if size == 0 {
        assert(n == 0) by (nonlinear_arith)
            requires
                n * ps < ps,
                n >= 0,
                ps > 0,
        ;
    } else {
        assert(n <= size) by (nonlinear_arith)
            requires
                (n - 1) * ps < size,
                ps >= 1,
                n >= 0,
                size > 0,
        ;
    }
}

/// A piece of the file starts inside it and ends inside it, and holds at least
/// one byte.
pub proof fn lemma_piece(size: u64, piece_size: u64, index: int)
    requires
        piece_size > 0,
        0 <= index < count_of(size, piece_size),
    ensures
        0 <= index * piece_size < size,
        index * piece_size + len_of(size, piece_size, index) <= size,
        0 < len_of(size, piece_size, index) <= piece_size,
        (index + 1) * piece_size == index * piece_size + piece_size,
        index + 1 < count_of(size, piece_size) ==> len_of(size, piece_size, index) == piece_size
            && (index + 1) * piece_size < size,
        index + 1 == count_of(size, piece_size) ==> index * piece_size + len_of(
            size,
            piece_size,
            index,
        ) == size,
{
    lemma_count(size, piece_size);
    let n = count_of(size, piece_size);
    let ps = piece_size as int;
    assert((index + 1) * ps == index * ps + ps) by (nonlinear_arith);
    assert(0 <= index * ps <= (n - 1) * ps) by (nonlinear_arith)
        requires
            0 <= index <= n - 1,
            ps > 0,
    ;
    if index + 1 < n {
        assert((index + 1) * ps <= (n - 1) * ps) by (nonlinear_arith)
            requires
                index + 1 <= n - 1,
                ps > 0,
        ;
    }
}

/// An index behind the last piece has no bytes.
proof fn lemma_beyond(size: u64, piece_size: u64, index: int)
    requires
        piece_size > 0,
        index >= count_of(size, piece_size),
    ensures
        index * piece_size >= size,
        len_of(size, piece_size, index) == 0,
{
    lemma_count(size, piece_size);
    let n = count_of(size, piece_size);
    let ps = piece_size as int;
    assert(n * ps <= index * ps) by (nonlinear_arith)
        requires
            n <= index,
            ps > 0,
    ;
}

/// The pieces partition the file: each byte of it lies in exactly one piece.
pub proof fn law_each_byte_in_one_piece(size: u64, piece_size: u64, offset: int)
    requires
        piece_size > 0,
        0 <= offset < size,
    ensures
        ({
            let home = offset / piece_size as int;
            &&& 0 <= home < count_of(size, piece_size)
            &&& home * piece_size <= offset < home * piece_size + len_of(size, piece_size, home)
        }),
        forall|index: int|
            0 <= index && index * piece_size <= offset < #[trigger] (index * piece_size) + len_of(
                size,
                piece_size,
                index,
            ) ==> index == offset / piece_size as int,
{
    let ps = piece_size as int;
    let home = offset / ps;
    lemma_fundamental_div_mod(offset, ps);
    assert(home * ps == ps * home) by (nonlinear_arith);
    assert(home >= 0) by (nonlinear_arith)
        requires
            ps * home + offset % ps == offset,
            offset >= 0,
            offset % ps < ps,
            ps > 0,
    ;
    if home >= count_of(size, piece_size) {
        lemma_beyond(size, piece_size, home);
    }
    lemma_piece(size, piece_size, home);
    assert forall|index: int|
        0 <= index && index * piece_size <= offset < #[trigger] (index * piece_size) + len_of(
            size,
            piece_size,
            index,
        ) implies index == home by {
        lemma_fundamental_div_mod_converse(offset, ps, index, offset - index * ps);
    }
}

/// Counters that fit add up to the bytes that are there, at most those that
/// the first pieces have.
proof fn lemma_sum_fits(size: u64, piece_size: u64, counters: Seq<u64>, k: int)
    requires
        counters_fit(size, piece_size, counters),
        0 <= k <= counters.len(),
    ensures
        0 <= sum(counters.take(k)) <= prefix_of(piece_size, size as int, k) <= size,
    decreases k,
{
    if k == 0 {
        assert(counters.take(0).len() == 0);
    } else {
        lemma_sum_fits(size, piece_size, counters, k - 1);
        lemma_piece(size, piece_size, k - 1);
        assert(counters.take(k).drop_last() =~= counters.take(k - 1));
        assert(counters.take(k).last() == counters[k - 1]);
    }
}

/// Full counters add up to exactly the bytes of the first pieces.
proof fn lemma_sum_full(size: u64, piece_size: u64, counters: Seq<u64>, k: int)
    requires
        counters_fit(size, piece_size, counters),
        counters_full(size, piece_size, counters),
        0 <= k <= counters.len(),
    ensures
        sum(counters.take(k)) == prefix_of(piece_size, size as int, k),
    decreases k,
{
    if k == 0 {
        assert(counters.take(0).len() == 0);
    } else {
        lemma_sum_full(size, piece_size, counters, k - 1);
        lemma_piece(size, piece_size, k - 1);
        assert(counters.take(k).drop_last() =~= counters.take(k - 1));
        assert(counters.take(k).last() == counters[k - 1]);
    }
}

/// A counter short of its piece keeps the sum short of the file.
proof fn lemma_sum_short(size: u64, piece_size: u64, counters: Seq<u64>, short: int, k: int)
    requires
        counters_fit(size, piece_size, counters),
        0 <= short < k <= counters.len(),
        counters[short] < len_of(size, piece_size, short),
    ensures
        sum(counters.take(k)) < prefix_of(piece_size, size as int, k),
    decreases k,
{
    lemma_piece(size, piece_size, k - 1);
    lemma_sum_fits(size, piece_size, counters, k - 1);
    assert(counters.take(k).drop_last() =~= counters.take(k - 1));
    assert(counters.take(k).last() == counters[k - 1]);
    if short < k - 1 {
        lemma_sum_short(size, piece_size, counters, short, k - 1);
    }
}

/// The counters of a file never claim more than its size, and they claim all
/// of it exactly when every piece is full.
pub proof fn law_total_is_size_when_full(size: u64, piece_size: u64, counters: Seq<u64>)
    requires
        counters_fit(size, piece_size, counters),
    ensures
        0 <= sum(counters) <= size,
        sum(counters) == size <==> counters_full(size, piece_size, counters),
{
    let n = counters.len() as int;
    assert(counters.take(n) =~= counters);
    lemma_count(size, piece_size);
    lemma_sum_fits(size, piece_size, counters, n);
    if counters_full(size, piece_size, counters) {
        lemma_sum_full(size, piece_size, counters, n);
    } else {
        let short = choose|i: int|
            0 <= i < counters.len() && #[trigger] counters[i] != len_of(size, piece_size, i);
        lemma_sum_short(size, piece_size, counters, short, n);
    }
}

/// A counter that changes moves the sum by its change.
pub proof fn lemma_sum_update(counters: Seq<u64>, index: int, value: u64)
    requires
        0 <= index < counters.len(),
    ensures
        sum(counters.update(index, value)) == sum(counters) - counters[index] + value,
    decreases counters.len(),
{
    let after = counters.update(index, value);
    if index == counters.len() - 1 {
        assert(after.drop_last() =~= counters.drop_last());
    } else {
        lemma_sum_update(counters.drop_last(), index, value);
        assert(after.drop_last() =~= counters.drop_last().update(index, value));
    }
}

/// The length of piece `index` of a file of `size` bytes.
pub fn piece_len(size: u64, piece_size: u64, index: u64) -> (r: u64)
    ensures
        r == len_of(size, piece_size, index as int),
{
    match index.checked_mul(piece_size) {
        Some(start) => {
            if start >= size {
                0
            } else if size - start < piece_size {
                size - start
            } else {
                piece_size
            }
        },
        None => 0,
    }
}

/// The number of pieces of a file of `size` bytes.
pub fn piece_count(size: u64, piece_size: u64) -> (r: u64)
    requires
        piece_size > 0,
    ensures
        r == count_of(size, piece_size),
{
    proof {
        lemma_count(size, piece_size);
    }
    let whole: u64 = size / piece_size;
    let rest: u64 = size % piece_size;
    proof {
        lemma_fundamental_div_mod(size as int, piece_size as int);
        let ps = piece_size as int;
        let n = whole as int;
        assert(ps * n == n * ps && (n + 1) * ps == n * ps + ps) by (nonlinear_arith);
        if rest == 0 {
            lemma_fundamental_div_mod_converse(size + ps - 1, ps, n, ps - 1);
        } else {
            lemma_fundamental_div_mod_converse(size + ps - 1, ps, n + 1, rest - 1);
        }
    }
    if rest == 0 {
        whole
    } else {
        whole + 1
    }
}

/// The progress counters of one file.
#[derive(Debug)]
pub struct PieceTable {
    pub size: u64,
    pub piece_size: u64,
    /// Contiguous bytes written from the start of each piece.
    pub written: Vec<u64>,
}

/// The counters after `reached` contiguous bytes from the start of the file:
/// each piece that these bytes touch holds its share, the others keep what
/// they had.
pub open spec fn filled(
    size: u64,
    piece_size: u64,
    counters: Seq<u64>,
    reached: u64,
) -> Seq<u64> {
    Seq::new(
        counters.len(),
        |i: int|
            if i == 0 || i * piece_size < reached {
                if reached - i * piece_size < len_of(size, piece_size, i) {
                    (reached - i * piece_size) as u64
                } else {
                    len_of(size, piece_size, i) as u64
                }
            } else {
                counters[i]
            },
    )
}

/// Contiguous progress adds up: when nothing is recorded behind the bytes that
/// a stream has reached, the counters it fills in sum to exactly these bytes.
pub proof fn law_stream_progress_adds_up(
    size: u64,
    piece_size: u64,
    counters: Seq<u64>,
    reached: u64,
)
    requires
        counters_fit(size, piece_size, counters),
        reached <= size,
        forall|i: int|
            0 < i < counters.len() && i * piece_size >= reached ==> #[trigger] counters[i] == 0,
    ensures
        sum(filled(size, piece_size, counters, reached)) == reached,
{
    let n = counters.len() as int;
    lemma_count(size, piece_size);
    lemma_filled_prefix(size, piece_size, counters, reached, n);
    assert(filled(size, piece_size, counters, reached).take(n) =~= filled(
        size,
        piece_size,
        counters,
        reached,
    ));
}

proof fn lemma_filled_prefix(
    size: u64,
    piece_size: u64,
    counters: Seq<u64>,
    reached: u64,
    k: int,
)
    requires
        counters_fit(size, piece_size, counters),
        reached <= size,
        forall|i: int|
            0 < i < counters.len() && i * piece_size >= reached ==> #[trigger] counters[i] == 0,
        0 <= k <= counters.len(),
    ensures
        sum(filled(size, piece_size, counters, reached).take(k)) == prefix_of(
            piece_size,
            reached as int,
            k,
        ),
    decreases k,
{
    let after = filled(size, piece_size, counters, reached);
    if k == 0 {
        assert(after.take(0).len() == 0);
    } else {
        lemma_filled_prefix(size, piece_size, counters, reached, k - 1);
        lemma_piece(size, piece_size, k - 1);
        assert(after.take(k).drop_last() =~= after.take(k - 1));
        assert(after.take(k).last() == after[k - 1]);
        if k == 1 {
            assert(0 * piece_size == 0);
            assert(after[0] == (if reached < len_of(size, piece_size, 0) {
                reached as int
            } else {
                len_of(size, piece_size, 0)
            }));
        } else if (k - 1) * piece_size >= reached {
            assert(counters[k - 1] == 0);
            assert(after[k - 1] == 0);
        } else {
            assert(after[k - 1] == (if reached - (k - 1) * piece_size < len_of(
                size,
                piece_size,
                k - 1,
            ) {
                reached - (k - 1) * piece_size
            } else {
                len_of(size, piece_size, k - 1)
            }));
        }
    }
}

impl PieceTable {
    /// One counter for each piece, none beyond the bytes of its piece.
    pub open spec fn wf(self) -> bool {
        counters_fit(self.size, self.piece_size, self.written@)
    }

    /// The sum of all counters.
    pub fn total(&self) -> (r: u64)
        requires
            self.wf(),
        ensures
            r == sum(self.written@),
    {
        total_of(self.size, self.piece_size, &self.written)
    }

    /// Copies the counters.
    pub fn snapshot(&self) -> (r: Vec<u64>)
        ensures
            r@ == self.written@,
    {
        copy_counters(&self.written)
    }

    /// The counter of piece `index`.
    pub fn get(&self, index: u64) -> (r: u64)
        requires
            index < self.written@.len(),
        ensures
            r == self.written@[index as int],
    {
        assert(index < self.written.len());
        self.written[index as usize]
    }

    /// Records that `written` bytes of piece `index` are there.
    pub fn record(&mut self, index: u64, written: u64)
        requires
            old(self).wf(),
            index < old(self).written@.len(),
            written <= len_of(old(self).size, old(self).piece_size, index as int),
        ensures
            final(self).wf(),
            final(self).size == old(self).size,
            final(self).piece_size == old(self).piece_size,
            final(self).written@ == old(self).written@.update(index as int, written),
    {
        assert(index < self.written.len());
        self.written[index as usize] = written;
    }

    /// Forgets all progress.
    pub fn reset(&mut self)
        requires
            old(self).wf(),
        ensures
            final(self).wf(),
            final(self).size == old(self).size,
            final(self).piece_size == old(self).piece_size,
            final(self).written@ == Seq::new(old(self).written@.len(), |i: int| 0u64),
    {
        zero(&mut self.written);
    }

    /// Records that the file is there from its start up to `reached`: fills
    /// every fully or partially covered piece.
    pub fn fill(&mut self, reached: u64)
        requires
            old(self).wf(),
            reached <= old(self).size,
        ensures
            final(self).wf(),
            final(self).size == old(self).size,
            final(self).piece_size == old(self).piece_size,
            final(self).written@ == filled(
                old(self).size,
                old(self).piece_size,
                old(self).written@,
                reached,
            ),
    {
        let ghost before = self.written@;
        let size: u64 = self.size;
        let piece_size: u64 = self.piece_size;
        let mut cursor: u64 = reached;
        let mut index: usize = 0;
        while index < self.written.len() && (index == 0 || cursor != 0)
            invariant
                self.size == size,
                self.piece_size == piece_size,
                reached <= size,
                counters_fit(size, piece_size, before),
                counters_fit(size, piece_size, self.written@),
                index <= before.len() == self.written@.len(),
                cursor == reached - prefix_of(piece_size, reached as int, index as int),
                index > 1 ==> (index - 1) * piece_size < reached,
                forall|i: int|
                    0 <= i < index ==> #[trigger] self.written@[i] == filled(
                        size,
                        piece_size,
                        before,
                        reached,
                    )[i],
                forall|i: int| index <= i < before.len() ==> #[trigger] self.written@[i] == before[i],
            decreases self.written.len() - index,
        {
            proof {
                lemma_piece(size, piece_size, index as int);
            }
            let len: u64 = piece_len(size, piece_size, index as u64);
            let value: u64 = if cursor < len {
                cursor
            } else {
                len
            };
            self.written[index] = value;
            cursor = cursor - value;
            index = index + 1;
        }
        proof {
            assert forall|i: int| index <= i < before.len() implies #[trigger] self.written@[i]
                == filled(size, piece_size, before, reached)[i] by {
                assert(index * piece_size <= i * piece_size) by (nonlinear_arith)
                    requires
                        index <= i,
                        piece_size > 0,
                ;
            }
            assert(self.written@ =~= filled(size, piece_size, before, reached));
        }
    }
}

/// Adds up counters that fit their file.
pub fn total_of(size: u64, piece_size: u64, counters: &Vec<u64>) -> (r: u64)
    requires
        counters_fit(size, piece_size, counters@),
    ensures
        r == sum(counters@),
{
    let mut total: u64 = 0;
    let mut index: usize = 0;
    while index < counters.len()
        invariant
            counters_fit(size, piece_size, counters@),
            index <= counters.len(),
            total == sum(counters@.take(index as int)),
        decreases counters.len() - index,
    {
        proof {
            lemma_sum_fits(size, piece_size, counters@, index + 1);
            assert(counters@.take(index + 1).drop_last() =~= counters@.take(index as int));
            assert(counters@.take(index + 1).last() == counters@[index as int]);
        }
        total = total + counters[index];
        index = index + 1;
    }
    assert(counters@.take(index as int) =~= counters@);
    total
}

/// Copies counters.
pub fn copy_counters(counters: &Vec<u64>) -> (r: Vec<u64>)
    ensures
        r@ == counters@,
{
    let mut copy: Vec<u64> = Vec::with_capacity(counters.len());
    let mut index: usize = 0;
    while index < counters.len()
        invariant
            index <= counters.len(),
            copy@ == counters@.take(index as int),
        decreases counters.len() - index,
    {
        copy.push(counters[index]);
        index = index + 1;
    }
    assert(counters@.take(index as int) =~= counters@);
    copy
}

/// Sets every counter to zero.
pub fn zero(counters: &mut Vec<u64>)
    ensures
        final(counters)@ == Seq::new(old(counters)@.len(), |i: int| 0u64),
{
    let ghost count = counters@.len();
    let mut index: usize = 0;
    while index < counters.len()
        invariant
            index <= counters.len() == count,
            forall|i: int| 0 <= i < index ==> #[trigger] counters@[i] == 0,
        decreases counters.len() - index,
    {
        counters[index] = 0;
        index = index + 1;
    }
    assert(counters@ =~= Seq::new(count, |i: int| 0u64));
}

/// The pieces tile the file: each begins where the one before it ends, all but
/// the last are full, the last ends with the file, and none is beyond it.
pub proof fn law_pieces_tile_the_file(size: u64, piece_size: u64, index: int)
    requires
        piece_size > 0,
        0 <= index,
    ensures
        ({
            let count = count_of(size, piece_size);
            let len = len_of(size, piece_size, index);
            &&& index + 1 < count ==> len == piece_size
            &&& index + 1 == count ==> 1 <= len <= piece_size && index * piece_size + len == size
            &&& index >= count ==> len == 0
            &&& size == 0 <==> count == 0
        }),
{
    lemma_count(size, piece_size);
    if index < count_of(size, piece_size) {
        lemma_piece(size, piece_size, index);
    } else {
        lemma_beyond(size, piece_size, index);
    }
}

/// Counters add up one by one.
pub proof fn law_counters_add_up(counters: Seq<u64>, more: u64)
    ensures
        sum(Seq::<u64>::empty()) == 0,
        sum(counters.push(more)) == sum(counters) + more,
{
    assert(counters.push(more).drop_last() =~= counters);
}

/// Where a stream has come to decides each counter by itself: a piece that lies
/// before it is full, the piece in which it lies holds the bytes up to it, and
/// a later piece is left as it was.
pub proof fn law_stream_fills_from_the_start(
    size: u64,
    piece_size: u64,
    counters: Seq<u64>,
    reached: u64,
    index: int,
)
    requires
        counters_fit(size, piece_size, counters),
        reached <= size,
        0 <= index < counters.len(),
    ensures
        ({
            let after = filled(size, piece_size, counters, reached);
            let start = index * piece_size;
            let len = len_of(size, piece_size, index);
            &&& after.len() == counters.len()
            &&& start + len <= reached ==> after[index] == len
            &&& start < reached < start + len ==> after[index] == reached - start
            &&& start >= reached && index > 0 ==> after[index] == counters[index]
        }),
{
    lemma_piece(size, piece_size, index);
}

} // verus!
