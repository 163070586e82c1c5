//! The bytes of a control file.
//!
//! A mark, the geometry, the texts the content is known by, and one number for
//! each piece; numbers are eight bytes, least significant first. Anything else
//! is unreadable, and so is a counter that its piece cannot hold.

use vstd::bytes::{
    lemma_auto_spec_u64_to_from_le_bytes, spec_u64_from_le_bytes, spec_u64_to_le_bytes,
    u64_from_le_bytes, u64_to_le_bytes,
};
use vstd::prelude::*;
use vstd::slice::{slice_subrange, slice_to_vec};
use vstd::string::*;
use vstd::utf8::{decode_utf8, encode_utf8, valid_utf8};

use crate::control::{ControlFile, ControlView};
use crate::pieces::{counters_fit, len_of, piece_count, piece_len};
use crate::text::text_view;

verus! {

/// The bytes that a control file starts with.
pub open spec fn mark() -> Seq<u8> {
    seq![82u8, 68u8, 67u8, 49u8]
}

/// The bytes of a text that may be missing.
pub open spec fn text_bytes(text: Option<Seq<char>>) -> Seq<u8> {
    match text {
        None => seq![0u8],
        Some(text) => seq![1u8] + spec_u64_to_le_bytes(encode_utf8(text).len() as u64)
            + encode_utf8(text),
    }
}

/// The bytes of a list of numbers.
pub open spec fn number_bytes(numbers: Seq<u64>) -> Seq<u8>
    decreases numbers.len(),
{
    if numbers.len() == 0 {
        Seq::empty()
    } else {
        number_bytes(numbers.drop_last()) + spec_u64_to_le_bytes(numbers.last())
    }
}

/// The bytes of a control file.
pub open spec fn control_bytes(control: ControlView) -> Seq<u8> {
    mark() + spec_u64_to_le_bytes(control.size) + spec_u64_to_le_bytes(control.piece_size)
        + text_bytes(control.identity) + text_bytes(control.etag) + text_bytes(
        control.last_modified,
    ) + number_bytes(control.pieces)
}

/// The number at the start of `bytes`, and what follows it.
pub open spec fn take_number(bytes: Seq<u8>) -> Option<(u64, Seq<u8>)> {
    if bytes.len() < 8 {
        None
    } else {
        Some((spec_u64_from_le_bytes(bytes.take(8)), bytes.skip(8)))
    }
}

/// The text at the start of `bytes`, and what follows it.
pub open spec fn take_text(bytes: Seq<u8>) -> Option<(Option<Seq<char>>, Seq<u8>)> {
    if bytes.len() == 0 {
        None
    } else if bytes[0] == 0 {
        Some((None, bytes.skip(1)))
    } else if bytes[0] == 1 {
        match take_number(bytes.skip(1)) {
            None => None,
            Some((len, rest)) => if len <= rest.len() && valid_utf8(rest.take(len as int)) {
                Some((Some(decode_utf8(rest.take(len as int))), rest.skip(len as int)))
            } else {
                None
            },
        }
    } else {
        None
    }
}

/// The numbers that `bytes` are made of.
pub open spec fn numbers_in(bytes: Seq<u8>) -> Seq<u64> {
    Seq::new(
        bytes.len() / 8,
        |i: int| spec_u64_from_le_bytes(bytes.subrange(8 * i, 8 * i + 8)),
    )
}

/// The control file that `bytes` hold.
pub open spec fn control_in(bytes: Seq<u8>) -> Option<ControlView> {
    if !mark().is_prefix_of(bytes) {
        None
    } else {
        match take_number(bytes.skip(4)) {
            None => None,
            Some((size, rest)) => match take_number(rest) {
                None => None,
                Some((piece_size, rest)) => match take_text(rest) {
                    None => None,
                    Some((identity, rest)) => match take_text(rest) {
                        None => None,
                        Some((etag, rest)) => match take_text(rest) {
                            None => None,
                            Some((last_modified, rest)) => {
                                let control = ControlView {
                                    size,
                                    piece_size,
                                    identity,
                                    etag,
                                    last_modified,
                                    pieces: numbers_in(rest),
                                };
                                if rest.len() % 8 == 0 && control.wf() {
                                    Some(control)
                                } else {
                                    None
                                }
                            },
                        },
                    },
                },
            },
        }
    }
}

/// Calls `String::from_utf8`: it succeeds exactly on valid UTF-8, with the
/// characters that the bytes encode.
#[verifier::external_body]
fn text_from(bytes: Vec<u8>) -> (r: Option<String>)
    ensures
        r is Some <==> valid_utf8(bytes@),
        r matches Some(text) ==> text@ == decode_utf8(bytes@),
{
    String::from_utf8(bytes).ok()
}

fn put_number(bytes: &mut Vec<u8>, number: u64)
    ensures
        final(bytes)@ == old(bytes)@ + spec_u64_to_le_bytes(number),
{
    let mut tail = u64_to_le_bytes(number);
    bytes.append(&mut tail);
}

fn put_text(bytes: &mut Vec<u8>, text: &Option<String>)
    ensures
        final(bytes)@ == old(bytes)@ + text_bytes(text_view(*text)),
{
    let ghost before = bytes@;
    match text {
        None => {
            bytes.push(0);
            assert(bytes@ =~= before + text_bytes(text_view(*text)));
        },
        Some(text) => {
            bytes.push(1);
            let content = text.as_str().as_bytes();
            put_number(bytes, content.len() as u64);
            let mut tail = slice_to_vec(content);
            bytes.append(&mut tail);
            assert(bytes@ =~= before + text_bytes(Some(text@)));
        },
    }
}

/// Writes a control file.
#[must_use]
pub fn encode(control: &ControlFile) -> (r: Vec<u8>)
    ensures
        r@ == control_bytes(control@),
{
    let mut bytes: Vec<u8> = Vec::new();
    bytes.push(82);
    bytes.push(68);
    bytes.push(67);
    bytes.push(49);
    assert(bytes@ =~= mark());
    put_number(&mut bytes, control.size);
    put_number(&mut bytes, control.piece_size);
    put_text(&mut bytes, &control.identity);
    put_text(&mut bytes, &control.etag);
    put_text(&mut bytes, &control.last_modified);
    let ghost head = bytes@;
    let mut index: usize = 0;
    assert(bytes@ =~= head + number_bytes(control.pieces@.take(0)));
    while index < control.pieces.len()
        invariant
            index <= control.pieces.len(),
            bytes@ == head + number_bytes(control.pieces@.take(index as int)),
        decreases control.pieces.len() - index,
    {
        put_number(&mut bytes, control.pieces[index]);
        proof {
            let next = control.pieces@.take(index + 1);
            assert(next.drop_last() =~= control.pieces@.take(index as int));
            assert(next.last() == control.pieces@[index as int]);
            assert(bytes@ =~= head + number_bytes(next));
        }
        index = index + 1;
    }
    assert(control.pieces@.take(index as int) =~= control.pieces@);
    bytes
}

fn get_number(bytes: &[u8], at: usize) -> (r: Option<(u64, usize)>)
    requires
        at <= bytes@.len(),
    ensures
        match r {
            None => take_number(bytes@.skip(at as int)) is None,
            Some((number, next)) => at <= next <= bytes@.len() && take_number(
                bytes@.skip(at as int),
            ) == Some((number, bytes@.skip(next as int))),
        },
{
    if bytes.len() - at < 8 {
        return None;
    }
    let number: u64 = u64_from_le_bytes(slice_subrange(bytes, at, at + 8));
    proof {
        assert(bytes@.skip(at as int).take(8) =~= bytes@.subrange(at as int, at + 8));
        assert(bytes@.skip(at as int).skip(8) =~= bytes@.skip(at + 8));
    }
    Some((number, at + 8))
}

fn get_text(bytes: &[u8], at: usize) -> (r: Option<(Option<String>, usize)>)
    requires
        at <= bytes@.len(),
    ensures
        match r {
            None => take_text(bytes@.skip(at as int)) is None,
            Some((text, next)) => at <= next <= bytes@.len() && take_text(bytes@.skip(at as int))
                == Some((text_view(text), bytes@.skip(next as int))),
        },
{
    if at == bytes.len() {
        return None;
    }
    assert(bytes@.skip(at as int)[0] == bytes@[at as int]);
    assert(bytes@.skip(at as int).skip(1) =~= bytes@.skip(at + 1));
    if bytes[at] == 0 {
        return Some((None, at + 1));
    }
    if bytes[at] != 1 {
        return None;
    }
    match get_number(bytes, at + 1) {
        None => None,
        Some((len, start)) => {
            if len > (bytes.len() - start) as u64 {
                return None;
            }
            let end: usize = start + len as usize;
            let content = slice_subrange(bytes, start, end);
            proof {
                assert(bytes@.skip(start as int).take(len as int) =~= content@);
                assert(bytes@.skip(start as int).skip(len as int) =~= bytes@.skip(end as int));
            }
            match text_from(slice_to_vec(content)) {
                Some(text) => Some((Some(text), end)),
                None => None,
            }
        },
    }
}

fn get_pieces(bytes: &[u8], at: usize, size: u64, piece_size: u64) -> (r: Option<Vec<u64>>)
    requires
        at <= bytes@.len(),
    ensures
        ({
            let rest = bytes@.skip(at as int);
            let readable = rest.len() % 8 == 0 && counters_fit(size, piece_size, numbers_in(rest));
            match r {
                Some(pieces) => readable && pieces@ == numbers_in(rest),
                None => !readable,
            }
        }),
{
    let ghost rest = bytes@.skip(at as int);
    let len: usize = bytes.len() - at;
    if len % 8 != 0 || piece_size == 0 {
        return None;
    }
    let count: usize = len / 8;
    if piece_count(size, piece_size) != count as u64 {
        return None;
    }
    let mut pieces: Vec<u64> = Vec::new();
    let mut index: usize = 0;
    while index < count
        invariant
            index <= count,
            at + 8 * count == bytes.len(),
            rest == bytes@.skip(at as int),
            count == numbers_in(rest).len(),
            pieces@ == numbers_in(rest).take(index as int),
            forall|i: int|
                0 <= i < index ==> 0 <= #[trigger] numbers_in(rest)[i] <= len_of(
                    size,
                    piece_size,
                    i,
                ),
        decreases count - index,
    {
        let from: usize = at + 8 * index;
        let number: u64 = u64_from_le_bytes(slice_subrange(bytes, from, from + 8));
        proof {
            assert(rest.subrange(8 * index, 8 * index + 8) =~= bytes@.subrange(
                from as int,
                from + 8,
            ));
            assert(numbers_in(rest)[index as int] == number);
        }
        if number > piece_len(size, piece_size, index as u64) {
            return None;
        }
        pieces.push(number);
        index = index + 1;
        assert(pieces@ =~= numbers_in(rest).take(index as int));
    }
    assert(numbers_in(rest).take(index as int) =~= numbers_in(rest));
    Some(pieces)
}

/// Reads a control file. `None` stands for bytes that are none.
#[must_use]
pub fn decode(bytes: &[u8]) -> (r: Option<ControlFile>)
    ensures
        match r {
            Some(control) => control_in(bytes@) == Some(control@) && control@.wf(),
            None => control_in(bytes@) is None,
        },
{
    if bytes.len() < 4 || bytes[0] != 82 || bytes[1] != 68 || bytes[2] != 67 || bytes[3] != 49 {
        return None;
    }
    assert(mark().is_prefix_of(bytes@));
    let (size, at) = match get_number(bytes, 4) {
        Some(found) => found,
        None => {
            return None;
        },
    };
    let (piece_size, at) = match get_number(bytes, at) {
        Some(found) => found,
        None => {
            return None;
        },
    };
    let (identity, at) = match get_text(bytes, at) {
        Some(found) => found,
        None => {
            return None;
        },
    };
    let (etag, at) = match get_text(bytes, at) {
        Some(found) => found,
        None => {
            return None;
        },
    };
    let (last_modified, at) = match get_text(bytes, at) {
        Some(found) => found,
        None => {
            return None;
        },
    };
    match get_pieces(bytes, at, size, piece_size) {
        Some(pieces) => Some(
            ControlFile { size, piece_size, identity, etag, last_modified, pieces },
        ),
        None => None,
    }
}

proof fn lemma_take_number(number: u64, rest: Seq<u8>)
    ensures
        take_number(spec_u64_to_le_bytes(number) + rest) == Some((number, rest)),
{
    lemma_auto_spec_u64_to_from_le_bytes();
    let bytes = spec_u64_to_le_bytes(number) + rest;
    assert(bytes.take(8) =~= spec_u64_to_le_bytes(number));
    assert(bytes.skip(8) =~= rest);
}

proof fn lemma_take_text(text: Option<Seq<char>>, rest: Seq<u8>)
    requires
        text matches Some(content) ==> encode_utf8(content).len() <= u64::MAX,
    ensures
        take_text(text_bytes(text) + rest) == Some((text, rest)),
{
    broadcast use {vstd::utf8::encode_utf8_valid_utf8, vstd::utf8::encode_utf8_decode_utf8};

    let bytes = text_bytes(text) + rest;
    match text {
        None => {
            assert(bytes.skip(1) =~= rest);
        },
        Some(content) => {
            let coded = encode_utf8(content);
            assert(bytes.skip(1) =~= spec_u64_to_le_bytes(coded.len() as u64) + (coded + rest));
            lemma_take_number(coded.len() as u64, coded + rest);
            assert((coded + rest).take(coded.len() as int) =~= coded);
            assert((coded + rest).skip(coded.len() as int) =~= rest);
        },
    }
}

proof fn lemma_numbers_in(numbers: Seq<u64>)
    ensures
        number_bytes(numbers).len() == 8 * numbers.len(),
        numbers_in(number_bytes(numbers)) == numbers,
    decreases numbers.len(),
{
    lemma_auto_spec_u64_to_from_le_bytes();
    let bytes = number_bytes(numbers);
    if numbers.len() > 0 {
        let init = numbers.drop_last();
        lemma_numbers_in(init);
        let head = number_bytes(init);
        assert forall|i: int| 0 <= i < numbers.len() implies #[trigger] numbers_in(bytes)[i]
            == numbers[i] by {
            if i < init.len() {
                assert(bytes.subrange(8 * i, 8 * i + 8) =~= head.subrange(8 * i, 8 * i + 8));
                assert(numbers_in(head)[i] == init[i]);
            } else {
                assert(bytes.subrange(8 * i, 8 * i + 8) =~= spec_u64_to_le_bytes(numbers.last()));
            }
        }
    }
    assert(numbers_in(bytes) =~= numbers);
}

proof fn lemma_regroup(a: Seq<u8>, b: Seq<u8>, c: Seq<u8>)
    ensures
        (a + b) + c == a + (b + c),
{
    assert((a + b) + c =~= a + (b + c));
}

#[verifier::spinoff_prover]
proof fn lemma_seven_parts(
    a: Seq<u8>,
    b: Seq<u8>,
    c: Seq<u8>,
    d: Seq<u8>,
    e: Seq<u8>,
    f: Seq<u8>,
    g: Seq<u8>,
)
    ensures
        a + b + c + d + e + f + g == a + (b + (c + (d + (e + (f + g))))),
{
    lemma_regroup(a + b + c + d + e, f, g);
    lemma_regroup(a + b + c + d, e, f + g);
    lemma_regroup(a + b + c, d, e + (f + g));
    lemma_regroup(a + b, c, d + (e + (f + g)));
    lemma_regroup(a, b, c + (d + (e + (f + g))));
}

/// A control file reads back as what was written. The texts are no longer than
/// a length can say.
#[verifier::spinoff_prover]
pub proof fn law_control_file_round_trip(control: ControlView)
    requires
        control.wf(),
        control.identity matches Some(text) ==> encode_utf8(text).len() <= u64::MAX,
        control.etag matches Some(text) ==> encode_utf8(text).len() <= u64::MAX,
        control.last_modified matches Some(text) ==> encode_utf8(text).len() <= u64::MAX,
    ensures
        control_in(control_bytes(control)) == Some(control),
{
    let bytes = control_bytes(control);
    let size = spec_u64_to_le_bytes(control.size);
    let piece_size = spec_u64_to_le_bytes(control.piece_size);
    let identity = text_bytes(control.identity);
    let etag = text_bytes(control.etag);
    let last_modified = text_bytes(control.last_modified);
    let numbers = number_bytes(control.pieces);
    let after_etag = last_modified + numbers;
    let after_identity = etag + after_etag;
    let after_geometry = identity + after_identity;
    let after_size = piece_size + after_geometry;
    lemma_seven_parts(mark(), size, piece_size, identity, etag, last_modified, numbers);
    assert(mark().is_prefix_of(bytes));
    assert(bytes.skip(4) =~= size + after_size);
    lemma_take_number(control.size, after_size);
    lemma_take_number(control.piece_size, after_geometry);
    lemma_take_text(control.identity, after_identity);
    lemma_take_text(control.etag, after_etag);
    lemma_take_text(control.last_modified, numbers);
    lemma_numbers_in(control.pieces);
}

proof fn lemma_number_was_written(bytes: Seq<u8>)
    ensures
        take_number(bytes) matches Some((number, rest)) ==> spec_u64_to_le_bytes(number) + rest
            == bytes,
{
    lemma_auto_spec_u64_to_from_le_bytes();
    if bytes.len() >= 8 {
        let head = bytes.take(8);
        assert(spec_u64_to_le_bytes(spec_u64_from_le_bytes(head)) == head);
        assert(head + bytes.skip(8) =~= bytes);
    }
}

proof fn lemma_text_was_written(bytes: Seq<u8>)
    ensures
        take_text(bytes) matches Some((text, rest)) ==> text_bytes(text) + rest == bytes,
{
    broadcast use vstd::utf8::decode_utf8_encode_utf8;

    if let Some((text, rest)) = take_text(bytes) {
        match text {
            None => {
                assert(text_bytes(text) + rest =~= bytes);
            },
            Some(content) => {
                lemma_number_was_written(bytes.skip(1));
                let (len, after) = take_number(bytes.skip(1))->0;
                let coded = after.take(len as int);
                assert(encode_utf8(content) == coded);
                assert(coded + rest =~= after);
                assert(text_bytes(text) + rest =~= seq![1u8] + (spec_u64_to_le_bytes(len) + (coded
                    + rest)));
                assert(seq![1u8] + bytes.skip(1) =~= bytes);
            },
        }
    }
}

proof fn lemma_numbers_were_written(bytes: Seq<u8>)
    requires
        bytes.len() % 8 == 0,
    ensures
        number_bytes(numbers_in(bytes)) == bytes,
    decreases bytes.len(),
{
    lemma_auto_spec_u64_to_from_le_bytes();
    let numbers = numbers_in(bytes);
    if bytes.len() == 0 {
        assert(number_bytes(numbers) =~= bytes);
    } else {
        let cut = bytes.len() - 8;
        let init = bytes.take(cut);
        lemma_numbers_were_written(init);
        assert(numbers.drop_last() =~= numbers_in(init)) by {
            assert forall|i: int| 0 <= i < numbers_in(init).len() implies numbers[i]
                == #[trigger] numbers_in(init)[i] by {
                assert(init.subrange(8 * i, 8 * i + 8) =~= bytes.subrange(8 * i, 8 * i + 8));
            }
        }
        let tail = bytes.subrange(cut, bytes.len() as int);
        assert(numbers.last() == spec_u64_from_le_bytes(tail));
        assert(spec_u64_to_le_bytes(spec_u64_from_le_bytes(tail)) == tail);
        assert(init + tail =~= bytes);
    }
}

#[verifier::spinoff_prover]
proof fn lemma_parts_were_written(
    size: u64,
    piece_size: u64,
    identity: Option<Seq<char>>,
    etag: Option<Seq<char>>,
    last_modified: Option<Seq<char>>,
    rest: Seq<u8>,
    after_etag: Seq<u8>,
    after_identity: Seq<u8>,
    after_geometry: Seq<u8>,
    after_size: Seq<u8>,
    after_mark: Seq<u8>,
)
    requires
        take_number(after_mark) == Some((size, after_size)),
        take_number(after_size) == Some((piece_size, after_geometry)),
        take_text(after_geometry) == Some((identity, after_identity)),
        take_text(after_identity) == Some((etag, after_etag)),
        take_text(after_etag) == Some((last_modified, rest)),
        rest.len() % 8 == 0,
    ensures
        mark() + after_mark == control_bytes(
            ControlView {
                size,
                piece_size,
                identity,
                etag,
                last_modified,
                pieces: numbers_in(rest),
            },
        ),
{
    lemma_number_was_written(after_mark);
    lemma_number_was_written(after_size);
    lemma_text_was_written(after_geometry);
    lemma_text_was_written(after_identity);
    lemma_text_was_written(after_etag);
    lemma_numbers_were_written(rest);
    lemma_seven_parts(
        mark(),
        spec_u64_to_le_bytes(size),
        spec_u64_to_le_bytes(piece_size),
        text_bytes(identity),
        text_bytes(etag),
        text_bytes(last_modified),
        rest,
    );
}

/// A control file that can be read was written: its bytes are those of what was
/// read, to the last one, and each counter fits its piece.
pub proof fn law_readable_bytes_were_written(bytes: Seq<u8>)
    ensures
        control_in(bytes) matches Some(control) ==> control_bytes(control) == bytes && control.wf(),
{
    if control_in(bytes) is Some {
        let after_mark = bytes.skip(4);
        let (size, after_size) = take_number(after_mark)->0;
        let (piece_size, after_geometry) = take_number(after_size)->0;
        let (identity, after_identity) = take_text(after_geometry)->0;
        let (etag, after_etag) = take_text(after_identity)->0;
        let (last_modified, rest) = take_text(after_etag)->0;
        lemma_parts_were_written(
            size,
            piece_size,
            identity,
            etag,
            last_modified,
            rest,
            after_etag,
            after_identity,
            after_geometry,
            after_size,
            after_mark,
        );
        assert(mark() + after_mark =~= bytes);
    }
}

} // verus!
