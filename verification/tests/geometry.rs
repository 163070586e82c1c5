use reina_download::codec::{decode, encode};
use reina_download::control::ControlFile;
use reina_download::pieces::{piece_count, piece_len, PieceTable};
use reina_download::text::decimal;

fn table(size: u64, piece_size: u64, written: Vec<u64>) -> PieceTable {
    PieceTable { size, piece_size, written }
}

#[test]
fn pieces_cover_the_file() {
    assert_eq!(piece_count(10, 4), 3);
    assert_eq!(piece_count(8, 4), 2);
    assert_eq!(piece_count(0, 4), 0);
    assert_eq!(piece_count(u64::MAX, 1), u64::MAX);
    let lens: Vec<u64> = (0..4).map(|index| piece_len(10, 4, index)).collect();
    assert_eq!(lens, vec![4, 4, 2, 0]);
    assert_eq!(piece_len(u64::MAX, u64::MAX, 1), 0);
    assert_eq!(piece_len(10, 4, u64::MAX), 0);
}

#[test]
fn counters_add_up() {
    let mut counters = table(10, 4, vec![4, 1, 0]);
    assert_eq!(counters.total(), 5);
    counters.record(2, 2);
    assert_eq!(counters.get(2), 2);
    assert_eq!(counters.snapshot(), vec![4, 1, 2]);
    counters.reset();
    assert_eq!(counters.written, vec![0, 0, 0]);
}

#[test]
fn a_stream_fills_pieces_in_order() {
    let mut counters = table(10, 4, vec![0, 0, 0]);
    counters.fill(3);
    assert_eq!(counters.written, vec![3, 0, 0]);
    counters.fill(4);
    assert_eq!(counters.written, vec![4, 0, 0]);
    counters.fill(9);
    assert_eq!(counters.written, vec![4, 4, 1]);
    counters.fill(10);
    assert_eq!(counters.written, vec![4, 4, 2]);
    assert_eq!(counters.total(), 10);
}

#[test]
fn numbers_are_written_in_decimal() {
    assert_eq!(decimal(0), "0");
    assert_eq!(decimal(1_234_567_890), "1234567890");
    assert_eq!(decimal(u64::MAX as u128), u64::MAX.to_string());
}

fn control() -> ControlFile {
    let mut control = ControlFile::new(
        10,
        4,
        Some("sha256:abc".to_string()),
        None,
        Some("Wed, 21 Oct 2015 07:28:00 GMT \u{e9}".to_string()),
    );
    control.pieces = vec![4, 1, 0];
    control
}

#[test]
fn a_new_control_file_has_no_progress() {
    let control = ControlFile::new(10, 4, None, None, None);
    assert_eq!(control.pieces, vec![0, 0, 0]);
    assert_eq!(control.written_total(), 0);
    assert!(!control.is_complete());
    assert!(ControlFile::new(0, 4, None, None, None).is_complete());
}

#[test]
fn a_control_file_knows_when_it_is_complete() {
    let mut control = control();
    assert_eq!(control.written_total(), 5);
    control.pieces = vec![4, 4, 2];
    assert!(control.is_complete());
    control.clear();
    assert_eq!(control.pieces, vec![0, 0, 0]);
}

#[test]
fn a_control_file_round_trips() {
    let control = control();
    let bytes = encode(&control);
    let read = decode(&bytes).unwrap();
    assert_eq!(read.size, 10);
    assert_eq!(read.piece_size, 4);
    assert_eq!(read.identity, control.identity);
    assert_eq!(read.etag, None);
    assert_eq!(read.last_modified, control.last_modified);
    assert_eq!(read.pieces, control.pieces);
    assert_eq!(encode(&control.clone()), bytes);
}

#[test]
fn a_torn_control_file_is_unreadable() {
    let bytes = encode(&control());
    for len in 0..bytes.len() {
        assert!(decode(&bytes[..len]).is_none());
    }
    let mut longer = bytes.clone();
    longer.push(0);
    assert!(decode(&longer).is_none());
}

#[test]
fn an_impossible_control_file_is_unreadable() {
    let mut over = control();
    over.pieces = vec![4, 5, 0];
    assert!(decode(&encode(&over)).is_none());
    let mut few = control();
    few.pieces = vec![4, 4];
    assert!(decode(&encode(&few)).is_none());
    let mut flat = control();
    flat.piece_size = 0;
    assert!(decode(&encode(&flat)).is_none());
    let mut bytes = encode(&control());
    bytes[0] = 0;
    assert!(decode(&bytes).is_none());
    let mut bytes = encode(&control());
    // The first byte of the identity, after mark, geometry, tag and length.
    bytes[4 + 16 + 1 + 8] = 0xff;
    assert!(decode(&bytes).is_none());
}
