//! Cutting text into pieces.

use settime::text::{same_bytes, starts_with, Pieces};

fn pieces(text: &[u8], stops: &[u8]) -> Vec<Vec<u8>> {
    let mut walk = Pieces::new(text, stops);
    let mut all = Vec::new();
    while let Some(piece) = walk.next_piece() {
        all.push(piece.to_vec());
    }
    assert!(walk.is_done());
    assert_eq!(walk.next_piece(), None);
    all
}

#[test]
fn a_text_is_cut_at_each_stop() {
    assert_eq!(pieces(b"a b:c", b" :"), vec![b"a".to_vec(), b"b".to_vec(), b"c".to_vec()]);
    assert_eq!(
        pieces(b"Sat, 09 Oct 2010 14:28:02 GMT", b" :"),
        vec![
            b"Sat,".to_vec(),
            b"09".to_vec(),
            b"Oct".to_vec(),
            b"2010".to_vec(),
            b"14".to_vec(),
            b"28".to_vec(),
            b"02".to_vec(),
            b"GMT".to_vec()
        ]
    );
    assert_eq!(pieces(b"one\ntwo\r\nthree", b"\n"), vec![
        b"one".to_vec(),
        b"two\r".to_vec(),
        b"three".to_vec()
    ]);
}

#[test]
fn a_text_without_a_stop_is_one_piece() {
    assert_eq!(pieces(b"abc", b" :"), vec![b"abc".to_vec()]);
    assert_eq!(pieces(b"", b" :"), vec![Vec::<u8>::new()]);
    assert_eq!(pieces(b"a b", b""), vec![b"a b".to_vec()]);
}

#[test]
fn stops_in_a_row_enclose_empty_pieces() {
    assert_eq!(pieces(b"a  b", b" :"), vec![b"a".to_vec(), Vec::new(), b"b".to_vec()]);
    assert_eq!(pieces(b" a", b" :"), vec![Vec::new(), b"a".to_vec()]);
    assert_eq!(pieces(b"a:", b" :"), vec![b"a".to_vec(), Vec::new()]);
    assert_eq!(pieces(b": ", b" :"), vec![Vec::<u8>::new(), Vec::new(), Vec::new()]);
}

#[test]
fn a_walk_is_done_after_its_last_piece() {
    let mut walk = Pieces::new(b"a b", b" ");
    assert!(!walk.is_done());
    assert_eq!(walk.next_piece(), Some(&b"a"[..]));
    assert!(!walk.is_done());
    assert_eq!(walk.next_piece(), Some(&b"b"[..]));
    assert!(walk.is_done());
    assert_eq!(walk.next_piece(), None);
    assert!(walk.is_done());
}

#[test]
fn a_last_piece_after_a_stop_may_be_empty() {
    let mut walk = Pieces::new(b"line\n", b"\n");
    assert_eq!(walk.next_piece(), Some(&b"line"[..]));
    assert!(!walk.is_done());
    assert_eq!(walk.next_piece(), Some(&b""[..]));
    assert!(walk.is_done());
}

#[test]
fn bytes_are_compared_one_by_one() {
    assert!(same_bytes(b"", b""));
    assert!(same_bytes(b"Sat,", b"Sat,"));
    assert!(!same_bytes(b"Sat,", b"Sat"));
    assert!(!same_bytes(b"Sat", b"Sat,"));
    assert!(!same_bytes(b"Sat,", b"Sut,"));
    assert!(!same_bytes(b"Sat,", b"sat,"));
}

#[test]
fn a_prefix_is_found_at_the_start_only() {
    assert!(starts_with(b"Date: x", b"Date: "));
    assert!(starts_with(b"Date: ", b"Date: "));
    assert!(starts_with(b"anything", b""));
    assert!(starts_with(b"", b""));
    assert!(!starts_with(b"Date:", b"Date: "));
    assert!(!starts_with(b"", b"Date: "));
    assert!(!starts_with(b" Date: x", b"Date: "));
    assert!(!starts_with(b"date: x", b"Date: "));
}
