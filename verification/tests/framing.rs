use std::io::ErrorKind;

use tuber::framing::MAX_FRAME_LENGTH;
use tuber::{Error, Rx, Tx};

fn io_kind(e: &Error) -> ErrorKind {
    match e {
        Error::IoError(io) => io.kind(),
        other => panic!("expected an IO error, got {:?}", other),
    }
}

#[test]
fn send_payload_frames_with_big_endian_length() {
    let mut tx = Tx::<u8>::new();
    tx.send_payload(&[1, 2, 3]).unwrap();
    assert_eq!(tx.pending(), &[0, 0, 0, 3, 1, 2, 3]);
}

#[test]
fn send_payload_of_nothing_is_a_bare_header() {
    let mut tx = Tx::<u8>::new();
    tx.send_payload(&[]).unwrap();
    assert_eq!(tx.pending(), &[0, 0, 0, 0]);
}

#[test]
fn send_payload_length_uses_all_header_bytes() {
    let mut tx = Tx::<u8>::new();
    let payload = vec![7u8; 0x01_02_03];
    tx.send_payload(&payload).unwrap();
    assert_eq!(&tx.pending()[..4], &[0x00, 0x01, 0x02, 0x03]);
    assert_eq!(tx.pending().len(), 4 + 0x01_02_03);
}

#[test]
fn send_payload_accepts_the_largest_frame() {
    let mut tx = Tx::<u8>::new();
    let payload = vec![0u8; MAX_FRAME_LENGTH];
    assert!(tx.send_payload(&payload).is_ok());
    assert_eq!(&tx.pending()[..4], &[0x00, 0x80, 0x00, 0x00]);
}

#[test]
fn send_payload_refuses_a_frame_too_long() {
    let mut tx = Tx::<u8>::new();
    tx.send_payload(&[9]).unwrap();
    let payload = vec![0u8; MAX_FRAME_LENGTH + 1];
    let err = tx.send_payload(&payload).unwrap_err();
    assert_eq!(io_kind(&err), ErrorKind::InvalidInput);
    assert_eq!(tx.pending(), &[0, 0, 0, 1, 9]);
}

#[test]
fn send_payload_appends_frames_in_order() {
    let mut tx = Tx::<u8>::new();
    tx.send_payload(b"ab").unwrap();
    tx.send_payload(b"c").unwrap();
    assert_eq!(tx.pending(), &[0, 0, 0, 2, b'a', b'b', 0, 0, 0, 1, b'c']);
}

#[test]
fn consume_drops_written_bytes() {
    let mut tx = Tx::<u8>::new();
    tx.send_payload(b"xyz").unwrap();
    tx.consume(5);
    assert_eq!(tx.pending(), b"yz");
    tx.consume(100);
    assert!(tx.pending().is_empty());
}

#[test]
fn next_frame_waits_for_a_whole_frame() {
    let mut rx = Rx::<u8>::new();
    let bytes = [0u8, 0, 0, 2, 10, 20];
    for b in &bytes[..5] {
        rx.receive(&[*b]);
        assert!(matches!(rx.next_frame(), Ok(None)));
    }
    rx.receive(&bytes[5..]);
    assert_eq!(rx.next_frame().unwrap(), Some(vec![10, 20]));
    assert!(matches!(rx.next_frame(), Ok(None)));
}

#[test]
fn next_frame_reads_frames_in_order_from_one_chunk() {
    let mut tx = Tx::<u8>::new();
    tx.send_payload(b"first").unwrap();
    tx.send_payload(b"").unwrap();
    tx.send_payload(b"third").unwrap();
    let mut rx = Rx::<u8>::new();
    rx.receive(tx.pending());
    assert_eq!(rx.next_frame().unwrap(), Some(b"first".to_vec()));
    assert_eq!(rx.next_frame().unwrap(), Some(Vec::new()));
    assert_eq!(rx.next_frame().unwrap(), Some(b"third".to_vec()));
    assert!(matches!(rx.next_frame(), Ok(None)));
}

#[test]
fn frames_survive_any_chunking() {
    let mut tx = Tx::<u8>::new();
    let payloads: Vec<Vec<u8>> = (0u8..20).map(|i| vec![i; i as usize * 3]).collect();
    for p in &payloads {
        tx.send_payload(p).unwrap();
    }
    let wire = tx.pending().to_vec();
    for size in [1usize, 2, 3, 7, 64, wire.len()] {
        let mut rx = Rx::<u8>::new();
        let mut got = Vec::new();
        for chunk in wire.chunks(size) {
            rx.receive(chunk);
            while let Some(f) = rx.next_frame().unwrap() {
                got.push(f);
            }
        }
        assert_eq!(got, payloads);
        assert!(matches!(rx.next_frame_at_end(), Ok(None)));
    }
}

#[test]
fn next_frame_refuses_a_header_too_long() {
    let mut rx = Rx::<u8>::new();
    rx.receive(&[0x00, 0x80, 0x00, 0x01, 1, 2]);
    let err = rx.next_frame().unwrap_err();
    assert_eq!(io_kind(&err), ErrorKind::InvalidData);
    let again = rx.next_frame().unwrap_err();
    assert_eq!(io_kind(&again), ErrorKind::InvalidData);
}

#[test]
fn next_frame_at_end_reports_leftover_bytes() {
    let mut rx = Rx::<u8>::new();
    rx.receive(&[0, 0, 0, 5, 1]);
    let err = rx.next_frame_at_end().unwrap_err();
    assert_eq!(io_kind(&err), ErrorKind::Other);
    match err {
        Error::IoError(io) => assert_eq!(io.to_string(), "bytes remaining on stream"),
        _ => unreachable!(),
    }
}

#[test]
fn next_frame_at_end_still_gives_a_whole_frame() {
    let mut rx = Rx::<u8>::new();
    rx.receive(&[0, 0, 0, 1, 42]);
    assert_eq!(rx.next_frame_at_end().unwrap(), Some(vec![42]));
    assert!(matches!(rx.next_frame_at_end(), Ok(None)));
}

#[test]
fn next_frame_at_end_after_a_bare_header_ends_cleanly() {
    let mut rx = Rx::<u8>::new();
    rx.receive(&[0, 0, 0, 5]);
    assert!(matches!(rx.next_frame_at_end(), Ok(None)));
}

#[test]
fn next_frame_at_end_after_a_partial_header_is_an_error() {
    let mut rx = Rx::<u8>::new();
    rx.receive(&[0, 0]);
    assert_eq!(io_kind(&rx.next_frame_at_end().unwrap_err()), ErrorKind::Other);
}
