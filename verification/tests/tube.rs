use std::io;

use tuber::codec::{SymmetricalTuber, Tuber};
use tuber::{Decode, Encode, Error, Rx, Tube, Tx};

/// A message carried as its UTF-8 text.
#[derive(Debug, PartialEq)]
struct Text(String);

impl Encode for Text {
    fn encode(&self) -> Result<Vec<u8>, io::Error> {
        Ok(self.0.as_bytes().to_vec())
    }
}

impl Decode for Text {
    fn decode(bytes: &[u8]) -> Result<Self, io::Error> {
        String::from_utf8(bytes.to_vec())
            .map(Text)
            .map_err(|e| io::Error::new(io::ErrorKind::InvalidData, e))
    }
}

/// A message carried in bincode, as the serde-based encoding does.
#[derive(Debug, PartialEq)]
struct Ping {
    seq: u32,
    data: Vec<u8>,
}

impl Encode for Ping {
    fn encode(&self) -> Result<Vec<u8>, io::Error> {
        bincode::serialize(&(self.seq, &self.data))
            .map_err(|e| io::Error::new(io::ErrorKind::InvalidData, e))
    }
}

impl Decode for Ping {
    fn decode(bytes: &[u8]) -> Result<Self, io::Error> {
        bincode::deserialize::<(u32, Vec<u8>)>(bytes)
            .map(|(seq, data)| Ping { seq, data })
            .map_err(|e| io::Error::new(io::ErrorKind::InvalidData, e))
    }
}

/// A message that cannot be encoded.
struct Broken;

impl Encode for Broken {
    fn encode(&self) -> Result<Vec<u8>, io::Error> {
        Err(io::Error::new(io::ErrorKind::Other, "cannot encode"))
    }
}

#[test]
fn tuber_serializes_and_deserializes_through_the_item() {
    let tuber: SymmetricalTuber<Text> = Tuber::default();
    let bytes = tuber.serialize(&Text("hi".to_string())).unwrap();
    assert_eq!(bytes, b"hi");
    assert_eq!(tuber.deserialize(b"yo").unwrap(), Text("yo".to_string()));
    assert!(tuber.deserialize(&[0xff]).is_err());
}

#[test]
fn tube_new_then_split_gives_the_halves_back() {
    let mut tx = Tx::<Text>::new();
    tx.send_payload(b"q").unwrap();
    let mut rx = Rx::<Text>::new();
    rx.receive(&[0, 0]);
    let tube = Tube::new(tx, rx);
    let (tx, mut rx) = tube.split();
    assert_eq!(tx.pending(), &[0, 0, 0, 1, b'q']);
    rx.receive(&[0, 0]);
    assert_eq!(rx.next_frame().unwrap(), Some(Vec::new()));
}

#[test]
fn items_sent_through_a_tube_arrive_in_order() {
    let mut host: Tube<Ping, Text> = Tube::new(Tx::new(), Rx::new());
    host.start_send(Ping { seq: 1, data: vec![1, 2, 3] }).unwrap();
    host.start_send(Ping { seq: 2, data: vec![] }).unwrap();
    let (tx, _) = host.split();

    let mut worker_rx = Rx::<Ping>::new();
    for b in tx.pending() {
        worker_rx.receive(&[*b]);
    }
    assert_eq!(worker_rx.next_item().unwrap(), Some(Ping { seq: 1, data: vec![1, 2, 3] }));
    assert_eq!(worker_rx.next_item().unwrap(), Some(Ping { seq: 2, data: vec![] }));
    assert!(matches!(worker_rx.next_item(), Ok(None)));
    assert!(matches!(worker_rx.next_item_at_end(), Ok(None)));
}

#[test]
fn tube_next_item_reads_the_receiving_half() {
    let mut tx = Tx::<Text>::new();
    tx.start_send(Text("hello".to_string())).unwrap();
    let mut rx = Rx::<Text>::new();
    rx.receive(tx.pending());
    let mut tube: Tube<Text, Text> = Tube::new(Tx::new(), rx);
    assert_eq!(tube.next_item().unwrap(), Some(Text("hello".to_string())));
    assert!(matches!(tube.next_item(), Ok(None)));
}

#[test]
fn start_send_frames_the_encoded_bytes() {
    let mut tx = Tx::<Text>::new();
    tx.start_send(Text("ok".to_string())).unwrap();
    assert_eq!(tx.pending(), &[0, 0, 0, 2, b'o', b'k']);
}

#[test]
fn start_send_reports_an_encoding_error_and_queues_nothing() {
    let mut tx = Tx::<Broken>::new();
    let err = tx.start_send(Broken).unwrap_err();
    assert!(matches!(err, Error::IoError(_)));
    assert!(tx.pending().is_empty());
}

#[test]
fn next_item_reports_a_decoding_error_and_drops_the_frame() {
    let mut rx = Rx::<Text>::new();
    rx.receive(&[0, 0, 0, 1, 0xff, 0, 0, 0, 1, b'a']);
    let err = rx.next_item().unwrap_err();
    assert!(matches!(err, Error::IoError(ref e) if e.kind() == io::ErrorKind::InvalidData));
    assert_eq!(rx.next_item().unwrap(), Some(Text("a".to_string())));
}

#[test]
fn decode_frame_passes_errors_and_absence_on() {
    let rx = Rx::<Text>::new();
    assert!(matches!(rx.decode_frame(Ok(None)), Ok(None)));
    let passed = rx.decode_frame(Err(Error::JsError("x".to_string())));
    assert!(matches!(passed, Err(Error::JsError(ref m)) if m == "x"));
    assert_eq!(rx.decode_frame(Ok(Some(b"t".to_vec()))).unwrap(), Some(Text("t".to_string())));
}

#[test]
fn decode_frame_passes_the_decode_error_on() {
    let rx = Rx::<Text>::new();
    match rx.decode_frame(Ok(Some(vec![0xff]))) {
        Err(Error::IoError(e)) => {
            assert_eq!(e.kind(), io::ErrorKind::InvalidData);
            assert!(e.to_string().contains("utf-8"));
        }
        _ => panic!("expected the decode error"),
    }
}

#[test]
fn start_send_of_an_oversized_encoding_is_refused() {
    let mut tx = Tx::<Text>::new();
    let big = "x".repeat(tuber::framing::MAX_FRAME_LENGTH + 1);
    let err = tx.start_send(Text(big)).unwrap_err();
    assert!(matches!(err, Error::IoError(ref e) if e.kind() == io::ErrorKind::InvalidInput));
    assert!(tx.pending().is_empty());
}
