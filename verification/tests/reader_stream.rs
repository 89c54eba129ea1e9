use tuber::util::reader_stream::{ReadStep, ReaderStream};
use tuber::DEFAULT_BUFFER_SIZE;

fn chunk(step: ReadStep) -> Vec<u8> {
    match step {
        ReadStep::Chunk(c) => c,
        ReadStep::Continue => panic!("expected a chunk"),
    }
}

#[test]
fn new_stream_is_unbounded_with_default_capacity() {
    let mut s = ReaderStream::new(());
    assert_eq!(s.capacity(), DEFAULT_BUFFER_SIZE);
    assert!(s.reader_mut().is_some());
    let full = vec![1u8; DEFAULT_BUFFER_SIZE];
    assert!(matches!(s.on_read(&full), ReadStep::Continue));
}

#[test]
fn bounded_stream_hands_out_every_read() {
    let mut s = ReaderStream::with_capacity((), 4);
    assert_eq!(s.capacity(), 4);
    assert_eq!(chunk(s.on_read(&[1, 2, 3, 4])), vec![1, 2, 3, 4]);
    assert_eq!(chunk(s.on_read(&[5])), vec![5]);
    assert_eq!(chunk(s.on_read(&[])), Vec::<u8>::new());
}

#[test]
fn unbounded_stream_gathers_until_a_short_read() {
    let mut s = ReaderStream::with_capacity((), 3).unbounded();
    assert_eq!(s.capacity(), 3);
    assert!(matches!(s.on_read(&[1, 2, 3]), ReadStep::Continue));
    assert!(matches!(s.on_read(&[4, 5, 6]), ReadStep::Continue));
    assert_eq!(chunk(s.on_read(&[7])), vec![1, 2, 3, 4, 5, 6, 7]);
    assert_eq!(chunk(s.on_read(&[8, 9])), vec![8, 9]);
}

#[test]
fn unbounded_stream_hands_out_what_it_gathered_at_the_end() {
    let mut s = ReaderStream::with_capacity((), 2).unbounded();
    assert!(matches!(s.on_read(&[1, 2]), ReadStep::Continue));
    assert_eq!(chunk(s.on_read(&[])), vec![1, 2]);
    assert_eq!(chunk(s.on_read(&[])), Vec::<u8>::new());
}

#[test]
fn reader_mut_gives_the_reader() {
    let mut s = ReaderStream::with_capacity(vec![1u8], 8);
    s.reader_mut().unwrap().push(2);
    assert_eq!(s.reader_mut().unwrap(), &vec![1, 2]);
}

#[test]
fn bounded_chunks_are_the_reads() {
    let mut s = ReaderStream::with_capacity((), 2);
    let reads: Vec<Vec<u8>> = vec![vec![1, 2], vec![3], vec![4, 5]];
    for r in &reads {
        let c = chunk(s.on_read(r));
        assert_eq!(&c, r);
        assert!(c.len() <= s.capacity());
    }
}

#[test]
fn read_size_is_the_capacity_or_a_minimum() {
    assert_eq!(ReaderStream::with_capacity((), 10).read_size(), 10);
    assert_eq!(ReaderStream::with_capacity((), 0).read_size(), 64);
    assert_eq!(ReaderStream::new(()).read_size(), DEFAULT_BUFFER_SIZE);
}

#[test]
fn end_of_input_flushes_what_was_gathered() {
    let mut s = ReaderStream::with_capacity((), 2).unbounded();
    assert!(matches!(s.on_read(&[1, 2]), ReadStep::Continue));
    assert!(matches!(s.on_read(&[3, 4]), ReadStep::Continue));
    assert_eq!(chunk(s.on_read(&[])), vec![1, 2, 3, 4]);
}
