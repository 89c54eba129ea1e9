//! Turns the bytes that an asynchronous reader gives into chunks. Bounded,
//! every read is a chunk; unbounded, reads are gathered until one comes up
//! short of the capacity, so that a burst of data leaves as one chunk.
use vstd::prelude::*;

use crate::DEFAULT_BUFFER_SIZE;

verus! {

/// Errors of a chunk stream.
#[derive(Debug)]
pub enum Error {
    IoError(std::io::Error),
    ZeroBytes,
}

/// The state of a `ReaderStream` that decides what a read leads to.
pub struct ReaderStreamView {
    pub has_reader: bool,
    /// Bytes read and not yet gathered.
    pub buf: Seq<u8>,
    /// Bytes gathered for the next chunk (unbounded mode).
    pub chunk: Seq<u8>,
    pub capacity: nat,
    pub unbounded: bool,
}

/// What a read leads to: a chunk to hand out, or another read.
pub enum ReadStep {
    Chunk(Vec<u8>),
    Continue,
}

/// The bytes a stream holds and has not handed out, oldest first.
pub open spec fn held(v: ReaderStreamView) -> Seq<u8> {
    v.chunk + v.buf
}

/// What a read that gave `data` leads to, and the state after it.
pub open spec fn read_step(v: ReaderStreamView, data: Seq<u8>) -> (Option<Seq<u8>>, ReaderStreamView) {
    if v.unbounded {
        let gathered = v.chunk + v.buf + data;
        if data.len() >= v.capacity {
            (None, ReaderStreamView { buf: Seq::empty(), chunk: gathered, ..v })
        } else {
            (Some(gathered), ReaderStreamView { buf: Seq::empty(), chunk: Seq::empty(), ..v })
        }
    } else {
        (Some(v.buf + data), ReaderStreamView { buf: Seq::empty(), ..v })
    }
}

/// The chunks handed out over the reads `reads`, first read first, and the
/// state after them.
pub open spec fn run(v: ReaderStreamView, reads: Seq<Seq<u8>>) -> (Seq<Seq<u8>>, ReaderStreamView)
    decreases reads.len(),
{
    if reads.len() == 0 {
        (Seq::empty(), v)
    } else {
        let first = read_step(v, reads[0]);
        let next = run(first.1, reads.drop_first());
        match first.0 {
            Some(c) => (seq![c] + next.0, next.1),
            None => next,
        }
    }
}

/// A bounded stream never gathers: only an unbounded one holds a chunk.
pub open spec fn gathers_only_unbounded(v: ReaderStreamView) -> bool {
    v.unbounded || v.chunk.len() == 0
}

/// No byte is lost, doubled or reordered: the chunks handed out, followed by
/// what is still held, are what was held before followed by all that was read.
pub proof fn lemma_chunks_keep_every_byte(v: ReaderStreamView, reads: Seq<Seq<u8>>)
    requires
        gathers_only_unbounded(v),
    ensures
        run(v, reads).0.flatten() + held(run(v, reads).1) == held(v) + reads.flatten(),
    decreases reads.len(),
{
    if reads.len() == 0 {
        assert(run(v, reads).0.flatten() =~= Seq::<u8>::empty());
        assert(reads.flatten() =~= Seq::<u8>::empty());
        assert(Seq::<u8>::empty() + held(v) =~= held(v) + Seq::<u8>::empty());
    } else {
        let first = read_step(v, reads[0]);
        let tail = reads.drop_first();
        let next = run(first.1, tail);
        lemma_chunks_keep_every_byte(first.1, tail);
        assert(reads.flatten() == reads[0] + tail.flatten());
        match first.0 {
            Some(c) => {
                assert((seq![c] + next.0).drop_first() =~= next.0);
                assert((seq![c] + next.0).flatten() == c + next.0.flatten());
                assert(c + held(first.1) =~= held(v) + reads[0]);
                assert(c + next.0.flatten() + held(next.1) =~= held(v) + reads.flatten());
            },
            None => {
                assert(held(first.1) =~= held(v) + reads[0]);
                assert(next.0.flatten() + held(next.1) =~= held(v) + reads.flatten());
            },
        }
    }
}

/// A bounded stream hands out one chunk for every read.
pub proof fn lemma_bounded_chunk_per_read(v: ReaderStreamView, reads: Seq<Seq<u8>>)
    requires
        !v.unbounded,
    ensures
        run(v, reads).0.len() == reads.len(),
        !run(v, reads).1.unbounded,
    decreases reads.len(),
{
    if reads.len() > 0 {
        lemma_bounded_chunk_per_read(read_step(v, reads[0]).1, reads.drop_first());
    }
}

/// Each chunk of a bounded stream is exactly one read: with nothing held,
/// the chunks handed out over a run of reads are those reads, so none is
/// longer than the capacity when no read asks for more.
pub proof fn lemma_bounded_chunks_are_reads(v: ReaderStreamView, reads: Seq<Seq<u8>>)
    requires
        !v.unbounded,
        v.buf.len() == 0,
    ensures
        run(v, reads).0 == reads,
        run(v, reads).1.buf.len() == 0,
        (forall|i: int| 0 <= i < reads.len() ==> #[trigger] reads[i].len() <= v.capacity)
            ==> (forall|i: int| 0 <= i < reads.len() ==> #[trigger] run(v, reads).0[i].len() <= v.capacity),
    decreases reads.len(),
{
    if reads.len() > 0 {
        let first = read_step(v, reads[0]);
        assert(v.buf + reads[0] =~= reads[0]);
        lemma_bounded_chunks_are_reads(first.1, reads.drop_first());
        assert(seq![reads[0]] + reads.drop_first() =~= reads);
    } else {
        assert(run(v, reads).0 =~= reads);
    }
}

/// `bytes::BytesMut`: the growable byte buffers a stream reads into and
/// gathers in.
#[verifier::external_type_specification]
#[verifier::external_body]
pub struct ExBytesMut(bytes::BytesMut);

/// Name of the bytes a `BytesMut` holds, first to last.
pub uninterp spec fn bytes_mut_contents(b: bytes::BytesMut) -> Seq<u8>;

/// `BytesMut::new`: an empty buffer.
#[verifier::external_body]
fn bytes_mut_new() -> (b: bytes::BytesMut)
    ensures
        bytes_mut_contents(b) == Seq::<u8>::empty(),
{
    bytes::BytesMut::new()
}

/// `BytesMut::with_capacity`: an empty buffer with room reserved.
#[verifier::external_body]
fn bytes_mut_with_capacity(capacity: usize) -> (b: bytes::BytesMut)
    ensures
        bytes_mut_contents(b) == Seq::<u8>::empty(),
{
    bytes::BytesMut::with_capacity(capacity)
}

/// `BytesMut::extend_from_slice`: appends `data`.
#[verifier::external_body]
fn bytes_mut_extend(b: &mut bytes::BytesMut, data: &[u8])
    ensures
        bytes_mut_contents(*final(b)) == bytes_mut_contents(*old(b)) + data@,
{
    b.extend_from_slice(data)
}

/// `BytesMut::split`: takes all the bytes out, leaving the buffer empty.
#[verifier::external_body]
fn bytes_mut_split(b: &mut bytes::BytesMut) -> (r: bytes::BytesMut)
    ensures
        bytes_mut_contents(r) == bytes_mut_contents(*old(b)),
        bytes_mut_contents(*final(b)) == Seq::<u8>::empty(),
{
    b.split()
}

/// `BytesMut::unsplit`: appends the bytes of `other`.
#[verifier::external_body]
fn bytes_mut_unsplit(b: &mut bytes::BytesMut, other: bytes::BytesMut)
    ensures
        bytes_mut_contents(*final(b)) == bytes_mut_contents(*old(b)) + bytes_mut_contents(other),
{
    b.unsplit(other)
}

/// The bytes of a `BytesMut` copied into a `Vec` (`<[u8]>::to_vec` through its `Deref`).
#[verifier::external_body]
fn bytes_mut_to_vec(b: &bytes::BytesMut) -> (r: Vec<u8>)
    ensures
        r@ == bytes_mut_contents(*b),
{
    b.to_vec()
}

/// The end of the input flushes: once a read comes back empty, a stream with
/// a capacity hands out everything it held, and holds nothing after.
pub proof fn lemma_end_read_flushes(v: ReaderStreamView)
    requires
        gathers_only_unbounded(v),
        v.capacity > 0,
    ensures
        read_step(v, Seq::empty()).0 == Some(held(v)),
        held(read_step(v, Seq::empty()).1) == Seq::<u8>::empty(),
{
    assert(v.chunk + v.buf + Seq::<u8>::empty() =~= held(v));
    assert(v.buf + Seq::<u8>::empty() =~= v.buf);
    if !v.unbounded {
        assert(v.chunk =~= Seq::<u8>::empty());
        assert(held(v) =~= v.buf);
    }
    assert(Seq::<u8>::empty() + Seq::<u8>::empty() =~= Seq::<u8>::empty());
    if !v.unbounded {
        assert(v.chunk + Seq::<u8>::empty() =~= Seq::<u8>::empty());
    }
}

/// How many bytes one read asks for: the capacity, or 64 bytes when the
/// capacity is 0 (the least a byte buffer reserves for a read).
pub open spec fn read_size_of(v: ReaderStreamView) -> nat {
    if v.capacity == 0 {
        64
    } else {
        v.capacity
    }
}

/// In unbounded mode a read that fills the capacity never hands out a chunk,
/// whatever is already gathered: it is added to what is held. A read that
/// comes up short hands out everything held followed by it, and then holds
/// nothing.
pub proof fn lemma_unbounded_full_read_gathers(v: ReaderStreamView, data: Seq<u8>)
    requires
        v.unbounded,
    ensures
        data.len() >= v.capacity ==> read_step(v, data).0 is None
            && held(read_step(v, data).1) == held(v) + data,
        data.len() < v.capacity ==> read_step(v, data).0 == Some(held(v) + data)
            && held(read_step(v, data).1).len() == 0,
        read_step(v, data).1.unbounded && read_step(v, data).1.capacity == v.capacity,
{
    assert(v.chunk + v.buf + data =~= held(v) + data);
    assert(held(v) + data + Seq::<u8>::empty() =~= held(v) + data);
}

/// A burst is one chunk: in unbounded mode, reads that all fill the capacity
/// followed by one that comes up short hand out exactly one chunk, which is
/// what was held followed by every read of the burst in order.
pub proof fn lemma_unbounded_burst_is_one_chunk(v: ReaderStreamView, full: Seq<Seq<u8>>, last: Seq<u8>)
    requires
        v.unbounded,
        forall|i: int| 0 <= i < full.len() ==> #[trigger] full[i].len() >= v.capacity,
        last.len() < v.capacity,
    ensures
        run(v, full.push(last)).0 == seq![held(v) + full.flatten() + last],
        held(run(v, full.push(last)).1).len() == 0,
    decreases full.len(),
{
    let reads = full.push(last);
    if full.len() == 0 {
        lemma_unbounded_full_read_gathers(v, last);
        assert(reads =~= seq![last]);
        assert(full.flatten() =~= Seq::<u8>::empty());
        assert(held(v) + Seq::<u8>::empty() =~= held(v));
        assert(reads.drop_first() =~= Seq::<Seq<u8>>::empty());
        assert(run(read_step(v, last).1, reads.drop_first()).0 =~= Seq::<Seq<u8>>::empty());
        assert(seq![held(v) + last] + Seq::<Seq<u8>>::empty() =~= seq![held(v) + last]);
    } else {
        lemma_unbounded_full_read_gathers(v, full[0]);
        let v1 = read_step(v, full[0]).1;
        let tail = full.drop_first();
        assert forall|i: int| 0 <= i < tail.len() implies #[trigger] tail[i].len() >= v1.capacity by {
            assert(tail[i] == full[i + 1]);
        }
        lemma_unbounded_burst_is_one_chunk(v1, tail, last);
        assert(reads[0] == full[0]);
        assert(reads.drop_first() =~= tail.push(last));
        assert(full.flatten() == full[0] + tail.flatten());
        assert(held(v1) + tail.flatten() + last =~= held(v) + full.flatten() + last);
    }
}

/// Chunk stream over an asynchronous reader.
pub struct ReaderStream<R> {
    reader: Option<R>,
    buf: bytes::BytesMut,
    chunk: bytes::BytesMut,
    capacity: usize,
    unbounded: bool,
}

impl<R> View for ReaderStream<R> {
    type V = ReaderStreamView;

    closed spec fn view(&self) -> ReaderStreamView {
        ReaderStreamView {
            has_reader: self.reader is Some,
            buf: bytes_mut_contents(self.buf),
            chunk: bytes_mut_contents(self.chunk),
            capacity: self.capacity as nat,
            unbounded: self.unbounded,
        }
    }
}

impl<R> ReaderStream<R> {
    /// An unbounded stream over `reader` with the default capacity.
    pub fn new(reader: R) -> (s: Self)
        ensures
            s@ == (ReaderStreamView {
                has_reader: true,
                buf: Seq::empty(),
                chunk: Seq::empty(),
                capacity: DEFAULT_BUFFER_SIZE as nat,
                unbounded: true,
            }),
            gathers_only_unbounded(s@),
    {
        ReaderStream {
            reader: Some(reader),
            buf: bytes_mut_new(),
            chunk: bytes_mut_with_capacity(DEFAULT_BUFFER_SIZE),
            capacity: DEFAULT_BUFFER_SIZE,
            unbounded: true,
        }
    }

    /// A bounded stream over `reader` that reads `capacity` bytes at a time.
    pub fn with_capacity(reader: R, capacity: usize) -> (s: Self)
        ensures
            s@ == (ReaderStreamView {
                has_reader: true,
                buf: Seq::empty(),
                chunk: Seq::empty(),
                capacity: capacity as nat,
                unbounded: false,
            }),
            gathers_only_unbounded(s@),
    {
        ReaderStream {
            reader: Some(reader),
            buf: bytes_mut_with_capacity(capacity),
            chunk: bytes_mut_new(),
            capacity,
            unbounded: false,
        }
    }

    /// Allows this stream's internal buffer to grow as needed
    /// to accommodate throughput
    pub fn unbounded(self) -> (s: Self)
        ensures
            s@ == (ReaderStreamView { unbounded: true, ..self@ }),
            gathers_only_unbounded(s@),
    {
        ReaderStream { unbounded: true, ..self }
    }

    /// How many bytes one read asks for.
    pub fn capacity(&self) -> (c: usize)
        ensures
            c == self@.capacity,
    {
        self.capacity
    }

    /// How many bytes the next read asks for; with a capacity, never more
    /// than it, so each chunk of a bounded stream is at most the capacity.
    pub fn read_size(&self) -> (n: usize)
        ensures
            n == read_size_of(self@),
            self@.capacity > 0 ==> n <= self@.capacity,
    {
        if self.capacity == 0 {
            64
        } else {
            self.capacity
        }
    }

    /// The reader, to read from; `None` once the stream has none, which ends it.
    pub fn reader_mut(&mut self) -> (r: Option<&mut R>)
        ensures
            r is Some <==> old(self)@.has_reader,
            final(self)@ == old(self)@,
    {
        self.reader.as_mut()
    }

    /// Decides what a read that gave `data` leads to (an empty `data` is the
    /// reader's end): a chunk to hand out, or, in unbounded mode after a read
    /// that filled the capacity, another read.
    pub fn on_read(&mut self, data: &[u8]) -> (step: ReadStep)
        ensures
            (match step {
                ReadStep::Chunk(c) => read_step(old(self)@, data@) == (Some(c@), final(self)@),
                ReadStep::Continue => read_step(old(self)@, data@) == (None::<Seq<u8>>, final(self)@),
            }),
            gathers_only_unbounded(old(self)@) ==> gathers_only_unbounded(final(self)@),
            old(self)@.unbounded && data@.len() >= old(self)@.capacity ==> (step is Continue
                && final(self)@.chunk == old(self)@.chunk + old(self)@.buf + data@),
            old(self)@.unbounded && data@.len() < old(self)@.capacity ==> (step matches ReadStep::Chunk(c)
                && c@ == old(self)@.chunk + old(self)@.buf + data@ && final(self)@.chunk.len() == 0),
            !old(self)@.unbounded ==> (step matches ReadStep::Chunk(c) && c@ == old(self)@.buf + data@),
            final(self)@.buf.len() == 0,
    {
        if self.unbounded {
            bytes_mut_extend(&mut self.buf, data);
            let read = bytes_mut_split(&mut self.buf);
            bytes_mut_unsplit(&mut self.chunk, read);
            assert(bytes_mut_contents(self.chunk) =~= old(self)@.chunk + old(self)@.buf + data@);
            if data.len() >= self.capacity {
                ReadStep::Continue
            } else {
                let gathered = bytes_mut_split(&mut self.chunk);
                ReadStep::Chunk(bytes_mut_to_vec(&gathered))
            }
        } else {
            bytes_mut_extend(&mut self.buf, data);
            let read = bytes_mut_split(&mut self.buf);
            ReadStep::Chunk(bytes_mut_to_vec(&read))
        }
    }
}

} // verus!
