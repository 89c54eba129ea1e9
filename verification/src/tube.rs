//! The two halves of a tube: `Tx` frames outgoing messages into bytes for a
//! writer, `Rx` gathers bytes from a reader and takes messages out of them.
use vstd::prelude::*;

use crate::error::{io_error_other, Error};
use crate::framing::{
    all_fit, codec_decode, codec_encode, drain, frame, frames_of, lemma_frame_split, lemma_frames_of_push, lemma_tube_delivers_in_order,
    rest_after_decode, split_frame, MAX_FRAME_LENGTH,
};
use crate::serde::codec::{SymmetricalTuber, Tuber};
use crate::serde::{decodes_as, encodes_as, Decode, Encode};

verus! {

/// How the queue of a sending half changes, and what sending returns, when
/// the item's encoding gave `encoded`: its frame is queued when it fits,
/// else nothing is queued and the error comes back.
pub open spec fn sent_as(encoded: Result<Vec<u8>, std::io::Error>, before: Seq<u8>, after: Seq<u8>, r: Result<(), Error>) -> bool {
    match encoded {
        Ok(b) => if b@.len() <= MAX_FRAME_LENGTH {
            r is Ok && after == before + frame(b@)
        } else {
            (r matches Err(e) && e is IoError) && after == before
        },
        Err(e) => r == Err::<(), Error>(Error::IoError(e)) && after == before,
    }
}

/// What receiving an item gives when its payload's decoding gave `decoded`.
pub open spec fn item_outcome<T>(decoded: Result<T, std::io::Error>) -> Result<Option<T>, Error> {
    match decoded {
        Ok(v) => Ok(Some(v)),
        Err(e) => Err(Error::IoError(e)),
    }
}

/// `r` is what receiving the frame with payload `payload` gives: the
/// decoding of exactly those bytes, or its error.
pub open spec fn received_as<T: Decode>(payload: Seq<u8>, r: Result<Option<T>, Error>) -> bool {
    exists|d: Result<T, std::io::Error>| #[trigger] decodes_as::<T>(payload, d) && r == item_outcome(d)
}

/// How taking out an item changes the bytes a receiving half holds, and what
/// it gives: nothing while no whole frame has arrived, the decoding of the
/// front frame's payload once it has (that frame consumed), and an error for
/// a refused header.
pub open spec fn next_item_step<T: Decode>(before: Seq<u8>, after: Seq<u8>, r: Result<Option<T>, Error>) -> bool {
    match split_frame(before) {
        Ok(None) => r matches Ok(None) && after == before,
        Ok(Some(p)) => after == before.skip(4 + p.len() as int) && received_as::<T>(p, r),
        Err(_) => (r matches Err(e) && e is IoError && after == before),
    }
}

/// Sending half of a tube: the framed bytes of the messages sent and not yet
/// handed to the writer.
pub struct Tx<T> {
    outgoing: Vec<u8>,
    tuber: SymmetricalTuber<T>,
}

impl<T> View for Tx<T> {
    type V = Seq<u8>;

    closed spec fn view(&self) -> Seq<u8> {
        self.outgoing@
    }
}

impl<T> Tx<T> {
    /// A sending half with nothing waiting to be written.
    pub fn new() -> (tx: Self)
        ensures
            tx@ == Seq::<u8>::empty(),
    {
        Tx { outgoing: Vec::new(), tuber: Tuber::default() }
    }

    /// Queues the frame that carries `payload`. A payload longer than
    /// `MAX_FRAME_LENGTH` is refused and nothing is queued.
    pub fn send_payload(&mut self, payload: &[u8]) -> (r: Result<(), Error>)
        ensures
            r is Ok <==> payload@.len() <= MAX_FRAME_LENGTH,
            r is Ok ==> final(self)@ == old(self)@ + frame(payload@),
            r matches Err(e) ==> e is IoError && final(self)@ == old(self)@,
    {
        match codec_encode(payload) {
            Ok(f) => {
                self.outgoing.extend_from_slice(f.as_slice());
                assert(self.outgoing@ =~= old(self)@ + f@);
                Ok(())
            },
            Err(e) => Err(Error::IoError(e)),
        }
    }

    /// The bytes waiting to be written, oldest first.
    pub fn pending(&self) -> (r: &[u8])
        ensures
            r@ == self@,
    {
        self.outgoing.as_slice()
    }

    /// Forgets the first `n` waiting bytes (all of them if fewer are waiting):
    /// the writer has taken them.
    pub fn consume(&mut self, n: usize)
        ensures
            n <= old(self)@.len() ==> final(self)@ == old(self)@.skip(n as int),
            n > old(self)@.len() ==> final(self)@ == Seq::<u8>::empty(),
    {
        let at = if n <= self.outgoing.len() { n } else { self.outgoing.len() };
        let rest = self.outgoing.split_off(at);
        self.outgoing = rest;
        assert(n > old(self)@.len() ==> self.outgoing@ =~= Seq::<u8>::empty());
    }
}

impl<T: Encode> Tx<T> {
    /// Encodes `item` and queues the frame that carries its bytes. Which bytes
    /// these are is the item's `Encode` to say; an encoding error, or bytes
    /// longer than `MAX_FRAME_LENGTH`, leave the queue as it was.
    pub fn start_send(&mut self, item: T) -> (r: Result<(), Error>)
        ensures
            exists|encoded: Result<Vec<u8>, std::io::Error>|
                #[trigger] encodes_as(&item, encoded) && sent_as(encoded, old(self)@, final(self)@, r),
    {
        let encoded = self.tuber.serialize(&item);
        let ghost witness = encoded;
        let r = match encoded {
            Ok(bytes) => self.send_payload(bytes.as_slice()),
            Err(e) => Err(Error::IoError(e)),
        };
        assert(encodes_as(&item, witness) && sent_as(witness, old(self)@, self@, r));
        r
    }
}

/// Receiving half of a tube: the bytes read and not yet taken out as messages.
pub struct Rx<T> {
    incoming: Vec<u8>,
    tuber: SymmetricalTuber<T>,
}

impl<T> View for Rx<T> {
    type V = Seq<u8>;

    closed spec fn view(&self) -> Seq<u8> {
        self.incoming@
    }
}

impl<T> Rx<T> {
    /// A receiving half that has read nothing yet.
    pub fn new() -> (rx: Self)
        ensures
            rx@ == Seq::<u8>::empty(),
    {
        Rx { incoming: Vec::new(), tuber: Tuber::default() }
    }

    /// Adds bytes that the reader gave.
    pub fn receive(&mut self, chunk: &[u8])
        ensures
            final(self)@ == old(self)@ + chunk@,
    {
        self.incoming.extend_from_slice(chunk);
        assert(self.incoming@ =~= old(self)@ + chunk@);
    }

    /// Takes out the payload of the frame at the front, if it has fully arrived.
    /// A header announcing more than `MAX_FRAME_LENGTH` bytes is an error and
    /// leaves the bytes as they were.
    pub fn next_frame(&mut self) -> (r: Result<Option<Vec<u8>>, Error>)
        ensures
            (match split_frame(old(self)@) {
                Ok(None) => r matches Ok(None) && final(self)@ == old(self)@,
                Ok(Some(p)) => (r matches Ok(Some(f)) && f@ == p
                    && final(self)@ == old(self)@.skip(4 + p.len() as int)),
                Err(_) => (r matches Err(e) && e is IoError && final(self)@ == old(self)@),
            }),
    {
        self.take_frame().0
    }

    /// `next_frame`, with the number of bytes the codec left behind.
    fn take_frame(&mut self) -> (r: (Result<Option<Vec<u8>>, Error>, usize))
        ensures
            (match split_frame(old(self)@) {
                Ok(None) => r.0 matches Ok(None) && final(self)@ == old(self)@,
                Ok(Some(p)) => (r.0 matches Ok(Some(f)) && f@ == p
                    && final(self)@ == old(self)@.skip(4 + p.len() as int)),
                Err(_) => (r.0 matches Err(e) && e is IoError && final(self)@ == old(self)@),
            }),
            r.1 == rest_after_decode(old(self)@),
    {
        let (res, rest_len) = codec_decode(self.incoming.as_slice());
        match res {
            Ok(Some(f)) => {
                let rest = self.incoming.split_off(4 + f.len());
                self.incoming = rest;
                (Ok(Some(f)), rest_len)
            },
            Ok(None) => (Ok(None), rest_len),
            Err(e) => (Err(Error::IoError(e)), rest_len),
        }
    }

    /// `next_frame` once the reader has ended: when no whole frame is left,
    /// bytes that the codec could not consume are an error ("bytes remaining
    /// on stream"); an accepted header with no payload byte after it has been
    /// consumed and ends the stream cleanly.
    pub fn next_frame_at_end(&mut self) -> (r: Result<Option<Vec<u8>>, Error>)
        ensures
            (match split_frame(old(self)@) {
                Ok(None) => final(self)@ == old(self)@
                    && (r is Ok <==> rest_after_decode(old(self)@) == 0)
                    && (r is Ok ==> r matches Ok(None))
                    && (r matches Err(e) ==> e is IoError),
                Ok(Some(p)) => (r matches Ok(Some(f)) && f@ == p
                    && final(self)@ == old(self)@.skip(4 + p.len() as int)),
                Err(_) => (r matches Err(e) && e is IoError && final(self)@ == old(self)@),
            }),
    {
        let (res, rest_len) = self.take_frame();
        match res {
            Ok(None) => {
                if rest_len == 0 {
                    Ok(None)
                } else {
                    Err(Error::IoError(io_error_other("bytes remaining on stream")))
                }
            },
            other => other,
        }
    }
}

impl<T: Decode> Rx<T> {
    /// The item carried by the outcome of taking out a frame: its payload
    /// decoded, or the outcome passed on.
    pub fn decode_frame(&self, frame: Result<Option<Vec<u8>>, Error>) -> (r: Result<Option<T>, Error>)
        ensures
            frame matches Ok(None) ==> r matches Ok(None),
            frame matches Ok(Some(f)) ==> received_as::<T>(f@, r),
            frame is Err ==> (r matches Err(e) && e == frame.unwrap_err()),
    {
        match frame {
            Ok(Some(bytes)) => {
                let src = bytes.as_slice();
                let decoded = self.tuber.deserialize(src);
                let ghost witness = decoded;
                let r = match decoded {
                    Ok(item) => Ok(Some(item)),
                    Err(e) => Err(Error::IoError(e)),
                };
                assert(decodes_as::<T>(bytes@, witness));
                assert(r == item_outcome(witness));
                r
            },
            Ok(None) => Ok(None),
            Err(e) => Err(e),
        }
    }

    /// Takes out and decodes the message at the front, if it has fully arrived.
    pub fn next_item(&mut self) -> (r: Result<Option<T>, Error>)
        ensures
            next_item_step::<T>(old(self)@, final(self)@, r),
    {
        let f = self.next_frame();
        self.decode_frame(f)
    }

    /// `next_item` once the reader has ended.
    pub fn next_item_at_end(&mut self) -> (r: Result<Option<T>, Error>)
        ensures
            (match split_frame(old(self)@) {
                Ok(None) => final(self)@ == old(self)@
                    && (r is Ok <==> rest_after_decode(old(self)@) == 0)
                    && (r is Ok ==> r matches Ok(None))
                    && (r matches Err(e) ==> e is IoError),
                Ok(Some(p)) => final(self)@ == old(self)@.skip(4 + p.len() as int)
                    && received_as::<T>(p, r),
                Err(_) => (r matches Err(e) && e is IoError && final(self)@ == old(self)@),
            }),
    {
        let f = self.next_frame_at_end();
        self.decode_frame(f)
    }
}

/// A handle used for communication between host and workers: a sending half
/// for `In` items and a receiving half for `Out` items.
pub struct Tube<In, Out> {
    tx: Tx<In>,
    rx: Rx<Out>,
}

impl<In, Out> View for Tube<In, Out> {
    type V = (Seq<u8>, Seq<u8>);

    closed spec fn view(&self) -> (Seq<u8>, Seq<u8>) {
        (self.tx@, self.rx@)
    }
}

impl<In: Encode + Decode, Out: Encode + Decode> Tube<In, Out> {
    pub fn new(tx: Tx<In>, rx: Rx<Out>) -> (t: Self)
        ensures
            t@ == (tx@, rx@),
    {
        Tube { tx, rx }
    }

    /// Split the tube into its underlying sink & stream
    pub fn split(self) -> (r: (Tx<In>, Rx<Out>))
        ensures
            (r.0@, r.1@) == self@,
    {
        (self.tx, self.rx)
    }
}

impl<In: Encode, Out> Tube<In, Out> {
    /// Sends `item` through the sending half (see `Tx::start_send`).
    pub fn start_send(&mut self, item: In) -> (r: Result<(), Error>)
        ensures
            final(self)@.1 == old(self)@.1,
            exists|encoded: Result<Vec<u8>, std::io::Error>|
                #[trigger] encodes_as(&item, encoded) && sent_as(encoded, old(self)@.0, final(self)@.0, r),
    {
        self.tx.start_send(item)
    }
}

impl<In, Out: Decode> Tube<In, Out> {
    /// Takes the next received item out of the receiving half (see `Rx::next_item`).
    pub fn next_item(&mut self) -> (r: Result<Option<Out>, Error>)
        ensures
            final(self)@.0 == old(self)@.0,
            next_item_step::<Out>(old(self)@.1, final(self)@.1, r),
    {
        self.rx.next_item()
    }
}

/// `T`'s decoding undoes its encoding: the bytes that encoding an item gives
/// decode to that item.
pub open spec fn round_trips<T: Encode + Decode>() -> bool {
    forall|item: T, b: Vec<u8>, d: Result<T, std::io::Error>|
        #![trigger encodes_as(&item, Ok::<Vec<u8>, std::io::Error>(b)), decodes_as::<T>(b@, d)]
        encodes_as(&item, Ok::<Vec<u8>, std::io::Error>(b)) && decodes_as::<T>(b@, d)
            ==> d == Ok::<T, std::io::Error>(item)
}

/// The payloads that the encodings `encodings` carry.
pub open spec fn payloads_of(encodings: Seq<Vec<u8>>) -> Seq<Seq<u8>> {
    encodings.map_values(|b: Vec<u8>| b@)
}

/// Items sent through a tube come back in order: when `T`'s decoding undoes
/// its encoding, the frames of the items' encodings (what sending them
/// queues) are read back as exactly those payloads, nothing left over, and
/// receiving each gives back its item.
pub proof fn lemma_items_delivered_in_order<T: Encode + Decode>(items: Seq<T>, encodings: Seq<Vec<u8>>)
    requires
        round_trips::<T>(),
        items.len() == encodings.len(),
        forall|i: int| 0 <= i < items.len()
            ==> #[trigger] encodes_as(&items[i], Ok::<Vec<u8>, std::io::Error>(encodings[i])),
        all_fit(payloads_of(encodings)),
    ensures
        drain(frames_of(payloads_of(encodings))) == (payloads_of(encodings), Seq::<u8>::empty()),
        forall|i: int, r: Result<Option<T>, Error>|
            0 <= i < items.len() && #[trigger] received_as::<T>(payloads_of(encodings)[i], r)
                ==> r == Ok::<Option<T>, Error>(Some(items[i])),
{
    lemma_tube_delivers_in_order(payloads_of(encodings));
    assert forall|i: int, r: Result<Option<T>, Error>|
        0 <= i < items.len() && #[trigger] received_as::<T>(payloads_of(encodings)[i], r)
            implies r == Ok::<Option<T>, Error>(Some(items[i])) by {
        let d = choose|d: Result<T, std::io::Error>|
            #[trigger] decodes_as::<T>(payloads_of(encodings)[i], d) && r == item_outcome(d);
        assert(payloads_of(encodings)[i] == encodings[i]@);
        assert(encodes_as(&items[i], Ok::<Vec<u8>, std::io::Error>(encodings[i])));
        assert(decodes_as::<T>(encodings[i]@, d));
    }
}

/// The bytes held after `k` successive item takings from the frames of `ps`
/// are the frames of the payloads from position `k` on.
proof fn lemma_successive_states<T: Decode>(
    ps: Seq<Seq<u8>>,
    states: Seq<Seq<u8>>,
    results: Seq<Result<Option<T>, Error>>,
    k: int,
)
    requires
        all_fit(ps),
        states.len() == results.len() + 1,
        results.len() <= ps.len(),
        states[0] == frames_of(ps),
        forall|j: int| 0 <= j < results.len() ==> #[trigger] next_item_step::<T>(states[j], states[j + 1], results[j]),
        0 <= k <= results.len(),
    ensures
        states[k] == frames_of(ps.skip(k)),
        k < results.len() ==> received_as::<T>(ps[k], results[k]),
    decreases k,
{
    if k > 0 {
        lemma_successive_states(ps, states, results, k - 1);
        let rest = ps.skip(k - 1);
        assert(rest[0] == ps[k - 1]);
        assert(rest.drop_first() =~= ps.skip(k));
        assert(ps[k - 1].len() <= MAX_FRAME_LENGTH);
        lemma_frame_split(ps[k - 1], frames_of(ps.skip(k)));
        assert(next_item_step::<T>(states[k - 1], states[(k - 1) + 1], results[k - 1]));
    } else {
        assert(ps.skip(0) =~= ps);
    }
    if k < results.len() {
        let rest = ps.skip(k);
        assert(rest[0] == ps[k]);
        assert(rest.drop_first() =~= ps.skip(k + 1));
        assert(ps[k].len() <= MAX_FRAME_LENGTH);
        lemma_frame_split(ps[k], frames_of(ps.skip(k + 1)));
        assert(next_item_step::<T>(states[k], states[k + 1], results[k]));
    }
}

/// Items sent come back in order from successive `next_item` calls: starting
/// from the frames of the items' encodings (what sending them queues), when
/// `T`'s decoding undoes its encoding, the `k`-th taking gives the `k`-th
/// item, and once all are taken nothing is held.
pub proof fn lemma_successive_items_in_order<T: Encode + Decode>(
    items: Seq<T>,
    encodings: Seq<Vec<u8>>,
    states: Seq<Seq<u8>>,
    results: Seq<Result<Option<T>, Error>>,
)
    requires
        round_trips::<T>(),
        items.len() == encodings.len(),
        forall|i: int| 0 <= i < items.len()
            ==> #[trigger] encodes_as(&items[i], Ok::<Vec<u8>, std::io::Error>(encodings[i])),
        all_fit(payloads_of(encodings)),
        states.len() == results.len() + 1,
        results.len() <= items.len(),
        states[0] == frames_of(payloads_of(encodings)),
        forall|j: int| 0 <= j < results.len() ==> #[trigger] next_item_step::<T>(states[j], states[j + 1], results[j]),
    ensures
        forall|k: int| 0 <= k < results.len() ==> #[trigger] results[k] == Ok::<Option<T>, Error>(Some(items[k])),
        states[results.len() as int] == frames_of(payloads_of(encodings).skip(results.len() as int)),
        results.len() == items.len() ==> states[results.len() as int].len() == 0,
{
    let ps = payloads_of(encodings);
    lemma_items_delivered_in_order(items, encodings);
    lemma_successive_states(ps, states, results, results.len() as int);
    assert forall|k: int| 0 <= k < results.len() implies #[trigger] results[k] == Ok::<Option<T>, Error>(Some(items[k])) by {
        lemma_successive_states(ps, states, results, k);
    }
    if results.len() == items.len() {
        assert(ps.skip(results.len() as int) =~= Seq::<Seq<u8>>::empty());
        assert(frames_of(Seq::<Seq<u8>>::empty()) == Seq::<u8>::empty());
    }
}

/// Successive sends queue the items' frames one after the other: from an
/// empty queue, sending items whose encodings fit leaves exactly the frames
/// of those encodings, and every send succeeds.
pub proof fn lemma_successive_sends(
    encodings: Seq<Vec<u8>>,
    queues: Seq<Seq<u8>>,
    results: Seq<Result<(), Error>>,
)
    requires
        all_fit(payloads_of(encodings)),
        queues.len() == encodings.len() + 1,
        results.len() == encodings.len(),
        queues[0] == Seq::<u8>::empty(),
        forall|k: int| 0 <= k < encodings.len()
            ==> #[trigger] sent_as(Ok::<Vec<u8>, std::io::Error>(encodings[k]), queues[k], queues[k + 1], results[k]),
    ensures
        queues[encodings.len() as int] == frames_of(payloads_of(encodings)),
        forall|k: int| 0 <= k < results.len() ==> #[trigger] results[k] is Ok,
    decreases encodings.len(),
{
    let n = encodings.len() as int;
    let ps = payloads_of(encodings);
    if n == 0 {
        assert(frames_of(ps) == Seq::<u8>::empty());
    } else {
        let front = encodings.drop_last();
        assert(all_fit(payloads_of(front))) by {
            assert forall|i: int| 0 <= i < payloads_of(front).len() implies #[trigger] payloads_of(front)[i].len() <= MAX_FRAME_LENGTH by {
                assert(payloads_of(front)[i] == ps[i]);
            }
        }
        assert forall|k: int| 0 <= k < front.len() implies #[trigger] sent_as(Ok::<Vec<u8>, std::io::Error>(front[k]), queues.drop_last()[k], queues.drop_last()[k + 1], results.drop_last()[k]) by {
            assert(sent_as(Ok::<Vec<u8>, std::io::Error>(encodings[k]), queues[k], queues[k + 1], results[k]));
        }
        lemma_successive_sends(front, queues.drop_last(), results.drop_last());
        assert(ps =~= payloads_of(front).push(encodings[n - 1]@));
        lemma_frames_of_push(payloads_of(front), encodings[n - 1]@);
        assert(ps[n - 1].len() <= MAX_FRAME_LENGTH);
        assert(sent_as(Ok::<Vec<u8>, std::io::Error>(encodings[n - 1]), queues[n - 1], queues[(n - 1) + 1], results[n - 1]));
        assert forall|k: int| 0 <= k < results.len() implies #[trigger] results[k] is Ok by {
            if k < n - 1 {
                assert(results.drop_last()[k] is Ok);
            }
        }
    }
}

} // verus!
