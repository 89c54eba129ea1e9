//! The wire format of a tube: each message travels as one length-delimited
//! frame, a 4-byte big-endian length followed by that many payload bytes.
use vstd::prelude::*;
use bytes::BytesMut;
use tokio_util::codec::{Decoder, Encoder, LengthDelimitedCodec};

verus! {

/// Largest payload that one frame may carry (8 MiB, the codec's default).
pub const MAX_FRAME_LENGTH: usize = 8_388_608;

/// The 4-byte big-endian form of `n`.
pub open spec fn be32_bytes(n: nat) -> Seq<u8> {
    seq![
        (n / 0x1000000 % 0x100) as u8,
        (n / 0x10000 % 0x100) as u8,
        (n / 0x100 % 0x100) as u8,
        (n % 0x100) as u8,
    ]
}

/// The number whose 4-byte big-endian form starts `b`.
pub open spec fn be32_value(b: Seq<u8>) -> nat
    recommends
        b.len() >= 4,
{
    (b[0] as nat) * 0x1000000 + (b[1] as nat) * 0x10000 + (b[2] as nat) * 0x100 + (b[3] as nat)
}

/// The frame that carries `payload`.
pub open spec fn frame(payload: Seq<u8>) -> Seq<u8> {
    be32_bytes(payload.len()) + payload
}

/// What a buffer of received bytes starts with: a frame's payload
/// (`Ok(Some(..))`), not yet a whole frame (`Ok(None)`), or a header that
/// announces more than `MAX_FRAME_LENGTH` bytes (`Err(())`).
pub open spec fn split_frame(buf: Seq<u8>) -> Result<Option<Seq<u8>>, ()> {
    if buf.len() < 4 {
        Ok(None)
    } else if be32_value(buf) > MAX_FRAME_LENGTH {
        Err(())
    } else if buf.len() < 4 + be32_value(buf) {
        Ok(None)
    } else {
        Ok(Some(buf.subrange(4, 4 + be32_value(buf) as int)))
    }
}

/// `LengthDelimitedCodec::new()` and its `Encoder<&[u8]>::encode` into an empty buffer.
/// Claimed, as the codec's source shows for its default settings (a 4-byte
/// big-endian length field, no offset or adjustment, an 8 MiB limit): a payload
/// of at most `MAX_FRAME_LENGTH` bytes is framed, a longer one is refused.
#[verifier::external_body]
pub(crate) fn codec_encode(payload: &[u8]) -> (r: Result<Vec<u8>, std::io::Error>)
    ensures
        r is Ok <==> payload@.len() <= MAX_FRAME_LENGTH,
        r matches Ok(f) ==> f@ == frame(payload@),
{
    let mut dst = BytesMut::new();
    match LengthDelimitedCodec::new().encode(payload, &mut dst) {
        Ok(()) => Ok(dst.to_vec()),
        Err(e) => Err(e),
    }
}

/// How many of the bytes of `buf` a new codec's `decode` leaves in the
/// buffer: all of them when fewer than 4 arrived or the header is refused,
/// those after the header when the payload has not fully arrived, and those
/// after the frame when it has.
pub open spec fn rest_after_decode(buf: Seq<u8>) -> nat {
    if buf.len() < 4 || be32_value(buf) > MAX_FRAME_LENGTH {
        buf.len()
    } else if buf.len() < 4 + be32_value(buf) {
        (buf.len() - 4) as nat
    } else {
        (buf.len() - 4 - be32_value(buf)) as nat
    }
}

/// `LengthDelimitedCodec::new()` and its `Decoder::decode` on a copy of `buf`,
/// with the number of bytes the codec left in that copy.
/// A new codec starts by reading a header, so, as its source shows: fewer than
/// 4 bytes leave everything and give `Ok(None)`; a header above the 8 MiB limit
/// gives an error before anything is consumed; an accepted header is consumed,
/// and then the payload comes out if it has fully arrived, else `Ok(None)`.
#[verifier::external_body]
pub(crate) fn codec_decode(buf: &[u8]) -> (r: (Result<Option<Vec<u8>>, std::io::Error>, usize))
    ensures
        (match split_frame(buf@) {
            Ok(None) => r.0 matches Ok(None),
            Ok(Some(p)) => (r.0 matches Ok(Some(f)) && f@ == p),
            Err(_) => r.0 is Err,
        }),
        r.1 == rest_after_decode(buf@),
{
    let mut src = BytesMut::from(buf);
    let res = match LengthDelimitedCodec::new().decode(&mut src) {
        Ok(Some(f)) => Ok(Some(f.to_vec())),
        Ok(None) => Ok(None),
        Err(e) => Err(e),
    };
    (res, src.len())
}

/// Reading back a 4-byte big-endian number gives the number.
pub proof fn lemma_be32_roundtrip(n: nat, rest: Seq<u8>)
    requires
        n < 0x1_0000_0000,
    ensures
        be32_value(be32_bytes(n) + rest) == n,
{
    let b = be32_bytes(n) + rest;
    assert(b[0] == (n / 0x1000000 % 0x100) as u8);
    assert(b[1] == (n / 0x10000 % 0x100) as u8);
    assert(b[2] == (n / 0x100 % 0x100) as u8);
    assert(b[3] == (n % 0x100) as u8);
    assert((n / 0x1000000 % 0x100) * 0x1000000 + (n / 0x10000 % 0x100) * 0x10000
        + (n / 0x100 % 0x100) * 0x100 + n % 0x100 == n) by (nonlinear_arith)
        requires
            n < 0x1_0000_0000,
    ;
}

/// The bytes of the frames that carry `ps`, one after the other.
pub open spec fn frames_of(ps: Seq<Seq<u8>>) -> Seq<u8>
    decreases ps.len(),
{
    if ps.len() == 0 {
        Seq::empty()
    } else {
        frame(ps[0]) + frames_of(ps.drop_first())
    }
}

/// Every payload of `ps` fits in one frame.
pub open spec fn all_fit(ps: Seq<Seq<u8>>) -> bool {
    forall|i: int| 0 <= i < ps.len() ==> #[trigger] ps[i].len() <= MAX_FRAME_LENGTH
}

/// The payloads of the whole frames at the front of `buf`, taken one after
/// the other, and the bytes left behind them.
pub open spec fn drain(buf: Seq<u8>) -> (Seq<Seq<u8>>, Seq<u8>)
    decreases buf.len(),
{
    if let Ok(Some(p)) = split_frame(buf) {
        let next = drain(buf.skip(4 + p.len() as int));
        (seq![p] + next.0, next.1)
    } else {
        (Seq::empty(), buf)
    }
}

/// Taking one frame out of a buffer is the first step of `drain`: its
/// payload is the first drained payload, and draining the rest gives the others.
pub proof fn lemma_drain_first(buf: Seq<u8>)
    ensures
        split_frame(buf) matches Ok(Some(p)) ==> {
            &&& drain(buf).0.len() > 0
            &&& drain(buf).0[0] == p
            &&& drain(buf.skip(4 + p.len() as int)) == (drain(buf).0.drop_first(), drain(buf).1)
        },
        !(split_frame(buf) matches Ok(Some(_))) ==> drain(buf) == (Seq::<Seq<u8>>::empty(), buf),
{
    if let Ok(Some(p)) = split_frame(buf) {
        let next = drain(buf.skip(4 + p.len() as int));
        assert((seq![p] + next.0).drop_first() =~= next.0);
    }
}

/// A frame is read back whole: the payload comes out and exactly the frame's
/// bytes are consumed, whatever follows it.
pub proof fn lemma_frame_split(payload: Seq<u8>, rest: Seq<u8>)
    requires
        payload.len() <= MAX_FRAME_LENGTH,
    ensures
        split_frame(frame(payload) + rest) == Ok::<Option<Seq<u8>>, ()>(Some(payload)),
        (frame(payload) + rest).skip(4 + payload.len() as int) == rest,
{
    let b = frame(payload) + rest;
    assert(b =~= be32_bytes(payload.len()) + (payload + rest));
    lemma_be32_roundtrip(payload.len(), payload + rest);
    assert(b.subrange(4, 4 + payload.len() as int) =~= payload);
    assert(b.skip(4 + payload.len() as int) =~= rest);
}

/// Frames written one after the other are read back in the same order, and
/// what follows them is left as it was.
pub proof fn lemma_drain_frames(ps: Seq<Seq<u8>>, rest: Seq<u8>)
    requires
        all_fit(ps),
    ensures
        drain(frames_of(ps) + rest) == (ps + drain(rest).0, drain(rest).1),
    decreases ps.len(),
{
    if ps.len() == 0 {
        assert(frames_of(ps) + rest =~= rest);
        assert(ps + drain(rest).0 =~= drain(rest).0);
    } else {
        let tail = ps.drop_first();
        assert(all_fit(tail)) by {
            assert forall|i: int| 0 <= i < tail.len() implies #[trigger] tail[i].len() <= MAX_FRAME_LENGTH by {
                assert(tail[i] == ps[i + 1]);
            }
        }
        assert(ps[0].len() <= MAX_FRAME_LENGTH);
        let after = frames_of(tail) + rest;
        assert(frames_of(ps) + rest =~= frame(ps[0]) + after);
        lemma_frame_split(ps[0], after);
        lemma_drain_frames(tail, rest);
        assert(ps =~= seq![ps[0]] + tail);
        assert(ps + drain(rest).0 =~= seq![ps[0]] + (tail + drain(rest).0));
    }
}

/// Appending a payload's frame to the frames of earlier payloads gives the
/// frames of all of them.
pub proof fn lemma_frames_of_push(ps: Seq<Seq<u8>>, p: Seq<u8>)
    ensures
        frames_of(ps.push(p)) == frames_of(ps) + frame(p),
    decreases ps.len(),
{
    if ps.len() == 0 {
        assert(ps.push(p).drop_first() =~= Seq::<Seq<u8>>::empty());
        assert(ps.push(p)[0] == p);
        assert(frames_of(Seq::<Seq<u8>>::empty()) == Seq::<u8>::empty());
        assert(frames_of(ps.push(p)) =~= frame(p) + Seq::<u8>::empty());
        assert(frames_of(ps) + frame(p) =~= frame(p));
    } else {
        lemma_frames_of_push(ps.drop_first(), p);
        assert(ps.push(p).drop_first() =~= ps.drop_first().push(p));
        assert(frames_of(ps.push(p)) =~= frame(ps[0]) + (frames_of(ps.drop_first()) + frame(p)));
    }
}

/// What a tube carries arrives whole and in order: the frames of any payloads
/// that fit, read back, give exactly those payloads and leave nothing behind.
pub proof fn lemma_tube_delivers_in_order(ps: Seq<Seq<u8>>)
    requires
        all_fit(ps),
    ensures
        drain(frames_of(ps)) == (ps, Seq::<u8>::empty()),
{
    lemma_drain_frames(ps, Seq::empty());
    assert(frames_of(ps) + Seq::<u8>::empty() =~= frames_of(ps));
    assert(drain(Seq::<u8>::empty()) == (Seq::<Seq<u8>>::empty(), Seq::<u8>::empty()));
    assert(ps + Seq::<Seq<u8>>::empty() =~= ps);
}

} // verus!
