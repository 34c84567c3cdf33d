//! The on-blob format: each frame is a little-endian `u32` length followed by
//! that many payload bytes, and the stream ends with a length of zero.

use vstd::prelude::*;
use crate::page_blob_utils::zeros;

verus! {

/// Size of the length prefix of a frame, and of the end marker.
pub const PAYLOAD_SIZE_LEN: usize = 4;

/// The four little-endian bytes of `n`.
pub open spec fn le_bytes(n: u32) -> Seq<u8> {
    seq![(n & 0xff) as u8, ((n >> 8u32) & 0xff) as u8, ((n >> 16u32) & 0xff) as u8, ((n >> 24u32) & 0xff) as u8]
}

/// The `u32` whose little-endian bytes are `b[i..i + 4]`.
pub open spec fn le_value(b: Seq<u8>, i: int) -> u32 {
    (b[i] as u32) | ((b[i + 1] as u32) << 8u32) | ((b[i + 2] as u32) << 16u32) | ((b[i + 3] as u32) << 24u32)
}

/// The end marker: a frame length of zero.
pub open spec fn end_marker() -> Seq<u8> {
    zeros(4)
}

/// One frame: the payload's length, then the payload.
pub open spec fn frame(p: Seq<u8>) -> Seq<u8> {
    le_bytes(p.len() as u32) + p
}

/// The frames of `ps`, one after another.
pub open spec fn frames(ps: Seq<Seq<u8>>) -> Seq<u8>
    decreases ps.len(),
{
    if ps.len() == 0 {
        Seq::empty()
    } else {
        frame(ps[0]) + frames(ps.subrange(1, ps.len() as int))
    }
}

/// A whole stream: the frames of `ps` and the end marker.
pub open spec fn encode_stream(ps: Seq<Seq<u8>>) -> Seq<u8> {
    frames(ps) + end_marker()
}

/// Every payload is non-empty and at most `max` bytes long.
pub open spec fn payloads_fit(ps: Seq<Seq<u8>>, max: int) -> bool {
    forall|i: int| 0 <= i < ps.len() ==> 0 < #[trigger] ps[i].len() <= max
}

/// What a reader finds at position `pos` of a blob's bytes.
pub enum FrameAt {
    /// A frame whose payload is given.
    Payload(Seq<u8>),
    /// The end marker.
    End,
    /// A length above the limit.
    TooLarge(u32),
    /// The blob ends inside the length or the payload.
    Short,
}

/// The frame at `pos` of `content`, with payloads limited to `max` bytes.
pub open spec fn frame_at(content: Seq<u8>, pos: int, max: u32) -> FrameAt {
    if pos + 4 > content.len() {
        FrameAt::Short
    } else {
        let len = le_value(content, pos);
        if len == 0 {
            FrameAt::End
        } else if len > max {
            FrameAt::TooLarge(len)
        } else if pos + 4 + len > content.len() {
            FrameAt::Short
        } else {
            FrameAt::Payload(content.subrange(pos + 4, pos + 4 + len))
        }
    }
}

/// How a full read of a blob ends.
pub enum StreamEnd {
    /// At an end marker at the given position.
    Clean(int),
    /// At a frame that cannot be read, starting at the given position.
    Corrupted(int),
}

/// The payloads that a reader returns from position `pos` on, and how it stops.
pub open spec fn decode_from(content: Seq<u8>, pos: int, max: u32) -> (Seq<Seq<u8>>, StreamEnd)
    decreases content.len() - pos,
{
    match frame_at(content, pos, max) {
        FrameAt::Payload(p) => {
            if pos < 0 {
                (Seq::empty(), StreamEnd::Corrupted(pos))
            } else {
                let rest = decode_from(content, pos + 4 + p.len(), max);
                (seq![p] + rest.0, rest.1)
            }
        },
        FrameAt::End => (Seq::empty(), StreamEnd::Clean(pos)),
        _ => (Seq::empty(), StreamEnd::Corrupted(pos)),
    }
}

/// The payloads of a whole blob, and how its stream ends.
pub open spec fn decode(content: Seq<u8>, max: u32) -> (Seq<Seq<u8>>, StreamEnd) {
    decode_from(content, 0, max)
}

/// The bytes of a `u32` read back give the `u32`.
pub proof fn lemma_le_round_trip(n: u32)
    ensures
        le_value(le_bytes(n), 0) == n,
        le_bytes(n).len() == 4,
{
    let b = le_bytes(n);
    let b0 = (n & 0xff) as u8;
    let b1 = ((n >> 8u32) & 0xff) as u8;
    let b2 = ((n >> 16u32) & 0xff) as u8;
    let b3 = ((n >> 24u32) & 0xff) as u8;
    assert(b[0] == b0 && b[1] == b1 && b[2] == b2 && b[3] == b3);
    assert(((b0 as u32) | ((b1 as u32) << 8u32) | ((b2 as u32) << 16u32) | ((b3 as u32) << 24u32)) == n)
        by (bit_vector)
        requires
            b0 == (n & 0xff) as u8,
            b1 == ((n >> 8u32) & 0xff) as u8,
            b2 == ((n >> 16u32) & 0xff) as u8,
            b3 == ((n >> 24u32) & 0xff) as u8,
    ;
}

/// Four zero bytes read as the length zero.
pub proof fn lemma_zero_value(b: Seq<u8>, i: int)
    requires
        0 <= i,
        i + 4 <= b.len(),
        b[i] == 0 && b[i + 1] == 0 && b[i + 2] == 0 && b[i + 3] == 0,
    ensures
        le_value(b, i) == 0,
{
    let b0 = b[i];
    let b1 = b[i + 1];
    let b2 = b[i + 2];
    let b3 = b[i + 3];
    assert(((b0 as u32) | ((b1 as u32) << 8u32) | ((b2 as u32) << 16u32) | ((b3 as u32) << 24u32)) == 0)
        by (bit_vector)
        requires b0 == 0 && b1 == 0 && b2 == 0 && b3 == 0;
}

/// `le_value` reads only the four bytes at its position.
pub proof fn lemma_le_value_local(a: Seq<u8>, i: int, b: Seq<u8>, j: int)
    requires
        0 <= i,
        i + 4 <= a.len(),
        0 <= j,
        j + 4 <= b.len(),
        a[i] == b[j] && a[i + 1] == b[j + 1] && a[i + 2] == b[j + 2] && a[i + 3] == b[j + 3],
    ensures
        le_value(a, i) == le_value(b, j),
{
}

/// The frames of a batch are the frame of its first payload followed by the
/// frames of the rest.
pub proof fn lemma_frames_len(ps: Seq<Seq<u8>>)
    ensures
        frames(ps).len() >= 0,
        ps.len() > 0 ==> frames(ps).len() == 4 + ps[0].len() + frames(ps.subrange(1, ps.len() as int)).len(),
    decreases ps.len(),
{
}

/// The frames of two batches written one after the other are the frames of
/// the joined batch.
pub proof fn lemma_frames_concat(a: Seq<Seq<u8>>, b: Seq<Seq<u8>>)
    ensures
        frames(a + b) == frames(a) + frames(b),
    decreases a.len(),
{
    if a.len() == 0 {
        assert(a + b =~= b);
        assert(frames(a) + frames(b) =~= frames(b));
    } else {
        let tail = a.subrange(1, a.len() as int);
        assert((a + b).subrange(1, (a + b).len() as int) =~= tail + b);
        assert((a + b)[0] == a[0]);
        lemma_frames_concat(tail, b);
        assert(frames(a + b) =~= frame(a[0]) + (frames(tail) + frames(b)));
        assert(frames(a) + frames(b) =~= frame(a[0]) + frames(tail) + frames(b));
    }
}

/// Reading from `pos` where `encode_stream(ps)` stands gives back `ps`,
/// then the end marker, whatever the bytes around it.
pub proof fn lemma_decode_encoded_at(c: Seq<u8>, pos: int, ps: Seq<Seq<u8>>, max: u32)
    requires
        0 <= pos,
        pos + frames(ps).len() + 4 <= c.len(),
        c.subrange(pos, pos + frames(ps).len() + 4) == encode_stream(ps),
        payloads_fit(ps, max as int),
    ensures
        decode_from(c, pos, max) == (ps, StreamEnd::Clean(pos + frames(ps).len())),
    decreases ps.len(),
{
    let e = encode_stream(ps);
    if ps.len() == 0 {
        assert(frames(ps) =~= Seq::<u8>::empty());
        assert(c[pos] == e[0] && c[pos + 1] == e[1] && c[pos + 2] == e[2] && c[pos + 3] == e[3]);
        lemma_zero_value(c, pos);
        assert(ps =~= Seq::<Seq<u8>>::empty());
    } else {
        let p0 = ps[0];
        let tail = ps.subrange(1, ps.len() as int);
        lemma_frames_len(ps);
        let n = p0.len() as u32;
        assert(0 < p0.len() <= max);
        lemma_le_round_trip(n);
        let lb = le_bytes(n);
        assert(e =~= lb + (p0 + frames(tail) + end_marker()));
        assert(c[pos] == e[0] && c[pos + 1] == e[1] && c[pos + 2] == e[2] && c[pos + 3] == e[3]);
        assert(e[0] == lb[0] && e[1] == lb[1] && e[2] == lb[2] && e[3] == lb[3]);
        lemma_le_value_local(c, pos, lb, 0);
        assert(le_value(c, pos) == n);
        assert(c.subrange(pos + 4, pos + 4 + n) =~= p0) by {
            assert forall|k: int| 0 <= k < n implies c.subrange(pos + 4, pos + 4 + n)[k] == p0[k] by {
                assert(c.subrange(pos + 4, pos + 4 + n)[k] == c[pos + 4 + k]);
                assert(c[pos + 4 + k] == e[4 + k]);
            }
        }
        assert(frame_at(c, pos, max) == FrameAt::Payload(p0));
        let next = pos + 4 + p0.len();
        assert(payloads_fit(tail, max as int)) by {
            assert forall|i: int| 0 <= i < tail.len() implies 0 < #[trigger] tail[i].len() <= max by {
                assert(tail[i] == ps[i + 1]);
            }
        }
        assert(c.subrange(next, next + frames(tail).len() + 4) =~= encode_stream(tail)) by {
            assert forall|k: int| 0 <= k < frames(tail).len() + 4
                implies c.subrange(next, next + frames(tail).len() + 4)[k] == encode_stream(tail)[k] by {
                assert(c[next + k] == e[4 + p0.len() + k]);
            }
        }
        lemma_decode_encoded_at(c, next, tail, max);
        assert(seq![p0] + tail =~= ps);
    }
}

/// A blob that holds the frames of `ps` and an end marker, followed by any
/// bytes at all, reads back as exactly `ps` and then a clean end.
pub proof fn lemma_round_trip(ps: Seq<Seq<u8>>, rest: Seq<u8>, max: u32)
    requires
        payloads_fit(ps, max as int),
    ensures
        decode(encode_stream(ps) + rest, max) == (ps, StreamEnd::Clean(frames(ps).len() as int)),
{
    let c = encode_stream(ps) + rest;
    assert(c.subrange(0, frames(ps).len() as int + 4) =~= encode_stream(ps));
    lemma_decode_encoded_at(c, 0, ps, max);
}

/// Appends the four little-endian bytes of `n` to `buf`.
pub fn push_le_u32(buf: &mut Vec<u8>, n: u32)
    ensures
        final(buf)@ == old(buf)@ + le_bytes(n),
{
    buf.push((n & 0xff) as u8);
    buf.push(((n >> 8u32) & 0xff) as u8);
    buf.push(((n >> 16u32) & 0xff) as u8);
    buf.push(((n >> 24u32) & 0xff) as u8);
    assert(buf@ =~= old(buf)@ + le_bytes(n));
}

/// Reads the little-endian `u32` at `at` of `bytes`.
pub fn read_le_u32(bytes: &[u8], at: usize) -> (r: u32)
    requires
        at + 4 <= bytes@.len(),
    ensures
        r == le_value(bytes@, at as int),
{
    (bytes[at] as u32) | ((bytes[at + 1] as u32) << 8u32) | ((bytes[at + 2] as u32) << 16u32) | ((bytes[at + 3]
        as u32) << 24u32)
}

/// Builds the bytes of a batch of frames and its end marker.
pub struct PackageBuilder {
    pub buffer: Vec<u8>,
}

impl PackageBuilder {
    /// An empty batch.
    pub fn new() -> (r: Self)
        ensures
            r.buffer@ == Seq::<u8>::empty(),
    {
        PackageBuilder { buffer: Vec::new() }
    }

    /// Adds the frame of `payload`.
    pub fn add_payload(&mut self, payload: &[u8])
        requires
            payload@.len() <= u32::MAX,
        ensures
            final(self).buffer@ == old(self).buffer@ + frame(payload@),
    {
        push_le_u32(&mut self.buffer, payload.len() as u32);
        self.buffer.extend_from_slice(payload);
        assert(self.buffer@ =~= old(self).buffer@ + frame(payload@));
    }

    /// The frames added so far, closed by the end marker.
    pub fn get_result(self) -> (r: Vec<u8>)
        ensures
            r@ == self.buffer@ + end_marker(),
    {
        let mut buffer = self.buffer;
        push_le_u32(&mut buffer, 0);
        proof {
            lemma_le_round_trip(0);
            assert(le_bytes(0) =~= end_marker()) by {
                assert(((0u32 & 0xff) as u8) == 0 && (((0u32 >> 8u32) & 0xff) as u8) == 0
                    && (((0u32 >> 16u32) & 0xff) as u8) == 0 && (((0u32 >> 24u32) & 0xff) as u8) == 0)
                    by (bit_vector);
            }
        }
        buffer
    }
}

} // verus!
