//! Properties of the log as a whole, stated over the on-blob format and
//! proved from the contracts of the reader and the writer.

use vstd::prelude::*;
use crate::blob_cache::grown_pages;
use crate::framing::{
    FrameAt, StreamEnd, decode, decode_from, encode_stream, end_marker, frame_at, frames, lemma_decode_encoded_at,
    payloads_fit,
};
use crate::page_blob_utils::{BLOB_PAGE_SIZE, lemma_pages_for_bounds, pages_for};
use crate::sequence_reader::KEEP_PAGES_AFTER_GC;

verus! {

/// A read from `q` that ends cleanly ends at or after `q`, and at `q` only
/// when it returns nothing.
proof fn lemma_clean_end_after_start(c: Seq<u8>, q: int, max: u32)
    requires
        decode_from(c, q, max).1 is Clean,
    ensures
        decode_from(c, q, max).1->Clean_0 >= q,
        decode_from(c, q, max).1->Clean_0 == q ==> decode_from(c, q, max).0.len() == 0,
    decreases c.len() - q,
{
    if let FrameAt::Payload(p) = frame_at(c, q, max) {
        if q >= 0 {
            lemma_clean_end_after_start(c, q + 4 + p.len(), max);
        }
    }
}

/// Reading from `q` a blob whose bytes before `e` are those of `before`, where
/// `before` read from `q` ends cleanly at `e`, gives the payloads that `before`
/// gives and then whatever the blob gives from `e`.
proof fn lemma_decode_prefix(before: Seq<u8>, after: Seq<u8>, q: int, e: int, max: u32)
    requires
        0 <= q <= e,
        e <= after.len(),
        e <= before.len(),
        after.subrange(0, e) == before.subrange(0, e),
        decode_from(before, q, max).1 == StreamEnd::Clean(e),
    ensures
        decode_from(after, q, max).0 == decode_from(before, q, max).0 + decode_from(after, e, max).0,
        decode_from(after, q, max).1 == decode_from(after, e, max).1,
    decreases e - q,
{
    lemma_clean_end_after_start(before, q, max);
    if q == e {
        assert(decode_from(before, q, max).0 + decode_from(after, e, max).0 =~= decode_from(after, e, max).0);
    } else {
        match frame_at(before, q, max) {
            FrameAt::Payload(p) => {
                let next = q + 4 + p.len();
                assert(decode_from(before, q, max).1 == decode_from(before, next, max).1);
                lemma_clean_end_after_start(before, next, max);
                assert(next <= e);
                let sa = after.subrange(0, e);
                let sb = before.subrange(0, e);
                assert forall|k: int| 0 <= k < e implies #[trigger] after[k] == before[k] by {
                    assert(sa[k] == after[k]);
                    assert(sb[k] == before[k]);
                }
                crate::framing::lemma_le_value_local(after, q, before, q);
                assert(after.subrange(q + 4, next) =~= before.subrange(q + 4, next));
                assert(frame_at(after, q, max) == FrameAt::Payload(p));
                lemma_decode_prefix(before, after, next, e, max);
                assert(decode_from(after, q, max).0 =~= decode_from(before, q, max).0 + decode_from(
                    after,
                    e,
                    max,
                ).0);
            },
            _ => {},
        }
    }
}

/// Round trip across appends: when a log reads back as `old_payloads` and ends
/// cleanly at `p`, and an append keeps the bytes before `p` and writes the
/// frames of `payloads` and an end marker at `p` (what `append_and_write`
/// ensures), the log reads back as `old_payloads` followed by `payloads`, and
/// ends cleanly just after them.
pub proof fn lemma_append_reads_back(
    before: Seq<u8>,
    after: Seq<u8>,
    old_payloads: Seq<Seq<u8>>,
    p: int,
    payloads: Seq<Seq<u8>>,
    max: u32,
)
    requires
        decode(before, max) == (old_payloads, StreamEnd::Clean(p)),
        p <= before.len(),
        p + frames(payloads).len() + 4 <= after.len(),
        after.subrange(0, p) == before.subrange(0, p),
        after.subrange(p, p + frames(payloads).len() + 4) == encode_stream(payloads),
        payloads_fit(payloads, max as int),
    ensures
        decode(after, max) == (old_payloads + payloads, StreamEnd::Clean(p + frames(payloads).len())),
{
    lemma_clean_end_after_start(before, 0, max);
    lemma_decode_prefix(before, after, 0, p, max);
    lemma_decode_encoded_at(after, p, payloads, max);
}

/// Replay is determined by the blob: each successful read returns the frame at
/// the read position and moves past it, so the payloads that a full drain
/// returns from position `pos` are those of `decode_from`, a function of the
/// blob's bytes alone. Draining the same bytes twice gives the same payloads.
pub proof fn lemma_read_step(c: Seq<u8>, pos: int, max: u32)
    requires
        0 <= pos,
    ensures
        frame_at(c, pos, max) matches FrameAt::Payload(x) ==> decode_from(c, pos, max) == (seq![x] + decode_from(
            c,
            pos + 4 + x.len(),
            max,
        ).0, decode_from(c, pos + 4 + x.len(), max).1),
        frame_at(c, pos, max) is End ==> decode_from(c, pos, max) == (Seq::<Seq<u8>>::empty(), StreamEnd::Clean(pos)),
        (frame_at(c, pos, max) is TooLarge || frame_at(c, pos, max) is Short) ==> decode_from(c, pos, max) == (
        Seq::<Seq<u8>>::empty(), StreamEnd::Corrupted(pos)),
{
}

/// Growth in quanta: when a blob's page count is a multiple of `ratio`, the
/// page count after an append (grown or not) is a multiple of `ratio` too.
pub proof fn lemma_growth_quantized(old_len: int, needed: int, ratio: int)
    requires
        ratio > 0,
        old_len >= 0,
        (old_len / (BLOB_PAGE_SIZE as int)) % ratio == 0,
    ensures
        grown_pages(old_len, needed, ratio) % ratio == 0,
        grown_pages(old_len, needed, ratio) >= old_len / (BLOB_PAGE_SIZE as int),
        needed > 0 ==> grown_pages(old_len, needed, ratio) >= needed,
{
    if needed > old_len / (BLOB_PAGE_SIZE as int) {
        lemma_pages_for_bounds(needed, ratio);
        vstd::arithmetic::div_mod::lemma_mod_multiples_basic(pages_for(needed, ratio), ratio);
    }
}

/// Window bound while reading. `read_buffer` fetches pages only when the
/// window ends before the `need` bytes it reads (`pages * BLOB_PAGE_SIZE <
/// pos_in + need`), and its contract states that the window it holds at that
/// moment has at most `KEEP_PAGES_AFTER_GC` pages or starts at the cursor's
/// page. Then, when `need` bytes from any offset in a page fit in
/// `cap + 1` pages, that window holds at most `cap + 1` pages. A length prefix
/// (`need == 4`) always fits; a payload fits when it is short enough.
pub proof fn lemma_window_bound_at_fetch(pages: int, pos_in: int, need: int, cap: int)
    requires
        pages >= 0,
        pos_in >= 0,
        pages <= KEEP_PAGES_AFTER_GC || pos_in < BLOB_PAGE_SIZE,
        pages * BLOB_PAGE_SIZE < pos_in + need,
        need > 0,
        cap >= 1,
        pages_for(BLOB_PAGE_SIZE + need, BLOB_PAGE_SIZE as int) <= cap + 1,
    ensures
        pages <= cap + 1,
{
    if pages > KEEP_PAGES_AFTER_GC {
        let bound = BLOB_PAGE_SIZE + need;
        lemma_pages_for_bounds(bound, BLOB_PAGE_SIZE as int);
        assert(pages <= pages_for(bound, 512)) by (nonlinear_arith)
            requires
                pages * 512 < bound,
                pages_for(bound, 512) * 512 >= bound;
    }
}

} // verus!
