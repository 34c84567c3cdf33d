//! The Writing state: batches of frames are appended at the end marker.

use vstd::prelude::*;
use crate::blob_cache::{MyPageBlobWithCache, grown_pages};
use crate::blob_store::PageBlobStore;
use crate::error::StoreError;
use crate::framing::{end_marker, frame, frames, lemma_frames_concat, le_bytes, lemma_le_round_trip, payloads_fit};
use crate::page_blob_utils::{
    BLOB_PAGE_SIZE, MAX_BLOB_SIZE, MAX_LOG_SIZE, lemma_pages_for_bounds, lemma_pages_for_shift, pages_for,
    round_up_to_multiple,
};
use crate::pages_cache::PageCache;

verus! {

/// The payloads' bytes.
pub open spec fn views(payloads: Seq<Vec<u8>>) -> Seq<Seq<u8>> {
    payloads.map_values(|p: Vec<u8>| p@)
}

/// The window's bytes before the cursor are the blob's bytes there.
pub open spec fn writer_matches(cache: PageCache, content: Seq<u8>) -> bool {
    &&& cache.wf()
    &&& cache.page_size == BLOB_PAGE_SIZE
    &&& cache.end() <= content.len()
    &&& content.len() <= MAX_BLOB_SIZE
    &&& cache.data@.subrange(0, cache.pos_in()) == content.subrange(cache.start(), cache.blob_position as int)
}

/// The frames of the first `i` payloads and of the next one.
proof fn lemma_frames_step(ps: Seq<Seq<u8>>, i: int)
    requires
        0 <= i < ps.len(),
    ensures
        frames(ps.subrange(0, i + 1)) == frames(ps.subrange(0, i)) + frame(ps[i]),
{
    lemma_frames_concat(ps.subrange(0, i), seq![ps[i]]);
    assert(ps.subrange(0, i) + seq![ps[i]] =~= ps.subrange(0, i + 1));
    assert(seq![ps[i]].subrange(1, 1) =~= Seq::<Seq<u8>>::empty());
    assert(frames(Seq::<Seq<u8>>::empty()) == Seq::<u8>::empty());
    assert(frames(seq![ps[i]]) =~= frame(ps[i]));
}

/// The writer: a window whose cursor is on the end marker.
#[derive(Debug)]
pub struct StateDataWriting {
    pub page_cache: PageCache,
}

impl StateDataWriting {
    /// Takes over `page_cache`, keeping only the cursor's page and what follows.
    pub fn new(page_cache: PageCache) -> (r: Self)
        requires
            page_cache.wf(),
        ensures
            r.page_cache.blob_position == page_cache.blob_position,
            r.page_cache.page_size == page_cache.page_size,
            r.page_cache.end() == page_cache.end(),
            r.page_cache.page_id_offset == page_cache.page_id_offset + page_cache.pages_to_gc(1),
            r.page_cache.data@ == page_cache.data@.subrange(
                page_cache.pages_to_gc(1) * page_cache.page_size,
                page_cache.data@.len() as int,
            ),
            r.page_cache.wf(),
    {
        let mut page_cache = page_cache;
        page_cache.gc(1);
        StateDataWriting { page_cache }
    }

    pub fn get_blob_position(&self) -> (r: usize)
        ensures
            r == self.page_cache.blob_position,
    {
        self.page_cache.get_blob_position()
    }

    /// Appends the frames of `payloads` and an end marker at the cursor: the
    /// page holding the cursor is written again from its start, the blob grows
    /// first when it is too short, and the cursor moves onto the new end marker.
    /// On failure the cursor stays where it was.
    pub fn append_and_write<S: PageBlobStore>(
        &mut self,
        page_blob: &mut MyPageBlobWithCache<S>,
        payloads: &Vec<Vec<u8>>,
    ) -> (r: Result<(), StoreError>)
        requires
            writer_matches(old(self).page_cache, old(page_blob).content()),
            old(page_blob).wf(),
            old(page_blob).resize_pages_ratio <= MAX_BLOB_SIZE / 4 / BLOB_PAGE_SIZE,
            forall|i: int| 0 <= i < payloads@.len() ==> #[trigger] payloads@[i]@.len() <= u32::MAX,
            old(self).page_cache.blob_position + frames(views(payloads@)).len() + 4 + 2 * BLOB_PAGE_SIZE
                <= MAX_LOG_SIZE,
        ensures
            final(page_blob).wf(),
            final(page_blob).max_pages_to_write_per_transaction == old(page_blob).max_pages_to_write_per_transaction,
            final(page_blob).resize_pages_ratio == old(page_blob).resize_pages_ratio,
            final(page_blob).page_blob.blob_exists() == old(page_blob).page_blob.blob_exists(),
            writer_matches(final(self).page_cache, final(page_blob).content()),
            old(page_blob).page_blob.reliable() ==> final(page_blob).page_blob.reliable() && r is Ok,
            r is Err ==> final(self).page_cache == old(self).page_cache,
            r is Ok ==> {
                let p = old(self).page_cache.blob_position as int;
                let f = frames(views(payloads@));
                let c = final(page_blob).content();
                &&& c.subrange(0, p) == old(page_blob).content().subrange(0, p)
                &&& c.subrange(p, p + f.len() + 4) == f + end_marker()
                &&& final(self).page_cache.blob_position == p + f.len()
                &&& p + f.len() + 4 <= final(self).page_cache.end()
                &&& final(self).page_cache.end() == pages_for(p + f.len() + 4, BLOB_PAGE_SIZE as int) * BLOB_PAGE_SIZE
                &&& forall|i: int| p + f.len() + 4 <= i < final(self).page_cache.end() ==> c[i] == 0
                &&& c.len() == grown_pages(
                    old(page_blob).content().len() as int,
                    old(self).page_cache.page_id_offset + final(self).page_cache.end() / (BLOB_PAGE_SIZE as int)
                        - old(self).page_cache.start() / (BLOB_PAGE_SIZE as int),
                    old(page_blob).resize_pages_ratio as int,
                ) * BLOB_PAGE_SIZE
            },
    {
        let ghost c0 = page_blob.content();
        let ghost ps = views(payloads@);
        let ghost p = self.page_cache.blob_position as int;
        let mut cache = PageCache::new(Vec::new(), 0, 0, BLOB_PAGE_SIZE);
        core::mem::swap(&mut self.page_cache, &mut cache);
        let saved = cache;
        let mut work_data: Vec<u8> = Vec::new();
        work_data.extend_from_slice(saved.get_payload());
        let work = PageCache::new(work_data, saved.page_id_offset, saved.blob_position, saved.page_size);
        assert(work.data@ =~= saved.data@);
        let page_id = work.get_page_id_offset();
        let ghost prefix = work.data@.subrange(0, work.pos_in());
        let mut writer = work.start_writing();
        let mut i: usize = 0;
        while i < payloads.len()
            invariant
                writer.wf(),
                0 <= i <= payloads@.len(),
                ps == views(payloads@),
                writer.pages_cache.data@ == prefix + frames(ps.subrange(0, i as int)),
                writer.written == frames(ps.subrange(0, i as int)).len(),
                writer.pages_cache.page_id_offset == page_id,
                writer.pages_cache.blob_position == p,
                writer.pages_cache.page_size == BLOB_PAGE_SIZE,
                prefix.len() == p - page_id * BLOB_PAGE_SIZE,
                p + frames(ps).len() + 4 + 2 * BLOB_PAGE_SIZE <= MAX_LOG_SIZE,
                forall|k: int| 0 <= k < payloads@.len() ==> #[trigger] payloads@[k]@.len() <= u32::MAX,
            decreases payloads@.len() - i,
        {
            proof {
                lemma_frames_step(ps, i as int);
                lemma_frames_prefix_len(ps, i as int + 1);
            }
            writer.append_payload(payloads[i].as_slice());
            assert(payloads@[i as int]@ == ps[i as int]);
            assert(writer.pages_cache.data@ =~= prefix + frames(ps.subrange(0, i as int + 1)));
            i = i + 1;
        }
        assert(ps.subrange(0, i as int) =~= ps);
        let cache = writer.finish();
        let ghost f = frames(ps);
        proof {
            let x = prefix.len() + f.len() + 4 as int;
            lemma_pages_for_shift(page_id as int, x, 512);
            assert(cache.end() == pages_for(p + f.len() + 4, 512) * 512) by (nonlinear_arith)
                requires
                    cache.end() == page_id * 512 + cache.data@.len(),
                    cache.data@.len() == pages_for(x, 512) * 512,
                    x == prefix.len() + f.len() + 4,
                    pages_for(page_id * 512 + x, 512) == page_id + pages_for(x, 512),
                    prefix.len() == p - page_id * 512;
        }
        let mut upload: Vec<u8> = Vec::new();
        upload.extend_from_slice(cache.get_payload());
        proof {
            lemma_le_round_trip(0);
            assert(le_bytes(0) =~= end_marker()) by {
                assert(((0u32 & 0xff) as u8) == 0 && (((0u32 >> 8u32) & 0xff) as u8) == 0
                    && (((0u32 >> 16u32) & 0xff) as u8) == 0 && (((0u32 >> 24u32) & 0xff) as u8) == 0)
                    by (bit_vector);
            }
            assert(upload@ =~= cache.data@);
        }
        let ghost start = page_id * BLOB_PAGE_SIZE;
        proof {
            let ulen = upload@.len() as int;
            let ratio = page_blob.resize_pages_ratio as int;
            let needed = page_id + ulen / 512;
            lemma_pages_for_bounds(prefix.len() + f.len() + 4 as int, 512);
            vstd::arithmetic::div_mod::lemma_fundamental_div_mod(ulen, 512);
            assert(needed * 512 == start + ulen) by (nonlinear_arith)
                requires
                    needed == page_id + ulen / 512,
                    start == page_id * 512,
                    ulen == 512 * (ulen / 512) + ulen % 512,
                    ulen % 512 == 0;
            assert(start + ulen < p + f.len() + 4 + 512);
            if needed > (c0.len() as int) / 512 {
                lemma_pages_for_bounds(needed, ratio);
                assert(round_up_to_multiple(needed, ratio) * 512 <= MAX_BLOB_SIZE) by (nonlinear_arith)
                    requires
                        round_up_to_multiple(needed, ratio) < needed + ratio,
                        needed * 512 < MAX_LOG_SIZE,
                        MAX_LOG_SIZE == MAX_BLOB_SIZE / 2,
                        ratio <= MAX_BLOB_SIZE / 4 / 512,
                        MAX_BLOB_SIZE >= 0;
            } else {
                assert(grown_pages(c0.len() as int, needed, ratio) * 512 <= MAX_BLOB_SIZE) by (nonlinear_arith)
                    requires
                        grown_pages(c0.len() as int, needed, ratio) == (c0.len() as int) / 512,
                        c0.len() <= MAX_BLOB_SIZE;
            }
        }
        match page_blob.auto_resize_and_save_pages(page_id, upload) {
            Ok(()) => {
                let ghost c1 = page_blob.content();
                let ghost u = cache.data@;
                assert(c1.subrange(start, start + u.len()) =~= u);
                assert(c1.subrange(0, p) =~= c0.subrange(0, p)) by {
                    assert forall|k: int| 0 <= k < p implies c1[k] == c0[k] by {
                        if k >= start {
                            assert(u[k - start] == prefix[k - start]);
                            assert(prefix[k - start] == c0[k]);
                        }
                    }
                }
                assert(c1.subrange(p, p + f.len() + 4) =~= f + end_marker()) by {
                    assert forall|k: int| 0 <= k < f.len() + 4 implies c1.subrange(p, p + f.len() + 4)[k] == (f
                        + end_marker())[k] by {
                        assert(c1[p + k] == u[p - start + k]);
                    }
                }
                let mut cache = cache;
                let ghost before_gc = cache;
                cache.gc(1);
                assert(cache.data@.subrange(0, cache.pos_in()) =~= c1.subrange(cache.start(), cache.blob_position as int));
                self.page_cache = cache;
                assert forall|k: int| p + f.len() + 4 <= k < self.page_cache.end() implies c1[k] == 0 by {
                    assert(c1[k] == u[k - start]);
                }
                Ok(())
            },
            Err(err) => {
                let ghost c1 = page_blob.content();
                assert(saved.data@.subrange(0, saved.pos_in()) =~= c1.subrange(saved.start(), saved.blob_position as int)) by {
                    assert forall|k: int| saved.start() <= k < p implies c1[k] == c0[k] by {
                        assert(cache.data@[k - start] == prefix[k - start]);
                    }
                }
                self.page_cache = saved;
                Err(err)
            },
        }
    }
}

/// Total size of the frames of `payloads` when every payload is non-empty and
/// at most `max_payload` bytes long and that total is at most `limit`; `None`
/// otherwise.
pub fn frames_size(payloads: &Vec<Vec<u8>>, max_payload: u32, limit: usize) -> (r: Option<usize>)
    ensures
        r matches Some(t) ==> payloads_fit(views(payloads@), max_payload as int) && t == frames(
            views(payloads@),
        ).len() && t <= limit,
        r is None ==> !(payloads_fit(views(payloads@), max_payload as int) && frames(views(payloads@)).len()
            <= limit),
{
    let ghost ps = views(payloads@);
    let mut total: usize = 0;
    let mut i: usize = 0;
    while i < payloads.len()
        invariant
            0 <= i <= payloads@.len(),
            ps == views(payloads@),
            total == frames(ps.subrange(0, i as int)).len(),
            total <= limit,
            payloads_fit(ps.subrange(0, i as int), max_payload as int),
        decreases payloads@.len() - i,
    {
        let len = payloads[i].len();
        assert(payloads@[i as int]@ == ps[i as int]);
        proof {
            lemma_frames_step(ps, i as int);
            lemma_frames_prefix_len(ps, i as int + 1);
        }
        if len == 0 || len > max_payload as usize {
            return None;
        }
        if len > limit - total || limit - total - len < 4 {
            return None;
        }
        total = total + len + 4;
        assert(payloads_fit(ps.subrange(0, i as int + 1), max_payload as int)) by {
            assert forall|k: int| 0 <= k < i + 1 implies 0 < #[trigger] ps.subrange(0, i as int + 1)[k].len()
                <= max_payload by {
                if k < i {
                    assert(ps.subrange(0, i as int + 1)[k] == ps.subrange(0, i as int)[k]);
                }
            }
        }
        i = i + 1;
    }
    assert(ps.subrange(0, i as int) =~= ps);
    Some(total)
}

/// The frames of a prefix of a batch are no longer than the frames of the batch.
proof fn lemma_frames_prefix_len(ps: Seq<Seq<u8>>, i: int)
    requires
        0 <= i <= ps.len(),
    ensures
        frames(ps.subrange(0, i)).len() <= frames(ps).len(),
{
    lemma_frames_concat(ps.subrange(0, i), ps.subrange(i, ps.len() as int));
    assert(ps.subrange(0, i) + ps.subrange(i, ps.len() as int) =~= ps);
}

} // verus!
