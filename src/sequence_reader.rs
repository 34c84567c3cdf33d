//! Reading bytes at the cursor of a page window, fetching whole pages from
//! the blob when the window runs short.

use vstd::prelude::*;
use crate::blob_cache::MyPageBlobWithCache;
use crate::blob_store::PageBlobStore;
use crate::error::StoreError;
use crate::page_blob_utils::{BLOB_PAGE_SIZE, MAX_BLOB_SIZE, get_pages_amount_by_size, lemma_pages_for_bounds, pages_for};
use crate::pages_cache::PageCache;

verus! {

/// Pages kept in the window when it is trimmed before a fetch.
pub const KEEP_PAGES_AFTER_GC: usize = 2;

/// Largest number of bytes read at the cursor in one call.
pub const MAX_READ_SIZE: usize = usize::MAX / 4;

/// A failed read at the cursor.
#[derive(Debug)]
pub enum PageBlobSequenceReaderError {
    StoreError(StoreError),
    /// The blob ends before the bytes asked for.
    NoSuchAmountToRead,
}

/// The window holds whole pages of the blob exactly as they are in `content`.
pub open spec fn window_matches(cache: PageCache, content: Seq<u8>) -> bool {
    &&& cache.wf()
    &&& cache.page_size == BLOB_PAGE_SIZE
    &&& cache.end() <= content.len()
    &&& content.len() <= MAX_BLOB_SIZE
    &&& cache.data@ == content.subrange(cache.start(), cache.end())
}

/// The store's state, the page count it remembers aside, is the same in `a` and `b`.
pub open spec fn same_store<S: PageBlobStore>(a: MyPageBlobWithCache<S>, b: MyPageBlobWithCache<S>) -> bool {
    &&& b.content() == a.content()
    &&& b.page_blob.blob_exists() == a.page_blob.blob_exists()
    &&& b.max_pages_to_write_per_transaction == a.max_pages_to_write_per_transaction
    &&& b.resize_pages_ratio == a.resize_pages_ratio
    &&& a.page_blob.reliable() ==> b.page_blob.reliable()
}

/// After `gc(KEEP_PAGES_AFTER_GC)` the window holds at most that many pages,
/// or starts at the page that holds the cursor.
proof fn lemma_gc_bound(before: PageCache, after: PageCache)
    requires
        before.wf(),
        after.page_size == before.page_size,
        after.blob_position == before.blob_position,
        after.page_id_offset == before.page_id_offset + before.pages_to_gc(KEEP_PAGES_AFTER_GC as int),
        after.data@ == before.data@.subrange(
            before.pages_to_gc(KEEP_PAGES_AFTER_GC as int) * before.page_size,
            before.data@.len() as int,
        ),
    ensures
        after.pages() <= KEEP_PAGES_AFTER_GC || after.pos_in() < after.page_size,
{
    let ps = before.page_size as int;
    let d = before.pages_to_gc(KEEP_PAGES_AFTER_GC as int);
    let len = before.data@.len() as int;
    vstd::arithmetic::div_mod::lemma_fundamental_div_mod(len, ps);
    vstd::arithmetic::div_mod::lemma_fundamental_div_mod(before.pos_in(), ps);
    assert(after.start() == before.start() + d * ps) by (nonlinear_arith)
        requires
            after.page_id_offset == before.page_id_offset + d,
            after.start() == after.page_id_offset * ps,
            before.start() == before.page_id_offset * ps;
    assert(0 <= d <= len / ps);
    assert(d * ps <= len) by (nonlinear_arith)
        requires
            0 <= d <= len / ps,
            len == ps * (len / ps) + len % ps,
            len % ps == 0,
            ps > 0;
    if before.pos_in() >= ps && before.pages() >= KEEP_PAGES_AFTER_GC {
        if d == before.pos_in() / ps {
            assert(after.pos_in() == before.pos_in() - (before.pos_in() / ps) * ps);
            assert(after.pos_in() < ps) by (nonlinear_arith)
                requires
                    after.pos_in() == before.pos_in() - (before.pos_in() / ps) * ps,
                    before.pos_in() == ps * (before.pos_in() / ps) + before.pos_in() % ps,
                    0 <= before.pos_in() % ps < ps;
        } else {
            assert(d == before.pages() - KEEP_PAGES_AFTER_GC);
            assert(after.data@.len() == len - d * ps);
            assert(after.pages() == KEEP_PAGES_AFTER_GC) by (nonlinear_arith)
                requires
                    after.data@.len() == len - d * ps,
                    d == len / ps - 2,
                    len == ps * (len / ps) + len % ps,
                    len % ps == 0,
                    ps > 0,
                    after.pages() == (after.data@.len() as int) / ps;
        }
    }
}

/// Pages fetched for a shortfall of `required` bytes: enough for them and at
/// least `minimal`, but no more than the `remaining` pages of the blob.
pub open spec fn pages_to_fetch(required: int, minimal: int, remaining: int) -> int {
    let wanted = if pages_for(required, BLOB_PAGE_SIZE as int) < minimal {
        minimal
    } else {
        pages_for(required, BLOB_PAGE_SIZE as int)
    };
    if remaining < wanted {
        remaining
    } else {
        wanted
    }
}

/// Fetches the pages that follow the window: enough for `required_size_to_upload`
/// more bytes and at least `minimal_pages_amount_to_upload` pages, but no page
/// past the blob's end. Returns whether any page was fetched.
pub fn upload_to_cache<S: PageBlobStore>(
    read_cache: &mut PageCache,
    page_blob: &mut MyPageBlobWithCache<S>,
    required_size_to_upload: usize,
    minimal_pages_amount_to_upload: usize,
) -> (r: Result<bool, StoreError>)
    requires
        old(page_blob).wf(),
        window_matches(*old(read_cache), old(page_blob).content()),
        0 < required_size_to_upload <= MAX_READ_SIZE,
        old(read_cache).pages() <= KEEP_PAGES_AFTER_GC || old(read_cache).pos_in() < BLOB_PAGE_SIZE,
    ensures
        final(page_blob).wf(),
        same_store(*old(page_blob), *final(page_blob)),
        window_matches(*final(read_cache), old(page_blob).content()),
        final(read_cache).blob_position == old(read_cache).blob_position,
        final(read_cache).page_id_offset == old(read_cache).page_id_offset,
        r matches Ok(uploaded) ==> {
            &&& final(read_cache).end() == old(read_cache).end() + pages_to_fetch(
                required_size_to_upload as int,
                minimal_pages_amount_to_upload as int,
                (old(page_blob).content().len() - old(read_cache).end()) / (BLOB_PAGE_SIZE as int),
            ) * BLOB_PAGE_SIZE
            &&& uploaded <==> final(read_cache).end() > old(read_cache).end()
            &&& final(read_cache).end() == old(page_blob).content().len() || final(read_cache).end()
                >= old(read_cache).end() + required_size_to_upload
            &&& !uploaded ==> old(read_cache).end() == old(page_blob).content().len()
        },
        r is Err ==> *final(read_cache) == *old(read_cache),
        old(page_blob).page_blob.reliable() ==> r is Ok,
{
    let ghost content = page_blob.content();
    let mut required_pages_to_load = get_pages_amount_by_size(required_size_to_upload, BLOB_PAGE_SIZE);
    proof {
        lemma_pages_for_bounds(required_size_to_upload as int, BLOB_PAGE_SIZE as int);
    }
    if required_pages_to_load < minimal_pages_amount_to_upload {
        required_pages_to_load = minimal_pages_amount_to_upload;
    }
    let pages_amount = match page_blob.get_pages_amount() {
        Ok(n) => n,
        Err(err) => return Err(err),
    };
    let page_no = read_cache.get_next_page_after_cache();
    proof {
        let ps = BLOB_PAGE_SIZE as int;
        let len = read_cache.data@.len() as int;
        vstd::arithmetic::div_mod::lemma_fundamental_div_mod(len, ps);
        assert(page_no * ps == read_cache.end()) by (nonlinear_arith)
            requires
                page_no == read_cache.page_id_offset + len / ps,
                len == ps * (len / ps) + len % ps,
                len % ps == 0,
                read_cache.end() == read_cache.page_id_offset * ps + len;
        assert(page_no <= pages_amount) by (nonlinear_arith)
            requires page_no * ps <= pages_amount * ps, ps > 0;
    }
    let remain_pages_to_load_from_blob = pages_amount - page_no;
    proof {
        assert(content.len() - read_cache.end() == (remain_pages_to_load_from_blob as int) * 512) by (nonlinear_arith)
            requires
                content.len() == pages_amount * 512,
                read_cache.end() == page_no * 512,
                remain_pages_to_load_from_blob == pages_amount - page_no;
        vstd::arithmetic::div_mod::lemma_div_multiples_vanish(remain_pages_to_load_from_blob as int, 512);
        assert((remain_pages_to_load_from_blob as int) * 512 == 512 * (remain_pages_to_load_from_blob as int));
    }
    let pages_to_load = if remain_pages_to_load_from_blob < required_pages_to_load {
        remain_pages_to_load_from_blob
    } else {
        required_pages_to_load
    };
    if pages_to_load == 0 {
        assert(read_cache.end() == content.len()) by (nonlinear_arith)
            requires page_no * 512 == read_cache.end(), page_no == pages_amount, pages_amount * 512 == content.len();
        return Ok(false);
    }
    let payload = match page_blob.read_pages(page_no, pages_to_load) {
        Ok(v) => v,
        Err(err) => return Err(err),
    };
    proof {
        assert((page_no + pages_to_load) * 512 == page_no * 512 + pages_to_load * 512) by (nonlinear_arith);
        assert(pages_to_load * 512 >= required_size_to_upload || page_no + pages_to_load == pages_amount)
            by (nonlinear_arith)
            requires
                pages_to_load == remain_pages_to_load_from_blob || pages_to_load >= required_pages_to_load,
                remain_pages_to_load_from_blob == pages_amount - page_no,
                required_pages_to_load * 512 >= required_size_to_upload;
        assert((page_no + pages_to_load) * 512 <= pages_amount * 512) by (nonlinear_arith)
            requires page_no + pages_to_load <= pages_amount;
    }
    read_cache.append_payload_from_blob(payload.as_slice());
    proof {
        vstd::arithmetic::div_mod::lemma_mod_multiples_basic(pages_to_load as int, 512);
        vstd::arithmetic::div_mod::lemma_mod_adds(old(read_cache).data@.len() as int, pages_to_load * 512, 512);
        assert(read_cache.data@ =~= content.subrange(read_cache.start(), read_cache.end()));
    }
    Ok(true)
}

/// The `size` bytes that start `offset` bytes after the cursor, fetching pages
/// when the window does not hold them all. The cursor does not move.
pub fn read_buffer<S: PageBlobStore>(
    read_cache: &mut PageCache,
    page_blob: &mut MyPageBlobWithCache<S>,
    size: usize,
    minimal_pages_amount_to_upload: usize,
    offset: usize,
) -> (r: Result<Vec<u8>, PageBlobSequenceReaderError>)
    requires
        old(page_blob).wf(),
        window_matches(*old(read_cache), old(page_blob).content()),
        offset + size <= MAX_READ_SIZE,
    ensures
        final(page_blob).wf(),
        same_store(*old(page_blob), *final(page_blob)),
        window_matches(*final(read_cache), old(page_blob).content()),
        final(read_cache).blob_position == old(read_cache).blob_position,
        match r {
            Ok(v) => old(read_cache).blob_position + offset + size <= final(read_cache).end() && v@
                == old(page_blob).content().subrange(
                old(read_cache).blob_position + offset,
                old(read_cache).blob_position + offset + size,
            ),
            Err(PageBlobSequenceReaderError::NoSuchAmountToRead) => old(read_cache).blob_position + offset + size
                > old(page_blob).content().len(),
            Err(PageBlobSequenceReaderError::StoreError(_)) => !old(page_blob).page_blob.reliable(),
        },
        old(read_cache).pos_in() + offset + size <= old(read_cache).data@.len() ==> *final(read_cache) == *old(read_cache),
        old(read_cache).pos_in() + offset + size > old(read_cache).data@.len() ==> {
            let held = old(read_cache).end() - final(read_cache).start();
            &&& final(read_cache).end() == old(read_cache).end() + pages_to_fetch(
                old(read_cache).pos_in() + offset + size - old(read_cache).data@.len(),
                minimal_pages_amount_to_upload as int,
                (old(page_blob).content().len() - old(read_cache).end()) / (BLOB_PAGE_SIZE as int),
            ) * BLOB_PAGE_SIZE || (r matches Err(PageBlobSequenceReaderError::StoreError(_)) && final(read_cache).end() == old(read_cache).end())
            &&& held <= KEEP_PAGES_AFTER_GC * BLOB_PAGE_SIZE || old(read_cache).blob_position < final(read_cache).start() + BLOB_PAGE_SIZE
            &&& minimal_pages_amount_to_upload >= 1 && pages_for(
                BLOB_PAGE_SIZE + offset + size,
                BLOB_PAGE_SIZE as int,
            ) <= minimal_pages_amount_to_upload + 1 ==> held <= (minimal_pages_amount_to_upload + 1)
                * BLOB_PAGE_SIZE
        },
{
    let ghost content = page_blob.content();
    let ghost pos = read_cache.blob_position;
    let need = offset + size;
    match read_cache.try_to_get_next_slice(need) {
        Ok(slice) => {
            let mut out: Vec<u8> = Vec::new();
            out.extend_from_slice(&slice[offset..need]);
            assert(out@ =~= content.subrange(pos + offset, pos + need));
            return Ok(out);
        },
        Err(required_size_to_upload) => {
            let ghost before_gc = *read_cache;
            read_cache.gc(KEEP_PAGES_AFTER_GC);
            assert(read_cache.data@ =~= content.subrange(read_cache.start(), read_cache.end()));
            proof {
                lemma_gc_bound(before_gc, *read_cache);
                let w = *read_cache;
                vstd::arithmetic::div_mod::lemma_fundamental_div_mod(w.data@.len() as int, 512);
                assert(w.pages() * 512 == w.data@.len()) by (nonlinear_arith)
                    requires
                        w.pages() == (w.data@.len() as int) / 512,
                        w.data@.len() as int == 512 * ((w.data@.len() as int) / 512) + (w.data@.len() as int) % 512,
                        (w.data@.len() as int) % 512 == 0;
                if minimal_pages_amount_to_upload >= 1 && pages_for(512 + need, 512) <= minimal_pages_amount_to_upload
                    + 1 {
                    crate::laws::lemma_window_bound_at_fetch(
                        w.pages(),
                        w.pos_in(),
                        need as int,
                        minimal_pages_amount_to_upload as int,
                    );
                }
            }
            match upload_to_cache(read_cache, page_blob, required_size_to_upload, minimal_pages_amount_to_upload) {
                Ok(true) => {},
                Ok(false) => return Err(PageBlobSequenceReaderError::NoSuchAmountToRead),
                Err(err) => return Err(PageBlobSequenceReaderError::StoreError(err)),
            }
        },
    }
    match read_cache.try_to_get_next_slice(need) {
        Ok(slice) => {
            let mut out: Vec<u8> = Vec::new();
            out.extend_from_slice(&slice[offset..need]);
            assert(out@ =~= content.subrange(pos + offset, pos + need));
            Ok(out)
        },
        Err(_) => Err(PageBlobSequenceReaderError::NoSuchAmountToRead),
    }
}

} // verus!
