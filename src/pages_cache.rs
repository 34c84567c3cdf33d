//! The page window: consecutive pages of a blob held in memory, anchored at a
//! page index, with a cursor into them.

use vstd::prelude::*;
use crate::framing::{frame, frames, le_bytes, push_le_u32};
use crate::page_blob_utils::{extend_buffer_to_full_pages_size, pages_for, zeros};

verus! {

/// Consecutive pages of a blob, starting at page `page_id_offset`, and the
/// absolute byte position `blob_position` of the read or write cursor.
#[derive(Debug)]
pub struct PageCache {
    pub data: Vec<u8>,
    pub page_id_offset: usize,
    pub blob_position: usize,
    pub page_size: usize,
}

impl PageCache {
    /// Blob position of the first byte of `data`.
    pub open spec fn start(&self) -> int {
        self.page_id_offset as int * self.page_size as int
    }

    /// Position of the cursor inside `data`.
    pub open spec fn pos_in(&self) -> int {
        self.blob_position - self.start()
    }

    /// Blob position just past the last byte of `data`.
    pub open spec fn end(&self) -> int {
        self.start() + self.data@.len()
    }

    /// The cursor lies inside the window, and the window's positions fit in `usize`.
    pub open spec fn inv_open(&self) -> bool {
        &&& self.page_size > 0
        &&& self.start() <= self.blob_position <= self.end()
        &&& self.end() + self.page_size <= usize::MAX
    }

    /// `inv_open`, and the window is made of whole pages.
    pub open spec fn wf(&self) -> bool {
        &&& self.inv_open()
        &&& (self.data@.len() as int) % (self.page_size as int) == 0
    }

    /// Every byte of the window from the cursor on is zero.
    pub open spec fn zero_after_cursor(&self) -> bool {
        forall|i: int| self.pos_in() <= i < self.data@.len() ==> #[trigger] self.data@[i] == 0
    }

    /// Number of whole pages in the window.
    pub open spec fn pages(&self) -> int {
        (self.data@.len() as int) / (self.page_size as int)
    }

    /// Pages that `gc(keep)` drops from the front of the window.
    pub open spec fn pages_to_gc(&self, keep: int) -> int {
        if self.pos_in() < self.page_size || self.pages() < keep {
            0
        } else if self.pos_in() / (self.page_size as int) <= self.pages() - keep {
            self.pos_in() / (self.page_size as int)
        } else {
            self.pages() - keep
        }
    }

    pub fn new(data: Vec<u8>, page_id_offset: usize, blob_position: usize, page_size: usize) -> (r: Self)
        ensures
            r.data == data,
            r.page_id_offset == page_id_offset,
            r.blob_position == blob_position,
            r.page_size == page_size,
    {
        PageCache { data, page_id_offset, blob_position, page_size }
    }

    pub fn get_page_id_offset(&self) -> (r: usize)
        ensures
            r == self.page_id_offset,
    {
        self.page_id_offset
    }

    /// Index of the first page after the window.
    pub fn get_next_page_after_cache(&self) -> (r: usize)
        requires
            self.inv_open(),
        ensures
            r == self.page_id_offset + (self.data@.len() as int) / (self.page_size as int),
    {
        let pages_in_cache = self.data.len() / self.page_size;
        proof {
            assert(pages_in_cache * self.page_size <= self.data@.len()) by (nonlinear_arith)
                requires pages_in_cache == (self.data@.len() as int) / (self.page_size as int), self.page_size > 0;
            assert(self.page_id_offset + pages_in_cache <= self.end()) by (nonlinear_arith)
                requires
                    pages_in_cache * self.page_size <= self.data@.len(),
                    self.page_size >= 1,
                    self.page_id_offset * self.page_size == self.start(),
                    self.end() == self.start() + self.data@.len();
        }
        self.page_id_offset + pages_in_cache
    }

    pub fn get_blob_position(&self) -> (r: usize)
        ensures
            r == self.blob_position,
    {
        self.blob_position
    }

    /// Position of the cursor inside the window.
    pub fn get_position_in_cache(&self) -> (r: usize)
        requires
            self.inv_open(),
        ensures
            r == self.pos_in(),
    {
        proof {
            assert(self.page_id_offset * self.page_size <= self.blob_position);
        }
        self.blob_position - self.page_id_offset * self.page_size
    }

    /// Number of whole pages in the window.
    pub fn get_pages_in_cache(&self) -> (r: usize)
        requires
            self.inv_open(),
        ensures
            r == self.pages(),
    {
        self.data.len() / self.page_size
    }

    /// Adds pages read from the blob after the window.
    pub fn append_payload_from_blob(&mut self, payload: &[u8])
        requires
            old(self).inv_open(),
            old(self).end() + payload@.len() + old(self).page_size <= usize::MAX,
        ensures
            final(self).data@ == old(self).data@ + payload@,
            final(self).page_id_offset == old(self).page_id_offset,
            final(self).blob_position == old(self).blob_position,
            final(self).page_size == old(self).page_size,
            final(self).inv_open(),
    {
        self.data.extend_from_slice(payload);
        assert(self.data@ =~= old(self).data@ + payload@);
    }

    /// Drops the pages before the cursor's page, keeping at least `keep_pages`
    /// pages in the window.
    pub fn gc(&mut self, keep_pages: usize)
        requires
            old(self).wf(),
        ensures
            final(self).wf(),
            final(self).page_size == old(self).page_size,
            final(self).blob_position == old(self).blob_position,
            final(self).page_id_offset == old(self).page_id_offset + old(self).pages_to_gc(keep_pages as int),
            final(self).data@ == old(self).data@.subrange(
                old(self).pages_to_gc(keep_pages as int) * old(self).page_size,
                old(self).data@.len() as int,
            ),
            final(self).end() == old(self).end(),
    {
        let position_in_cache = self.get_position_in_cache();
        let page_size = self.page_size;
        if position_in_cache < page_size {
            return;
        }
        let pages_in_cache = self.get_pages_in_cache();
        if pages_in_cache < keep_pages {
            return;
        }
        let mut pages_to_gc = position_in_cache / page_size;
        if pages_to_gc > pages_in_cache - keep_pages {
            pages_to_gc = pages_in_cache - keep_pages;
        }
        proof {
            assert(pages_to_gc == old(self).pages_to_gc(keep_pages as int));
            assert(pages_to_gc * page_size <= position_in_cache) by (nonlinear_arith)
                requires
                    pages_to_gc <= position_in_cache / page_size,
                    page_size > 0;
            assert((self.page_id_offset + pages_to_gc) * page_size == self.page_id_offset * page_size
                + pages_to_gc * page_size) by (nonlinear_arith);
            let len = self.data@.len() as int;
            let ps = page_size as int;
            vstd::arithmetic::div_mod::lemma_fundamental_div_mod(len, ps);
            vstd::arithmetic::div_mod::lemma_mod_multiples_basic(len / ps - pages_to_gc, ps);
            assert(len - pages_to_gc * ps == (len / ps - pages_to_gc) * ps) by (nonlinear_arith)
                requires len == ps * (len / ps) + len % ps, len % ps == 0;
            assert(self.page_id_offset + pages_to_gc <= self.end()) by (nonlinear_arith)
                requires
                    self.page_id_offset * page_size + pages_to_gc * page_size <= self.end(),
                    page_size >= 1;
        }
        let tail = self.data.split_off(pages_to_gc * page_size);
        self.data = tail;
        self.page_id_offset = self.page_id_offset + pages_to_gc;
    }

    /// The `size` bytes at the cursor, or how many bytes past the window's end
    /// they would reach.
    pub fn try_to_get_next_slice(&self, size: usize) -> (r: Result<&[u8], usize>)
        requires
            self.inv_open(),
            self.end() + size <= usize::MAX,
        ensures
            match r {
                Ok(s) => self.pos_in() + size <= self.data@.len() && s@ == self.data@.subrange(
                    self.pos_in(),
                    self.pos_in() + size,
                ),
                Err(short) => self.pos_in() + size > self.data@.len() && short == self.pos_in() + size
                    - self.data@.len(),
            },
    {
        let position_in_cache = self.get_position_in_cache();
        if position_in_cache + size > self.data.len() {
            return Err(position_in_cache + size - self.data.len());
        }
        Ok(&self.data.as_slice()[position_in_cache..position_in_cache + size])
    }

    /// Cuts the window back to the cursor.
    fn prepare_to_write(&mut self)
        requires
            old(self).inv_open(),
        ensures
            final(self).data@ == old(self).data@.subrange(0, old(self).pos_in()),
            final(self).page_id_offset == old(self).page_id_offset,
            final(self).blob_position == old(self).blob_position,
            final(self).page_size == old(self).page_size,
            final(self).inv_open(),
    {
        let position_in_cache = self.get_position_in_cache();
        self.data.truncate(position_in_cache);
    }

    /// Replaces everything from the cursor on by `payload`, padded with zeros
    /// to whole pages; moves the cursor past `payload` when `advance_blob_position`.
    pub fn write(&mut self, payload: &[u8], advance_blob_position: bool)
        requires
            old(self).inv_open(),
            old(self).blob_position + payload@.len() + 2 * old(self).page_size <= usize::MAX,
        ensures
            final(self).data@ == old(self).data@.subrange(0, old(self).pos_in()) + payload@ + zeros(
                (final(self).data@.len() - old(self).pos_in() - payload@.len()) as nat,
            ),
            final(self).data@.len() == pages_for(old(self).pos_in() + payload@.len(), old(self).page_size as int)
                * old(self).page_size,
            final(self).page_id_offset == old(self).page_id_offset,
            final(self).page_size == old(self).page_size,
            final(self).blob_position == if advance_blob_position {
                old(self).blob_position + payload@.len()
            } else {
                old(self).blob_position as int
            },
            final(self).wf(),
    {
        self.prepare_to_write();
        self.data.extend_from_slice(payload);
        let ghost before_pad = self.data@;
        assert(before_pad =~= old(self).data@.subrange(0, old(self).pos_in()) + payload@);
        extend_buffer_to_full_pages_size(&mut self.data, self.page_size);
        if advance_blob_position {
            self.blob_position = self.blob_position + payload.len();
        }
    }

    /// Opens a batch of frames to be written at the cursor.
    pub fn start_writing(self) -> (r: PayloadsWriter)
        requires
            self.inv_open(),
        ensures
            r.pages_cache.data@ == self.data@.subrange(0, self.pos_in()),
            r.pages_cache.page_id_offset == self.page_id_offset,
            r.pages_cache.blob_position == self.blob_position,
            r.pages_cache.page_size == self.page_size,
            r.written == 0,
            r.wf(),
    {
        let mut cache = self;
        cache.prepare_to_write();
        PayloadsWriter::new(cache)
    }

    /// The bytes of the window.
    pub fn get_payload(&self) -> (r: &[u8])
        ensures
            r@ == self.data@,
    {
        self.data.as_slice()
    }

    pub fn advance_blob_position(&mut self, delta: usize)
        requires
            old(self).blob_position + delta <= usize::MAX,
        ensures
            final(self).blob_position == old(self).blob_position + delta,
            final(self).data == old(self).data,
            final(self).page_id_offset == old(self).page_id_offset,
            final(self).page_size == old(self).page_size,
    {
        self.blob_position = self.blob_position + delta;
    }

    /// Sets every byte from the cursor to the end of the window to zero.
    pub fn reset_from_current_position(&mut self)
        requires
            old(self).inv_open(),
        ensures
            final(self).data@ == old(self).data@.subrange(0, old(self).pos_in()) + zeros(
                (old(self).data@.len() - old(self).pos_in()) as nat,
            ),
            final(self).page_id_offset == old(self).page_id_offset,
            final(self).blob_position == old(self).blob_position,
            final(self).page_size == old(self).page_size,
    {
        let position_in_cache = self.get_position_in_cache();
        let mut i: usize = position_in_cache;
        while i < self.data.len()
            invariant
                position_in_cache <= i <= self.data@.len(),
                self.data@.len() == old(self).data@.len(),
                self.page_id_offset == old(self).page_id_offset,
                self.blob_position == old(self).blob_position,
                self.page_size == old(self).page_size,
                forall|k: int| 0 <= k < position_in_cache ==> self.data@[k] == old(self).data@[k],
                forall|k: int| position_in_cache <= k < i ==> self.data@[k] == 0,
            decreases self.data@.len() - i,
        {
            self.data.set(i, 0);
            i = i + 1;
        }
        assert(self.data@ =~= old(self).data@.subrange(0, old(self).pos_in()) + zeros(
            (old(self).data@.len() - old(self).pos_in()) as nat,
        ));
    }
}

/// Frames being added at the cursor of a page window. `finish` closes the
/// batch with an end marker and hands the window back.
#[derive(Debug)]
pub struct PayloadsWriter {
    pub pages_cache: PageCache,
    pub written: usize,
}

impl PayloadsWriter {
    /// The window holds the frames added so far right after the cursor, and nothing more.
    pub open spec fn wf(&self) -> bool {
        &&& self.pages_cache.inv_open()
        &&& self.pages_cache.data@.len() == self.pages_cache.pos_in() + self.written
    }

    pub fn new(src: PageCache) -> (r: Self)
        requires
            src.inv_open(),
            src.data@.len() == src.pos_in(),
        ensures
            r.pages_cache == src,
            r.written == 0,
            r.wf(),
    {
        PayloadsWriter { pages_cache: src, written: 0 }
    }

    /// Adds the frame of `payload`.
    pub fn append_payload(&mut self, payload: &[u8])
        requires
            old(self).wf(),
            payload@.len() <= u32::MAX,
            old(self).pages_cache.end() + payload@.len() + 4 + old(self).pages_cache.page_size <= usize::MAX,
        ensures
            final(self).wf(),
            final(self).pages_cache.data@ == old(self).pages_cache.data@ + frame(payload@),
            final(self).written == old(self).written + payload@.len() + 4,
            final(self).pages_cache.page_id_offset == old(self).pages_cache.page_id_offset,
            final(self).pages_cache.blob_position == old(self).pages_cache.blob_position,
            final(self).pages_cache.page_size == old(self).pages_cache.page_size,
    {
        let size = payload.len() as u32;
        push_le_u32(&mut self.pages_cache.data, size);
        self.pages_cache.data.extend_from_slice(payload);
        assert(self.pages_cache.data@ =~= old(self).pages_cache.data@ + frame(payload@));
        self.written = self.written + payload.len() + 4;
    }

    /// Moves the cursor past the frames added, writes the end marker there and
    /// pads the window to whole pages.
    pub fn finish(self) -> (r: PageCache)
        requires
            self.wf(),
            self.pages_cache.end() + 4 + 2 * self.pages_cache.page_size <= usize::MAX,
        ensures
            r.blob_position == self.pages_cache.blob_position + self.written,
            r.data@ == self.pages_cache.data@ + le_bytes(0) + zeros((r.data@.len() - self.pages_cache.data@.len()
                - 4) as nat),
            r.data@.len() == pages_for(self.pages_cache.data@.len() as int + 4, self.pages_cache.page_size as int)
                * self.pages_cache.page_size,
            r.page_id_offset == self.pages_cache.page_id_offset,
            r.page_size == self.pages_cache.page_size,
            r.wf(),
    {
        let mut cache = self.pages_cache;
        cache.advance_blob_position(self.written);
        let mut end: Vec<u8> = Vec::new();
        push_le_u32(&mut end, 0);
        let ghost before = cache.data@;
        cache.write(end.as_slice(), false);
        assert(before.subrange(0, cache.pos_in()) =~= before);
        cache
    }
}

} // verus!
