//! A single read buffer of pages that remembers the last pages it consumed.

use vstd::prelude::*;

verus! {

/// Bytes fetched from a blob and a read position in them. Once everything is
/// read, the last two pages (or fewer) move to `last_pages` and the buffer empties.
#[derive(Debug)]
pub struct PageBlobBuffer {
    pub buffer: Vec<u8>,
    pub last_pages: Vec<u8>,
    pub position: usize,
    pub page_size: usize,
}

impl PageBlobBuffer {
    pub open spec fn wf(&self) -> bool {
        &&& self.position <= self.buffer@.len()
        &&& self.page_size > 0
        &&& 2 * self.page_size <= usize::MAX
    }

    /// The bytes not read yet.
    pub open spec fn unread(&self) -> Seq<u8> {
        self.buffer@.subrange(self.position as int, self.buffer@.len() as int)
    }

    pub fn new(page_size: usize, max_page_count: usize) -> (r: Self)
        ensures
            r.buffer@.len() == 0,
            r.last_pages@.len() == 0,
            r.position == 0,
            r.page_size == page_size,
    {
        PageBlobBuffer { buffer: Vec::new(), last_pages: Vec::new(), position: 0, page_size }
    }

    pub fn available_to_read_size(&self) -> (r: usize)
        requires
            self.wf(),
        ensures
            r == self.unread().len(),
    {
        self.buffer.len() - self.position
    }

    /// Adds bytes after those held.
    pub fn upload(&mut self, buffer: &[u8])
        requires
            old(self).wf(),
        ensures
            final(self).wf(),
            final(self).buffer@ == old(self).buffer@ + buffer@,
            final(self).unread() == old(self).unread() + buffer@,
            final(self).position == old(self).position,
            final(self).page_size == old(self).page_size,
            final(self).last_pages == old(self).last_pages,
    {
        self.buffer.extend_from_slice(buffer);
        assert(self.unread() =~= old(self).unread() + buffer@);
    }

    /// Moves the read position on by `size`; when everything is read, keeps the
    /// last two pages (or the whole buffer when shorter) and empties the buffer.
    pub fn advance_position(&mut self, size: usize)
        requires
            old(self).wf(),
            size <= old(self).unread().len(),
        ensures
            final(self).wf(),
            final(self).page_size == old(self).page_size,
            final(self).unread() == old(self).unread().subrange(size as int, old(self).unread().len() as int),
            old(self).position + size < old(self).buffer@.len() ==> final(self).buffer == old(self).buffer
                && final(self).position == old(self).position + size && final(self).last_pages == old(self).last_pages,
            old(self).position + size == old(self).buffer@.len() ==> final(self).buffer@.len() == 0
                && final(self).position == 0 && final(self).last_pages@ == if old(self).buffer@.len() >= 2 * old(self).page_size {
                old(self).buffer@.subrange(
                    old(self).buffer@.len() - 2 * old(self).page_size,
                    old(self).buffer@.len() as int,
                )
            } else {
                old(self).buffer@
            },
    {
        let buffer_len = self.buffer.len();
        self.position = self.position + size;
        if self.position == buffer_len {
            let last_page_capacity = self.page_size * 2;
            let mut last_pages: Vec<u8> = Vec::new();
            let len = self.buffer.len();
            if len >= last_page_capacity {
                last_pages.extend_from_slice(&self.buffer.as_slice()[len - last_page_capacity..len]);
            } else {
                last_pages.extend_from_slice(self.buffer.as_slice());
            }
            self.last_pages = last_pages;
            self.buffer.clear();
            self.position = 0;
            assert(self.unread() =~= old(self).unread().subrange(size as int, old(self).unread().len() as int));
        } else {
            assert(self.unread() =~= old(self).unread().subrange(size as int, old(self).unread().len() as int));
        }
    }

    /// Copies as many unread bytes as fit to the start of `data` and returns
    /// how many were copied.
    pub fn copy_to(&mut self, data: &mut [u8]) -> (r: usize)
        requires
            old(self).wf(),
        ensures
            final(self).wf(),
            r == if old(data)@.len() <= old(self).unread().len() {
                old(data)@.len() as int
            } else {
                old(self).unread().len() as int
            },
            final(data)@ == old(self).unread().subrange(0, r as int) + old(data)@.subrange(r as int, old(data)@.len() as int),
            final(self).unread() == old(self).unread().subrange(r as int, old(self).unread().len() as int),
            final(self).page_size == old(self).page_size,
            old(self).position + r < old(self).buffer@.len() ==> final(self).buffer == old(self).buffer
                && final(self).position == old(self).position + r && final(self).last_pages == old(self).last_pages,
            old(self).position + r == old(self).buffer@.len() ==> final(self).buffer@.len() == 0
                && final(self).position == 0 && final(self).last_pages@ == if old(self).buffer@.len() >= 2 * old(
                self).page_size {
                old(self).buffer@.subrange(
                    old(self).buffer@.len() - 2 * old(self).page_size,
                    old(self).buffer@.len() as int,
                )
            } else {
                old(self).buffer@
            },
    {
        let max_to_copy = self.available_to_read_size();
        let count = if data.len() <= max_to_copy {
            data.len()
        } else {
            max_to_copy
        };
        let buffer_len = self.buffer.len();
        let mut i: usize = 0;
        while i < count
            invariant
                self.wf(),
                buffer_len == self.buffer@.len(),
                *self == *old(self),
                count <= data@.len(),
                count <= self.unread().len(),
                data@.len() == old(data)@.len(),
                0 <= i <= count,
                forall|k: int| 0 <= k < i ==> data@[k] == self.unread()[k],
                forall|k: int| i <= k < data@.len() ==> data@[k] == old(data)@[k],
            decreases count - i,
        {
            data[i] = self.buffer[self.position + i];
            i = i + 1;
        }
        assert(data@ =~= old(self).unread().subrange(0, count as int) + old(data)@.subrange(count as int, old(data)@.len() as int));
        self.advance_position(count);
        count
    }
}

} // verus!
