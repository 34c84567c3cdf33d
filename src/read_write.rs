//! Page buffers of the sequential reader and writer: a read buffer that keeps
//! the last page it consumed, the tail page of a writer, and a window of the
//! last pages written.

use vstd::prelude::*;
use crate::page_blob_utils::{get_page_no_from_page_blob_position, get_position_within_page};

verus! {

/// One batch of fetched pages at a time, with the last page of the batch
/// before it, and the reader's blob position.
#[derive(Debug)]
pub struct ReadCache {
    pub buffer: Option<Vec<u8>>,
    pub prev_buffer_last_page: Option<Vec<u8>>,
    pub read_position: usize,
    pub page_size: usize,
    pub read_blob_position: usize,
    pub first_page_no: usize,
    pub pages_in_buffer: usize,
}

impl ReadCache {
    pub open spec fn wf(&self) -> bool {
        &&& self.page_size > 0
        &&& self.buffer matches Some(b) ==> {
            &&& self.read_position < b@.len()
            &&& b@.len() == self.pages_in_buffer * self.page_size
            &&& b@.len() >= self.page_size
        }
        &&& self.buffer is None ==> self.read_position == 0
        &&& self.prev_buffer_last_page matches Some(p) ==> p@.len() == self.page_size
    }

    /// The bytes of the current batch not read yet.
    pub open spec fn unread(&self) -> Seq<u8> {
        match self.buffer {
            Some(b) => b@.subrange(self.read_position as int, b@.len() as int),
            None => Seq::empty(),
        }
    }

    pub fn new(page_size: usize) -> (r: Self)
        requires
            page_size > 0,
        ensures
            r.wf(),
            r.buffer is None,
            r.prev_buffer_last_page is None,
            r.read_position == 0,
            r.read_blob_position == 0,
            r.page_size == page_size,
            r.first_page_no == 0,
            r.pages_in_buffer == 0,
    {
        ReadCache {
            buffer: None,
            prev_buffer_last_page: None,
            read_position: 0,
            read_blob_position: 0,
            page_size,
            first_page_no: 0,
            pages_in_buffer: 0,
        }
    }

    /// The page that holds blob position `read_blob_position - negative_offset`:
    /// the previous batch's last page, or a page of the current batch.
    /// The page that holds blob position `read_blob_position - negative_offset`.
    pub open spec fn page_at(&self, negative_offset: int) -> Seq<u8> {
        let page_no = (self.read_blob_position - negative_offset) / (self.page_size as int);
        if self.prev_buffer_last_page is Some && self.first_page_no >= 1 && page_no == self.first_page_no - 1 {
            self.prev_buffer_last_page->Some_0@
        } else {
            self.buffer->Some_0@.subrange(
                (page_no - self.first_page_no) * self.page_size,
                (page_no - self.first_page_no + 1) * self.page_size,
            )
        }
    }

    pub fn get_page_from_buffer(&self, negative_offset: usize) -> (r: &[u8])
        requires
            self.wf(),
            self.buffer is Some,
            negative_offset <= self.read_blob_position,
            ({
                let page_no = (self.read_blob_position - negative_offset) / (self.page_size as int);
                &&& self.prev_buffer_last_page is Some && self.first_page_no >= 1 && page_no == self.first_page_no - 1
                    || self.first_page_no <= page_no < self.first_page_no + self.pages_in_buffer
            }),
        ensures
            r@.len() == self.page_size,
            r@ == self.page_at(negative_offset as int),
            ({
                let page_no = (self.read_blob_position - negative_offset) / (self.page_size as int);
                &&& (self.prev_buffer_last_page is Some && self.first_page_no >= 1 && page_no == self.first_page_no
                    - 1) ==> r@ == self.prev_buffer_last_page->Some_0@
                &&& !(self.prev_buffer_last_page is Some && self.first_page_no >= 1 && page_no
                    == self.first_page_no - 1) ==> r@ == self.buffer->Some_0@.subrange(
                    (page_no - self.first_page_no) * self.page_size,
                    (page_no - self.first_page_no + 1) * self.page_size,
                )
            }),
    {
        let page_no = get_page_no_from_page_blob_position(self.read_blob_position - negative_offset, self.page_size);
        if let Some(prev_buffer) = &self.prev_buffer_last_page {
            if self.first_page_no >= 1 && page_no == self.first_page_no - 1 {
                return prev_buffer.as_slice();
            }
        }
        match &self.buffer {
            Some(buffer) => {
                let blen = buffer.len();
                let page_no_in_buffer = page_no - self.first_page_no;
                proof {
                    assert((page_no_in_buffer + 1) * self.page_size <= self.pages_in_buffer * self.page_size)
                        by (nonlinear_arith)
                        requires page_no_in_buffer + 1 <= self.pages_in_buffer;
                    assert(page_no_in_buffer * self.page_size + self.page_size == (page_no_in_buffer + 1)
                        * self.page_size) by (nonlinear_arith);
                }
                let buffer_offset = page_no_in_buffer * self.page_size;
                &buffer.as_slice()[buffer_offset..buffer_offset + self.page_size]
            },
            None => &[],
        }
    }

    /// The blob position `negative_offset` bytes before the reader's, and the
    /// bytes of its page that precede it (none at a page boundary or at 0).
    pub fn get_last_page_remaining_content(&mut self, negative_offset: usize) -> (r: (usize, Option<Vec<u8>>))
        requires
            old(self).wf(),
            old(self).read_blob_position > 0 ==> {
                let pos = old(self).read_blob_position - negative_offset;
                let page_no = pos / (old(self).page_size as int);
                &&& negative_offset <= old(self).read_blob_position
                &&& pos % (old(self).page_size as int) != 0 ==> {
                    &&& old(self).buffer is Some
                    &&& old(self).prev_buffer_last_page is Some && old(self).first_page_no >= 1 && page_no
                        == old(self).first_page_no - 1 || old(self).first_page_no <= page_no < old(self).first_page_no
                        + old(self).pages_in_buffer
                }
            },
        ensures
            *final(self) == *old(self),
            old(self).read_blob_position == 0 ==> r == (0usize, None::<Vec<u8>>),
            old(self).read_blob_position > 0 ==> {
                let pos = old(self).read_blob_position - negative_offset;
                let within = pos % (old(self).page_size as int);
                &&& r.0 == pos
                &&& within == 0 ==> r.1 is None
                &&& within != 0 ==> (r.1 matches Some(v) && v@ == old(self).page_at(negative_offset as int).subrange(
                    0,
                    within,
                ))
            },
    {
        if self.read_blob_position == 0 {
            return (0, None);
        }
        let read_blob_position = self.read_blob_position - negative_offset;
        let position_within_last_page = get_position_within_page(read_blob_position, self.page_size);
        if position_within_last_page == 0 {
            return (read_blob_position, None);
        }
        let last_page = self.get_page_from_buffer(negative_offset);
        let mut result: Vec<u8> = Vec::new();
        result.extend_from_slice(&last_page[0..position_within_last_page]);
        (read_blob_position, Some(result))
    }

    pub fn available_to_read_size(&self) -> (r: usize)
        requires
            self.wf(),
        ensures
            r == self.unread().len(),
    {
        match &self.buffer {
            None => 0,
            Some(buffer) => buffer.len() - self.read_position,
        }
    }

    /// Takes the next batch of whole pages; allowed once the previous batch is read.
    pub fn upload(&mut self, buffer: Vec<u8>)
        requires
            old(self).wf(),
            old(self).buffer is None,
            buffer@.len() >= old(self).page_size,
            (buffer@.len() as int) % (old(self).page_size as int) == 0,
            old(self).first_page_no + old(self).pages_in_buffer <= usize::MAX,
        ensures
            final(self).wf(),
            final(self).buffer == Some(buffer),
            final(self).first_page_no == old(self).first_page_no + old(self).pages_in_buffer,
            final(self).pages_in_buffer == (buffer@.len() as int) / (old(self).page_size as int),
            final(self).unread() == buffer@,
            final(self).read_blob_position == old(self).read_blob_position,
            final(self).prev_buffer_last_page == old(self).prev_buffer_last_page,
            final(self).page_size == old(self).page_size,
    {
        self.first_page_no = self.first_page_no + self.pages_in_buffer;
        self.pages_in_buffer = buffer.len() / self.page_size;
        proof {
            let len = buffer@.len() as int;
            let ps = self.page_size as int;
            vstd::arithmetic::div_mod::lemma_fundamental_div_mod(len, ps);
            assert(len == (len / ps) * ps) by (nonlinear_arith)
                requires len == ps * (len / ps) + len % ps, len % ps == 0;
        }
        self.buffer = Some(buffer);
        assert(self.unread() =~= buffer@);
    }

    /// Moves the read position on by `size`; when the batch is read, keeps its
    /// last page and drops the batch.
    pub fn advance_position(&mut self, size: usize)
        requires
            old(self).wf(),
            old(self).buffer is Some,
            size <= old(self).unread().len(),
            old(self).read_blob_position + size <= usize::MAX,
        ensures
            final(self).wf(),
            final(self).read_blob_position == old(self).read_blob_position + size,
            final(self).unread() == old(self).unread().subrange(size as int, old(self).unread().len() as int),
            final(self).first_page_no == old(self).first_page_no,
            final(self).pages_in_buffer == old(self).pages_in_buffer,
            final(self).page_size == old(self).page_size,
            size < old(self).unread().len() ==> final(self).buffer == old(self).buffer
                && final(self).prev_buffer_last_page == old(self).prev_buffer_last_page
                && final(self).read_position == old(self).read_position + size,
            size == old(self).unread().len() ==> final(self).buffer is None && final(self).read_position == 0
                && (final(self).prev_buffer_last_page matches Some(p) && p@ == old(self).buffer->Some_0@.subrange(
                old(self).buffer->Some_0@.len() - old(self).page_size,
                old(self).buffer->Some_0@.len() as int,
            )),
    {
        let buffer_size = match &self.buffer {
            Some(b) => b.len(),
            None => 0,
        };
        self.read_blob_position = self.read_blob_position + size;
        self.read_position = self.read_position + size;
        if self.read_position == buffer_size {
            let mut last: Vec<u8> = Vec::new();
            match &self.buffer {
                Some(b) => {
                    last.extend_from_slice(&b.as_slice()[buffer_size - self.page_size..buffer_size]);
                },
                None => {},
            }
            self.prev_buffer_last_page = Some(last);
            self.buffer = None;
            self.read_position = 0;
            assert(self.unread() =~= old(self).unread().subrange(size as int, old(self).unread().len() as int));
        } else {
            assert(self.unread() =~= old(self).unread().subrange(size as int, old(self).unread().len() as int));
        }
    }

    /// Copies as many unread bytes as fit to the start of `data` and returns
    /// how many were copied.
    pub fn copy_to(&mut self, data: &mut [u8]) -> (r: usize)
        requires
            old(self).wf(),
            old(self).buffer is Some,
            old(self).read_blob_position + old(self).unread().len() <= usize::MAX,
        ensures
            final(self).wf(),
            r == if old(data)@.len() <= old(self).unread().len() {
                old(data)@.len() as int
            } else {
                old(self).unread().len() as int
            },
            final(data)@ == old(self).unread().subrange(0, r as int) + old(data)@.subrange(r as int, old(data)@.len() as int),
            final(self).unread() == old(self).unread().subrange(r as int, old(self).unread().len() as int),
            final(self).read_blob_position == old(self).read_blob_position + r,
            final(self).first_page_no == old(self).first_page_no,
            final(self).pages_in_buffer == old(self).pages_in_buffer,
            final(self).page_size == old(self).page_size,
            r < old(self).unread().len() ==> final(self).buffer == old(self).buffer
                && final(self).prev_buffer_last_page == old(self).prev_buffer_last_page
                && final(self).read_position == old(self).read_position + r,
            r == old(self).unread().len() ==> final(self).buffer is None && final(self).read_position == 0
                && (final(self).prev_buffer_last_page matches Some(p) && p@ == old(self).buffer->Some_0@.subrange(
                old(self).buffer->Some_0@.len() - old(self).page_size,
                old(self).buffer->Some_0@.len() as int,
            )),
    {
        let max_to_copy = self.available_to_read_size();
        let count = if data.len() <= max_to_copy {
            data.len()
        } else {
            max_to_copy
        };
        let mut i: usize = 0;
        match &self.buffer {
            Some(buffer) => {
                let buffer_len = buffer.len();
                while i < count
                    invariant
                        self.wf(),
                        *self == *old(self),
                        self.buffer == Some(*buffer),
                        buffer_len == buffer@.len(),
                        count <= data@.len(),
                        count <= self.unread().len(),
                        data@.len() == old(data)@.len(),
                        0 <= i <= count,
                        forall|k: int| 0 <= k < i ==> data@[k] == self.unread()[k],
                        forall|k: int| i <= k < data@.len() ==> data@[k] == old(data)@[k],
                    decreases count - i,
                {
                    data[i] = buffer[self.read_position + i];
                    i = i + 1;
                }
            },
            None => {},
        }
        assert(data@ =~= old(self).unread().subrange(0, count as int) + old(data)@.subrange(count as int, old(data)@.len() as int));
        self.advance_position(count);
        count
    }
}

/// The tail page of a writer: the bytes of the page that holds
/// `write_position` up to it, and what they become once a write lands.
#[derive(Debug)]
pub struct WriteCache {
    pub last_page: Option<Vec<u8>>,
    pub write_position: usize,
    pub page_size: usize,
    pub next_last_page: Option<Vec<u8>>,
    pub next_write_position: usize,
}

impl WriteCache {
    pub fn new(page_size: usize, last_page: Option<Vec<u8>>, write_position: usize) -> (r: Self)
        ensures
            r.last_page == last_page,
            r.write_position == write_position,
            r.page_size == page_size,
            r.next_last_page is None,
            r.next_write_position == 0,
    {
        WriteCache { last_page, write_position, page_size, next_last_page: None, next_write_position: 0 }
    }

    /// `payload` preceded by the tail page's bytes before the write position.
    pub fn concat_with_current_cache(&self, payload: &[u8]) -> (r: Vec<u8>)
        requires
            self.page_size > 0,
            self.last_page matches Some(p) ==> p@.len() >= (self.write_position as int) % (self.page_size as int),
        ensures
            r@ == if (self.write_position as int) % (self.page_size as int) > 0 && self.last_page is Some {
                self.last_page->Some_0@.subrange(0, (self.write_position as int) % (self.page_size as int)) + payload@
            } else {
                payload@
            },
    {
        let mut result: Vec<u8> = Vec::new();
        let position_within_page = get_position_within_page(self.write_position, self.page_size);
        if position_within_page > 0 {
            if let Some(last_page) = &self.last_page {
                result.extend_from_slice(&last_page.as_slice()[0..position_within_page]);
            }
        }
        result.extend_from_slice(payload);
        assert(result@ =~= (if (self.write_position as int) % (self.page_size as int) > 0 && self.last_page is Some {
            self.last_page->Some_0@.subrange(0, (self.write_position as int) % (self.page_size as int)) + payload@
        } else {
            payload@
        }));
        result
    }

    /// Prepares for `buffer` (the tail page's bytes, new frames and an end
    /// marker) being written: where the end marker will be, and the bytes of
    /// its page before it.
    pub fn start_increasing_blob(&mut self, buffer: &[u8])
        requires
            old(self).page_size > 0,
            buffer@.len() >= 4,
            ({
                let tail = if old(self).last_page is Some {
                    old(self).last_page->Some_0@.len() as int
                } else {
                    0int
                };
                let next = old(self).write_position + buffer@.len() - 4 - tail;
                &&& old(self).write_position + buffer@.len() <= usize::MAX
                &&& 0 <= next
                &&& next % (old(self).page_size as int) != 0 ==> ((buffer@.len() - 4) / (old(self).page_size as int))
                    * old(self).page_size + next % (old(self).page_size as int) <= buffer@.len()
            }),
        ensures
            ({
                let tail = if old(self).last_page is Some {
                    old(self).last_page->Some_0@.len() as int
                } else {
                    0int
                };
                let next = old(self).write_position + buffer@.len() - 4 - tail;
                let within = next % (old(self).page_size as int);
                let start = ((buffer@.len() - 4) / (old(self).page_size as int)) * old(self).page_size;
                &&& final(self).next_write_position == next
                &&& within == 0 ==> final(self).next_last_page is None
                &&& within != 0 ==> (final(self).next_last_page matches Some(p) && p@ == buffer@.subrange(
                    start,
                    start + within,
                ))
                &&& final(self).last_page == old(self).last_page
                &&& final(self).write_position == old(self).write_position
                &&& final(self).page_size == old(self).page_size
            }),
    {
        let mut next = self.write_position + buffer.len() - 4;
        if let Some(last_page) = &self.last_page {
            next = next - last_page.len();
        }
        self.next_write_position = next;
        let pos_within_last_page = get_position_within_page(next, self.page_size);
        if pos_within_last_page == 0 {
            self.next_last_page = None;
        } else {
            let page_no = get_page_no_from_page_blob_position(buffer.len() - 4, self.page_size);
            proof {
                assert(page_no * self.page_size <= buffer.len() - 4) by (nonlinear_arith)
                    requires page_no == (buffer.len() - 4) / (self.page_size as int), self.page_size > 0;
            }
            let last_page_pos = page_no * self.page_size;
            let mut next_last: Vec<u8> = Vec::new();
            next_last.extend_from_slice(&buffer[last_page_pos..last_page_pos + pos_within_last_page]);
            self.next_last_page = Some(next_last);
        }
    }

    /// The write landed: its end marker position and tail page become current.
    pub fn written(&mut self)
        ensures
            final(self).write_position == old(self).next_write_position,
            final(self).last_page == old(self).next_last_page,
            final(self).next_last_page is None,
            final(self).page_size == old(self).page_size,
            final(self).next_write_position == old(self).next_write_position,
    {
        self.write_position = self.next_write_position;
        let mut last_page = None;
        core::mem::swap(&mut last_page, &mut self.next_last_page);
        self.last_page = last_page;
    }
}

/// The last one or two pages written and the blob position of the cursor.
#[derive(Debug)]
pub struct Cache {
    pub data: Vec<u8>,
    pub position_in_blob: usize,
    pub position_in_last_pages: usize,
    pub page_size: usize,
}

impl Cache {
    pub fn new(page_size: usize, data: Vec<u8>, position_in_blob: usize) -> (r: Self)
        requires
            page_size > 0,
        ensures
            r.data == data,
            r.position_in_blob == position_in_blob,
            r.position_in_last_pages == position_in_blob % page_size,
            r.page_size == page_size,
    {
        let mut result = Cache { data, position_in_blob, position_in_last_pages: 0, page_size };
        result.position_in_last_pages = result.get_position_in_last_pages(position_in_blob);
        result
    }

    /// Position of the cursor inside its page.
    pub fn position_in_cache(&self) -> (r: usize)
        requires
            self.page_size > 0,
        ensures
            r == self.position_in_blob % self.page_size,
    {
        self.get_position_in_last_pages(self.position_in_blob)
    }

    /// After `buffer` (whole pages) was written, keeps its last two pages (its
    /// last page when it holds fewer than two) and moves the cursor on by
    /// `position_increase`.
    pub fn blob_is_increased(&mut self, buffer: &[u8], position_increase: usize)
        requires
            old(self).page_size > 0,
            buffer@.len() >= old(self).page_size,
            2 * old(self).page_size <= usize::MAX,
            old(self).position_in_blob + position_increase <= usize::MAX,
        ensures
            final(self).position_in_blob == old(self).position_in_blob + position_increase,
            final(self).position_in_last_pages == final(self).position_in_blob % old(self).page_size,
            final(self).page_size == old(self).page_size,
            final(self).data@ == if (buffer@.len() as int) / (old(self).page_size as int) >= 2 {
                buffer@.subrange(buffer@.len() - 2 * old(self).page_size, buffer@.len() as int)
            } else {
                buffer@.subrange(buffer@.len() - old(self).page_size, buffer@.len() as int)
            },
    {
        let new_position_in_blob = self.position_in_blob + position_increase;
        let new_position_in_cache = self.get_position_in_last_pages(new_position_in_blob);
        let buffer_length = buffer.len();
        let page_amount = buffer_length / self.page_size;
        let mut data: Vec<u8> = Vec::new();
        if page_amount >= 2 {
            proof {
                assert(2 * self.page_size <= buffer_length) by (nonlinear_arith)
                    requires page_amount == (buffer_length as int) / (self.page_size as int), page_amount >= 2, self.page_size > 0;
            }
            data.extend_from_slice(&buffer[buffer_length - self.page_size * 2..buffer_length]);
        } else {
            data.extend_from_slice(&buffer[buffer_length - self.page_size..buffer_length]);
        }
        self.data = data;
        self.position_in_blob = new_position_in_blob;
        self.position_in_last_pages = new_position_in_cache;
    }

    pub fn get_position_in_last_pages(&self, position: usize) -> (r: usize)
        requires
            self.page_size > 0,
        ensures
            r == position % self.page_size,
    {
        position % self.page_size
    }
}

} // verus!
