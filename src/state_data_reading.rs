//! The Reading state: frames are read one by one from the start of the blob.

use vstd::prelude::*;
use vstd::string::StringExecFns;
use crate::blob_cache::MyPageBlobWithCache;
use crate::blob_store::PageBlobStore;
use crate::decimal::{decimal, push_decimal};
use crate::error::{CorruptedErrorInfo, StoreError};
use crate::framing::{FrameAt, PAYLOAD_SIZE_LEN, frame_at, read_le_u32};
use crate::page_blob_utils::{BLOB_PAGE_SIZE, get_position_within_page};
use crate::pages_cache::PageCache;
use crate::sequence_reader::{PageBlobSequenceReaderError, read_buffer, same_store, window_matches};
use crate::settings::AppendPageBlobSettings;

verus! {

/// The diagnostic of a frame whose length `len` is above the limit `max`, at
/// blob position `pos`.
pub open spec fn too_large_message(len: u32, max: u32, pos: nat) -> Seq<char> {
    "Payload size "@ + decimal(len as nat) + " is too huge. Maximum allowed size is "@ + decimal(max as nat)
        + ". Pos "@ + decimal(pos)
}

/// A failed read of the next frame.
#[derive(Debug)]
pub enum DataReadingErrorResult {
    /// The store failed; the reader is as it was.
    StoreError(StoreError),
    /// The frame at the cursor cannot be read; the window is handed over.
    Corrupted { info: CorruptedErrorInfo, pages_cache: PageCache },
}

/// What a read of the next frame found.
#[derive(Debug)]
pub enum GetNextPayloadResult {
    NextPayload(Vec<u8>),
    /// The end marker; the window, with its cursor on the marker, is handed over.
    GoToWriteMode(PageCache),
}

/// The reader's window, and how far the cursor still has to move past the
/// frame that was returned last.
#[derive(Debug)]
pub struct StateDataReading {
    pub read_cache: Option<PageCache>,
    pub settings: AppendPageBlobSettings,
    pub advance_from_previous_payload: Option<usize>,
}

/// What the cursor still has to move.
pub open spec fn pending(advance: Option<usize>) -> int {
    match advance {
        Some(n) => n as int,
        None => 0,
    }
}

impl StateDataReading {
    /// Position of the next frame to read.
    pub open spec fn read_position(&self) -> int {
        self.read_cache->Some_0.blob_position + pending(self.advance_from_previous_payload)
    }

    /// The frame at the read position of `content`.
    pub open spec fn next_frame(&self, content: Seq<u8>) -> FrameAt {
        frame_at(content, self.read_position(), self.settings.max_payload_size_protection)
    }

    /// The window matches the blob's bytes and holds the next frame's position.
    pub open spec fn wf(&self, content: Seq<u8>) -> bool {
        &&& self.read_cache is Some
        &&& window_matches(self.read_cache->Some_0, content)
        &&& self.read_position() <= self.read_cache->Some_0.end()
        &&& self.settings.is_valid()
    }

    /// A reader at the start of the blob, with an empty window.
    pub fn new(settings: AppendPageBlobSettings) -> (r: Self)
        ensures
            r.read_cache is Some,
            r.read_cache->Some_0.data@ == Seq::<u8>::empty(),
            r.read_cache->Some_0.page_id_offset == 0,
            r.read_cache->Some_0.blob_position == 0,
            r.read_cache->Some_0.page_size == BLOB_PAGE_SIZE,
            r.advance_from_previous_payload is None,
            r.settings == settings,
    {
        StateDataReading {
            read_cache: Some(PageCache::new(Vec::new(), 0, 0, BLOB_PAGE_SIZE)),
            settings,
            advance_from_previous_payload: None,
        }
    }

    /// Takes the window out of the reader.
    pub fn dispose_pages_cache(&mut self) -> (r: PageCache)
        requires
            old(self).read_cache is Some,
        ensures
            r == old(self).read_cache->Some_0,
            final(self).read_cache is None,
            final(self).settings == old(self).settings,
            final(self).advance_from_previous_payload == old(self).advance_from_previous_payload,
    {
        let mut result = None;
        core::mem::swap(&mut self.read_cache, &mut result);
        match result {
            Some(cache) => cache,
            None => PageCache::new(Vec::new(), 0, 0, BLOB_PAGE_SIZE),
        }
    }

    /// Position of the cursor: the length of the frame returned last.
    pub fn get_blob_position(&self) -> (r: usize)
        requires
            self.read_cache is Some,
        ensures
            r == self.read_cache->Some_0.blob_position,
    {
        match &self.read_cache {
            Some(cache) => cache.get_blob_position(),
            None => 0,
        }
    }

    /// Hands the window over with the diagnostic of a frame that cannot be read at the cursor.
    fn corrupted(&mut self, msg: String) -> (r: DataReadingErrorResult)
        requires
            old(self).read_cache is Some,
            old(self).read_cache->Some_0.inv_open(),
            old(self).read_cache->Some_0.page_size == BLOB_PAGE_SIZE,
        ensures
            final(self).read_cache is None,
            final(self).settings == old(self).settings,
            r matches DataReadingErrorResult::Corrupted { info, pages_cache } && pages_cache == old(
                self,
            ).read_cache->Some_0 && info.broken_pos == pages_cache.blob_position && info.msg == msg && (
            info.last_page matches Some(b) ==> b@ == pages_cache.data@.subrange(
                pages_cache.pos_in() - (pages_cache.blob_position as int) % (BLOB_PAGE_SIZE as int),
                pages_cache.pos_in(),
            )),
    {
        let pages_cache = self.dispose_pages_cache();
        let pos = pages_cache.get_blob_position();
        let in_page = get_position_within_page(pos, BLOB_PAGE_SIZE);
        let pos_in = pages_cache.get_position_in_cache();
        let last_page = if in_page == 0 || in_page > pos_in {
            None
        } else {
            let mut b: Vec<u8> = Vec::new();
            b.extend_from_slice(&pages_cache.get_payload()[pos_in - in_page..pos_in]);
            Some(b)
        };
        DataReadingErrorResult::Corrupted {
            info: CorruptedErrorInfo { broken_pos: pos, msg, last_page },
            pages_cache,
        }
    }

    /// Reads the frame at the read position: its payload, the end marker, or
    /// corruption when its length is above `max_payload_size_protection` or the
    /// blob ends inside it.
    pub fn get_next_payload<S: PageBlobStore>(&mut self, page_blob: &mut MyPageBlobWithCache<S>) -> (r: Result<
        GetNextPayloadResult,
        DataReadingErrorResult,
    >)
        requires
            old(self).wf(old(page_blob).content()),
            old(page_blob).wf(),
        ensures
            final(page_blob).wf(),
            same_store(*old(page_blob), *final(page_blob)),
            final(self).settings == old(self).settings,
            r matches Err(DataReadingErrorResult::StoreError(_)) ==> {
                &&& !old(page_blob).page_blob.reliable()
                &&& final(self).wf(old(page_blob).content())
                &&& final(self).read_position() == old(self).read_position()
            },
            r matches Ok(GetNextPayloadResult::NextPayload(v)) ==> {
                &&& old(self).next_frame(old(page_blob).content()) == FrameAt::Payload(v@)
                &&& final(self).wf(old(page_blob).content())
                &&& final(self).read_cache->Some_0.blob_position == old(self).read_position()
                &&& final(self).read_position() == old(self).read_position() + 4 + v@.len()
            },
            r matches Ok(GetNextPayloadResult::GoToWriteMode(cache)) ==> {
                &&& old(self).next_frame(old(page_blob).content()) == FrameAt::End
                &&& final(self).read_cache is None
                &&& cache.blob_position == old(self).read_position()
                &&& window_matches(cache, old(page_blob).content())
            },
            r matches Err(DataReadingErrorResult::Corrupted { info, pages_cache }) ==> {
                &&& old(self).next_frame(old(page_blob).content()) is TooLarge || old(self).next_frame(
                    old(page_blob).content(),
                ) is Short
                &&& final(self).read_cache is None
                &&& info.broken_pos == old(self).read_position()
                &&& pages_cache.blob_position == old(self).read_position()
                &&& window_matches(pages_cache, old(page_blob).content())
                &&& old(self).next_frame(old(page_blob).content()) matches FrameAt::TooLarge(len) ==> info.msg@
                    == too_large_message(len, old(self).settings.max_payload_size_protection, info.broken_pos as nat)
            },
    {
        let ghost content = page_blob.content();
        let ghost max = self.settings.max_payload_size_protection;
        let minimal = self.settings.cache_capacity_in_pages;
        let mut cache = self.dispose_pages_cache();
        if let Some(advance) = self.advance_from_previous_payload {
            cache.advance_blob_position(advance);
            self.advance_from_previous_payload = None;
        }
        let ghost pos = cache.blob_position as int;
        let len_bytes = match read_buffer(&mut cache, page_blob, PAYLOAD_SIZE_LEN, minimal, 0) {
            Ok(b) => b,
            Err(PageBlobSequenceReaderError::StoreError(err)) => {
                self.read_cache = Some(cache);
                return Err(DataReadingErrorResult::StoreError(err));
            },
            Err(PageBlobSequenceReaderError::NoSuchAmountToRead) => {
                self.read_cache = Some(cache);
                let mut msg = String::from_str(
                    "Can not read next payload size. Not enough data in blob. Blob is corrupted. Pos:",
                );
                push_decimal(&mut msg, cache_position(&self.read_cache) as u64);
                return Err(self.corrupted(msg));
            },
        };
        let payload_size = read_le_u32(len_bytes.as_slice(), 0);
        proof {
            crate::framing::lemma_le_value_local(len_bytes@, 0, content, pos);
        }
        if payload_size > self.settings.max_payload_size_protection {
            self.read_cache = Some(cache);
            let mut msg = String::from_str("Payload size ");
            push_decimal(&mut msg, payload_size as u64);
            msg.append(" is too huge. Maximum allowed size is ");
            push_decimal(&mut msg, self.settings.max_payload_size_protection as u64);
            msg.append(". Pos ");
            push_decimal(&mut msg, cache_position(&self.read_cache) as u64);
            proof {
                reveal_strlit("Payload size ");
                reveal_strlit(" is too huge. Maximum allowed size is ");
                reveal_strlit(". Pos ");
            }
            assert(msg@ =~= too_large_message(payload_size, self.settings.max_payload_size_protection, pos as nat));
            return Err(self.corrupted(msg));
        }
        if payload_size == 0 {
            return Ok(GetNextPayloadResult::GoToWriteMode(cache));
        }
        let payload = match read_buffer(&mut cache, page_blob, payload_size as usize, minimal, PAYLOAD_SIZE_LEN) {
            Ok(b) => b,
            Err(PageBlobSequenceReaderError::StoreError(err)) => {
                self.read_cache = Some(cache);
                return Err(DataReadingErrorResult::StoreError(err));
            },
            Err(PageBlobSequenceReaderError::NoSuchAmountToRead) => {
                self.read_cache = Some(cache);
                let mut msg = String::from_str("Can not read payload of size ");
                push_decimal(&mut msg, payload_size as u64);
                msg.append(". Not enough data in blob. Blob is corrupted. Pos:");
                push_decimal(&mut msg, cache_position(&self.read_cache) as u64);
                return Err(self.corrupted(msg));
            },
        };
        assert(frame_at(content, pos, max) == FrameAt::Payload(payload@));
        self.read_cache = Some(cache);
        self.advance_from_previous_payload = Some(payload.len() + PAYLOAD_SIZE_LEN);
        Ok(GetNextPayloadResult::NextPayload(payload))
    }
}

/// The cursor of the window, if any.
fn cache_position(cache: &Option<PageCache>) -> (r: usize)
    ensures
        cache matches Some(c) ==> r == c.blob_position,
{
    match cache {
        Some(c) => c.blob_position,
        None => 0,
    }
}

} // verus!
