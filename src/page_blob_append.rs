//! The append log: a state machine over a page blob that reads the frames
//! already written, then appends new ones.

use vstd::prelude::*;
use vstd::string::StringExecFns;
use crate::blob_cache::{MyPageBlobWithCache, copy_blob, grown_pages};
use crate::blob_store::{PageBlobStore, store_ok};
use crate::error::{CorruptedErrorInfo, PageBlobAppendError, StoreError};
use crate::framing::{FrameAt, end_marker, frames, payloads_fit};
use crate::page_blob_utils::{BLOB_PAGE_SIZE, MAX_LOG_SIZE, pages_for};
use crate::pages_cache::PageCache;
use crate::sequence_reader::{same_store, window_matches};
use crate::settings::AppendPageBlobSettings;
use crate::state_data_not_initialized::{InitToReadResult, StateDataNotInitialized};
use crate::state_data_reading::{DataReadingErrorResult, GetNextPayloadResult, StateDataReading, too_large_message};
use crate::state_data_writing::{StateDataWriting, frames_size, views, writer_matches};

verus! {

/// The states of an append log.
#[derive(Debug)]
pub enum PageBlobAppendCacheState {
    NotInitialized(StateDataNotInitialized),
    Reading(StateDataReading),
    /// The window as it was when the corruption was found, and its diagnostic.
    Corrupted(PageCache, CorruptedErrorInfo),
    Writing(StateDataWriting),
}

impl PageBlobAppendCacheState {
    /// The state's name.
    pub fn as_string_name(&self) -> (r: &'static str)
        ensures
            r@ == match self {
                PageBlobAppendCacheState::NotInitialized(_) => "NotInitialized"@,
                PageBlobAppendCacheState::Reading(_) => "Reading"@,
                PageBlobAppendCacheState::Corrupted(_, _) => "Corrupted"@,
                PageBlobAppendCacheState::Writing(_) => "Writing"@,
            },
    {
        match self {
            PageBlobAppendCacheState::NotInitialized(_) => "NotInitialized",
            PageBlobAppendCacheState::Reading(_) => "Reading",
            PageBlobAppendCacheState::Corrupted(_, _) => "Corrupted",
            PageBlobAppendCacheState::Writing(_) => "Writing",
        }
    }
}

/// A window that matches the blob, once taken over by the writer.
proof fn lemma_window_to_writer(cache: PageCache, gced: PageCache, content: Seq<u8>)
    requires
        window_matches(cache, content),
        cache.blob_position <= cache.end(),
        gced.wf(),
        gced.page_size == cache.page_size,
        gced.blob_position == cache.blob_position,
        gced.end() == cache.end(),
        gced.page_id_offset == cache.page_id_offset + cache.pages_to_gc(1),
        gced.data@ == cache.data@.subrange(cache.pages_to_gc(1) * cache.page_size, cache.data@.len() as int),
    ensures
        writer_matches(gced, content),
{
    let k = cache.pages_to_gc(1);
    assert(gced.start() == cache.start() + k * cache.page_size) by (nonlinear_arith)
        requires
            gced.page_id_offset == cache.page_id_offset + k,
            gced.page_size == cache.page_size;
    assert(gced.data@.subrange(0, gced.pos_in()) =~= content.subrange(gced.start(), gced.blob_position as int));
}

/// An append log over the page blob `S`.
pub struct PageBlobAppend<S: PageBlobStore> {
    pub page_blob_with_cache: MyPageBlobWithCache<S>,
    pub state: PageBlobAppendCacheState,
    pub settings: AppendPageBlobSettings,
}

impl<S: PageBlobStore> PageBlobAppend<S> {
    /// The blob's bytes.
    pub open spec fn content(&self) -> Seq<u8> {
        self.page_blob_with_cache.content()
    }

    /// The state's window and cursor agree with the blob.
    pub open spec fn wf(&self) -> bool {
        &&& self.settings.is_valid()
        &&& self.page_blob_with_cache.wf()
        &&& self.page_blob_with_cache.max_pages_to_write_per_transaction
            == self.settings.max_pages_to_write_single_round_trip
        &&& self.page_blob_with_cache.resize_pages_ratio == self.settings.blob_auto_resize_in_pages
        &&& match self.state {
            PageBlobAppendCacheState::NotInitialized(_) => true,
            PageBlobAppendCacheState::Reading(s) => s.wf(self.content()) && s.settings == self.settings,
            PageBlobAppendCacheState::Corrupted(cache, _) => window_matches(cache, self.content()),
            PageBlobAppendCacheState::Writing(w) => writer_matches(w.page_cache, self.content()),
        }
    }

    /// Position of the next frame to read (Reading), or of the end marker (Writing).
    pub open spec fn position(&self) -> int {
        match self.state {
            PageBlobAppendCacheState::Reading(s) => s.read_position(),
            PageBlobAppendCacheState::Writing(w) => w.page_cache.blob_position as int,
            PageBlobAppendCacheState::Corrupted(cache, _) => cache.blob_position as int,
            _ => 0,
        }
    }

    /// A log over `page_blob`, in the NotInitialized state.
    pub fn new(page_blob: S, settings: AppendPageBlobSettings) -> (r: Self)
        requires
            settings.is_valid(),
            store_ok(page_blob),
        ensures
            r.wf(),
            r.page_blob_with_cache.page_blob == page_blob,
            r.state is NotInitialized,
            r.settings == settings,
    {
        PageBlobAppend {
            page_blob_with_cache: MyPageBlobWithCache::new(
                page_blob,
                settings.max_pages_to_write_single_round_trip,
                settings.blob_auto_resize_in_pages,
            ),
            state: PageBlobAppendCacheState::NotInitialized(StateDataNotInitialized::new()),
            settings,
        }
    }

    pub fn get_page_blob(&self) -> (r: &S)
        ensures
            *r == self.page_blob_with_cache.page_blob,
    {
        &self.page_blob_with_cache.page_blob
    }

    /// Ends the log and hands back its page blob.
    pub fn into_page_blob(self) -> (r: S)
        ensures
            r == self.page_blob_with_cache.page_blob,
    {
        self.page_blob_with_cache.page_blob
    }

    pub fn get_page_blob_mut(&mut self) -> (r: &mut S)
        ensures
            *r == old(self).page_blob_with_cache.page_blob,
            final(self).page_blob_with_cache.page_blob == *final(r),
            final(self).page_blob_with_cache.pages_amount == old(self).page_blob_with_cache.pages_amount,
            final(self).state == old(self).state,
            final(self).settings == old(self).settings,
    {
        &mut self.page_blob_with_cache.page_blob
    }

    fn take_state(&mut self) -> (r: PageBlobAppendCacheState)
        ensures
            r == old(self).state,
            final(self).state is NotInitialized,
            final(self).page_blob_with_cache == old(self).page_blob_with_cache,
            final(self).settings == old(self).settings,
    {
        let mut st = PageBlobAppendCacheState::NotInitialized(StateDataNotInitialized::new());
        core::mem::swap(&mut self.state, &mut st);
        st
    }

    /// Looks at the blob: goes to Writing when it is empty, to Reading when it
    /// has pages. A missing blob is created empty when `auto_create_if_not_exist`.
    /// Forbidden outside NotInitialized.
    pub fn initialize_to_read_mode(&mut self, auto_create_if_not_exist: bool) -> (r: Result<(), PageBlobAppendError>)
        requires
            old(self).wf(),
        ensures
            final(self).wf(),
            final(self).settings == old(self).settings,
            old(self).page_blob_with_cache.page_blob.reliable() ==> final(self).page_blob_with_cache.page_blob.reliable(),
            !(old(self).state is NotInitialized) ==> r is Err && r->Err_0 is Forbidden && *final(self) == *old(self),
            old(self).state is NotInitialized ==> {
                &&& final(self).content() == old(self).content() || (auto_create_if_not_exist
                    && !old(self).page_blob_with_cache.page_blob.blob_exists()
                    && final(self).content().len() == 0)
                &&& !auto_create_if_not_exist ==> final(self).content() == old(self).content()
                &&& !auto_create_if_not_exist && !old(self).page_blob_with_cache.page_blob.blob_exists() ==> r is Err
                &&& !auto_create_if_not_exist && !old(self).page_blob_with_cache.page_blob.blob_exists() && old(self).page_blob_with_cache.page_blob.precise() ==> (r matches Err(
                    PageBlobAppendError::StoreError(StoreError::BlobNotFound),
                ))
                &&& r is Ok ==> final(self).position() == 0
                    && (final(self).content().len() == 0 ==> final(self).state is Writing)
                    && (final(self).content().len() > 0 ==> final(self).state is Reading)
                &&& r is Err ==> r->Err_0 is StoreError && final(self).state is NotInitialized
                &&& old(self).page_blob_with_cache.page_blob.reliable() ==> r is Ok && final(self).content() == old(self).content()
            },
    {
        let state = self.take_state();
        match state {
            PageBlobAppendCacheState::NotInitialized(mut data) => {
                let res = data.init_to_read(&mut self.page_blob_with_cache, auto_create_if_not_exist);
                match res {
                    Ok(InitToReadResult::ToWriteMode(page_cache)) => {
                        let w = StateDataWriting::new(page_cache);
                        proof {
                            assert(w.page_cache.data@.subrange(0, w.page_cache.pos_in()) =~= self.content().subrange(0, 0));
                        }
                        self.state = PageBlobAppendCacheState::Writing(w);
                        Ok(())
                    },
                    Ok(InitToReadResult::ToReadMode) => {
                        let s = StateDataReading::new(self.settings);
                        proof {
                            assert(s.read_cache->Some_0.data@ =~= self.content().subrange(0, 0));
                        }
                        self.state = PageBlobAppendCacheState::Reading(s);
                        Ok(())
                    },
                    Err(err) => {
                        self.state = PageBlobAppendCacheState::NotInitialized(data);
                        Err(PageBlobAppendError::StoreError(err))
                    },
                }
            },
            other => {
                let msg = other.as_string_name();
                self.state = other;
                let mut text = String::from_str("Page blob append can not be initialized in ");
                text.append(msg);
                text.append(" state");
                Err(PageBlobAppendError::Forbidden(text))
            },
        }
    }

    /// Reads the next frame: `Some(payload)`; `None` at the end marker, going to
    /// Writing with the cursor on it; `Corrupted` when the frame cannot be read,
    /// going to Corrupted. NotInitialized before `initialize_to_read_mode`;
    /// Forbidden in Writing and Corrupted. The blob is never changed.
    pub fn get_next_payload(&mut self) -> (r: Result<Option<Vec<u8>>, PageBlobAppendError>)
        requires
            old(self).wf(),
        ensures
            final(self).wf(),
            same_store(old(self).page_blob_with_cache, final(self).page_blob_with_cache),
            final(self).settings == old(self).settings,
            old(self).state is NotInitialized ==> r is Err && r->Err_0 is NotInitialized && *final(self) == *old(self),
            (old(self).state is Writing || old(self).state is Corrupted) ==> r is Err && r->Err_0 is Forbidden
                && *final(self) == *old(self),
            old(self).state is Reading ==> {
                let f = old(self).state->Reading_0.next_frame(old(self).content());
                &&& r matches Ok(Some(v)) ==> f == FrameAt::Payload(v@) && final(self).state is Reading
                    && final(self).position() == old(self).position() + 4 + v@.len()
                &&& r matches Ok(None) ==> f == FrameAt::End && final(self).state is Writing && final(self).position()
                    == old(self).position()
                &&& r matches Err(e) ==> match e {
                    PageBlobAppendError::Corrupted(info) => (f is TooLarge || f is Short) && final(self).state is Corrupted
                        && info.broken_pos == old(self).position() && final(self).position() == old(self).position()
                        && (f matches FrameAt::TooLarge(len) ==> info.msg@ == too_large_message(
                        len,
                        old(self).settings.max_payload_size_protection,
                        info.broken_pos as nat,
                    )),
                    PageBlobAppendError::StoreError(_) => !old(self).page_blob_with_cache.page_blob.reliable()
                        && final(self).state is Reading && final(self).position() == old(self).position(),
                    _ => false,
                }
            },
    {
        let state = self.take_state();
        match state {
            PageBlobAppendCacheState::Reading(mut data) => {
                let ghost content = self.content();
                match data.get_next_payload(&mut self.page_blob_with_cache) {
                    Ok(GetNextPayloadResult::NextPayload(payload)) => {
                        self.state = PageBlobAppendCacheState::Reading(data);
                        Ok(Some(payload))
                    },
                    Ok(GetNextPayloadResult::GoToWriteMode(page_cache)) => {
                        let ghost before = page_cache;
                        let w = StateDataWriting::new(page_cache);
                        proof {
                            lemma_window_to_writer(before, w.page_cache, content);
                        }
                        self.state = PageBlobAppendCacheState::Writing(w);
                        Ok(None)
                    },
                    Err(DataReadingErrorResult::StoreError(err)) => {
                        self.state = PageBlobAppendCacheState::Reading(data);
                        Err(PageBlobAppendError::StoreError(err))
                    },
                    Err(DataReadingErrorResult::Corrupted { info, pages_cache }) => {
                        self.state = PageBlobAppendCacheState::Corrupted(pages_cache, info.clone());
                        Err(PageBlobAppendError::Corrupted(info))
                    },
                }
            },
            PageBlobAppendCacheState::NotInitialized(data) => {
                self.state = PageBlobAppendCacheState::NotInitialized(data);
                Err(PageBlobAppendError::NotInitialized)
            },
            other => {
                let msg = other.as_string_name();
                self.state = other;
                let mut text = String::from_str("Getting next payload is forbidden in ");
                text.append(msg);
                text.append(" state");
                Err(PageBlobAppendError::Forbidden(text))
            },
        }
    }

    /// Appends the frames of `payloads` and a new end marker at the cursor and
    /// moves the cursor onto that marker. Forbidden when a payload is empty or
    /// above `max_payload_size_protection`, or the log would end past
    /// `MAX_LOG_SIZE`; NotInitialized before `initialize_to_read_mode`;
    /// Forbidden in Reading and Corrupted. On a store failure the cursor stays.
    pub fn append_and_write(&mut self, payloads: &Vec<Vec<u8>>) -> (r: Result<(), PageBlobAppendError>)
        requires
            old(self).wf(),
        ensures
            final(self).wf(),
            old(self).page_blob_with_cache.page_blob.reliable() ==> final(self).page_blob_with_cache.page_blob.reliable(),
            final(self).settings == old(self).settings,
            old(self).state is NotInitialized ==> r is Err && r->Err_0 is NotInitialized && *final(self) == *old(self),
            (old(self).state is Reading || old(self).state is Corrupted) ==> r is Err && r->Err_0 is Forbidden
                && *final(self) == *old(self),
            old(self).state is Writing ==> {
                let p = old(self).position();
                let f = frames(views(payloads@));
                let c = final(self).content();
                let fits = payloads_fit(views(payloads@), old(self).settings.max_payload_size_protection as int)
                    && p + f.len() + 4 + 2 * BLOB_PAGE_SIZE <= MAX_LOG_SIZE;
                &&& final(self).state is Writing
                &&& (r matches Err(e) && e is Forbidden) <==> !fits
                &&& r matches Err(e) ==> (e is Forbidden || e is StoreError) && final(self).position() == p
                &&& (r matches Err(e) && e is Forbidden) ==> *final(self) == *old(self)
                &&& old(self).page_blob_with_cache.page_blob.reliable() && fits ==> r is Ok
                &&& r is Ok ==> {
                    &&& p + f.len() + 4 <= final(self).state->Writing_0.page_cache.end() <= c.len()
                    &&& final(self).state->Writing_0.page_cache.end() == pages_for(
                        p + f.len() + 4,
                        BLOB_PAGE_SIZE as int,
                    ) * BLOB_PAGE_SIZE
                    &&& c.subrange(0, p) == old(self).content().subrange(0, p)
                    &&& c.subrange(p, p + f.len() + 4) == f + end_marker()
                    &&& final(self).position() == p + f.len()
                    &&& c.subrange(final(self).position(), final(self).position() + 4) == end_marker()
                    &&& forall|i: int| p + f.len() + 4 <= i < final(self).state->Writing_0.page_cache.end() ==> c[i]
                        == 0
                    &&& c.len() == grown_pages(
                        old(self).content().len() as int,
                        final(self).state->Writing_0.page_cache.end() / (BLOB_PAGE_SIZE as int),
                        old(self).settings.blob_auto_resize_in_pages as int,
                    ) * BLOB_PAGE_SIZE
                }
            },
    {
        let state = self.take_state();
        match state {
            PageBlobAppendCacheState::Writing(mut w) => {
                let pos = w.get_blob_position();
                let reserve = 4 + 2 * BLOB_PAGE_SIZE;
                let fits = if pos > MAX_LOG_SIZE - reserve {
                    None
                } else {
                    frames_size(payloads, self.settings.max_payload_size_protection, MAX_LOG_SIZE - reserve - pos)
                };
                if fits.is_none() {
                    self.state = PageBlobAppendCacheState::Writing(w);
                    let text = String::from_str(
                        "Payloads must be non-empty, within the payload size limit, and fit in the blob",
                    );
                    return Err(PageBlobAppendError::Forbidden(text));
                }
                proof {
                    let ps = views(payloads@);
                    assert forall|i: int| 0 <= i < payloads@.len() implies #[trigger] payloads@[i]@.len() <= u32::MAX by {
                        assert(ps[i] == payloads@[i]@);
                    }
                    let wp = w.page_cache;
                    let k = wp.page_id_offset as int;
                    assert(wp.start() == k * 512);
                    assert((k * 512) / 512 == k) by (nonlinear_arith);
                    vstd::arithmetic::div_mod::lemma_fundamental_div_mod(wp.data@.len() as int, 512);
                    assert(wp.end() / 512 == k + (wp.data@.len() as int) / 512) by (nonlinear_arith)
                        requires
                            wp.end() == k * 512 + wp.data@.len(),
                            wp.data@.len() as int == 512 * ((wp.data@.len() as int) / 512) + (wp.data@.len() as int) % 512,
                            (wp.data@.len() as int) % 512 == 0;
                }
                let ghost old_w = w.page_cache;
                let ghost c0 = self.content();
                let res = w.append_and_write(&mut self.page_blob_with_cache, payloads);
                proof {
                    assert((old_w.start()) / 512 == old_w.page_id_offset) by (nonlinear_arith)
                        requires old_w.start() == old_w.page_id_offset * 512;
                    if res is Ok {
                        let p = old_w.blob_position as int;
                        let f = frames(views(payloads@));
                        let c = self.content();
                        assert(c.subrange(p + f.len(), p + f.len() + 4) =~= end_marker()) by {
                            assert forall|k: int| 0 <= k < 4 implies c.subrange(p + f.len(), p + f.len() + 4)[k]
                                == end_marker()[k] by {
                                assert(c.subrange(p, p + f.len() + 4)[f.len() + k] == (f + end_marker())[f.len() + k]);
                            }
                        }
                    }
                }
                self.state = PageBlobAppendCacheState::Writing(w);
                match res {
                    Ok(()) => Ok(()),
                    Err(err) => Err(PageBlobAppendError::StoreError(err)),
                }
            },
            PageBlobAppendCacheState::NotInitialized(data) => {
                self.state = PageBlobAppendCacheState::NotInitialized(data);
                Err(PageBlobAppendError::NotInitialized)
            },
            other => {
                let msg = other.as_string_name();
                self.state = other;
                let mut text = String::from_str("Appending is forbidden in ");
                text.append(msg);
                text.append(" state");
                Err(PageBlobAppendError::Forbidden(text))
            },
        }
    }

    /// Makes the window a writer's: zeros from the cursor to the window's end,
    /// so that the next append overwrites whatever follows the cursor.
    fn switch_to_write_mode(&mut self, page_cache: PageCache)
        requires
            old(self).wf(),
            old(self).state is NotInitialized,
            window_matches(page_cache, old(self).content()),
            page_cache.blob_position <= page_cache.end(),
        ensures
            final(self).wf(),
            final(self).state is Writing,
            final(self).position() == page_cache.blob_position,
            final(self).state->Writing_0.page_cache.zero_after_cursor(),
            final(self).page_blob_with_cache == old(self).page_blob_with_cache,
            final(self).settings == old(self).settings,
    {
        let mut page_cache = page_cache;
        let ghost before = page_cache;
        page_cache.reset_from_current_position();
        proof {
            assert(page_cache.data@.subrange(0, page_cache.pos_in()) =~= before.data@.subrange(0, before.pos_in()));
            assert(page_cache.data@.len() == before.data@.len());
        }
        let ghost reset = page_cache;
        let w = StateDataWriting::new(page_cache);
        proof {
            let k = reset.pages_to_gc(1);
            assert(w.page_cache.start() == reset.start() + k * reset.page_size) by (nonlinear_arith)
                requires
                    w.page_cache.page_id_offset == reset.page_id_offset + k,
                    w.page_cache.page_size == reset.page_size;
            assert(w.page_cache.data@.subrange(0, w.page_cache.pos_in()) =~= self.content().subrange(
                w.page_cache.start(),
                w.page_cache.blob_position as int,
            )) by {
                assert forall|i: int| 0 <= i < w.page_cache.pos_in() implies w.page_cache.data@[i]
                    == self.content()[w.page_cache.start() + i] by {
                    assert(w.page_cache.data@[i] == reset.data@[k * reset.page_size + i]);
                    assert(reset.data@[k * reset.page_size + i] == before.data@[k * reset.page_size + i]);
                }
            }
            assert forall|i: int| w.page_cache.pos_in() <= i < w.page_cache.data@.len() implies #[trigger] w.page_cache.data@[i]
                == 0 by {
                assert(w.page_cache.data@[i] == reset.data@[k * reset.page_size + i]);
            }
        }
        self.state = PageBlobAppendCacheState::Writing(w);
    }

    /// Leaves Reading or Corrupted for Writing, with the cursor on the next
    /// frame to read (Reading) or on the frame found corrupted (Corrupted).
    /// The blob is not changed. Forbidden in the other states.
    pub fn force_to_write_mode(&mut self) -> (r: Result<(), PageBlobAppendError>)
        requires
            old(self).wf(),
        ensures
            final(self).wf(),
            final(self).page_blob_with_cache == old(self).page_blob_with_cache,
            final(self).settings == old(self).settings,
            (old(self).state is Reading || old(self).state is Corrupted) ==> r is Ok && final(self).state is Writing
                && final(self).position() == old(self).position(),
            (old(self).state is Reading || old(self).state is Corrupted) ==> final(self).state->Writing_0.page_cache.zero_after_cursor(),
            (old(self).state is NotInitialized || old(self).state is Writing) ==> r is Err && r->Err_0 is Forbidden
                && *final(self) == *old(self),
    {
        let state = self.take_state();
        match state {
            PageBlobAppendCacheState::Reading(mut data) => {
                let advance = data.advance_from_previous_payload;
                let mut page_cache = data.dispose_pages_cache();
                if let Some(delta) = advance {
                    page_cache.advance_blob_position(delta);
                }
                self.switch_to_write_mode(page_cache);
                Ok(())
            },
            PageBlobAppendCacheState::Corrupted(page_cache, _) => {
                self.switch_to_write_mode(page_cache);
                Ok(())
            },
            other => {
                let msg = other.as_string_name();
                self.state = other;
                let mut text = String::from_str("Append blob can not be switched to write mode from the ");
                text.append(msg);
                text.append(" state");
                Err(PageBlobAppendError::Forbidden(text))
            },
        }
    }

    /// As `force_to_write_mode`, after copying the whole blob to `backup_blob`.
    /// When the copy fails, the log stays as it was.
    pub fn force_to_write_mode_with_backup(&mut self, backup_blob: &mut S) -> (r: Result<(), PageBlobAppendError>)
        requires
            old(self).wf(),
            store_ok(*old(backup_blob)),
        ensures
            final(self).wf(),
            store_ok(*final(backup_blob)),
            same_store(old(self).page_blob_with_cache, final(self).page_blob_with_cache),
            final(self).settings == old(self).settings,
            (old(self).state is Reading || old(self).state is Corrupted) ==> {
                &&& r is Ok ==> final(self).state is Writing && final(self).position() == old(self).position()
                    && final(backup_blob).content() == old(self).content()
                    && final(self).state->Writing_0.page_cache.zero_after_cursor()
                &&& r is Err ==> r->Err_0 is StoreError && final(self).state == old(self).state
                &&& old(self).page_blob_with_cache.page_blob.reliable() && old(backup_blob).reliable() ==> r is Ok
            },
            (old(self).state is NotInitialized || old(self).state is Writing) ==> r is Err && r->Err_0 is Forbidden
                && *final(self) == *old(self),
    {
        if self.is_reading_mode() || self.is_corrupted_mode() {
            let max_pages = self.settings.max_pages_to_write_single_round_trip;
            if let Err(err) = copy_blob(&mut self.page_blob_with_cache.page_blob, backup_blob, max_pages) {
                return Err(PageBlobAppendError::StoreError(err));
            }
        }
        self.force_to_write_mode()
    }

    /// The cursor: the length of the frame returned last (Reading), the end
    /// marker (Writing); 0 in NotInitialized and Corrupted.
    pub fn get_blob_position(&self) -> (r: usize)
        requires
            self.wf(),
        ensures
            r == match self.state {
                PageBlobAppendCacheState::Reading(s) => s.read_cache->Some_0.blob_position as int,
                PageBlobAppendCacheState::Writing(w) => w.page_cache.blob_position as int,
                _ => 0,
            },
    {
        match &self.state {
            PageBlobAppendCacheState::NotInitialized(_) => 0,
            PageBlobAppendCacheState::Reading(state) => state.get_blob_position(),
            PageBlobAppendCacheState::Corrupted(_, _) => 0,
            PageBlobAppendCacheState::Writing(state) => state.get_blob_position(),
        }
    }

    pub fn is_reading_mode(&self) -> (r: bool)
        ensures
            r == self.state is Reading,
    {
        match &self.state {
            PageBlobAppendCacheState::Reading(_) => true,
            _ => false,
        }
    }

    pub fn is_writing_mode(&self) -> (r: bool)
        ensures
            r == self.state is Writing,
    {
        match &self.state {
            PageBlobAppendCacheState::Writing(_) => true,
            _ => false,
        }
    }

    pub fn is_corrupted_mode(&self) -> (r: bool)
        ensures
            r == self.state is Corrupted,
    {
        match &self.state {
            PageBlobAppendCacheState::Corrupted(_, _) => true,
            _ => false,
        }
    }
}

} // verus!
