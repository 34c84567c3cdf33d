//! The store as the log uses it: operations under the retry policy, the
//! blob's page count remembered between calls, growth in whole quanta and
//! writes split into bounded requests.

use vstd::prelude::*;
use crate::blob_store::{store_ok, PageBlobStore, overwritten, resized};
use crate::error::StoreError;
use crate::page_blob_utils::{BLOB_PAGE_SIZE, MAX_BLOB_SIZE, get_ressize_to_pages_amount, round_up_to_multiple, zeros};
use crate::with_retries;
use vstd::string::StringExecFns;

verus! {

/// Page count that a blob of `old_len` bytes is grown to before `needed` pages
/// are written, when it is grown in multiples of `ratio` pages.
pub open spec fn grown_pages(old_len: int, needed: int, ratio: int) -> int {
    if needed > old_len / (BLOB_PAGE_SIZE as int) {
        round_up_to_multiple(needed, ratio)
    } else {
        old_len / (BLOB_PAGE_SIZE as int)
    }
}

/// Byte `i` of `old` extended with zeros.
pub open spec fn grown_byte(old: Seq<u8>, i: int) -> u8 {
    if i < old.len() {
        old[i]
    } else {
        0
    }
}

/// The blob did not shrink, and each of its bytes is as it was (zero where it
/// grew) or is the byte of a write of `bytes` at `at`.
pub open spec fn torn_prefix(old: Seq<u8>, new: Seq<u8>, at: int, bytes: Seq<u8>) -> bool {
    &&& new.len() >= old.len()
    &&& forall|i: int|
        0 <= i < new.len() ==> #[trigger] new[i] == grown_byte(old, i) || (at <= i < at + bytes.len() && new[i]
            == bytes[i - at])
}

/// A page blob with its page count remembered.
pub struct MyPageBlobWithCache<S: PageBlobStore> {
    pub pages_amount: Option<usize>,
    pub page_blob: S,
    pub max_pages_to_write_per_transaction: usize,
    pub resize_pages_ratio: usize,
}

impl<S: PageBlobStore> MyPageBlobWithCache<S> {
    pub open spec fn content(&self) -> Seq<u8> {
        self.page_blob.content()
    }

    pub open spec fn wf(&self) -> bool {
        &&& store_ok(self.page_blob)
        &&& self.max_pages_to_write_per_transaction > 0
        &&& self.resize_pages_ratio > 0
        &&& self.pages_amount matches Some(n) ==> n * BLOB_PAGE_SIZE == self.content().len()
        &&& self.pages_amount is Some ==> self.page_blob.blob_exists()
    }

    pub fn new(page_blob: S, max_pages_to_write_per_transaction: usize, resize_pages_ratio: usize) -> (r: Self)
        ensures
            r.page_blob == page_blob,
            r.pages_amount is None,
            r.max_pages_to_write_per_transaction == max_pages_to_write_per_transaction,
            r.resize_pages_ratio == resize_pages_ratio,
    {
        MyPageBlobWithCache { pages_amount: None, page_blob, max_pages_to_write_per_transaction, resize_pages_ratio }
    }

    /// Asks the store for the page count and remembers it.
    pub fn init(&mut self) -> (r: Result<(), StoreError>)
        requires
            old(self).wf(),
        ensures
            final(self).wf(),
            old(self).page_blob.reliable() ==> final(self).page_blob.reliable(),
            old(self).page_blob.reliable() ==> r is Ok,
            final(self).content() == old(self).content(),
            final(self).page_blob.blob_exists() == old(self).page_blob.blob_exists(),
            final(self).max_pages_to_write_per_transaction == old(self).max_pages_to_write_per_transaction,
            final(self).resize_pages_ratio == old(self).resize_pages_ratio,
            r is Ok ==> final(self).pages_amount is Some,
    {
        let pages_amount = with_retries::get_available_pages_amount(&mut self.page_blob)?;
        self.pages_amount = Some(pages_amount);
        Ok(())
    }

    /// The remembered page count; fails when none is remembered.
    pub fn try_get_pages_amount(&self) -> (r: Result<usize, StoreError>)
        requires
            self.wf(),
        ensures
            match self.pages_amount {
                Some(n) => r == Ok::<usize, StoreError>(n),
                None => r is Err,
            },
    {
        match self.pages_amount {
            Some(result) => Ok(result),
            None => {
                let mut msg = String::new();
                msg.append("PageBlobWithCache is not initialized");
                Err(StoreError::Other(msg))
            },
        }
    }

    /// The page count, asked of the store the first time.
    pub fn get_pages_amount(&mut self) -> (r: Result<usize, StoreError>)
        requires
            old(self).wf(),
        ensures
            final(self).wf(),
            old(self).page_blob.reliable() ==> final(self).page_blob.reliable(),
            old(self).page_blob.reliable() ==> r is Ok,
            final(self).content() == old(self).content(),
            final(self).page_blob.blob_exists() == old(self).page_blob.blob_exists(),
            final(self).max_pages_to_write_per_transaction == old(self).max_pages_to_write_per_transaction,
            final(self).resize_pages_ratio == old(self).resize_pages_ratio,
            r matches Ok(n) ==> n * BLOB_PAGE_SIZE == old(self).content().len(),
            r is Ok ==> old(self).page_blob.blob_exists(),
            old(self).page_blob.precise() && !old(self).page_blob.blob_exists() ==> r == Err::<usize, StoreError>(
                StoreError::BlobNotFound,
            ),
    {
        match self.pages_amount {
            Some(result) => Ok(result),
            None => {
                let pages_amount = with_retries::get_available_pages_amount(&mut self.page_blob)?;
                self.pages_amount = Some(pages_amount);
                Ok(pages_amount)
            },
        }
    }

    /// Creates the blob with `init_pages_amount` zero pages unless it exists.
    pub fn create_blob_if_not_exists(&mut self, init_pages_amount: usize) -> (r: Result<(), StoreError>)
        requires
            old(self).wf(),
        ensures
            final(self).wf(),
            old(self).page_blob.reliable() ==> final(self).page_blob.reliable(),
            old(self).page_blob.reliable() ==> r is Ok,
            final(self).max_pages_to_write_per_transaction == old(self).max_pages_to_write_per_transaction,
            final(self).resize_pages_ratio == old(self).resize_pages_ratio,
            old(self).page_blob.blob_exists() ==> final(self).content() == old(self).content(),
            r is Ok ==> {
                &&& final(self).page_blob.blob_exists()
                &&& final(self).pages_amount matches Some(n) && n * BLOB_PAGE_SIZE == final(self).content().len()
                &&& !old(self).page_blob.blob_exists() ==> final(self).content() == zeros(
                    (init_pages_amount * BLOB_PAGE_SIZE) as nat,
                )
            },
            r is Err ==> final(self).content() == old(self).content() && final(self).page_blob.blob_exists()
                == old(self).page_blob.blob_exists(),
    {
        let size = with_retries::create_blob_if_not_exists(&mut self.page_blob, init_pages_amount)?;
        self.pages_amount = Some(size);
        Ok(())
    }

    /// Sets the blob's page count.
    pub fn resize_page_blob(&mut self, pages_amount: usize) -> (r: Result<(), StoreError>)
        requires
            old(self).wf(),
        ensures
            final(self).wf(),
            old(self).page_blob.reliable() ==> final(self).page_blob.reliable(),
            old(self).page_blob.reliable() && pages_amount * BLOB_PAGE_SIZE <= MAX_BLOB_SIZE ==> r is Ok,
            final(self).max_pages_to_write_per_transaction == old(self).max_pages_to_write_per_transaction,
            final(self).resize_pages_ratio == old(self).resize_pages_ratio,
            final(self).page_blob.blob_exists() == old(self).page_blob.blob_exists(),
            r is Ok ==> final(self).content() == resized(old(self).content(), pages_amount * BLOB_PAGE_SIZE)
                && final(self).pages_amount == Some(pages_amount),
            r is Err ==> final(self).content() == old(self).content() || final(self).content() == resized(
                old(self).content(),
                pages_amount * BLOB_PAGE_SIZE,
            ),
    {
        match with_retries::resize_page_blob(&mut self.page_blob, pages_amount) {
            Ok(()) => {
                self.pages_amount = Some(pages_amount);
                Ok(())
            },
            Err(err) => {
                self.pages_amount = None;
                Err(err)
            },
        }
    }

    /// Writes `payload` (whole pages) from page `start_page_no` on, first
    /// growing the blob to the next multiple of `resize_pages_ratio` pages when
    /// it is too short, and in requests of at most
    /// `max_pages_to_write_per_transaction` pages.
    pub fn auto_resize_and_save_pages(&mut self, start_page_no: usize, payload: Vec<u8>) -> (r: Result<
        (),
        StoreError,
    >)
        requires
            old(self).wf(),
            (payload@.len() as int) % (BLOB_PAGE_SIZE as int) == 0,
            (start_page_no + (payload@.len() as int) / (BLOB_PAGE_SIZE as int) + old(self).resize_pages_ratio)
                * BLOB_PAGE_SIZE <= usize::MAX,
        ensures
            final(self).wf(),
            old(self).page_blob.reliable() ==> final(self).page_blob.reliable(),
            old(self).page_blob.reliable() && grown_pages(
                old(self).content().len() as int,
                start_page_no + (payload@.len() as int) / (BLOB_PAGE_SIZE as int),
                old(self).resize_pages_ratio as int,
            ) * BLOB_PAGE_SIZE <= MAX_BLOB_SIZE ==> r is Ok,
            final(self).max_pages_to_write_per_transaction == old(self).max_pages_to_write_per_transaction,
            final(self).resize_pages_ratio == old(self).resize_pages_ratio,
            final(self).page_blob.blob_exists() == old(self).page_blob.blob_exists(),
            r is Ok ==> {
                let needed = start_page_no + (payload@.len() as int) / (BLOB_PAGE_SIZE as int);
                let pages = grown_pages(old(self).content().len() as int, needed, old(self).resize_pages_ratio as int);
                &&& final(self).content() == overwritten(
                    resized(old(self).content(), pages * BLOB_PAGE_SIZE),
                    start_page_no * BLOB_PAGE_SIZE,
                    payload@,
                )
                &&& final(self).content().len() == pages * BLOB_PAGE_SIZE
                &&& start_page_no * BLOB_PAGE_SIZE + payload@.len() <= final(self).content().len()
            },
            r is Err ==> torn_prefix(
                old(self).content(),
                final(self).content(),
                start_page_no * BLOB_PAGE_SIZE,
                payload@,
            ),
    {
        let ghost old_content = self.content();
        let ghost at = start_page_no * BLOB_PAGE_SIZE;
        let available_pages_amount = match self.get_pages_amount() {
            Ok(n) => n,
            Err(err) => {
                assert(torn_prefix(old_content, self.content(), at, payload@));
                return Err(err);
            },
        };
        let pages_amount_after_append = start_page_no + payload.len() / BLOB_PAGE_SIZE;
        let ghost pages = grown_pages(old_content.len() as int, pages_amount_after_append as int, self.resize_pages_ratio as int);
        assert(available_pages_amount == (old_content.len() as int) / (BLOB_PAGE_SIZE as int));
        if pages_amount_after_append > available_pages_amount {
            let has_to_have_pages_amount = get_ressize_to_pages_amount(
                pages_amount_after_append,
                self.resize_pages_ratio,
            );
            if let Err(err) = self.resize_page_blob(has_to_have_pages_amount) {
                assert forall|i: int| 0 <= i < self.content().len() implies #[trigger] self.content()[i] == grown_byte(
                    old_content,
                    i,
                ) || (at <= i < at + payload@.len() && self.content()[i] == payload@[i - at]) by {
                    if i >= old_content.len() {
                        assert(self.content()[i] == zeros(
                            (has_to_have_pages_amount * BLOB_PAGE_SIZE - old_content.len()) as nat,
                        )[i - old_content.len()]);
                    }
                }
                return Err(err);
            }
            assert(has_to_have_pages_amount == pages);
        } else {
            assert(resized(old_content, pages * BLOB_PAGE_SIZE) =~= old_content);
        }
        let ghost grown = self.content();
        assert(grown == resized(old_content, pages * BLOB_PAGE_SIZE));
        assert(grown.len() == pages * BLOB_PAGE_SIZE);
        assert(at + payload@.len() <= grown.len()) by (nonlinear_arith)
            requires
                at == start_page_no * 512,
                payload@.len() == (payload@.len() / 512) * 512,
                pages >= start_page_no + payload@.len() / 512,
                grown.len() == pages * 512;
        let r = self.save_chunks(start_page_no, &payload);
        proof {
            if r is Err {
                assert forall|i: int| 0 <= i < self.content().len() implies #[trigger] self.content()[i] == grown_byte(
                    old_content,
                    i,
                ) || (at <= i < at + payload@.len() && self.content()[i] == payload@[i - at]) by {
                    assert(self.content()[i] == grown_byte(grown, i) || (at <= i < at + payload@.len()
                        && self.content()[i] == payload@[i - at]));
                    if i >= old_content.len() {
                        assert(grown[i] == zeros((grown.len() - old_content.len()) as nat)[i - old_content.len()]);
                    }
                }
            }
        }
        r
    }

    /// Writes `payload` at page `start_page_no` in requests of at most
    /// `max_pages_to_write_per_transaction` pages, in ascending order.
    fn save_chunks(&mut self, start_page_no: usize, payload: &Vec<u8>) -> (r: Result<(), StoreError>)
        requires
            old(self).wf(),
            (payload@.len() as int) % (BLOB_PAGE_SIZE as int) == 0,
            start_page_no * BLOB_PAGE_SIZE + payload@.len() <= old(self).content().len(),
            start_page_no * BLOB_PAGE_SIZE + payload@.len() <= usize::MAX,
        ensures
            final(self).wf(),
            old(self).page_blob.reliable() ==> final(self).page_blob.reliable(),
            old(self).page_blob.reliable() ==> r is Ok,
            final(self).max_pages_to_write_per_transaction == old(self).max_pages_to_write_per_transaction,
            final(self).resize_pages_ratio == old(self).resize_pages_ratio,
            final(self).page_blob.blob_exists() == old(self).page_blob.blob_exists(),
            final(self).content().len() == old(self).content().len(),
            r is Ok ==> final(self).content() == overwritten(
                old(self).content(),
                start_page_no * BLOB_PAGE_SIZE,
                payload@,
            ),
            r is Err ==> torn_prefix(
                old(self).content(),
                final(self).content(),
                start_page_no * BLOB_PAGE_SIZE,
                payload@,
            ),
    {
        let ghost old_content = self.content();
        let ghost at = start_page_no * BLOB_PAGE_SIZE;
        let plen = payload.len();
        let total_pages = plen / BLOB_PAGE_SIZE;
        let max_pages = self.max_pages_to_write_per_transaction;
        let mut done_pages: usize = 0;
        while done_pages < total_pages
            invariant
                self.wf(),
                self.max_pages_to_write_per_transaction == max_pages,
                old(self).page_blob.reliable() ==> self.page_blob.reliable(),
                max_pages == old(self).max_pages_to_write_per_transaction,
                start_page_no * BLOB_PAGE_SIZE + payload@.len() <= usize::MAX,
                self.resize_pages_ratio == old(self).resize_pages_ratio,
                self.page_blob.blob_exists() == old(self).page_blob.blob_exists(),
                at == start_page_no * BLOB_PAGE_SIZE,
                at + payload@.len() <= old_content.len(),
                total_pages * BLOB_PAGE_SIZE == payload@.len(),
                plen == payload@.len(),
                done_pages <= total_pages,
                old_content == old(self).content(),
                self.content() == overwritten(old_content, at, payload@.subrange(0, done_pages * BLOB_PAGE_SIZE)),
            decreases total_pages - done_pages,
        {
            let now_pages = if total_pages - done_pages <= max_pages {
                total_pages - done_pages
            } else {
                max_pages
            };
            proof {
                assert((done_pages + now_pages) * BLOB_PAGE_SIZE <= total_pages * BLOB_PAGE_SIZE) by (nonlinear_arith)
                    requires done_pages + now_pages <= total_pages;
                assert(done_pages * BLOB_PAGE_SIZE <= (done_pages + now_pages) * BLOB_PAGE_SIZE) by (nonlinear_arith);
                assert(start_page_no + done_pages <= start_page_no * BLOB_PAGE_SIZE + total_pages * BLOB_PAGE_SIZE) by (nonlinear_arith)
                    requires done_pages <= total_pages;
            }
            let from = done_pages * BLOB_PAGE_SIZE;
            let to = (done_pages + now_pages) * BLOB_PAGE_SIZE;
            let mut chunk: Vec<u8> = Vec::new();
            chunk.extend_from_slice(&payload.as_slice()[from..to]);
            proof {
                vstd::arithmetic::div_mod::lemma_mod_multiples_basic(now_pages as int, BLOB_PAGE_SIZE as int);
            }
            let ghost before = self.content();
            let ghost chunk_at = (start_page_no + done_pages) * BLOB_PAGE_SIZE;
            assert(chunk_at == at + from);
            match with_retries::write_pages(&mut self.page_blob, start_page_no + done_pages, &chunk) {
                Ok(()) => {
                    assert(self.content() =~= overwritten(
                        old_content,
                        at,
                        payload@.subrange(0, to as int),
                    ));
                },
                Err(err) => {
                    self.pages_amount = None;
                    assert forall|i: int| 0 <= i < self.content().len() implies #[trigger] self.content()[i]
                        == grown_byte(old_content, i) || (at <= i < at + payload@.len() && self.content()[i]
                        == payload@[i - at]) by {
                        assert(self.content()[i] == before[i] || (chunk_at <= i < chunk_at + chunk@.len()
                            && self.content()[i] == chunk@[i - chunk_at]));
                    }
                    return Err(err);
                },
            }
            done_pages = done_pages + now_pages;
        }
        assert(payload@.subrange(0, done_pages * BLOB_PAGE_SIZE) =~= payload@);
        Ok(())
    }

    /// The bytes of `pages_to_read` pages from page `start_page` on.
    pub fn read_pages(&mut self, start_page: usize, pages_to_read: usize) -> (r: Result<Vec<u8>, StoreError>)
        requires
            old(self).wf(),
        ensures
            final(self).wf(),
            old(self).page_blob.reliable() ==> final(self).page_blob.reliable(),
            old(self).page_blob.reliable() && (start_page + pages_to_read) * BLOB_PAGE_SIZE <= old(self).content().len()
                ==> r is Ok,
            final(self).content() == old(self).content(),
            final(self).page_blob.blob_exists() == old(self).page_blob.blob_exists(),
            final(self).pages_amount == old(self).pages_amount,
            final(self).max_pages_to_write_per_transaction == old(self).max_pages_to_write_per_transaction,
            final(self).resize_pages_ratio == old(self).resize_pages_ratio,
            r matches Ok(v) ==> {
                &&& (start_page + pages_to_read) * BLOB_PAGE_SIZE <= old(self).content().len()
                &&& v@ == old(self).content().subrange(
                    start_page * BLOB_PAGE_SIZE,
                    (start_page + pages_to_read) * BLOB_PAGE_SIZE,
                )
            },
    {
        with_retries::read_pages(&mut self.page_blob, start_page, pages_to_read)
    }
}

/// Copies every page of `src` to `dest`, creating and sizing `dest` first, in
/// requests of at most `max_pages_per_write` pages.
pub fn copy_blob<S: PageBlobStore>(src: &mut S, dest: &mut S, max_pages_per_write: usize) -> (r: Result<
    (),
    StoreError,
>)
    requires
        store_ok(*old(src)),
        store_ok(*old(dest)),
        max_pages_per_write > 0,
    ensures
        store_ok(*final(src)),
        store_ok(*final(dest)),
        final(src).content() == old(src).content(),
        final(src).blob_exists() == old(src).blob_exists(),
        old(src).reliable() ==> final(src).reliable(),
        old(dest).reliable() ==> final(dest).reliable(),
        old(src).reliable() && old(dest).reliable() ==> r is Ok,
        r is Ok ==> final(dest).content() == old(src).content(),
{
    let src_pages_amount = with_retries::get_available_pages_amount(src)?;
    with_retries::create_container_if_not_exist(dest)?;
    with_retries::create_blob_if_not_exists(dest, src_pages_amount)?;
    with_retries::resize_page_blob(dest, src_pages_amount)?;
    let ghost source = src.content();
    assert(dest.content().len() == source.len());
    let mut page_no: usize = 0;
    while page_no < src_pages_amount
        invariant
            store_ok(*src),
            store_ok(*dest),
            src.content() == source,
            source == old(src).content(),
            src.blob_exists() == old(src).blob_exists(),
            old(src).reliable() ==> src.reliable(),
            old(dest).reliable() ==> dest.reliable(),
            src_pages_amount * BLOB_PAGE_SIZE == source.len(),
            dest.content().len() == source.len(),
            page_no <= src_pages_amount,
            max_pages_per_write > 0,
            dest.content().subrange(0, page_no * BLOB_PAGE_SIZE) == source.subrange(0, page_no * BLOB_PAGE_SIZE),
        decreases src_pages_amount - page_no,
    {
        let remain_pages = src_pages_amount - page_no;
        let pages_to_copy = if remain_pages > max_pages_per_write {
            max_pages_per_write
        } else {
            remain_pages
        };
        proof {
            assert((page_no + pages_to_copy) * BLOB_PAGE_SIZE <= src_pages_amount * BLOB_PAGE_SIZE) by (nonlinear_arith)
                requires page_no + pages_to_copy <= src_pages_amount;
            assert(page_no * BLOB_PAGE_SIZE + pages_to_copy * BLOB_PAGE_SIZE == (page_no + pages_to_copy)
                * BLOB_PAGE_SIZE) by (nonlinear_arith);
        }
        let payload = with_retries::read_pages(src, page_no, pages_to_copy)?;
        proof {
            vstd::arithmetic::div_mod::lemma_mod_multiples_basic(pages_to_copy as int, BLOB_PAGE_SIZE as int);
        }
        let ghost before = dest.content();
        with_retries::write_pages(dest, page_no, &payload)?;
        assert(dest.content().subrange(0, (page_no + pages_to_copy) * BLOB_PAGE_SIZE) =~= source.subrange(
            0,
            (page_no + pages_to_copy) * BLOB_PAGE_SIZE,
        )) by {
            let lim = (page_no + pages_to_copy) * BLOB_PAGE_SIZE;
            assert forall|i: int| 0 <= i < lim implies dest.content()[i] == source[i] by {
                if i < page_no * BLOB_PAGE_SIZE {
                    assert(before.subrange(0, page_no * BLOB_PAGE_SIZE)[i] == source.subrange(0, page_no * BLOB_PAGE_SIZE)[i]);
                }
            }
        }
        page_no = page_no + pages_to_copy;
    }
    assert(dest.content() =~= dest.content().subrange(0, page_no * BLOB_PAGE_SIZE));
    assert(source =~= source.subrange(0, page_no * BLOB_PAGE_SIZE));
    Ok(())
}

} // verus!
