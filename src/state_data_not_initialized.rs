//! The NotInitialized state: the blob has not been looked at yet.

use vstd::prelude::*;
use crate::blob_cache::MyPageBlobWithCache;
use crate::blob_store::PageBlobStore;
use crate::error::StoreError;
use crate::page_blob_utils::BLOB_PAGE_SIZE;
use crate::pages_cache::PageCache;

verus! {

/// Where the log goes once the blob has been looked at.
#[derive(Debug)]
pub enum InitToReadResult {
    /// The blob is empty: write from position 0 with this empty window.
    ToWriteMode(PageCache),
    /// The blob has pages: read them from the start.
    ToReadMode,
}

#[derive(Debug)]
pub struct StateDataNotInitialized;

impl StateDataNotInitialized {
    pub fn new() -> (r: Self) {
        StateDataNotInitialized
    }

    /// Asks for the blob's page count; when the blob is missing and
    /// `auto_create_if_not_exist` holds, creates it empty first.
    pub fn init_to_read<S: PageBlobStore>(
        &mut self,
        my_page_blob: &mut MyPageBlobWithCache<S>,
        auto_create_if_not_exist: bool,
    ) -> (r: Result<InitToReadResult, StoreError>)
        requires
            old(my_page_blob).wf(),
        ensures
            final(my_page_blob).wf(),
            final(my_page_blob).max_pages_to_write_per_transaction == old(my_page_blob).max_pages_to_write_per_transaction,
            final(my_page_blob).resize_pages_ratio == old(my_page_blob).resize_pages_ratio,
            final(my_page_blob).content() == old(my_page_blob).content() || (auto_create_if_not_exist && !old(my_page_blob).page_blob.blob_exists() && final(my_page_blob).content().len() == 0),
            !auto_create_if_not_exist ==> final(my_page_blob).content() == old(my_page_blob).content(),
            !auto_create_if_not_exist && !old(my_page_blob).page_blob.blob_exists() ==> r is Err,
            !auto_create_if_not_exist && !old(my_page_blob).page_blob.blob_exists() && old(my_page_blob).page_blob.precise() ==> r matches Err(StoreError::BlobNotFound),
            old(my_page_blob).page_blob.reliable() ==> final(my_page_blob).page_blob.reliable() && r is Ok
                && final(my_page_blob).content() == old(my_page_blob).content(),
            r matches Ok(InitToReadResult::ToWriteMode(cache)) ==> {
                &&& final(my_page_blob).content().len() == 0
                &&& cache.data@.len() == 0
                &&& cache.page_id_offset == 0
                &&& cache.blob_position == 0
                &&& cache.page_size == BLOB_PAGE_SIZE
            },
            r matches Ok(InitToReadResult::ToReadMode) ==> final(my_page_blob).content().len() > 0,
    {
        let pages_amount = match my_page_blob.get_pages_amount() {
            Ok(result) => result,
            Err(err) => {
                if !auto_create_if_not_exist {
                    return Err(err);
                }
                if let StoreError::BlobNotFound = err {
                } else {
                    return Err(err);
                }
                my_page_blob.create_blob_if_not_exists(0)?;
                my_page_blob.get_pages_amount()?
            },
        };
        if pages_amount > 0 {
            Ok(InitToReadResult::ToReadMode)
        } else {
            Ok(InitToReadResult::ToWriteMode(PageCache::new(Vec::new(), 0, 0, BLOB_PAGE_SIZE)))
        }
    }
}

} // verus!
