//! Settings of an append log.

use vstd::prelude::*;
use crate::page_blob_utils::{BLOB_PAGE_SIZE, MAX_BLOB_SIZE};
use crate::sequence_reader::MAX_READ_SIZE;

verus! {

#[derive(Clone, Copy, Debug)]
pub struct AppendPageBlobSettings {
    /// Largest payload; a frame with a larger length is read as corruption.
    pub max_payload_size_protection: u32,
    /// The blob grows to the next multiple of this many pages.
    pub blob_auto_resize_in_pages: usize,
    /// Fewest pages the reader fetches at once.
    pub cache_capacity_in_pages: usize,
    /// Most pages written in one request; larger writes are split.
    pub max_pages_to_write_single_round_trip: usize,
}

impl AppendPageBlobSettings {
    /// Every count is positive and every size can be addressed.
    pub open spec fn is_valid(&self) -> bool {
        &&& self.blob_auto_resize_in_pages > 0
        &&& self.blob_auto_resize_in_pages <= MAX_BLOB_SIZE / 4 / BLOB_PAGE_SIZE
        &&& self.cache_capacity_in_pages > 0
        &&& self.max_pages_to_write_single_round_trip > 0
        &&& self.max_payload_size_protection + 4 <= MAX_READ_SIZE
    }
}

} // verus!
