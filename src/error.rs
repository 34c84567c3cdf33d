//! Errors of the block store and of the append log.

use vstd::prelude::*;

verus! {

/// A failure reported by a block store.
#[derive(Debug, Clone)]
pub enum StoreError {
    /// The container that should hold the blob does not exist.
    ContainerNotFound,
    /// The blob does not exist.
    BlobNotFound,
    /// A transport failure that may succeed when tried again.
    Transient(String),
    /// Any other failure.
    Other(String),
}

/// Where and why a stream was found corrupted.
#[derive(Debug, Clone)]
pub struct CorruptedErrorInfo {
    /// Blob position of the frame that could not be read.
    pub broken_pos: usize,
    pub msg: String,
    /// The bytes of the cursor's page that precede the broken frame, if any.
    pub last_page: Option<Vec<u8>>,
}

/// A failure of an operation on the append log.
#[derive(Debug, Clone)]
pub enum PageBlobAppendError {
    /// The log was used before `initialize_to_read_mode` succeeded.
    NotInitialized,
    /// The stream on the blob breaks the format.
    Corrupted(CorruptedErrorInfo),
    /// The store failed and retrying did not help.
    StoreError(StoreError),
    /// The operation is not allowed in the log's current state.
    Forbidden(String),
}

impl PageBlobAppendError {
    pub fn is_corrupted(&self) -> (r: bool)
        ensures
            r <==> self is Corrupted,
    {
        if let PageBlobAppendError::Corrupted(_) = self {
            return true;
        }
        false
    }
}

} // verus!
