//! An append-only log of length-prefixed payloads kept in a page blob.
//!
//! - `framing`: the on-blob format and the laws of reading it back.
//! - `pages_cache`: the page window that the reader and the writer share.
//! - `blob_store`, `with_retries`, `blob_cache`: the page-blob capability, its
//!   retry policy, and growth and chunked writes on top of it.
//! - `sequence_reader`, `state_data_*`, `page_blob_append`: reading frames,
//!   appending them, and the state machine that the user drives.
//! - `laws`: properties of the log as a whole.
//! - `page_blob_buffer`, `read_write`: standalone page buffers.

pub mod blob_cache;
pub mod blob_store;
pub mod decimal;
pub mod error;
pub mod framing;
pub mod page_blob_utils;
pub mod laws;
pub mod page_blob_append;
pub mod page_blob_buffer;
pub mod pages_cache;
pub mod read_write;
pub mod sequence_reader;
pub mod settings;
pub mod state_data_not_initialized;
pub mod state_data_reading;
pub mod state_data_writing;
pub mod with_retries;

pub use blob_store::{MemoryPageBlob, PageBlobStore};
pub use error::{CorruptedErrorInfo, PageBlobAppendError, StoreError};
pub use page_blob_append::{PageBlobAppend, PageBlobAppendCacheState};
pub use pages_cache::{PageCache, PayloadsWriter};
pub use settings::AppendPageBlobSettings;
