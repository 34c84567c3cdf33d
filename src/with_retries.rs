//! Each store operation under the retry policy: a transient failure is tried
//! again after a pause, up to `MAX_ATTEMPTS` attempts; a missing container is
//! created once and the operation tried again; any other failure is returned.

use vstd::prelude::*;
use crate::blob_store::{store_ok, PageBlobStore, overwritten, resized, torn};
use crate::error::StoreError;
use crate::page_blob_utils::{BLOB_PAGE_SIZE, MAX_BLOB_SIZE, zeros};

verus! {

/// Attempts made on a transient failure before it is returned.
pub const MAX_ATTEMPTS: u32 = 5;

/// Pause before a transient failure is tried again, in milliseconds.
pub const RETRY_DELAY_MS: u64 = 3000;

/// What to do after a failed attempt.
#[derive(Debug)]
pub enum RetryDecision {
    /// Create the missing container, then try again.
    CreateContainer,
    /// Pause, then try again.
    Retry,
    /// Give the failure to the caller.
    Fail,
}

pub open spec fn spec_retry_decision(err: StoreError, attempt: u32, container_created: bool) -> RetryDecision {
    match err {
        StoreError::ContainerNotFound => if container_created {
            RetryDecision::Fail
        } else {
            RetryDecision::CreateContainer
        },
        StoreError::Transient(_) => if attempt < MAX_ATTEMPTS {
            RetryDecision::Retry
        } else {
            RetryDecision::Fail
        },
        _ => RetryDecision::Fail,
    }
}

/// The retry policy: what follows attempt number `attempt` that failed with
/// `err`, given whether the container was already created once.
pub fn retry_decision(err: &StoreError, attempt: u32, container_created: bool) -> (r: RetryDecision)
    ensures
        r == spec_retry_decision(*err, attempt, container_created),
{
    match err {
        StoreError::ContainerNotFound => if container_created {
            RetryDecision::Fail
        } else {
            RetryDecision::CreateContainer
        },
        StoreError::Transient(_) => if attempt < MAX_ATTEMPTS {
            RetryDecision::Retry
        } else {
            RetryDecision::Fail
        },
        _ => RetryDecision::Fail,
    }
}

/// Measure that each further attempt makes smaller.
pub open spec fn attempts_left(attempt: u32, container_created: bool) -> int {
    2 * (MAX_ATTEMPTS - attempt) + if container_created {
        0int
    } else {
        1int
    }
}

/// Creates the container unless it exists, retrying transient failures.
pub fn create_container_if_not_exist<S: PageBlobStore>(page_blob: &mut S) -> (r: Result<(), StoreError>)
    requires
        store_ok(*old(page_blob)),
    ensures
        store_ok(*final(page_blob)),
        old(page_blob).reliable() ==> final(page_blob).reliable(),
        old(page_blob).precise() ==> final(page_blob).precise(),
        old(page_blob).container_exists() ==> final(page_blob).container_exists(),
        old(page_blob).precise() ==> r is Ok && final(page_blob).container_exists(),
        old(page_blob).reliable() ==> r is Ok,
        final(page_blob).content() == old(page_blob).content(),
        final(page_blob).blob_exists() == old(page_blob).blob_exists(),
{
    let mut attempt: u32 = 1;
    loop
        invariant
            store_ok(*page_blob),
            old(page_blob).reliable() ==> page_blob.reliable(),
            old(page_blob).precise() ==> page_blob.precise(),
            old(page_blob).container_exists() ==> page_blob.container_exists(),
            page_blob.content() == old(page_blob).content(),
            page_blob.blob_exists() == old(page_blob).blob_exists(),
            1 <= attempt <= MAX_ATTEMPTS,
        decreases MAX_ATTEMPTS - attempt,
    {
        match page_blob.create_container_if_not_exist() {
            Ok(()) => return Ok(()),
            Err(err) => {
                if let StoreError::Transient(_) = err {
                    if attempt < MAX_ATTEMPTS {
                        page_blob.pause_before_retry(attempt, RETRY_DELAY_MS);
                        attempt = attempt + 1;
                        continue ;
                    }
                }
                return Err(err);
            },
        }
    }
}

/// Number of pages of the blob.
pub fn get_available_pages_amount<S: PageBlobStore>(page_blob: &mut S) -> (r: Result<usize, StoreError>)
    requires
        store_ok(*old(page_blob)),
    ensures
        store_ok(*final(page_blob)),
        old(page_blob).reliable() ==> final(page_blob).reliable(),
        old(page_blob).precise() ==> final(page_blob).precise(),
        old(page_blob).container_exists() ==> final(page_blob).container_exists(),
        old(page_blob).precise() && !old(page_blob).blob_exists() ==> r == Err::<usize, StoreError>(
            StoreError::BlobNotFound,
        ),
        old(page_blob).reliable() ==> r is Ok,
        final(page_blob).content() == old(page_blob).content(),
        final(page_blob).blob_exists() == old(page_blob).blob_exists(),
        r matches Ok(n) ==> n * BLOB_PAGE_SIZE == old(page_blob).content().len(),
        r is Ok ==> old(page_blob).blob_exists(),
{
    let mut attempt: u32 = 1;
    let mut container_created = false;
    loop
        invariant
            store_ok(*page_blob),
            old(page_blob).reliable() ==> page_blob.reliable(),
            old(page_blob).precise() ==> page_blob.precise(),
            old(page_blob).container_exists() ==> page_blob.container_exists(),
            page_blob.content() == old(page_blob).content(),
            page_blob.blob_exists() == old(page_blob).blob_exists(),
            old(page_blob).precise() && container_created ==> page_blob.container_exists(),
            1 <= attempt <= MAX_ATTEMPTS,
        decreases attempts_left(attempt, container_created),
    {
        let err = match page_blob.get_pages_amount() {
            Ok(n) => return Ok(n),
            Err(err) => err,
        };
        match retry_decision(&err, attempt, container_created) {
            RetryDecision::CreateContainer => {
                create_container_if_not_exist(page_blob)?;
                container_created = true;
            },
            RetryDecision::Retry => {
                page_blob.pause_before_retry(attempt, RETRY_DELAY_MS);
                attempt = attempt + 1;
            },
            RetryDecision::Fail => return Err(err),
        }
    }
}

/// Creates the blob with `init_pages_amount` zero pages unless it exists;
/// returns its page count.
pub fn create_blob_if_not_exists<S: PageBlobStore>(page_blob: &mut S, init_pages_amount: usize) -> (r: Result<
    usize,
    StoreError,
>)
    requires
        store_ok(*old(page_blob)),
    ensures
        store_ok(*final(page_blob)),
        old(page_blob).reliable() ==> final(page_blob).reliable(),
        old(page_blob).precise() ==> final(page_blob).precise(),
        old(page_blob).container_exists() ==> final(page_blob).container_exists(),
        old(page_blob).reliable() ==> r is Ok,
        old(page_blob).blob_exists() ==> final(page_blob).content() == old(page_blob).content(),
        r matches Ok(n) ==> {
            &&& final(page_blob).blob_exists()
            &&& n * BLOB_PAGE_SIZE == final(page_blob).content().len()
            &&& !old(page_blob).blob_exists() ==> final(page_blob).content() == zeros(
                (init_pages_amount * BLOB_PAGE_SIZE) as nat,
            )
        },
        r is Err ==> final(page_blob).content() == old(page_blob).content() && final(page_blob).blob_exists()
            == old(page_blob).blob_exists(),
{
    let mut attempt: u32 = 1;
    let mut container_created = false;
    loop
        invariant
            store_ok(*page_blob),
            old(page_blob).reliable() ==> page_blob.reliable(),
            old(page_blob).precise() ==> page_blob.precise(),
            old(page_blob).container_exists() ==> page_blob.container_exists(),
            page_blob.content() == old(page_blob).content(),
            page_blob.blob_exists() == old(page_blob).blob_exists(),
            1 <= attempt <= MAX_ATTEMPTS,
        decreases attempts_left(attempt, container_created),
    {
        let err = match page_blob.create_if_not_exists(init_pages_amount) {
            Ok(n) => return Ok(n),
            Err(err) => err,
        };
        match retry_decision(&err, attempt, container_created) {
            RetryDecision::CreateContainer => {
                create_container_if_not_exist(page_blob)?;
                container_created = true;
            },
            RetryDecision::Retry => {
                page_blob.pause_before_retry(attempt, RETRY_DELAY_MS);
                attempt = attempt + 1;
            },
            RetryDecision::Fail => return Err(err),
        }
    }
}

/// Resizing twice to one length is resizing once.
proof fn lemma_resized_twice(c: Seq<u8>, len: int)
    requires
        len >= 0,
    ensures
        resized(resized(c, len), len) == resized(c, len),
{
    assert(resized(resized(c, len), len) =~= resized(c, len));
}

/// Sets the blob's page count to `pages_amount`.
pub fn resize_page_blob<S: PageBlobStore>(page_blob: &mut S, pages_amount: usize) -> (r: Result<(), StoreError>)
    requires
        store_ok(*old(page_blob)),
    ensures
        store_ok(*final(page_blob)),
        old(page_blob).reliable() ==> final(page_blob).reliable(),
        old(page_blob).precise() ==> final(page_blob).precise(),
        old(page_blob).container_exists() ==> final(page_blob).container_exists(),
        old(page_blob).reliable() && pages_amount * BLOB_PAGE_SIZE <= MAX_BLOB_SIZE ==> r is Ok,
        final(page_blob).blob_exists() == old(page_blob).blob_exists(),
        r is Ok ==> final(page_blob).content() == resized(old(page_blob).content(), pages_amount * BLOB_PAGE_SIZE),
        r is Ok ==> old(page_blob).blob_exists(),
        r is Err ==> final(page_blob).content() == old(page_blob).content() || final(page_blob).content()
            == resized(old(page_blob).content(), pages_amount * BLOB_PAGE_SIZE),
{
    let ghost target = resized(old(page_blob).content(), pages_amount * BLOB_PAGE_SIZE);
    proof {
        lemma_resized_twice(old(page_blob).content(), pages_amount * BLOB_PAGE_SIZE);
    }
    let mut attempt: u32 = 1;
    let mut container_created = false;
    loop
        invariant
            store_ok(*page_blob),
            old(page_blob).reliable() ==> page_blob.reliable(),
            old(page_blob).precise() ==> page_blob.precise(),
            old(page_blob).container_exists() ==> page_blob.container_exists(),
            page_blob.content() == old(page_blob).content() || page_blob.content() == target,
            target == resized(old(page_blob).content(), pages_amount * BLOB_PAGE_SIZE),
            resized(target, pages_amount * BLOB_PAGE_SIZE) == target,
            page_blob.blob_exists() == old(page_blob).blob_exists(),
            1 <= attempt <= MAX_ATTEMPTS,
        decreases attempts_left(attempt, container_created),
    {
        let err = match page_blob.resize(pages_amount) {
            Ok(()) => return Ok(()),
            Err(err) => err,
        };
        match retry_decision(&err, attempt, container_created) {
            RetryDecision::CreateContainer => {
                create_container_if_not_exist(page_blob)?;
                container_created = true;
            },
            RetryDecision::Retry => {
                page_blob.pause_before_retry(attempt, RETRY_DELAY_MS);
                attempt = attempt + 1;
            },
            RetryDecision::Fail => return Err(err),
        }
    }
}

/// The bytes of `pages_to_read` pages from page `start_page` on.
pub fn read_pages<S: PageBlobStore>(page_blob: &mut S, start_page: usize, pages_to_read: usize) -> (r: Result<
    Vec<u8>,
    StoreError,
>)
    requires
        store_ok(*old(page_blob)),
    ensures
        store_ok(*final(page_blob)),
        old(page_blob).reliable() ==> final(page_blob).reliable(),
        old(page_blob).precise() ==> final(page_blob).precise(),
        old(page_blob).container_exists() ==> final(page_blob).container_exists(),
        old(page_blob).reliable() && (start_page + pages_to_read) * BLOB_PAGE_SIZE <= old(page_blob).content().len()
            ==> r is Ok,
        final(page_blob).content() == old(page_blob).content(),
        final(page_blob).blob_exists() == old(page_blob).blob_exists(),
        r matches Ok(v) ==> {
            &&& (start_page + pages_to_read) * BLOB_PAGE_SIZE <= old(page_blob).content().len()
            &&& v@ == old(page_blob).content().subrange(
                start_page * BLOB_PAGE_SIZE,
                (start_page + pages_to_read) * BLOB_PAGE_SIZE,
            )
        },
{
    let mut attempt: u32 = 1;
    let mut container_created = false;
    loop
        invariant
            store_ok(*page_blob),
            old(page_blob).reliable() ==> page_blob.reliable(),
            old(page_blob).precise() ==> page_blob.precise(),
            old(page_blob).container_exists() ==> page_blob.container_exists(),
            page_blob.content() == old(page_blob).content(),
            page_blob.blob_exists() == old(page_blob).blob_exists(),
            1 <= attempt <= MAX_ATTEMPTS,
        decreases attempts_left(attempt, container_created),
    {
        let err = match page_blob.get(start_page, pages_to_read) {
            Ok(v) => return Ok(v),
            Err(err) => err,
        };
        match retry_decision(&err, attempt, container_created) {
            RetryDecision::CreateContainer => {
                create_container_if_not_exist(page_blob)?;
                container_created = true;
            },
            RetryDecision::Retry => {
                page_blob.pause_before_retry(attempt, RETRY_DELAY_MS);
                attempt = attempt + 1;
            },
            RetryDecision::Fail => return Err(err),
        }
    }
}

/// A torn write followed by another torn write of the same bytes is a torn write.
proof fn lemma_torn_twice(a: Seq<u8>, b: Seq<u8>, c: Seq<u8>, at: int, bytes: Seq<u8>)
    requires
        torn(a, b, at, bytes),
        torn(b, c, at, bytes),
    ensures
        torn(a, c, at, bytes),
{
    assert forall|i: int| 0 <= i < a.len() implies #[trigger] c[i] == a[i] || (at <= i < at + bytes.len() && c[i]
        == bytes[i - at]) by {
        assert(c[i] == b[i] || (at <= i < at + bytes.len() && c[i] == bytes[i - at]));
        assert(b[i] == a[i] || (at <= i < at + bytes.len() && b[i] == bytes[i - at]));
    }
}

/// A torn write followed by the whole write is the whole write.
proof fn lemma_torn_then_written(a: Seq<u8>, b: Seq<u8>, at: int, bytes: Seq<u8>)
    requires
        torn(a, b, at, bytes),
        0 <= at,
        at + bytes.len() <= a.len(),
    ensures
        overwritten(b, at, bytes) == overwritten(a, at, bytes),
{
    assert(overwritten(b, at, bytes) =~= overwritten(a, at, bytes)) by {
        assert forall|i: int| 0 <= i < a.len() implies overwritten(b, at, bytes)[i] == overwritten(a, at, bytes)[i] by {
            if i < at || i >= at + bytes.len() {
                assert(b[i] == a[i] || (at <= i < at + bytes.len() && b[i] == bytes[i - at]));
            }
        }
    }
}

/// Writes whole pages from page `start_page_no` on.
pub fn write_pages<S: PageBlobStore>(page_blob: &mut S, start_page_no: usize, payload: &Vec<u8>) -> (r: Result<
    (),
    StoreError,
>)
    requires
        store_ok(*old(page_blob)),
        (payload@.len() as int) % (BLOB_PAGE_SIZE as int) == 0,
    ensures
        store_ok(*final(page_blob)),
        old(page_blob).reliable() ==> final(page_blob).reliable(),
        old(page_blob).precise() ==> final(page_blob).precise(),
        old(page_blob).container_exists() ==> final(page_blob).container_exists(),
        old(page_blob).reliable() && start_page_no * BLOB_PAGE_SIZE + payload@.len() <= old(page_blob).content().len()
            ==> r is Ok,
        final(page_blob).blob_exists() == old(page_blob).blob_exists(),
        r is Ok ==> start_page_no * BLOB_PAGE_SIZE + payload@.len() <= old(page_blob).content().len()
            && final(page_blob).content() == overwritten(
            old(page_blob).content(),
            start_page_no * BLOB_PAGE_SIZE,
            payload@,
        ),
        r is Err ==> torn(
            old(page_blob).content(),
            final(page_blob).content(),
            start_page_no * BLOB_PAGE_SIZE,
            payload@,
        ),
{
    let ghost at = start_page_no * BLOB_PAGE_SIZE;
    let mut attempt: u32 = 1;
    let mut container_created = false;
    assert(torn(old(page_blob).content(), page_blob.content(), at, payload@));
    loop
        invariant
            store_ok(*page_blob),
            old(page_blob).reliable() ==> page_blob.reliable(),
            old(page_blob).precise() ==> page_blob.precise(),
            old(page_blob).container_exists() ==> page_blob.container_exists(),
            torn(old(page_blob).content(), page_blob.content(), at, payload@),
            at == start_page_no * BLOB_PAGE_SIZE,
            (payload@.len() as int) % (BLOB_PAGE_SIZE as int) == 0,
            page_blob.blob_exists() == old(page_blob).blob_exists(),
            1 <= attempt <= MAX_ATTEMPTS,
        decreases attempts_left(attempt, container_created),
    {
        let ghost before = page_blob.content();
        let err = match page_blob.save_pages(start_page_no, payload) {
            Ok(()) => {
                proof {
                    lemma_torn_then_written(old(page_blob).content(), before, at, payload@);
                }
                return Ok(());
            },
            Err(err) => err,
        };
        proof {
            lemma_torn_twice(old(page_blob).content(), before, page_blob.content(), at, payload@);
        }
        match retry_decision(&err, attempt, container_created) {
            RetryDecision::CreateContainer => {
                if let Err(container_err) = create_container_if_not_exist(page_blob) {
                    return Err(container_err);
                }
                container_created = true;
            },
            RetryDecision::Retry => {
                page_blob.pause_before_retry(attempt, RETRY_DELAY_MS);
                attempt = attempt + 1;
            },
            RetryDecision::Fail => return Err(err),
        }
    }
}

} // verus!
