//! The page-blob capability that the log is written to, and an in-memory blob.

use vstd::prelude::*;
use crate::error::StoreError;
use crate::page_blob_utils::{BLOB_PAGE_SIZE, MAX_BLOB_SIZE, zeros};

verus! {

/// `c` cut or zero-extended to `len` bytes.
pub open spec fn resized(c: Seq<u8>, len: int) -> Seq<u8> {
    if len <= c.len() {
        c.subrange(0, len)
    } else {
        c + zeros((len - c.len()) as nat)
    }
}

/// `c` with `bytes` written over it from position `at`.
pub open spec fn overwritten(c: Seq<u8>, at: int, bytes: Seq<u8>) -> Seq<u8> {
    c.subrange(0, at) + bytes + c.subrange(at + bytes.len(), c.len() as int)
}

/// `new` may hold part of a write of `bytes` at `at` over `old`: each byte is
/// either as it was or as the write would leave it.
pub open spec fn torn(old: Seq<u8>, new: Seq<u8>, at: int, bytes: Seq<u8>) -> bool {
    &&& new.len() == old.len()
    &&& forall|i: int|
        0 <= i < old.len() ==> #[trigger] new[i] == old[i] || (at <= i < at + bytes.len() && new[i] == bytes[i
            - at])
}

/// A blob is made of whole pages, and is no larger than `MAX_BLOB_SIZE`.
pub open spec fn blob_shape(c: Seq<u8>) -> bool {
    &&& (c.len() as int) % (BLOB_PAGE_SIZE as int) == 0
    &&& c.len() <= MAX_BLOB_SIZE
}

/// The store keeps its invariant and holds a well-shaped blob.
pub open spec fn store_ok<S: PageBlobStore>(s: S) -> bool {
    s.inv() && blob_shape(s.content())
}

/// A blob of fixed-size pages in some store. `content` is the blob's bytes
/// (empty when there is no blob). An implementation checked by the verifier
/// defines `content`, `blob_exists`, `inv` and `reliable`, and Verus holds its
/// methods to the contracts below. The defaults describe a store that has no
/// blob and is never reliable: for an implementation written outside Verus
/// nothing checks the contracts, and what the library proves holds only as far
/// as that implementation meets them.
pub trait PageBlobStore {
    closed spec fn content(&self) -> Seq<u8> {
        Seq::empty()
    }

    closed spec fn blob_exists(&self) -> bool {
        false
    }

    /// What the implementation keeps true between calls.
    closed spec fn inv(&self) -> bool {
        true
    }

    /// Every call whose arguments are in range succeeds.
    closed spec fn reliable(&self) -> bool {
        false
    }

    /// The container that holds the blob exists.
    closed spec fn container_exists(&self) -> bool {
        false
    }

    /// Failures name their cause: a missing container or blob is reported as
    /// `ContainerNotFound` or `BlobNotFound`, and creating a container succeeds.
    closed spec fn precise(&self) -> bool {
        false
    }

    /// Number of pages of the blob.
    fn get_pages_amount(&self) -> (r: Result<usize, StoreError>)
        requires
            self.inv(),
            blob_shape(self.content()),
        ensures
            r matches Ok(n) ==> self.blob_exists() && n * BLOB_PAGE_SIZE == self.content().len(),
            self.reliable() ==> r is Ok,
            self.precise() && !self.container_exists() ==> r == Err::<usize, StoreError>(StoreError::ContainerNotFound),
            self.precise() && self.container_exists() && !self.blob_exists() ==> r == Err::<usize, StoreError>(
                StoreError::BlobNotFound,
            ),
    ;

    fn create_container_if_not_exist(&mut self) -> (r: Result<(), StoreError>)
        requires
            old(self).inv(),
            blob_shape(old(self).content()),
        ensures
            old(self).reliable() ==> r is Ok,
            old(self).precise() ==> r is Ok && final(self).container_exists(),
            final(self).inv(),
            blob_shape(final(self).content()),
            old(self).reliable() ==> final(self).reliable(),
            old(self).precise() ==> final(self).precise(),
            old(self).container_exists() ==> final(self).container_exists(),
            final(self).content() == old(self).content(),
            final(self).blob_exists() == old(self).blob_exists(),
    ;

    /// Creates the blob with `init_pages_amount` zero pages unless it exists;
    /// returns the blob's page count.
    fn create_if_not_exists(&mut self, init_pages_amount: usize) -> (r: Result<usize, StoreError>)
        requires
            old(self).inv(),
            blob_shape(old(self).content()),
        ensures
            final(self).inv(),
            blob_shape(final(self).content()),
            old(self).reliable() ==> final(self).reliable(),
            old(self).precise() ==> final(self).precise(),
            old(self).container_exists() ==> final(self).container_exists(),
            old(self).blob_exists() ==> final(self).content() == old(self).content(),
            r matches Ok(n) ==> {
                &&& final(self).blob_exists()
                &&& n * BLOB_PAGE_SIZE == final(self).content().len()
                &&& !old(self).blob_exists() ==> final(self).content() == zeros(
                    (init_pages_amount * BLOB_PAGE_SIZE) as nat,
                )
            },
            r is Err ==> final(self).content() == old(self).content() && final(self).blob_exists()
                == old(self).blob_exists(),
            old(self).reliable() ==> r is Ok,
    ;

    /// Sets the blob's page count, cutting pages off or adding zero pages.
    fn resize(&mut self, pages_amount: usize) -> (r: Result<(), StoreError>)
        requires
            old(self).inv(),
            blob_shape(old(self).content()),
        ensures
            final(self).inv(),
            blob_shape(final(self).content()),
            old(self).reliable() ==> final(self).reliable(),
            old(self).precise() ==> final(self).precise(),
            old(self).container_exists() ==> final(self).container_exists(),
            final(self).blob_exists() == old(self).blob_exists(),
            r is Ok ==> old(self).blob_exists() && final(self).content() == resized(
                old(self).content(),
                pages_amount * BLOB_PAGE_SIZE,
            ),
            r is Err ==> final(self).content() == old(self).content() || final(self).content() == resized(
                old(self).content(),
                pages_amount * BLOB_PAGE_SIZE,
            ),
            old(self).reliable() && pages_amount * BLOB_PAGE_SIZE <= MAX_BLOB_SIZE ==> r is Ok,
    ;

    /// The bytes of `pages_amount` pages from page `start_page` on.
    fn get(&self, start_page: usize, pages_amount: usize) -> (r: Result<Vec<u8>, StoreError>)
        requires
            self.inv(),
            blob_shape(self.content()),
        ensures
            r matches Ok(v) ==> {
                &&& (start_page + pages_amount) * BLOB_PAGE_SIZE <= self.content().len()
                &&& v@ == self.content().subrange(
                    start_page * BLOB_PAGE_SIZE,
                    (start_page + pages_amount) * BLOB_PAGE_SIZE,
                )
            },
            self.reliable() && (start_page + pages_amount) * BLOB_PAGE_SIZE <= self.content().len() ==> r is Ok,
    ;

    /// Writes whole pages from page `start_page` on.
    fn save_pages(&mut self, start_page: usize, payload: &Vec<u8>) -> (r: Result<(), StoreError>)
        requires
            old(self).inv(),
            blob_shape(old(self).content()),
            (payload@.len() as int) % (BLOB_PAGE_SIZE as int) == 0,
        ensures
            final(self).inv(),
            blob_shape(final(self).content()),
            old(self).reliable() ==> final(self).reliable(),
            old(self).precise() ==> final(self).precise(),
            old(self).container_exists() ==> final(self).container_exists(),
            final(self).blob_exists() == old(self).blob_exists(),
            r is Ok ==> start_page * BLOB_PAGE_SIZE + payload@.len() <= old(self).content().len()
                && final(self).content() == overwritten(
                old(self).content(),
                start_page * BLOB_PAGE_SIZE,
                payload@,
            ),
            r is Err ==> torn(old(self).content(), final(self).content(), start_page * BLOB_PAGE_SIZE, payload@),
            old(self).reliable() && start_page * BLOB_PAGE_SIZE + payload@.len() <= old(self).content().len()
                ==> r is Ok,
    ;

    /// Waits before attempt `attempt` is retried.
    fn pause_before_retry(&mut self, attempt: u32, delay_ms: u64)
        requires
            old(self).inv(),
            blob_shape(old(self).content()),
        ensures
            final(self).inv(),
            blob_shape(final(self).content()),
            old(self).reliable() ==> final(self).reliable(),
            old(self).precise() ==> final(self).precise(),
            old(self).container_exists() ==> final(self).container_exists(),
            final(self).content() == old(self).content(),
            final(self).blob_exists() == old(self).blob_exists(),
    ;
}

/// A page blob held in memory, in a container that may not exist yet.
pub struct MemoryPageBlob {
    container_exists: bool,
    blob: Option<Vec<u8>>,
}

impl MemoryPageBlob {
    /// A store with neither container nor blob.
    pub fn new() -> (r: Self)
        ensures
            r.inv(),
            r.precise(),
            !r.container_exists(),
            !r.blob_exists(),
            r.content() == Seq::<u8>::empty(),
    {
        MemoryPageBlob { container_exists: false, blob: None }
    }

    /// A store whose container exists and whose blob holds `bytes`.
    pub fn with_content(bytes: Vec<u8>) -> (r: Self)
        requires
            blob_shape(bytes@),
        ensures
            store_ok(r),
            r.reliable(),
            r.precise(),
            r.container_exists(),
            r.blob_exists(),
            r.content() == bytes@,
    {
        MemoryPageBlob { container_exists: true, blob: Some(bytes) }
    }

    /// All the bytes of the blob (none when there is no blob).
    pub fn download(&self) -> (r: Vec<u8>)
        ensures
            r@ == self.content(),
    {
        match &self.blob {
            Some(v) => v.clone(),
            None => Vec::new(),
        }
    }
}

impl PageBlobStore for MemoryPageBlob {
    closed spec fn content(&self) -> Seq<u8> {
        match self.blob {
            Some(v) => v@,
            None => Seq::empty(),
        }
    }

    closed spec fn blob_exists(&self) -> bool {
        self.blob is Some
    }

    closed spec fn reliable(&self) -> bool {
        self.container_exists && self.blob is Some
    }

    closed spec fn container_exists(&self) -> bool {
        self.container_exists
    }

    closed spec fn precise(&self) -> bool {
        true
    }

    closed spec fn inv(&self) -> bool {
        &&& (self.content().len() as int) % (BLOB_PAGE_SIZE as int) == 0
        &&& self.content().len() <= MAX_BLOB_SIZE
        &&& self.blob is Some ==> self.container_exists
    }

    fn get_pages_amount(&self) -> (r: Result<usize, StoreError>) {
        if !self.container_exists {
            return Err(StoreError::ContainerNotFound);
        }
        match &self.blob {
            Some(v) => Ok(v.len() / BLOB_PAGE_SIZE),
            None => Err(StoreError::BlobNotFound),
        }
    }

    fn create_container_if_not_exist(&mut self) -> (r: Result<(), StoreError>) {
        self.container_exists = true;
        Ok(())
    }

    fn create_if_not_exists(&mut self, init_pages_amount: usize) -> (r: Result<usize, StoreError>) {
        if !self.container_exists {
            return Err(StoreError::ContainerNotFound);
        }
        match &self.blob {
            Some(v) => {
                return Ok(v.len() / BLOB_PAGE_SIZE);
            },
            None => {},
        }
        if init_pages_amount > MAX_BLOB_SIZE / BLOB_PAGE_SIZE {
            return Err(StoreError::Other(String::new()));
        }
        let size = init_pages_amount * BLOB_PAGE_SIZE;
        let mut v: Vec<u8> = Vec::new();
        while v.len() < size
            invariant
                v@.len() <= size,
                v@ =~= zeros(v@.len()),
            decreases size - v@.len(),
        {
            v.push(0);
        }
        proof {
            vstd::arithmetic::div_mod::lemma_mod_multiples_basic(init_pages_amount as int, BLOB_PAGE_SIZE as int);
        }
        self.blob = Some(v);
        Ok(init_pages_amount)
    }

    fn resize(&mut self, pages_amount: usize) -> (r: Result<(), StoreError>) {
        if !self.container_exists {
            return Err(StoreError::ContainerNotFound);
        }
        if pages_amount > MAX_BLOB_SIZE / BLOB_PAGE_SIZE {
            return Err(StoreError::Other(String::new()));
        }
        let size = pages_amount * BLOB_PAGE_SIZE;
        match self.blob.take() {
            None => Err(StoreError::BlobNotFound),
            Some(mut v) => {
                let ghost before = v@;
                if size <= v.len() {
                    v.truncate(size);
                } else {
                    while v.len() < size
                        invariant
                            before.len() <= v@.len() <= size,
                            v@ =~= before + zeros((v@.len() - before.len()) as nat),
                        decreases size - v@.len(),
                    {
                        v.push(0);
                    }
                }
                proof {
                    vstd::arithmetic::div_mod::lemma_mod_multiples_basic(pages_amount as int, BLOB_PAGE_SIZE as int);
                }
                self.blob = Some(v);
                Ok(())
            },
        }
    }

    fn get(&self, start_page: usize, pages_amount: usize) -> (r: Result<Vec<u8>, StoreError>) {
        if !self.container_exists {
            return Err(StoreError::ContainerNotFound);
        }
        match &self.blob {
            None => Err(StoreError::BlobNotFound),
            Some(v) => {
                let pages = v.len() / BLOB_PAGE_SIZE;
                if start_page > pages || pages_amount > pages - start_page {
                    return Err(StoreError::Other(String::new()));
                }
                let from = start_page * BLOB_PAGE_SIZE;
                let to = (start_page + pages_amount) * BLOB_PAGE_SIZE;
                let mut out: Vec<u8> = Vec::new();
                let mut i: usize = from;
                while i < to
                    invariant
                        from <= i <= to <= v@.len(),
                        out@ =~= v@.subrange(from as int, i as int),
                    decreases to - i,
                {
                    out.push(v[i]);
                    i = i + 1;
                }
                Ok(out)
            },
        }
    }

    fn save_pages(&mut self, start_page: usize, payload: &Vec<u8>) -> (r: Result<(), StoreError>) {
        if !self.container_exists {
            return Err(StoreError::ContainerNotFound);
        }
        match self.blob.take() {
            None => Err(StoreError::BlobNotFound),
            Some(mut v) => {
                let pages = v.len() / BLOB_PAGE_SIZE;
                if start_page > pages || payload.len() > v.len() - start_page * BLOB_PAGE_SIZE {
                    self.blob = Some(v);
                    return Err(StoreError::Other(String::new()));
                }
                let from = start_page * BLOB_PAGE_SIZE;
                let ghost before = v@;
                let vlen = v.len();
                let mut i: usize = 0;
                while i < payload.len()
                    invariant
                        from + payload@.len() <= v@.len(),
                        v@.len() == before.len(),
                        before.len() == vlen,
                        0 <= i <= payload@.len(),
                        forall|k: int| 0 <= k < from ==> v@[k] == before[k],
                        forall|k: int| from + payload@.len() <= k < before.len() ==> v@[k] == before[k],
                        forall|k: int| from <= k < from + i ==> v@[k] == payload@[k - from],
                        forall|k: int| from + i <= k < from + payload@.len() ==> v@[k] == before[k],
                    decreases payload@.len() - i,
                {
                    v.set(from + i, payload[i]);
                    i = i + 1;
                }
                assert(v@ =~= overwritten(before, from as int, payload@));
                self.blob = Some(v);
                Ok(())
            },
        }
    }

    fn pause_before_retry(&mut self, attempt: u32, delay_ms: u64) {
    }
}

} // verus!
