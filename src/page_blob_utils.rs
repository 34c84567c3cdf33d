//! Page arithmetic shared by the page window, the reader and the writer.

use vstd::prelude::*;

verus! {

/// Size of one page of a page blob, in bytes.
pub const BLOB_PAGE_SIZE: usize = 512;

/// Largest size of a blob that this library addresses, in bytes: a quarter
/// of the address space, so that positions and lengths added to it fit.
pub const MAX_BLOB_SIZE: usize = usize::MAX / 4;

/// Largest position of a log's end marker page: half of `MAX_BLOB_SIZE`, so
/// that growing by a resize quantum stays within it.
pub const MAX_LOG_SIZE: usize = MAX_BLOB_SIZE / 2;

/// Number of pages needed to hold `size` bytes (the ceiling of `size / page_size`).
pub open spec fn pages_for(size: int, page_size: int) -> int {
    if size <= 0 {
        0
    } else {
        (size - 1) / page_size + 1
    }
}

/// The smallest multiple of `quantum` that is at least `need`.
pub open spec fn round_up_to_multiple(need: int, quantum: int) -> int {
    pages_for(need, quantum) * quantum
}

/// `n` zero bytes.
pub open spec fn zeros(n: nat) -> Seq<u8> {
    Seq::new(n, |i: int| 0u8)
}

/// Bounds on `pages_for`: it is the ceiling of the quotient.
pub proof fn lemma_pages_for_bounds(size: int, page_size: int)
    requires
        size >= 0,
        page_size > 0,
    ensures
        pages_for(size, page_size) >= 0,
        pages_for(size, page_size) * page_size >= size,
        pages_for(size, page_size) * page_size < size + page_size,
        size % page_size == 0 ==> pages_for(size, page_size) * page_size == size,
        size > 0 ==> pages_for(size, page_size) >= 1,
{
    if size > 0 {
        let q = (size - 1) / page_size;
        let r = (size - 1) % page_size;
        assert(size - 1 == q * page_size + r) by (nonlinear_arith)
            requires q == (size - 1) / page_size, r == (size - 1) % page_size, page_size > 0;
        assert((q + 1) * page_size == q * page_size + page_size) by (nonlinear_arith);
        assert(q >= 0) by (nonlinear_arith)
            requires q == (size - 1) / page_size, size >= 1, page_size > 0;
        if size % page_size == 0 {
            assert(r == page_size - 1) by (nonlinear_arith)
                requires size - 1 == q * page_size + r, 0 <= r < page_size, size % page_size == 0, page_size > 0;
        }
    }
}

/// Counting pages from a page boundary `k` pages in adds `k` pages.
pub proof fn lemma_pages_for_shift(k: int, x: int, page_size: int)
    requires
        k >= 0,
        x > 0,
        page_size > 0,
    ensures
        pages_for(k * page_size + x, page_size) == k + pages_for(x, page_size),
{
    let q = (x - 1) / page_size;
    let r = (x - 1) % page_size;
    vstd::arithmetic::div_mod::lemma_fundamental_div_mod(x - 1, page_size);
    assert(k * page_size + x - 1 == (k + q) * page_size + r) by (nonlinear_arith)
        requires x - 1 == page_size * q + r;
    assert((k + q) * page_size == page_size * (k + q)) by (nonlinear_arith);
    vstd::arithmetic::div_mod::lemma_div_multiples_vanish_fancy(k + q, r, page_size);
    assert(k * page_size + x > 0) by (nonlinear_arith)
        requires k >= 0, x > 0, page_size > 0;
}

/// Number of pages needed to hold `data_size` bytes.
pub fn get_pages_amount_by_size(data_size: usize, page_size: usize) -> (r: usize)
    requires
        data_size > 0,
        page_size > 0,
    ensures
        r == pages_for(data_size as int, page_size as int),
{
    (data_size - 1) / page_size + 1
}

/// Pages spanned by `data_size` bytes once a buffer of `buffer_size` bytes
/// is counted too, less the page that the two share.
pub fn get_pages_amount_by_size_including_buffer_capacity(
    data_size: usize,
    buffer_size: usize,
    page_size: usize,
) -> (r: usize)
    requires
        data_size > 0,
        buffer_size > 0,
        page_size > 0,
        data_size + buffer_size <= usize::MAX,
    ensures
        r == pages_for(data_size as int, page_size as int) + pages_for(buffer_size as int, page_size as int) - 1,
{
    let data_pages_amount = get_pages_amount_by_size(data_size, page_size);
    let buffer_pages = get_pages_amount_by_size(buffer_size, page_size);
    proof {
        lemma_pages_for_bounds(data_size as int, page_size as int);
        lemma_pages_for_bounds(buffer_size as int, page_size as int);
        assert(data_pages_amount <= data_size) by (nonlinear_arith)
            requires data_pages_amount * page_size >= data_size, data_pages_amount * page_size < data_size + page_size,
                page_size >= 1, data_pages_amount >= 1;
        assert(buffer_pages <= buffer_size) by (nonlinear_arith)
            requires buffer_pages * page_size >= buffer_size, buffer_pages * page_size < buffer_size + page_size,
                page_size >= 1, buffer_pages >= 1;
    }
    data_pages_amount + buffer_pages - 1
}

/// Index of the page that holds the byte at `page_blob_position`.
pub fn get_page_no_from_page_blob_position(page_blob_position: usize, page_size: usize) -> (r: usize)
    requires
        page_size > 0,
    ensures
        r == page_blob_position / page_size,
{
    page_blob_position / page_size
}

/// Offset of `page_blob_position` inside its page.
pub fn get_position_within_page(page_blob_position: usize, page_size: usize) -> (r: usize)
    requires
        page_size > 0,
    ensures
        r == page_blob_position % page_size,
        r < page_size,
{
    let page_no = get_page_no_from_page_blob_position(page_blob_position, page_size);
    proof {
        assert(page_no * page_size <= page_blob_position) by (nonlinear_arith)
            requires page_no == page_blob_position / page_size, page_size > 0;
        assert(page_blob_position - page_no * page_size == page_blob_position % page_size) by (nonlinear_arith)
            requires page_no == page_blob_position / page_size, page_size > 0;
    }
    page_blob_position - page_no * page_size
}

/// Pads `buffer` with zeros up to the next page boundary.
pub fn extend_buffer_to_full_pages_size(buffer: &mut Vec<u8>, page_size: usize)
    requires
        page_size > 0,
        old(buffer)@.len() + page_size <= usize::MAX,
    ensures
        final(buffer)@.len() == pages_for(old(buffer)@.len() as int, page_size as int) * page_size,
        final(buffer)@ == old(buffer)@ + zeros((final(buffer)@.len() - old(buffer)@.len()) as nat),
        (final(buffer)@.len() as int) % (page_size as int) == 0,
        final(buffer)@.len() < old(buffer)@.len() + page_size,
{
    let ghost start = buffer@;
    proof {
        lemma_pages_for_bounds(buffer@.len() as int, page_size as int);
    }
    if buffer.len() == 0 {
        assert(buffer@ =~= start + zeros(0));
        return;
    }
    let pages = get_pages_amount_by_size(buffer.len(), page_size);
    let full_size = pages * page_size;
    proof {
        assert((full_size as int) % (page_size as int) == 0) by (nonlinear_arith)
            requires full_size == pages * page_size, page_size > 0;
    }
    while buffer.len() < full_size
        invariant
            start.len() <= buffer@.len() <= full_size,
            buffer@ =~= start + zeros((buffer@.len() - start.len()) as nat),
        decreases full_size - buffer@.len(),
    {
        buffer.push(0);
    }
}

/// The last, possibly partial, page of `data`: the bytes from the start of
/// the page that holds position `data.len()` to the end.
pub fn get_last_page(data: &Vec<u8>, page_size: usize) -> (r: &[u8])
    requires
        page_size > 0,
    ensures
        r@ == data@.subrange(((data@.len() as int) / (page_size as int)) * page_size, data@.len() as int),
{
    let page_no = get_page_no_from_page_blob_position(data.len(), page_size);
    proof {
        assert(page_no * page_size <= data.len()) by (nonlinear_arith)
            requires page_no == data.len() / page_size, page_size > 0;
    }
    let start_page_position = page_no * page_size;
    &data.as_slice()[start_page_position..data.len()]
}

/// Size in bytes of the whole pages that hold `len` bytes.
pub fn get_full_pages_size(len: usize) -> (r: usize)
    requires
        len > 0,
        len + BLOB_PAGE_SIZE <= usize::MAX,
    ensures
        r == pages_for(len as int, BLOB_PAGE_SIZE as int) * BLOB_PAGE_SIZE,
{
    let pages = (len - 1) / BLOB_PAGE_SIZE;
    proof {
        lemma_pages_for_bounds(len as int, BLOB_PAGE_SIZE as int);
    }
    (pages + 1) * BLOB_PAGE_SIZE
}

/// Page count that a blob must be grown to so that it holds
/// `pages_amount_needs` pages: the next multiple of `pages_resize_ratio`.
pub fn get_ressize_to_pages_amount(pages_amount_needs: usize, pages_resize_ratio: usize) -> (r: usize)
    requires
        pages_amount_needs > 0,
        pages_resize_ratio > 0,
        pages_amount_needs + pages_resize_ratio <= usize::MAX,
    ensures
        r == round_up_to_multiple(pages_amount_needs as int, pages_resize_ratio as int),
        r % pages_resize_ratio == 0,
        pages_amount_needs <= r < pages_amount_needs + pages_resize_ratio,
{
    let full_pages_amount = (pages_amount_needs - 1) / pages_resize_ratio + 1;
    proof {
        lemma_pages_for_bounds(pages_amount_needs as int, pages_resize_ratio as int);
        assert(((full_pages_amount * pages_resize_ratio) as int) % (pages_resize_ratio as int) == 0) by (nonlinear_arith)
            requires pages_resize_ratio > 0;
    }
    full_pages_amount * pages_resize_ratio
}

/// Number of pages that a blob holds once `data_len` bytes have been
/// written at page `start_page_no`.
pub fn get_pages_amount_after_append(start_page_no: usize, data_len: usize) -> (r: usize)
    requires
        start_page_no + data_len / BLOB_PAGE_SIZE <= usize::MAX,
    ensures
        r == start_page_no + (data_len as int) / (BLOB_PAGE_SIZE as int),
{
    let data_len_in_pages = data_len / BLOB_PAGE_SIZE;
    start_page_no + data_len_in_pages
}

} // verus!
