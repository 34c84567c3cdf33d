use page_blob_append::page_blob_utils::{
    extend_buffer_to_full_pages_size, get_full_pages_size, get_last_page, get_page_no_from_page_blob_position,
    get_pages_amount_after_append, get_pages_amount_by_size, get_pages_amount_by_size_including_buffer_capacity,
    get_position_within_page, get_ressize_to_pages_amount,
};

#[test]
fn test_get_pages_amount_by_size() {
    assert_eq!(1, get_pages_amount_by_size(1, 512));

    assert_eq!(1, get_pages_amount_by_size(512, 512));
    assert_eq!(2, get_pages_amount_by_size(513, 512));
    assert_eq!(2, get_pages_amount_by_size(1024, 512));

    assert_eq!(3, get_pages_amount_by_size(1025, 512));
    assert_eq!(3, get_pages_amount_by_size(1536, 512));
}

#[test]
fn page_blob_utils_test_page_blob_no_by_position() {
    assert_eq!(0, get_page_no_from_page_blob_position(1, 512));
    assert_eq!(0, get_page_no_from_page_blob_position(511, 512));

    assert_eq!(1, get_page_no_from_page_blob_position(512, 512));
    assert_eq!(1, get_page_no_from_page_blob_position(1023, 512));

    assert_eq!(2, get_page_no_from_page_blob_position(1024, 512));
}

#[test]
fn utils_test_page_blob_no_by_position() {
    assert_eq!(0, get_page_no_from_page_blob_position(1, 512));
    assert_eq!(0, get_page_no_from_page_blob_position(511, 512));

    assert_eq!(1, get_page_no_from_page_blob_position(512, 512));
    assert_eq!(1, get_page_no_from_page_blob_position(1023, 512));

    assert_eq!(2, get_page_no_from_page_blob_position(1024, 512));
}

#[test]
fn test_position_within_page() {
    assert_eq!(1, get_position_within_page(1, 512));
    assert_eq!(0, get_position_within_page(512, 512));
    assert_eq!(1, get_position_within_page(513, 512));
}

#[test]
fn test_donwload_pages_with_pages_capacity() {
    let data_size = 500;
    let buffer_size = 512;

    assert_eq!(1, get_pages_amount_by_size_including_buffer_capacity(data_size, buffer_size, 512));

    let data_size = 512;
    let buffer_size = 512;

    assert_eq!(1, get_pages_amount_by_size_including_buffer_capacity(data_size, buffer_size, 512));

    let data_size = 513;
    let buffer_size = 512;

    assert_eq!(2, get_pages_amount_by_size_including_buffer_capacity(data_size, buffer_size, 512));
}

#[test]
fn test_extend_buffer_to_full_page() {
    let mut buffer: Vec<u8> = Vec::new();

    buffer.push(15);
    buffer.push(16);

    extend_buffer_to_full_pages_size(&mut buffer, 512);

    assert_eq!(512, buffer.len());
}

#[test]
fn extend_buffer_keeps_bytes_and_pads_with_zeros() {
    let mut buffer: Vec<u8> = vec![1, 2, 3];
    extend_buffer_to_full_pages_size(&mut buffer, 4);
    assert_eq!(vec![1, 2, 3, 0], buffer);

    let mut full: Vec<u8> = vec![1, 2, 3, 4];
    extend_buffer_to_full_pages_size(&mut full, 4);
    assert_eq!(vec![1, 2, 3, 4], full);

    let mut empty: Vec<u8> = Vec::new();
    extend_buffer_to_full_pages_size(&mut empty, 4);
    assert!(empty.is_empty());
}

#[test]
fn last_page_of_buffer() {
    let data: Vec<u8> = (0u8..10).collect();
    assert_eq!(&[8u8, 9][..], get_last_page(&data, 4));
    let whole: Vec<u8> = (0u8..8).collect();
    assert!(get_last_page(&whole, 4).is_empty());
}

#[test]
fn get_full_page_ressize() {
    assert_eq!(512, get_full_pages_size(1));
    assert_eq!(512, get_full_pages_size(512));
    assert_eq!(1024, get_full_pages_size(513));
    assert_eq!(1024, get_full_pages_size(1024));
}

#[test]
fn test_get_pages_amount_after_append() {
    assert_eq!(3, get_pages_amount_after_append(2, 512));
}

#[test]
fn test_new_blob_size_in_pages_by_2() {
    let need_pages = 1;
    let pages_ratio = 2;

    let ressize_to_pages_amount = get_ressize_to_pages_amount(need_pages, pages_ratio);

    assert_eq!(2, ressize_to_pages_amount);

    let need_pages = 2;
    let pages_ratio = 2;

    let ressize_to_pages_amount = get_ressize_to_pages_amount(need_pages, pages_ratio);

    assert_eq!(2, ressize_to_pages_amount);

    let need_pages = 3;
    let pages_ratio = 2;

    let ressize_to_pages_amount = get_ressize_to_pages_amount(need_pages, pages_ratio);

    assert_eq!(4, ressize_to_pages_amount);

    let need_pages = 4;
    let pages_ratio = 2;

    let ressize_to_pages_amount = get_ressize_to_pages_amount(need_pages, pages_ratio);

    assert_eq!(4, ressize_to_pages_amount);
}

#[test]
fn test_new_blob_size_in_pages_by_3() {
    let need_pages = 1;
    let pages_ratio = 3;

    let ressize_to_pages_amount = get_ressize_to_pages_amount(need_pages, pages_ratio);

    assert_eq!(3, ressize_to_pages_amount);

    let need_pages = 2;
    let pages_ratio = 3;

    let ressize_to_pages_amount = get_ressize_to_pages_amount(need_pages, pages_ratio);

    assert_eq!(3, ressize_to_pages_amount);

    let need_pages = 3;
    let pages_ratio = 3;

    let ressize_to_pages_amount = get_ressize_to_pages_amount(need_pages, pages_ratio);

    assert_eq!(3, ressize_to_pages_amount);

    let need_pages = 4;
    let pages_ratio = 3;

    let ressize_to_pages_amount = get_ressize_to_pages_amount(need_pages, pages_ratio);

    assert_eq!(6, ressize_to_pages_amount);

    let need_pages = 5;
    let pages_ratio = 3;

    let ressize_to_pages_amount = get_ressize_to_pages_amount(need_pages, pages_ratio);

    assert_eq!(6, ressize_to_pages_amount);

    let need_pages = 6;
    let pages_ratio = 3;

    let ressize_to_pages_amount = get_ressize_to_pages_amount(need_pages, pages_ratio);

    assert_eq!(6, ressize_to_pages_amount);
}
