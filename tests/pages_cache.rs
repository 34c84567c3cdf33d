use page_blob_append::PageCache;

fn generate_test_array(size: usize) -> Vec<u8> {
    let mut result = Vec::new();
    for i in 0..size {
        result.push(i as u8);
    }

    result
}

#[test]
fn test_next_page_no_to_load() {
    const PAGE_SIZE: usize = 8;
    let mut read_cache = PageCache::new(vec![], 0, 0, PAGE_SIZE);

    assert_eq!(0, read_cache.get_next_page_after_cache());

    let page_to_upload = [0u8; PAGE_SIZE * 2];

    read_cache.append_payload_from_blob(page_to_upload.as_slice());

    assert_eq!(2, read_cache.get_next_page_after_cache());
}

#[test]
fn test_we_reading_data_from_empty_cache() {
    const PAGE_SIZE: usize = 8;

    let read_cache = PageCache::new(vec![], 0, 0, PAGE_SIZE);

    match read_cache.try_to_get_next_slice(4) {
        Ok(_) => {
            panic!("Should not be here")
        }
        Err(size) => {
            assert_eq!(4, size);
        }
    }
}

#[test]
fn test_we_reading_data_several_cases() {
    const PAGE_SIZE: usize = 8;
    let mut read_cache = PageCache::new(vec![], 0, 0, PAGE_SIZE);
    let page_to_upload = generate_test_array(PAGE_SIZE);
    read_cache.append_payload_from_blob(page_to_upload.as_slice());

    {
        let slice = read_cache.try_to_get_next_slice(4).unwrap();
        assert_eq!(vec![0u8, 1u8, 2u8, 3u8], slice);
    }

    read_cache.advance_blob_position(4);

    {
        let slice = read_cache.try_to_get_next_slice(2).unwrap();
        assert_eq!(vec![4u8, 5u8], slice);
    }

    read_cache.advance_blob_position(2);

    match read_cache.try_to_get_next_slice(8) {
        Ok(_) => {
            panic!("Should not be here")
        }
        Err(size) => {
            assert_eq!(6, size);
        }
    }
}

#[test]
pub fn test_gc_read_cache() {
    const PAGE_SIZE: usize = 8;
    let mut read_cache = PageCache::new(vec![], 0, 0, PAGE_SIZE);
    let page_to_upload = generate_test_array(PAGE_SIZE * 3);

    read_cache.append_payload_from_blob(page_to_upload.as_slice());

    read_cache.try_to_get_next_slice(10).unwrap();
    read_cache.advance_blob_position(10);

    match read_cache.try_to_get_next_slice(24) {
        Ok(_) => {
            panic!("Should not be here")
        }
        Err(size) => {
            println!("Remaining size {}", size);
        }
    }

    assert_eq!(0, read_cache.page_id_offset);

    read_cache.gc(2);

    assert_eq!(1, read_cache.page_id_offset);

    assert_eq!(2, read_cache.get_position_in_cache());
    assert_eq!(10, read_cache.blob_position);
}

#[test]
pub fn test_gc_when_we_have_alot_of_pages() {
    const PAGE_SIZE: usize = 8;
    let mut read_cache = PageCache::new(vec![], 0, 0, PAGE_SIZE);
    let page_to_upload = generate_test_array(PAGE_SIZE * 20);

    read_cache.append_payload_from_blob(page_to_upload.as_slice());

    read_cache.try_to_get_next_slice(155).unwrap();
    read_cache.advance_blob_position(155);

    match read_cache.try_to_get_next_slice(24) {
        Ok(_) => {
            panic!("Should not be here")
        }
        Err(size) => {
            println!("Remaining size {}", size);
        }
    }

    read_cache.gc(2);
    assert_eq!(18, read_cache.page_id_offset);
    assert_eq!(11, read_cache.get_position_in_cache());
    assert_eq!(155, read_cache.blob_position);

    let result = read_cache.try_to_get_next_slice(4).unwrap();

    assert_eq!(vec![155, 156, 157, 158], result);
}

#[test]
pub fn test_add_new_content() {
    const PAGE_SIZE: usize = 8;
    let mut pages_cache = PageCache::new(vec![], 0, 0, PAGE_SIZE);

    pages_cache.write(vec![1u8, 1u8, 1u8, 1u8].as_slice(), true);

    assert_eq!(vec![1u8, 1u8, 1u8, 1u8, 0u8, 0u8, 0u8, 0u8], pages_cache.get_payload());

    pages_cache.write(vec![2u8, 2u8, 2u8, 2u8].as_slice(), true);

    assert_eq!(vec![1u8, 1u8, 1u8, 1u8, 2u8, 2u8, 2u8, 2u8], pages_cache.get_payload());

    pages_cache.write(vec![3u8, 3u8, 3u8, 3u8, 3u8].as_slice(), true);

    assert_eq!(
        vec![1u8, 1u8, 1u8, 1u8, 2u8, 2u8, 2u8, 2u8, 3u8, 3u8, 3u8, 3u8, 3u8, 0u8, 0u8, 0u8],
        pages_cache.get_payload()
    );

    pages_cache.write(vec![4u8, 4u8, 4u8, 4u8].as_slice(), true);

    assert_eq!(
        vec![
            1u8, 1u8, 1u8, 1u8, 2u8, 2u8, 2u8, 2u8, //Page 1
            3u8, 3u8, 3u8, 3u8, 3u8, 4u8, 4u8, 4u8, //Page 2
            4u8, 0u8, 0u8, 0u8, 0u8, 0u8, 0u8, 0u8 //Page 3
        ],
        pages_cache.get_payload()
    );
}

#[test]
fn gc_keeps_window_when_cursor_is_on_first_page() {
    let mut cache = PageCache::new(generate_test_array(16), 0, 5, 8);
    cache.gc(1);
    assert_eq!(0, cache.get_page_id_offset());
    assert_eq!(16, cache.get_payload().len());
}

#[test]
fn gc_keeps_the_requested_number_of_pages() {
    let mut cache = PageCache::new(generate_test_array(24), 0, 20, 8);
    cache.gc(3);
    assert_eq!(0, cache.get_page_id_offset());
    cache.gc(1);
    assert_eq!(2, cache.get_page_id_offset());
    assert_eq!(vec![16u8, 17, 18, 19, 20, 21, 22, 23], cache.get_payload());
}

#[test]
fn reset_zeroes_from_cursor_to_window_end() {
    let mut cache = PageCache::new(vec![7u8; 8], 0, 3, 8);
    cache.reset_from_current_position();
    assert_eq!(vec![7u8, 7, 7, 0, 0, 0, 0, 0], cache.get_payload());
}

#[test]
fn payloads_writer_frames_and_end_marker() {
    let cache = PageCache::new(vec![9u8; 8], 0, 2, 8);
    let mut writer = cache.start_writing();
    writer.append_payload(&[1u8, 2]);
    writer.append_payload(&[3u8]);
    let cache = writer.finish();
    assert_eq!(2 + 6 + 5, cache.get_blob_position());
    assert_eq!(
        vec![9u8, 9, 2, 0, 0, 0, 1, 2, 1, 0, 0, 0, 3, 0, 0, 0, 0, 0, 0, 0, 0, 0, 0, 0],
        cache.get_payload()
    );
}
