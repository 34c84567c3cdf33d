use page_blob_append::blob_cache::MyPageBlobWithCache;
use page_blob_append::sequence_reader::{read_buffer, PageBlobSequenceReaderError};
use page_blob_append::{MemoryPageBlob, PageBlobStore, PageCache};

const BLOB_PAGE_SIZE: usize = 512;

fn generate_test_array(size: usize) -> Vec<u8> {
    let mut result = Vec::new();
    for i in 0..size {
        result.push(i as u8);
    }
    result
}

#[test]
fn test_if_we_read_from_empty_blob() {
    let mut page_blob = MemoryPageBlob::new();

    page_blob.create_container_if_not_exist().unwrap();

    page_blob.create_if_not_exists(0).unwrap();

    let mut my_page_blob_with_cache = MyPageBlobWithCache::new(page_blob, 16, 2);

    let mut read_cache = PageCache::new(vec![], 0, 0, BLOB_PAGE_SIZE);

    let result = read_buffer(&mut read_cache, &mut my_page_blob_with_cache, 4, 10, 0);

    if let Err(err) = result {
        if let PageBlobSequenceReaderError::NoSuchAmountToRead = err {
        } else {
            panic!("Should not be here")
        }
    } else {
        panic!("Should not be here")
    }
}

#[test]
fn test_with_some_data_in_blob() {
    let mut page_blob = MemoryPageBlob::new();

    page_blob.create_container_if_not_exist().unwrap();

    page_blob.create_if_not_exists(1).unwrap();

    let payload = generate_test_array(BLOB_PAGE_SIZE);
    page_blob.save_pages(0, &payload).unwrap();

    let mut my_page_blob_with_cache = MyPageBlobWithCache::new(page_blob, 16, 2);

    let mut read_cache = PageCache::new(vec![], 0, 0, BLOB_PAGE_SIZE);

    let result = read_buffer(&mut read_cache, &mut my_page_blob_with_cache, 4, 10, 0).unwrap();

    assert_eq!(vec!(0u8, 1u8, 2u8, 3u8), result);
}

#[test]
fn read_across_pages_fetches_more() {
    let mut page_blob = MemoryPageBlob::new();
    page_blob.create_container_if_not_exist().unwrap();
    page_blob.create_if_not_exists(3).unwrap();
    let payload = generate_test_array(3 * BLOB_PAGE_SIZE);
    page_blob.save_pages(0, &payload).unwrap();
    let mut blob = MyPageBlobWithCache::new(page_blob, 16, 1);
    let mut cache = PageCache::new(vec![], 0, 0, BLOB_PAGE_SIZE);
    let first = read_buffer(&mut cache, &mut blob, 10, 1, 0).unwrap();
    assert_eq!(generate_test_array(10), first);
    assert_eq!(1, cache.get_next_page_after_cache());
    cache.advance_blob_position(510);
    let spanning = read_buffer(&mut cache, &mut blob, 6, 1, 0).unwrap();
    assert_eq!(payload[510..516].to_vec(), spanning);
    assert_eq!(2, cache.get_next_page_after_cache());
    let offset = read_buffer(&mut cache, &mut blob, 2, 1, 600).unwrap();
    assert_eq!(payload[1110..1112].to_vec(), offset);
    let whole_rest = read_buffer(&mut cache, &mut blob, 1026, 1, 0).unwrap();
    assert_eq!(payload[510..1536].to_vec(), whole_rest);
    assert!(matches!(
        read_buffer(&mut cache, &mut blob, 1027, 1, 0),
        Err(PageBlobSequenceReaderError::NoSuchAmountToRead)
    ));
}
