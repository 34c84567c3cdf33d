use page_blob_append::blob_cache::copy_blob;
use page_blob_append::{MemoryPageBlob, PageBlobStore, StoreError};

#[test]
fn memory_blob_needs_container_and_blob() {
    let mut blob = MemoryPageBlob::new();
    assert!(matches!(blob.get_pages_amount(), Err(StoreError::ContainerNotFound)));
    blob.create_container_if_not_exist().unwrap();
    assert!(matches!(blob.get_pages_amount(), Err(StoreError::BlobNotFound)));
    assert_eq!(2, blob.create_if_not_exists(2).unwrap());
    assert_eq!(2, blob.create_if_not_exists(5).unwrap());
    assert_eq!(vec![0u8; 1024], blob.download());
}

#[test]
fn memory_blob_reads_and_writes_whole_pages() {
    let mut blob = MemoryPageBlob::new();
    blob.create_container_if_not_exist().unwrap();
    blob.create_if_not_exists(1).unwrap();
    blob.resize(3).unwrap();
    blob.save_pages(1, &vec![7u8; 512]).unwrap();
    assert_eq!(vec![7u8; 512], blob.get(1, 1).unwrap());
    assert_eq!(vec![0u8; 512], blob.get(2, 1).unwrap());
    assert!(matches!(blob.get(2, 2), Err(StoreError::Other(_))));
    assert!(matches!(blob.save_pages(3, &vec![1u8; 512]), Err(StoreError::Other(_))));
    blob.resize(1).unwrap();
    assert_eq!(1, blob.get_pages_amount().unwrap());
}

#[test]
fn copy_blob_copies_every_page() {
    let mut src = MemoryPageBlob::new();
    src.create_container_if_not_exist().unwrap();
    src.create_if_not_exists(5).unwrap();
    for page in 0..5u8 {
        src.save_pages(page as usize, &vec![page + 1; 512]).unwrap();
    }
    let mut dest = MemoryPageBlob::new();
    copy_blob(&mut src, &mut dest, 2).unwrap();
    assert_eq!(src.download(), dest.download());
}

#[test]
fn memory_blob_with_content() {
    let mut bytes = vec![0u8; 1024];
    bytes[0] = 9;
    let blob = MemoryPageBlob::with_content(bytes.clone());
    assert_eq!(2, blob.get_pages_amount().unwrap());
    assert_eq!(bytes, blob.download());
    let empty = MemoryPageBlob::with_content(Vec::new());
    assert_eq!(0, empty.get_pages_amount().unwrap());
}
