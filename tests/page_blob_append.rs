use page_blob_append::blob_cache::MyPageBlobWithCache;
use page_blob_append::page_blob_utils::extend_buffer_to_full_pages_size;
use page_blob_append::state_data_writing::StateDataWriting;
use page_blob_append::{
    AppendPageBlobSettings, MemoryPageBlob, PageBlobAppend, PageBlobAppendError, PageBlobStore, PageCache,
    StoreError,
};

fn settings() -> AppendPageBlobSettings {
    AppendPageBlobSettings {
        blob_auto_resize_in_pages: 1,
        cache_capacity_in_pages: 10,
        max_pages_to_write_single_round_trip: 1000,
        max_payload_size_protection: 1024 * 1024,
    }
}

fn made_uploadedble(buffer: &mut Vec<u8>) {
    while buffer.len() < 512 {
        buffer.push(0u8);
    }
}

fn blob_with_pages(pages: usize, bytes: Vec<u8>) -> MemoryPageBlob {
    let mut page_blob = MemoryPageBlob::new();
    page_blob.create_container_if_not_exist().unwrap();
    page_blob.create_if_not_exists(0).unwrap();
    page_blob.resize(pages).unwrap();
    page_blob.save_pages(0, &bytes).unwrap();
    page_blob
}

fn drain(page_blob: MemoryPageBlob, settings: AppendPageBlobSettings) -> (Vec<Vec<u8>>, PageBlobAppend<MemoryPageBlob>) {
    let mut reader = PageBlobAppend::new(page_blob, settings);
    reader.initialize_to_read_mode(false).unwrap();
    let mut result = Vec::new();
    loop {
        if reader.is_writing_mode() {
            break;
        }
        match reader.get_next_payload().unwrap() {
            Some(payload) => result.push(payload),
            None => break,
        }
    }
    assert!(reader.is_writing_mode());
    (result, reader)
}

#[test]
fn test_corrupted_and_restored() {
    const MSG_SIZE: i32 = 512;

    let mut init_payload: Vec<u8> = Vec::new();
    init_payload.extend_from_slice(&MSG_SIZE.to_le_bytes());
    init_payload.extend_from_slice(&[3u8; MSG_SIZE as usize]);
    init_payload.extend_from_slice(&[120u8; (MSG_SIZE * 2) as usize]);
    extend_buffer_to_full_pages_size(&mut init_payload, 512);

    let page_blob = blob_with_pages(4, init_payload);

    let settings = AppendPageBlobSettings {
        blob_auto_resize_in_pages: 1,
        cache_capacity_in_pages: 10,
        max_pages_to_write_single_round_trip: 1000,
        max_payload_size_protection: 1024 * 1024,
    };
    let mut reader = PageBlobAppend::new(page_blob, settings);

    reader.initialize_to_read_mode(false).unwrap();

    let payload = reader.get_next_payload().unwrap();

    assert_eq!(&[3u8; MSG_SIZE as usize], payload.unwrap().as_slice());

    let payload = reader.get_next_payload();

    let err = payload.err().unwrap();
    assert_eq!(true, err.is_corrupted());

    reader.force_to_write_mode().unwrap();

    let buff_to_write = vec![5u8, 5u8, 5u8, 5u8];
    reader.append_and_write(&vec![buff_to_write]).unwrap();

    let result_buffer = reader.get_page_blob_mut().download();

    assert_eq!(&[4u8, 0, 0, 0, 5, 5, 5, 5], &result_buffer[516..524]);
}

#[test]
fn test_switch_to_write_mode() {
    let mut payload_to_upload = vec![3u8, 0u8, 0u8, 0u8, 1u8, 2u8, 3u8, 0u8, 0u8, 0u8, 0u8];
    made_uploadedble(&mut payload_to_upload);
    let page_blob = blob_with_pages(1, payload_to_upload);

    let mut reader = PageBlobAppend::new(page_blob, settings());

    reader.initialize_to_read_mode(false).unwrap();

    let result = reader.get_next_payload().unwrap();
    assert_eq!(true, result.is_some());
    assert_eq!(true, reader.is_reading_mode());

    let result = reader.get_next_payload().unwrap();
    assert_eq!(true, result.is_none());
    assert_eq!(true, reader.is_writing_mode());

    assert_eq!(7, reader.get_blob_position());
}

#[test]
fn state_data_writing_test_write_cases() {
    let mut page_blob = MemoryPageBlob::new();
    page_blob.create_container_if_not_exist().unwrap();
    page_blob.create_if_not_exists(0).unwrap();

    let mut my_page_blob = MyPageBlobWithCache::new(page_blob, 10, 1);

    let page_cache = PageCache::new(vec![], 0, 0, 512);
    let mut seq_writer = StateDataWriting::new(page_cache);

    let payloads = vec![vec![1u8, 1u8, 1u8], vec![2u8, 2u8, 2u8, 2u8]];

    seq_writer.append_and_write(&mut my_page_blob, &payloads).unwrap();

    let data = my_page_blob.page_blob.download();

    assert_eq!(&[3, 0, 0, 0, 1, 1, 1, 4, 0, 0, 0, 2, 2, 2, 2], &data[..15]);
}

#[test]
fn empty_blob_replay() {
    let mut log = PageBlobAppend::new(MemoryPageBlob::new(), settings());
    log.initialize_to_read_mode(true).unwrap();
    assert!(log.is_writing_mode());
    assert_eq!(0, log.get_blob_position());
    match log.get_next_payload() {
        Err(PageBlobAppendError::Forbidden(_)) => {}
        other => panic!("expected Forbidden, got {:?}", other),
    }
    log.append_and_write(&vec![vec![0x05, 0x05, 0x05]]).unwrap();
    let (payloads, _) = drain(log.into_page_blob(), settings());
    assert_eq!(vec![vec![0x05u8, 0x05, 0x05]], payloads);
}

#[test]
fn missing_blob_without_auto_create_fails() {
    let mut log = PageBlobAppend::new(MemoryPageBlob::new(), settings());
    match log.initialize_to_read_mode(false) {
        Err(PageBlobAppendError::StoreError(StoreError::BlobNotFound)) => {}
        other => panic!("expected BlobNotFound, got {:?}", other),
    }
    assert!(!log.is_reading_mode() && !log.is_writing_mode());
    match log.append_and_write(&vec![vec![1u8]]) {
        Err(PageBlobAppendError::NotInitialized) => {}
        other => panic!("expected NotInitialized, got {:?}", other),
    }
    match log.get_next_payload() {
        Err(PageBlobAppendError::NotInitialized) => {}
        other => panic!("expected NotInitialized, got {:?}", other),
    }
}

#[test]
fn cross_page_frame() {
    let mut log = PageBlobAppend::new(MemoryPageBlob::new(), settings());
    log.initialize_to_read_mode(true).unwrap();
    log.append_and_write(&vec![vec![0x03u8; 512]]).unwrap();
    assert_eq!(516, log.get_blob_position());
    let bytes = log.get_page_blob().download();
    assert_eq!(1024, bytes.len());
    assert_eq!(&[0x00u8, 0x02, 0x00, 0x00], &bytes[0..4]);
    assert!(bytes[4..516].iter().all(|b| *b == 0x03));
    assert_eq!(&[0u8, 0, 0, 0], &bytes[516..520]);
    assert!(bytes[520..1024].iter().all(|b| *b == 0));
    let (payloads, _) = drain(log.into_page_blob(), settings());
    assert_eq!(vec![vec![0x03u8; 512]], payloads);
}

#[test]
fn corruption_and_recovery() {
    let mut bytes: Vec<u8> = Vec::new();
    bytes.extend_from_slice(&512u32.to_le_bytes());
    bytes.extend_from_slice(&[0x03u8; 512]);
    bytes.extend_from_slice(&[0x78u8; 1024]);
    extend_buffer_to_full_pages_size(&mut bytes, 512);
    let mut log = PageBlobAppend::new(blob_with_pages(4, bytes), settings());
    log.initialize_to_read_mode(false).unwrap();
    assert_eq!(Some(vec![0x03u8; 512]), log.get_next_payload().unwrap());
    match log.get_next_payload() {
        Err(PageBlobAppendError::Corrupted(info)) => {
            assert_eq!(516, info.broken_pos);
            assert!(info.msg.contains("1048576"));
        }
        other => panic!("expected Corrupted, got {:?}", other),
    }
    assert!(log.is_corrupted_mode());
    assert_eq!(0, log.get_blob_position());
    match log.append_and_write(&vec![vec![1u8]]) {
        Err(PageBlobAppendError::Forbidden(_)) => {}
        other => panic!("expected Forbidden, got {:?}", other),
    }
    match log.get_next_payload() {
        Err(PageBlobAppendError::Forbidden(_)) => {}
        other => panic!("expected Forbidden, got {:?}", other),
    }
    match log.initialize_to_read_mode(true) {
        Err(PageBlobAppendError::Forbidden(_)) => {}
        other => panic!("expected Forbidden, got {:?}", other),
    }
    let untouched = log.get_page_blob().download();
    assert_eq!(&[0x78u8; 4], &untouched[516..520]);

    log.force_to_write_mode().unwrap();
    assert!(log.is_writing_mode());
    assert_eq!(516, log.get_blob_position());
    log.append_and_write(&vec![vec![0x05, 0x05, 0x05, 0x05]]).unwrap();
    let after = log.get_page_blob().download();
    assert_eq!(&[4u8, 0, 0, 0, 5, 5, 5, 5], &after[516..524]);
    assert_eq!(&[0u8, 0, 0, 0], &after[524..528]);

    let (payloads, _) = drain(log.into_page_blob(), settings());
    assert_eq!(vec![vec![0x03u8; 512], vec![0x05u8; 4]], payloads);
}

#[test]
fn two_appends_across_auto_resize() {
    let mut s = settings();
    s.blob_auto_resize_in_pages = 2;
    let mut log = PageBlobAppend::new(MemoryPageBlob::new(), s);
    log.initialize_to_read_mode(true).unwrap();
    log.append_and_write(&vec![vec![0x01, 0x01, 0x01]]).unwrap();
    log.append_and_write(&vec![vec![0x02, 0x02, 0x02, 0x02]]).unwrap();
    let bytes = log.get_page_blob().download();
    assert_eq!(
        &[0x03u8, 0, 0, 0, 1, 1, 1, 0x04, 0, 0, 0, 2, 2, 2, 2],
        &bytes[0..15]
    );
    assert!(bytes[15..512].iter().all(|b| *b == 0));
    let pages = log.get_page_blob().get_pages_amount().unwrap();
    assert!(pages >= 1);
    assert_eq!(0, pages % 2);
}

#[test]
fn length_prefix_protection() {
    let mut bytes: Vec<u8> = Vec::new();
    bytes.extend_from_slice(&2_000_000u32.to_le_bytes());
    extend_buffer_to_full_pages_size(&mut bytes, 512);
    let mut log = PageBlobAppend::new(blob_with_pages(4, bytes), settings());
    log.initialize_to_read_mode(false).unwrap();
    match log.get_next_payload() {
        Err(PageBlobAppendError::Corrupted(info)) => {
            assert_eq!(0, info.broken_pos);
            assert!(info.msg.contains("1048576"));
            assert!(info.msg.contains("2000000"));
            assert!(info.last_page.is_none());
        }
        other => panic!("expected Corrupted, got {:?}", other),
    }
}

#[test]
fn replay_after_clean_shutdown() {
    let p1 = vec![1u8; 3];
    let p2 = vec![2u8; 4];
    let p3: Vec<u8> = (0..513).map(|i| (i % 251) as u8).collect();
    let mut log = PageBlobAppend::new(MemoryPageBlob::new(), settings());
    log.initialize_to_read_mode(true).unwrap();
    log.append_and_write(&vec![p1.clone()]).unwrap();
    log.append_and_write(&vec![p2.clone()]).unwrap();
    log.append_and_write(&vec![p3.clone()]).unwrap();

    let (payloads, mut log) = drain(log.into_page_blob(), settings());
    assert_eq!(vec![p1.clone(), p2.clone(), p3.clone()], payloads);
    let p4 = vec![4u8; 700];
    log.append_and_write(&vec![p4.clone()]).unwrap();

    let (payloads, _) = drain(log.into_page_blob(), settings());
    assert_eq!(vec![p1, p2, p3, p4], payloads);
}

#[test]
fn replay_is_repeatable() {
    let mut log = PageBlobAppend::new(MemoryPageBlob::new(), settings());
    log.initialize_to_read_mode(true).unwrap();
    log.append_and_write(&vec![vec![9u8; 10], vec![8u8; 600], vec![7u8]]).unwrap();
    let blob = log.into_page_blob();
    let copy = blob.download();
    let (first, log) = drain(blob, settings());
    let blob = log.into_page_blob();
    assert_eq!(copy, blob.download());
    let (second, _) = drain(blob, settings());
    assert_eq!(first, second);
    assert_eq!(vec![vec![9u8; 10], vec![8u8; 600], vec![7u8]], first);
}

#[test]
fn small_cache_reads_many_pages() {
    let mut s = settings();
    s.cache_capacity_in_pages = 1;
    s.max_pages_to_write_single_round_trip = 2;
    let mut log = PageBlobAppend::new(MemoryPageBlob::new(), s);
    log.initialize_to_read_mode(true).unwrap();
    let batch: Vec<Vec<u8>> = (1..=20u8).map(|i| vec![i; 100 * i as usize]).collect();
    log.append_and_write(&batch).unwrap();
    let (payloads, _) = drain(log.into_page_blob(), s);
    assert_eq!(batch, payloads);
}

#[test]
fn invalid_payloads_are_forbidden() {
    let mut s = settings();
    s.max_payload_size_protection = 8;
    let mut log = PageBlobAppend::new(MemoryPageBlob::new(), s);
    log.initialize_to_read_mode(true).unwrap();
    match log.append_and_write(&vec![vec![]]) {
        Err(PageBlobAppendError::Forbidden(_)) => {}
        other => panic!("expected Forbidden, got {:?}", other),
    }
    match log.append_and_write(&vec![vec![1u8; 9]]) {
        Err(PageBlobAppendError::Forbidden(_)) => {}
        other => panic!("expected Forbidden, got {:?}", other),
    }
    assert_eq!(0, log.get_blob_position());
    log.append_and_write(&vec![vec![1u8; 8]]).unwrap();
    assert_eq!(12, log.get_blob_position());
}

#[test]
fn truncated_frame_is_corruption() {
    let mut bytes: Vec<u8> = Vec::new();
    bytes.extend_from_slice(&600u32.to_le_bytes());
    bytes.extend_from_slice(&[1u8; 508]);
    let mut log = PageBlobAppend::new(blob_with_pages(1, bytes), settings());
    log.initialize_to_read_mode(false).unwrap();
    match log.get_next_payload() {
        Err(PageBlobAppendError::Corrupted(info)) => assert_eq!(0, info.broken_pos),
        other => panic!("expected Corrupted, got {:?}", other),
    }
}

#[test]
fn force_to_write_from_reading_keeps_read_payloads() {
    let mut log = PageBlobAppend::new(MemoryPageBlob::new(), settings());
    log.initialize_to_read_mode(true).unwrap();
    log.append_and_write(&vec![vec![1u8; 5], vec![2u8; 6]]).unwrap();
    let mut reader = PageBlobAppend::new(log.into_page_blob(), settings());
    reader.initialize_to_read_mode(false).unwrap();
    assert_eq!(Some(vec![1u8; 5]), reader.get_next_payload().unwrap());
    reader.force_to_write_mode().unwrap();
    assert_eq!(9, reader.get_blob_position());
    reader.append_and_write(&vec![vec![3u8; 2]]).unwrap();
    let (payloads, _) = drain(reader.into_page_blob(), settings());
    assert_eq!(vec![vec![1u8; 5], vec![3u8; 2]], payloads);
}

#[test]
fn force_to_write_with_backup_copies_blob() {
    let mut bytes: Vec<u8> = Vec::new();
    bytes.extend_from_slice(&3u32.to_le_bytes());
    bytes.extend_from_slice(&[7u8; 3]);
    bytes.extend_from_slice(&[0x78u8; 600]);
    extend_buffer_to_full_pages_size(&mut bytes, 512);
    let original = bytes.clone();
    let mut log = PageBlobAppend::new(blob_with_pages(3, bytes), settings());
    log.initialize_to_read_mode(false).unwrap();
    assert_eq!(Some(vec![7u8; 3]), log.get_next_payload().unwrap());
    assert!(log.get_next_payload().unwrap_err().is_corrupted());
    let mut backup = MemoryPageBlob::new();
    log.force_to_write_mode_with_backup(&mut backup).unwrap();
    assert!(log.is_writing_mode());
    let mut expected = original.clone();
    expected.resize(3 * 512, 0);
    assert_eq!(expected, backup.download());
}

#[test]
fn force_to_write_is_forbidden_in_writing() {
    let mut log = PageBlobAppend::new(MemoryPageBlob::new(), settings());
    match log.force_to_write_mode() {
        Err(PageBlobAppendError::Forbidden(_)) => {}
        other => panic!("expected Forbidden, got {:?}", other),
    }
    log.initialize_to_read_mode(true).unwrap();
    match log.force_to_write_mode() {
        Err(PageBlobAppendError::Forbidden(_)) => {}
        other => panic!("expected Forbidden, got {:?}", other),
    }
}
