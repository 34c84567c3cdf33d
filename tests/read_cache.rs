use page_blob_append::read_write::ReadCache;



#[test]
fn read_cache_test_if_we_have_enough_to_copy() {
    let mut buffer = ReadCache::new(8);

    let src = vec![0u8, 1u8, 2u8, 3u8, 4u8, 5u8, 6u8, 7u8];
    buffer.upload(src);

    let mut dest = [255u8, 255u8, 255u8];

    let copied = buffer.copy_to(&mut dest);

    assert_eq!(copied, 3);
    assert_eq!(dest, [0u8, 1u8, 2u8]);
    assert_eq!(buffer.read_position, 3);
}

#[test]
fn read_cache_test_if_we_have_not_enough_to_copy() {
    let mut buffer = ReadCache::new(8);

    let src = vec![0u8, 1u8, 2u8, 3u8, 4u8, 5u8, 6u8, 7u8];
    buffer.upload(src);

    let mut dest = [
        255u8, 255u8, 255u8, 255u8, 255u8, 255u8, 255u8, 255u8, 255u8,
    ];

    let copied = buffer.copy_to(&mut dest);

    assert_eq!(copied, 8);
    assert_eq!(dest, [0u8, 1u8, 2u8, 3u8, 4u8, 5u8, 6u8, 7u8, 255u8]);

    assert_eq!(buffer.read_position, 0);
    assert_eq!(buffer.read_blob_position, 8);
}

#[test]
fn read_cache_test_if_we_have_exact_amount_to_copy() {
    let mut buffer = ReadCache::new(8);

    let src = vec![0u8, 1u8, 2u8, 3u8, 4u8, 5u8, 6u8, 7u8];
    buffer.upload(src);

    let mut dest = [255u8, 255u8, 255u8, 255u8, 255u8, 255u8, 255u8, 255u8];

    let copied = buffer.copy_to(&mut dest);

    assert_eq!(copied, 8);
    assert_eq!(dest, [0u8, 1u8, 2u8, 3u8, 4u8, 5u8, 6u8, 7u8]);

    assert_eq!(buffer.read_position, 0);
}

#[test]
fn read_cache_test_several_copy() {
    let mut buffer = ReadCache::new(8);

    let src = vec![0u8, 1u8, 2u8, 3u8, 4u8, 5u8, 6u8, 7u8];
    buffer.upload(src);

    let mut dest = [255u8, 255u8];

    let copied = buffer.copy_to(&mut dest);

    assert_eq!(copied, 2);
    assert_eq!(dest, [0u8, 1u8]);

    assert_eq!(buffer.read_position, 2);
    assert_eq!(buffer.read_blob_position, 2);

    let copied = buffer.copy_to(&mut dest);

    assert_eq!(copied, 2);
    assert_eq!(dest, [2u8, 3u8]);

    assert_eq!(buffer.read_position, 4);
    assert_eq!(buffer.read_blob_position, 4);

    let copied = buffer.copy_to(&mut dest);

    assert_eq!(copied, 2);
    assert_eq!(dest, [4u8, 5u8]);

    assert_eq!(buffer.read_position, 6);
    assert_eq!(buffer.read_blob_position, 6);

    let copied = buffer.copy_to(&mut dest);

    assert_eq!(copied, 2);
    assert_eq!(dest, [6u8, 7u8]);

    assert_eq!(buffer.read_position, 0);
    assert_eq!(buffer.read_blob_position, 8);
}

#[test]
fn test_remaining_conten_on_previous_payload() {
    let mut reade_cache = ReadCache::new(4);

    let src = vec![0u8, 1u8, 2u8, 3u8];
    reade_cache.upload(src);

    let mut download_buffer = [0u8; 4];

    reade_cache.copy_to(&mut download_buffer);

    let src = vec![5u8, 6u8, 7u8, 8u8];
    reade_cache.upload(src);

    let mut download_buffer = [0u8; 2];

    reade_cache.copy_to(&mut download_buffer);

    let (pos, remaining) = reade_cache.get_last_page_remaining_content(4);

    assert_eq!(2, pos);

    assert_eq!(vec![0u8, 1u8], remaining.unwrap());
}
