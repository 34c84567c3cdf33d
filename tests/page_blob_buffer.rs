use page_blob_append::page_blob_buffer::PageBlobBuffer;



#[test]
fn page_blob_buffer_test_if_we_have_enough_to_copy() {
    let mut buffer = PageBlobBuffer::new(8, 1);

    let src = [0u8, 1u8, 2u8, 3u8, 4u8, 5u8, 6u8, 7u8];
    buffer.upload(&src);

    let mut dest = [255u8, 255u8, 255u8];

    let copied = buffer.copy_to(&mut dest);

    assert_eq!(copied, 3);
    assert_eq!(dest, [0u8, 1u8, 2u8]);
    assert_eq!(buffer.position, 3);
}

#[test]
fn page_blob_buffer_test_if_we_have_not_enough_to_copy() {
    let mut buffer = PageBlobBuffer::new(8, 1);

    let src = [0u8, 1u8, 2u8, 3u8, 4u8, 5u8, 6u8, 7u8];
    buffer.upload(&src);

    let mut dest = [
        255u8, 255u8, 255u8, 255u8, 255u8, 255u8, 255u8, 255u8, 255u8,
    ];

    let copied = buffer.copy_to(&mut dest);

    assert_eq!(copied, 8);
    assert_eq!(dest, [0u8, 1u8, 2u8, 3u8, 4u8, 5u8, 6u8, 7u8, 255u8]);

    assert_eq!(buffer.position, 0);
}

#[test]
fn page_blob_buffer_test_if_we_have_exact_amount_to_copy() {
    let mut buffer = PageBlobBuffer::new(8, 1);

    let src = [0u8, 1u8, 2u8, 3u8, 4u8, 5u8, 6u8, 7u8];
    buffer.upload(&src);

    let mut dest = [255u8, 255u8, 255u8, 255u8, 255u8, 255u8, 255u8, 255u8];

    let copied = buffer.copy_to(&mut dest);

    assert_eq!(copied, 8);
    assert_eq!(dest, [0u8, 1u8, 2u8, 3u8, 4u8, 5u8, 6u8, 7u8]);

    assert_eq!(buffer.position, 0);
}

#[test]
fn page_blob_buffer_test_several_copy() {
    let mut buffer = PageBlobBuffer::new(8, 1);

    let src = [0u8, 1u8, 2u8, 3u8, 4u8, 5u8, 6u8, 7u8];
    buffer.upload(&src);

    let mut dest = [255u8, 255u8];

    let copied = buffer.copy_to(&mut dest);

    assert_eq!(copied, 2);
    assert_eq!(dest, [0u8, 1u8]);

    assert_eq!(buffer.position, 2);

    let copied = buffer.copy_to(&mut dest);

    assert_eq!(copied, 2);
    assert_eq!(dest, [2u8, 3u8]);

    assert_eq!(buffer.position, 4);

    let copied = buffer.copy_to(&mut dest);

    assert_eq!(copied, 2);
    assert_eq!(dest, [4u8, 5u8]);

    assert_eq!(buffer.position, 6);

    let copied = buffer.copy_to(&mut dest);

    assert_eq!(copied, 2);
    assert_eq!(dest, [6u8, 7u8]);

    assert_eq!(buffer.position, 0);
}
