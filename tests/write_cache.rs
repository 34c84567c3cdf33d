use page_blob_append::read_write::WriteCache;




#[test]
fn test_full_page_added_sequence_from_scratch() {
    let mut write_cache = WriteCache::new(8, None, 0);

    let mut package = vec![1u8, 2u8, 3u8, 4u8, 5u8, 6u8, 7u8, 8u8];

    package.extend([0u8, 0u8, 0u8, 0u8]);

    write_cache.start_increasing_blob(&package);

    assert_eq!(8, write_cache.next_write_position);
    assert_eq!(true, write_cache.next_last_page.is_none());
}

#[test]
fn test_not_full_one_page_added_from_scratch() {
    let mut write_cache = WriteCache::new(8, None, 0);

    let mut package = vec![1u8, 2u8, 3u8, 4u8, 5u8, 6u8, 7u8];

    package.extend([0u8, 0u8, 0u8, 0u8]);

    write_cache.start_increasing_blob(&package);

    assert_eq!(7, write_cache.next_write_position);

    let next_last_page = write_cache.next_last_page.unwrap();

    assert_eq!(vec![1u8, 2u8, 3u8, 4u8, 5u8, 6u8, 7u8], next_last_page);
}

#[test]
fn test_not_full_two_pages_added_from_scratch() {
    let mut write_cache = WriteCache::new(8, None, 0);

    let mut package = vec![1u8, 2u8, 3u8, 4u8, 5u8, 6u8, 7u8, 8u8, 9u8];

    package.extend([0u8, 0u8, 0u8, 0u8]);

    write_cache.start_increasing_blob(&package);

    assert_eq!(9, write_cache.next_write_position);

    let next_last_page = write_cache.next_last_page.unwrap();

    assert_eq!(vec![9u8], next_last_page);
}

#[test]
fn test_several_appends() {
    let mut write_cache = WriteCache::new(8, None, 0);

    let mut package = vec![1u8, 2u8, 3u8];
    package.extend([0u8, 0u8, 0u8, 0u8]);

    write_cache.start_increasing_blob(&package);

    let next_last_page = write_cache.next_last_page.as_ref().unwrap().to_vec();

    assert_eq!(vec![1u8, 2u8, 3u8], next_last_page);

    write_cache.written();

    // Adding new Package

    let mut package = vec![4u8, 5u8, 6u8];
    package.extend([0u8, 0u8, 0u8, 0u8]);

    let package_to_write = write_cache.concat_with_current_cache(&package);

    assert_eq!(
        vec![1u8, 2u8, 3u8, 4u8, 5u8, 6u8, 0u8, 0u8, 0u8, 0u8],
        package_to_write
    );

    write_cache.start_increasing_blob(&package_to_write);

    let next_last_page = write_cache.next_last_page.as_ref().unwrap().to_vec();

    assert_eq!(vec![1u8, 2u8, 3u8, 4u8, 5u8, 6u8], next_last_page);

    write_cache.written();

    // Adding new Package

    let mut package = vec![7u8, 8u8, 9u8];
    package.extend([0u8, 0u8, 0u8, 0u8]);

    let package_to_write = write_cache.concat_with_current_cache(&package);

    assert_eq!(
        vec![1u8, 2u8, 3u8, 4u8, 5u8, 6u8, 7u8, 8u8, 9u8, 0u8, 0u8, 0u8, 0u8],
        package_to_write
    );

    write_cache.start_increasing_blob(&package_to_write);

    let next_last_page = write_cache.next_last_page.as_ref().unwrap().to_vec();

    assert_eq!(9, write_cache.next_write_position);

    assert_eq!(vec![9u8], next_last_page);

    write_cache.written();

    // Adding new Package

    let mut package = vec![10u8, 11u8, 12u8];
    package.extend([0u8, 0u8, 0u8, 0u8]);

    let package_to_write = write_cache.concat_with_current_cache(&package);

    assert_eq!(
        vec![9u8, 10u8, 11u8, 12u8, 0u8, 0u8, 0u8, 0u8],
        package_to_write
    );

    write_cache.start_increasing_blob(&package_to_write);

    let next_last_page = write_cache.next_last_page.as_ref().unwrap().to_vec();

    assert_eq!(12, write_cache.next_write_position);

    assert_eq!(vec![9u8, 10u8, 11u8, 12u8], next_last_page);

    write_cache.written();

    // Adding new Package

    let mut package = vec![13u8, 14u8, 15u8];
    package.extend([0u8, 0u8, 0u8, 0u8]);

    let package_to_write = write_cache.concat_with_current_cache(&package);

    assert_eq!(
        vec![9u8, 10u8, 11u8, 12u8, 13u8, 14u8, 15u8, 0u8, 0u8, 0u8, 0u8],
        package_to_write
    );

    write_cache.start_increasing_blob(&package_to_write);

    let next_last_page = write_cache.next_last_page.as_ref().unwrap().to_vec();

    assert_eq!(15, write_cache.next_write_position);

    assert_eq!(
        vec![9u8, 10u8, 11u8, 12u8, 13u8, 14u8, 15u8],
        next_last_page
    );

    write_cache.written();

    // Adding new Package

    let mut package = vec![16u8, 17u8, 18u8];
    package.extend([0u8, 0u8, 0u8, 0u8]);

    let package_to_write = write_cache.concat_with_current_cache(&package);

    assert_eq!(
        vec![9u8, 10u8, 11u8, 12u8, 13u8, 14u8, 15u8, 16u8, 17u8, 18u8, 0u8, 0u8, 0u8, 0u8],
        package_to_write
    );

    write_cache.start_increasing_blob(&package_to_write);

    let next_last_page = write_cache.next_last_page.as_ref().unwrap().to_vec();

    assert_eq!(18, write_cache.next_write_position);

    assert_eq!(vec![17u8, 18u8], next_last_page);

    write_cache.written();

    // Adding new Package

    let mut package = vec![19u8, 20u8, 21u8, 22u8, 23u8, 24u8];
    package.extend([0u8, 0u8, 0u8, 0u8]);

    let package_to_write = write_cache.concat_with_current_cache(&package);

    assert_eq!(
        vec![17u8, 18u8, 19u8, 20u8, 21u8, 22u8, 23u8, 24u8, 0u8, 0u8, 0u8, 0u8],
        package_to_write
    );

    write_cache.start_increasing_blob(&package_to_write);

    assert_eq!(24, write_cache.next_write_position);

    assert_eq!(true, write_cache.next_last_page.is_none());

    write_cache.written();
}
