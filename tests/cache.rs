use page_blob_append::read_write::Cache;



#[test]
fn test_1() {
    let mut data: Vec<u8> = vec![];

    for i in 1..=24  {
        data.push(i);
    }

    let cache = Cache::new(8, data, 0);
    assert_eq!(0, cache.position_in_cache());
}

#[test]
fn cache_keeps_last_two_pages() {
    let mut cache = Cache::new(8, vec![], 3);
    assert_eq!(3, cache.position_in_cache());
    let buffer: Vec<u8> = (0u8..24).collect();
    cache.blob_is_increased(&buffer, 14);
    assert_eq!(17, cache.position_in_blob);
    assert_eq!(1, cache.position_in_last_pages);
    assert_eq!((8u8..24).collect::<Vec<u8>>(), cache.data);
    let one_page: Vec<u8> = (0u8..8).collect();
    cache.blob_is_increased(&one_page, 1);
    assert_eq!(one_page, cache.data);
}
