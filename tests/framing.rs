use page_blob_append::framing::{read_le_u32, PackageBuilder};
use page_blob_append::with_retries::{retry_decision, RetryDecision, MAX_ATTEMPTS};
use page_blob_append::StoreError;

#[test]
fn package_builder_frames_payloads() {
    let mut builder = PackageBuilder::new();
    builder.add_payload(&[1u8, 2, 3]);
    builder.add_payload(&[9u8; 300]);
    let result = builder.get_result();
    assert_eq!(&[3u8, 0, 0, 0, 1, 2, 3], &result[0..7]);
    assert_eq!(&[44u8, 1, 0, 0], &result[7..11]);
    assert_eq!(4 + 3 + 4 + 300 + 4, result.len());
    assert_eq!(&[0u8, 0, 0, 0], &result[result.len() - 4..]);
}

#[test]
fn empty_package_is_end_marker() {
    assert_eq!(vec![0u8, 0, 0, 0], PackageBuilder::new().get_result());
}

#[test]
fn reads_little_endian_lengths() {
    assert_eq!(512, read_le_u32(&[0u8, 2, 0, 0], 0));
    assert_eq!(0x78787878, read_le_u32(&[0x78u8; 4], 0));
    assert_eq!(0x04030201, read_le_u32(&[9u8, 1, 2, 3, 4], 1));
}

#[test]
fn retry_policy() {
    assert!(matches!(retry_decision(&StoreError::ContainerNotFound, 1, false), RetryDecision::CreateContainer));
    assert!(matches!(retry_decision(&StoreError::ContainerNotFound, 1, true), RetryDecision::Fail));
    assert!(matches!(retry_decision(&StoreError::Transient(String::new()), 1, false), RetryDecision::Retry));
    assert!(matches!(
        retry_decision(&StoreError::Transient(String::new()), MAX_ATTEMPTS, false),
        RetryDecision::Fail
    ));
    assert!(matches!(retry_decision(&StoreError::BlobNotFound, 1, false), RetryDecision::Fail));
    assert!(matches!(retry_decision(&StoreError::Other(String::new()), 1, false), RetryDecision::Fail));
}

#[test]
fn decimal_text() {
    let mut s = String::from("n=");
    page_append_decimal(&mut s, 0);
    assert_eq!("n=0", s);
    let mut s = String::new();
    page_append_decimal(&mut s, 1048576);
    assert_eq!("1048576", s);
}

fn page_append_decimal(s: &mut String, n: u64) {
    page_blob_append::decimal::push_decimal(s, n);
}
