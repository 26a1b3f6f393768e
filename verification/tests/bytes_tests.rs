use sui_crypto::authority::AuthoritySignature;
use sui_crypto::base_types::AuthorityPublicKeyBytes;
use sui_crypto::bytes::{bytes_eq, bytes_lt, to_array};
use sui_crypto::sorting::sort_by_name;

#[test]
fn equal_means_same_bytes() {
    assert!(bytes_eq(&[], &[]));
    assert!(bytes_eq(&[1, 2, 3], &[1, 2, 3]));
    assert!(!bytes_eq(&[1, 2, 3], &[1, 2, 4]));
    assert!(!bytes_eq(&[1, 2, 3], &[1, 2]));
    assert!(!bytes_eq(&[], &[0]));
}

#[test]
fn less_is_lexicographic() {
    assert!(bytes_lt(&[1, 2, 3], &[1, 2, 4]));
    assert!(!bytes_lt(&[1, 2, 4], &[1, 2, 3]));
    assert!(bytes_lt(&[1, 2], &[1, 2, 0]));
    assert!(!bytes_lt(&[1, 2, 0], &[1, 2]));
    assert!(bytes_lt(&[], &[0]));
    assert!(!bytes_lt(&[], &[]));
    assert!(!bytes_lt(&[5], &[5]));
    assert!(bytes_lt(&[0, 255], &[1, 0]));
    assert!(bytes_lt(&[127], &[128]));
}

#[test]
fn less_agrees_with_the_order_of_slices() {
    let samples: [&[u8]; 6] = [&[], &[0], &[0, 0], &[0, 1], &[1], &[255, 0]];
    for a in samples {
        for b in samples {
            assert_eq!(bytes_lt(a, b), a < b);
            assert_eq!(bytes_eq(a, b), a == b);
        }
    }
}

#[test]
fn array_needs_the_exact_length() {
    assert_eq!(to_array::<3>(&[1, 2, 3]), Some([1, 2, 3]));
    assert_eq!(to_array::<3>(&[1, 2]), None);
    assert_eq!(to_array::<3>(&[1, 2, 3, 4]), None);
    assert_eq!(to_array::<0>(&[]), Some([]));
}

fn entry(name: u8, signature: u8) -> (AuthorityPublicKeyBytes, AuthoritySignature) {
    let mut bytes = [0u8; 96];
    bytes[0] = name;
    (AuthorityPublicKeyBytes(bytes), AuthoritySignature([signature; 48]))
}

fn tags(sorted: &[(AuthorityPublicKeyBytes, AuthoritySignature)]) -> Vec<(u8, u8)> {
    sorted.iter().map(|(name, signature)| (name.0[0], signature.0[0])).collect()
}

#[test]
fn sorting_orders_by_name() {
    let sorted = sort_by_name(vec![entry(3, 30), entry(1, 10), entry(2, 20), entry(0, 0)]);
    assert_eq!(tags(&sorted), vec![(0, 0), (1, 10), (2, 20), (3, 30)]);
    assert!(sort_by_name(Vec::new()).is_empty());
}

#[test]
fn sorting_keeps_the_order_of_equal_names() {
    let sorted = sort_by_name(vec![entry(2, 1), entry(1, 2), entry(2, 3), entry(1, 4)]);
    assert_eq!(tags(&sorted), vec![(1, 2), (1, 4), (2, 1), (2, 3)]);
}

#[test]
fn sorting_compares_whole_names() {
    let mut low = [7u8; 96];
    low[95] = 1;
    let mut high = [7u8; 96];
    high[95] = 2;
    let sorted = sort_by_name(vec![
        (AuthorityPublicKeyBytes(high), AuthoritySignature([1; 48])),
        (AuthorityPublicKeyBytes(low), AuthoritySignature([2; 48])),
    ]);
    assert_eq!(sorted[0].0 .0, low);
    assert_eq!(sorted[1].0 .0, high);
}
