use xtract::hash::{u64_to_string, FNV_OFFSET_BASIS};
use xtract::profile::{hash_int_values, hash_text_values};

#[test]
fn u64_to_string_cases() {
    assert_eq!(u64_to_string(0), "0");
    assert_eq!(u64_to_string(7), "7");
    assert_eq!(u64_to_string(42), "42");
    assert_eq!(u64_to_string(1000), "1000");
    assert_eq!(u64_to_string(1234567890123456789), "1234567890123456789");
    assert_eq!(u64_to_string(u64::MAX), "18446744073709551615");
}

#[test]
fn hash_of_nothing_is_the_offset_basis() {
    let vals: Vec<i64> = vec![];
    assert_eq!(hash_int_values(&vals), FNV_OFFSET_BASIS);
    let texts: Vec<String> = vec![];
    assert_eq!(hash_text_values(&texts), FNV_OFFSET_BASIS);
}

#[test]
fn hash_matches_reference_fnv1a_vectors() {
    // published 64-bit FNV-1a digests of "a" and "foobar"
    let a: Vec<String> = vec!["a".to_string()];
    assert_eq!(hash_text_values(&a), 0xaf63dc4c8601ec8c);
    let foobar: Vec<String> = vec!["foobar".to_string()];
    assert_eq!(hash_text_values(&foobar), 0x85944171f73967e8);
}

#[test]
fn hashing_is_deterministic() {
    let vals: Vec<i64> = vec![1, 2, 3, -4];
    assert_eq!(hash_int_values(&vals), hash_int_values(&vals));
    let texts: Vec<String> = vec!["x".to_string(), "yz".to_string()];
    assert_eq!(hash_text_values(&texts), hash_text_values(&texts));
}

#[test]
fn reordering_changes_the_hash() {
    let fwd: Vec<i64> = vec![1, 2, 3];
    let rev: Vec<i64> = vec![3, 2, 1];
    assert_ne!(hash_int_values(&fwd), hash_int_values(&rev));
    let st: Vec<String> = vec!["ab".to_string(), "cd".to_string()];
    let ts: Vec<String> = vec!["cd".to_string(), "ab".to_string()];
    assert_ne!(hash_text_values(&st), hash_text_values(&ts));
}

#[test]
fn element_differences_change_the_hash() {
    let a: Vec<i64> = vec![1, 2, 3];
    let b: Vec<i64> = vec![1, 2, 4];
    assert_ne!(hash_int_values(&a), hash_int_values(&b));
    // string boundaries matter: ["ab","c"] and ["a","bc"] feed the same
    // characters but are distinguished here by their total byte stream;
    // the concatenation-based fingerprint treats them alike only if the
    // bytes agree, so equal byte streams give equal hashes
    let c: Vec<String> = vec!["ab".to_string(), "c".to_string()];
    let d: Vec<String> = vec!["a".to_string(), "bc".to_string()];
    assert_eq!(hash_text_values(&c), hash_text_values(&d));
}
