//! Tests of the shared registry, padding and header helpers.
use crypt::shared::{header_subject, is_valid_algorithm, pkcs7_pad32};

#[test]
fn pad_short_password_fills_with_length() {
    let arr = pkcs7_pad32(b"abc");
    assert_eq!(arr.len(), 32);
    assert_eq!(&arr[..3], b"abc");
    for k in 3..32 {
        assert_eq!(arr[k], 3);
    }
}

#[test]
fn pad_empty_password_is_all_zero() {
    let arr = pkcs7_pad32(b"");
    assert_eq!(arr, [0u8; 32]);
}

#[test]
fn pad_boundary_password_of_31_bytes() {
    let pw = [7u8; 31];
    let arr = pkcs7_pad32(&pw);
    assert_eq!(&arr[..31], &pw[..]);
    assert_eq!(arr[31], 31);
}

#[test]
fn pad_long_password_truncates_and_fills_zero() {
    let pw: Vec<u8> = (1u8..=40).collect();
    let arr = pkcs7_pad32(&pw);
    assert_eq!(&arr[..31], &pw[..31]);
    assert_eq!(arr[31], 0);
}

#[test]
fn valid_algorithm_membership() {
    assert!(is_valid_algorithm("crypt-aes-256-gcm".to_string()));
    assert!(is_valid_algorithm("crypt-aes-256-gcm-siv".to_string()));
    assert!(!is_valid_algorithm("".to_string()));
    assert!(!is_valid_algorithm("crypt-aes-256".to_string()));
    assert!(!is_valid_algorithm("crypt-aes-256-gcm-siv-x".to_string()));
}

#[test]
fn header_subject_invalid_algorithm() {
    let s = header_subject("nope".to_string(), "prefix".to_string());
    assert_eq!(s, "error:header:invalid-algorithm");
}

#[test]
fn header_subject_suffix_exact() {
    let s = header_subject("crypt-aes-256-gcm".to_string(), "suffix".to_string());
    let dashes = "-".repeat(23);
    assert_eq!(s, format!("{} crypt-aes-256-gcm suffix {}", dashes, dashes));
}
