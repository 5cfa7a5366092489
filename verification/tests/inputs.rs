//! Tests of the typed inputs: construction, validation, mutability
//! tags, base64 and text conversions, and the clearing (zeroing)
//! behavior.

use argonautica::error::ErrorKind;
use argonautica::input::{AdditionalData, Password, Salt, SecretKey};

#[test]
fn test_secret_key_from_base64_encoded() {
    let key = SecretKey::from_base64_encoded("AAAA").unwrap();
    assert_eq!(key.as_bytes(), &[0u8, 0, 0]);
    assert!(key.is_mutable());
    assert_eq!(key.len(), 3);
}

#[test]
fn test_secret_key_from_base64_encoded_rejects_garbage() {
    let err = match SecretKey::from_base64_encoded("####") {
        Err(e) => e,
        Ok(_) => panic!("expected a decode error"),
    };
    assert_eq!(err.kind(), ErrorKind::Base64DecodeError);
    assert_eq!(err.context().as_str(), "####");
    // Non-canonical padding is rejected too: the standard engine
    // demands canonical padded form.
    let err = match SecretKey::from_base64_encoded("AAA") {
        Err(e) => e,
        Ok(_) => panic!("expected a decode error"),
    };
    assert_eq!(err.kind(), ErrorKind::Base64DecodeError);
}

#[test]
fn test_secret_key_base64_round_trip() {
    let key = SecretKey::from_owned(vec![0xde, 0xad, 0xbe, 0xef]);
    let encoded = key.to_base64_encoded();
    let back = SecretKey::from_base64_encoded(&encoded).unwrap();
    assert_eq!(back.as_bytes(), key.as_bytes());
}

#[test]
fn test_secret_key_base64_config_engines() {
    // A url-safe engine and the standard engine disagree on bytes that
    // encode to `+` or `/`; each decodes what it itself produced.
    let url_safe = base64::engine::general_purpose::URL_SAFE;
    let key = SecretKey::from_owned(vec![0xfb, 0xff, 0xfe]);
    let encoded = key.to_base64_encoded_config(&url_safe);
    let back = SecretKey::from_base64_encoded_config(&encoded, &url_safe).unwrap();
    assert_eq!(back.as_bytes(), key.as_bytes());
}

#[test]
fn test_secret_key_to_str() {
    let key = SecretKey::from_borrowed(b"open sesame");
    assert_eq!(key.to_str().unwrap(), "open sesame");
    let bad = SecretKey::from_owned(vec![0xff, 0xfe]);
    let err = bad.to_str().unwrap_err();
    assert_eq!(err.kind(), ErrorKind::Utf8EncodeError);
}

#[test]
fn test_secret_key_mutability() {
    let borrowed = SecretKey::from_borrowed(b"secret");
    assert!(!borrowed.is_mutable());
    let mut source = b"secret".to_vec();
    let exclusive = SecretKey::from_mutable(&mut source);
    assert!(exclusive.is_mutable());
    let owned = SecretKey::from_owned(b"secret".to_vec());
    assert!(owned.is_mutable());
    // An owned copy of an immutable borrow is itself mutable and
    // independent.
    let copy = borrowed.to_owned();
    assert!(copy.is_mutable());
    assert_eq!(copy.as_bytes(), borrowed.as_bytes());
}

#[test]
fn test_secret_key_validate() {
    let key = SecretKey::from_borrowed(b"any length under four gigabytes");
    assert!(key.validate().is_ok());
    let empty = SecretKey::from_owned(Vec::new());
    assert!(empty.validate().is_ok());
}

#[test]
fn test_secret_key_clearing() {
    // After clearing an owned key, re-reading its bytes yields all
    // zero bytes of the original length.
    let mut key = SecretKey::from_owned(vec![1u8, 2, 3, 4, 5]);
    assert!(key.clear());
    assert_eq!(key.as_bytes(), &[0u8, 0, 0, 0, 0]);
    // An immutably borrowed key is left untouched and reported as
    // unclearable.
    let mut borrowed = SecretKey::from_borrowed(b"abc");
    assert!(!borrowed.clear());
    assert_eq!(borrowed.as_bytes(), b"abc");
}

#[test]
fn test_password_validate() {
    let empty = Password::from_owned(Vec::new());
    let err = empty.validate().unwrap_err();
    assert_eq!(err.kind(), ErrorKind::PasswordTooShortError);
    // The context carries the offending length; validation is a pure
    // function of the length, never of the bytes.
    assert_eq!(err.context().as_str(), "0");
    let ok = Password::from_borrowed(b"P@ssw0rd");
    assert!(ok.validate().is_ok());
}

#[test]
fn test_password_clearing() {
    let mut password = Password::from_owned(b"P@ssw0rd".to_vec());
    assert!(password.clear());
    assert_eq!(password.as_bytes(), &[0u8; 8]);
    assert_eq!(password.len(), 8);
}

#[test]
fn test_salt_validate() {
    let short = Salt::from_borrowed(b"salt");
    let err = short.validate().unwrap_err();
    assert_eq!(err.kind(), ErrorKind::SaltTooShortError);
    assert_eq!(err.context().as_str(), "4");
    let ok = Salt::from_borrowed(b"somesalt");
    assert!(ok.validate().is_ok());
    let random_short = Salt::random(4);
    let err = random_short.validate().unwrap_err();
    assert_eq!(err.kind(), ErrorKind::SaltTooShortError);
    let random_ok = Salt::random(32);
    assert!(random_ok.validate().is_ok());
    // A length of exactly u32::MAX is representable in 32 bits and
    // therefore valid.
    let random_boundary = Salt::random(u32::MAX);
    assert!(random_boundary.validate().is_ok());
}

#[test]
fn test_salt_random_mode() {
    let random = Salt::random(32);
    assert!(random.is_random());
    assert_eq!(random.len(), 32);
    assert!(random.fixed_bytes().is_none());
    let fixed = Salt::from_borrowed(b"somesalt");
    assert!(!fixed.is_random());
    assert_eq!(fixed.fixed_bytes().unwrap(), b"somesalt");
}

#[test]
fn test_additional_data() {
    let empty = AdditionalData::empty();
    assert_eq!(empty.len(), 0);
    assert!(empty.validate().is_ok());
    let data = AdditionalData::from_borrowed(b"context");
    assert_eq!(data.as_bytes(), b"context");
    assert!(!data.is_mutable());
    let mut owned = data.to_owned();
    assert!(owned.is_mutable());
    assert!(owned.clear());
    assert_eq!(owned.as_bytes(), &[0u8; 7]);
}
