//! Tests of the textual hash codec: decoding canonical strings,
//! rejecting malformed ones, and the encode/decode round trip.

use argonautica::codec::{decode_rust, encode_rust, HashRaw};
use argonautica::config::{Variant, Version};
use argonautica::error::ErrorKind;

#[test]
fn test_decode() {
    let hash = "$argon2id$v=19$m=4096,t=128,p=2$gt4I/z7gnC8Ao0ofCFvz+2LGxI3it1TnCnlxn0PWKko$v6V587B9qbKraulhK/6vFUq93BGWugdzgRhtyap9tDM";
    let hash_raw = decode_rust(hash).unwrap();
    assert_eq!(hash_raw.variant(), Variant::Argon2id);
    assert_eq!(hash_raw.version(), Version::_0x13);
    assert_eq!(hash_raw.memory_size(), 4096);
    assert_eq!(hash_raw.iterations(), 128);
    assert_eq!(hash_raw.lanes(), 2);

    let hash = "$argon2i$v=16$m=32,t=3,p=1$gt4I/z7gnC8Ao0ofCFvz+2LGxI3it1TnCnlxn0PWKko$v6V587B9qbKraulhK/6vFUq93BGWugdzgRhtyap9tDM";
    let hash_raw = decode_rust(hash).unwrap();
    assert_eq!(hash_raw.variant(), Variant::Argon2i);
    assert_eq!(hash_raw.version(), Version::_0x10);
    assert_eq!(hash_raw.memory_size(), 32);
    assert_eq!(hash_raw.iterations(), 3);
    assert_eq!(hash_raw.lanes(), 1);

    let hash = "$argon2d$v=16$m=32,t=3,p=1$gt4I/z7gnC8Ao0ofCFvz+2LGxI3it1TnCnlxn0PWKko$v6V587B9qbKraulhK/6vFUq93BGWugdzgRhtyap9tDM";
    let hash_raw = decode_rust(hash).unwrap();
    assert_eq!(hash_raw.variant(), Variant::Argon2d);
    assert_eq!(hash_raw.version(), Version::_0x10);
    assert_eq!(hash_raw.memory_size(), 32);
    assert_eq!(hash_raw.iterations(), 3);
    assert_eq!(hash_raw.lanes(), 1);
}

#[test]
fn test_decode_payloads() {
    // The payload segments decode to the raw bytes whose unpadded
    // standard base64 stands in the string.
    let hash = "$argon2id$v=19$m=64,t=3,p=1$c29tZXNhbHQ$AAECAwQFBgc";
    let hash_raw = decode_rust(hash).unwrap();
    assert_eq!(hash_raw.raw_salt_bytes(), b"somesalt");
    assert_eq!(hash_raw.raw_hash_bytes(), &[0u8, 1, 2, 3, 4, 5, 6, 7]);
}

#[test]
fn test_encode_canonical() {
    let h = HashRaw::new(
        Variant::Argon2id,
        Version::_0x13,
        64,
        3,
        1,
        b"somesalt".to_vec(),
        vec![0u8, 1, 2, 3, 4, 5, 6, 7],
    );
    let encoded = encode_rust(&h);
    assert_eq!(encoded, "$argon2id$v=19$m=64,t=3,p=1$c29tZXNhbHQ$AAECAwQFBgc");
}

#[test]
fn test_round_trip_decode_encode() {
    // Decoding a canonical string and re-encoding reproduces it byte
    // for byte.
    let hash = "$argon2id$v=19$m=4096,t=128,p=2$gt4I/z7gnC8Ao0ofCFvz+2LGxI3it1TnCnlxn0PWKko$v6V587B9qbKraulhK/6vFUq93BGWugdzgRhtyap9tDM";
    let hash_raw = decode_rust(hash).unwrap();
    assert_eq!(encode_rust(&hash_raw), hash);
}

#[test]
fn test_round_trip_encode_decode() {
    // Encoding a record and decoding the string gives the record back.
    let h = HashRaw::new(
        Variant::Argon2d,
        Version::_0x10,
        256,
        12,
        3,
        vec![9u8, 8, 7, 6, 5, 4, 3, 2, 1, 0],
        vec![0xde, 0xad, 0xbe, 0xef, 0x00, 0x11, 0x22, 0x33],
    );
    let encoded = encode_rust(&h);
    let back = decode_rust(&encoded).unwrap();
    assert_eq!(back, h);
}

#[test]
fn test_unknown_variant_rejected() {
    // An unrecognized variant token is a decode error, never a default
    // substitution.
    let hash = "$argon2x$v=19$m=4096,t=128,p=2$gt4I/z7gnC8Ao0ofCFvz+2LGxI3it1TnCnlxn0PWKko$v6V587B9qbKraulhK/6vFUq93BGWugdzgRhtyap9tDM";
    let err = decode_rust(hash).unwrap_err();
    assert_eq!(err.kind(), ErrorKind::HashDecodeError);
    assert_eq!(err.context().as_str(), hash);
}

#[test]
fn test_unknown_version_rejected() {
    let hash = "$argon2id$v=18$m=64,t=3,p=1$c29tZXNhbHQ$AAECAwQFBgc";
    let err = decode_rust(hash).unwrap_err();
    assert_eq!(err.kind(), ErrorKind::HashDecodeError);
}

#[test]
fn test_malformed_rejected() {
    // Missing delimiters, non-numeric fields, oversized numbers and
    // broken base64 all fail with the single decode error.
    let bad = [
        "",
        "$",
        "argon2id$v=19$m=64,t=3,p=1$c29tZXNhbHQ$AAECAwQFBgc",
        "$argon2id$v=19$m=64,t=3$c29tZXNhbHQ$AAECAwQFBgc",
        "$argon2id$v=19$m=abc,t=3,p=1$c29tZXNhbHQ$AAECAwQFBgc",
        "$argon2id$v=19$m=,t=3,p=1$c29tZXNhbHQ$AAECAwQFBgc",
        "$argon2id$v=19$m=64,t=5000000000,p=1$c29tZXNhbHQ$AAECAwQFBgc",
        "$argon2id$v=19$m=64,t=3,p=1$c29tZXNhbHQ!$AAECAwQFBgc",
        "$argon2id$v=19$m=64,t=3,p=1$c29tZXNhbHQ$AAECAwQFBg!",
        "$argon2id$v=19$m=64,t=3,p=1$c29tZXNhbHQ=$AAECAwQFBgc",
        "$argon2id$v=19$m=64,t=3,p=1$c29tZXNhbHQ",
    ];
    for hash in bad.iter() {
        let err = decode_rust(hash).unwrap_err();
        assert_eq!(err.kind(), ErrorKind::HashDecodeError);
    }
}

#[test]
fn test_leading_zeros_accepted() {
    // The value of a numeric field is what counts; encoding emits the
    // canonical digits again.
    let hash = "$argon2id$v=19$m=064,t=003,p=01$c29tZXNhbHQ$AAECAwQFBgc";
    let hash_raw = decode_rust(hash).unwrap();
    assert_eq!(hash_raw.memory_size(), 64);
    assert_eq!(hash_raw.iterations(), 3);
    assert_eq!(hash_raw.lanes(), 1);
    assert_eq!(
        encode_rust(&hash_raw),
        "$argon2id$v=19$m=64,t=3,p=1$c29tZXNhbHQ$AAECAwQFBgc"
    );
}
