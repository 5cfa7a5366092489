//! Tests of the execution pipeline's pure steps: validation order and
//! the clearing contract, the verify path's parameter resolution, the
//! constant-time comparison, and the agreement of the two call shapes.

use argonautica::codec::decode_rust;
use argonautica::config::verifier_config::VerifierConfig;
use argonautica::config::{Backend, HasherConfigBuilder, Variant, Version};
use argonautica::error::ErrorKind;
use argonautica::execute::{
    apply_clearing, finalize_hash_encoded, finalize_hash_raw, prepare_hash, prepare_verify,
    verify_raw,
};
use argonautica::input::{AdditionalData, Password, Salt, SecretKey};

#[test]
fn test_prepare_hash_builds_descriptor() {
    let config = HasherConfigBuilder::new()
        .fast_but_insecure()
        .configure_secret_key_clearing(false)
        .configure_password_clearing(false)
        .build()
        .unwrap();
    let password = Password::from_borrowed(b"P@ssw0rd");
    let salt = Salt::from_borrowed(b"somesalt");
    let secret_key = SecretKey::from_borrowed(b"secret");
    let additional_data = AdditionalData::empty();
    let descriptor =
        prepare_hash(&password, &salt, None, &secret_key, &additional_data, &config).unwrap();
    assert_eq!(descriptor.variant, config.variant);
    assert_eq!(descriptor.version, config.version);
    assert_eq!(descriptor.memory_size, config.memory_size);
    assert_eq!(descriptor.iterations, config.iterations);
    assert_eq!(descriptor.lanes, config.lanes);
    assert_eq!(descriptor.hash_len, config.hash_len);
    assert_eq!(descriptor.password, b"P@ssw0rd".to_vec());
    assert_eq!(descriptor.salt, b"somesalt".to_vec());
    assert_eq!(descriptor.secret_key, b"secret".to_vec());
    assert!(descriptor.additional_data.is_empty());
}

#[test]
fn test_immutable_secret_key_with_clearing_rejected() {
    // Requesting secret-key clearing on an immutably borrowed key
    // fails validation before any compute work could be dispatched.
    let config = HasherConfigBuilder::new()
        .fast_but_insecure()
        .configure_password_clearing(false)
        .configure_secret_key_clearing(true)
        .build()
        .unwrap();
    let password = Password::from_borrowed(b"P@ssw0rd");
    let salt = Salt::from_borrowed(b"somesalt");
    let secret_key = SecretKey::from_borrowed(b"secret");
    let additional_data = AdditionalData::empty();
    let err = match prepare_hash(&password, &salt, None, &secret_key, &additional_data, &config) {
        Err(e) => e,
        Ok(_) => panic!("expected a validation error"),
    };
    assert_eq!(err.kind(), ErrorKind::SecretKeyImmutableError);
    assert_eq!(
        err.context().as_str(),
        "clearing requested on an immutably borrowed secret key"
    );
}

#[test]
fn test_immutable_password_with_clearing_rejected() {
    let config = HasherConfigBuilder::new()
        .fast_but_insecure()
        .configure_password_clearing(true)
        .configure_secret_key_clearing(false)
        .build()
        .unwrap();
    let password = Password::from_borrowed(b"P@ssw0rd");
    let salt = Salt::from_borrowed(b"somesalt");
    let secret_key = SecretKey::from_owned(b"secret".to_vec());
    let additional_data = AdditionalData::empty();
    let err = match prepare_hash(&password, &salt, None, &secret_key, &additional_data, &config) {
        Err(e) => e,
        Ok(_) => panic!("expected a validation error"),
    };
    assert_eq!(err.kind(), ErrorKind::PasswordImmutableError);
    assert_eq!(
        err.context().as_str(),
        "clearing requested on an immutably borrowed password"
    );
}

#[test]
fn test_validation_fails_fast_on_password() {
    // The password is validated first, whatever else is wrong.
    let config = HasherConfigBuilder::new().configure_iterations(0).build();
    assert!(config.is_err());
    let raw_config = HasherConfigBuilder::new().fast_but_insecure().build().unwrap();
    let password = Password::from_owned(Vec::new());
    let salt = Salt::from_borrowed(b"x");
    let secret_key = SecretKey::from_owned(Vec::new());
    let additional_data = AdditionalData::empty();
    let err = match prepare_hash(&password, &salt, None, &secret_key, &additional_data,
        &raw_config)
    {
        Err(e) => e,
        Ok(_) => panic!("expected a validation error"),
    };
    assert_eq!(err.kind(), ErrorKind::PasswordTooShortError);
}

#[test]
fn test_random_salt_needs_fresh_bytes() {
    let config = HasherConfigBuilder::new()
        .fast_but_insecure()
        .configure_password_clearing(false)
        .configure_secret_key_clearing(false)
        .build()
        .unwrap();
    let password = Password::from_borrowed(b"P@ssw0rd");
    let salt = Salt::random(8);
    let secret_key = SecretKey::from_borrowed(b"");
    let additional_data = AdditionalData::empty();
    let err = match prepare_hash(&password, &salt, None, &secret_key, &additional_data, &config) {
        Err(e) => e,
        Ok(_) => panic!("expected a validation error"),
    };
    assert_eq!(err.kind(), ErrorKind::ConfigurationError);
    let descriptor = prepare_hash(
        &password,
        &salt,
        Some(vec![7u8; 8]),
        &secret_key,
        &additional_data,
        &config,
    )
    .unwrap();
    assert_eq!(descriptor.salt, vec![7u8; 8]);
}

#[test]
fn test_finalize_hash_forms() {
    let config = HasherConfigBuilder::new()
        .fast_but_insecure()
        .configure_password_clearing(false)
        .configure_secret_key_clearing(false)
        .configure_hash_len(8)
        .build()
        .unwrap();
    let password = Password::from_borrowed(b"P@ssw0rd");
    let salt = Salt::from_borrowed(b"somesalt");
    let secret_key = SecretKey::from_borrowed(b"");
    let additional_data = AdditionalData::empty();
    let descriptor =
        prepare_hash(&password, &salt, None, &secret_key, &additional_data, &config).unwrap();
    let engine_output = vec![0u8, 1, 2, 3, 4, 5, 6, 7];
    let raw = finalize_hash_raw(&descriptor, engine_output.clone());
    assert_eq!(raw.variant(), Variant::Argon2id);
    assert_eq!(raw.version(), Version::_0x13);
    assert_eq!(raw.raw_salt_bytes(), b"somesalt");
    assert_eq!(raw.raw_hash_bytes(), engine_output.as_slice());
    let encoded = finalize_hash_encoded(&descriptor, engine_output);
    assert_eq!(encoded, "$argon2id$v=19$m=8,t=1,p=1$c29tZXNhbHQ$AAECAwQFBgc");
}

#[test]
fn test_blocking_and_non_blocking_shapes_agree() {
    // The two call shapes differ only in where the compute step runs;
    // both finalize through the same function, so identical inputs and
    // identical engine output give byte-identical encoded hashes. One
    // finalize runs here, the other on a pool thread.
    let config = HasherConfigBuilder::new()
        .fast_but_insecure()
        .configure_password_clearing(false)
        .configure_secret_key_clearing(false)
        .build()
        .unwrap();
    let password = Password::from_borrowed(b"P@ssw0rd");
    let salt = Salt::from_borrowed(b"somesalt");
    let secret_key = SecretKey::from_borrowed(b"secret");
    let additional_data = AdditionalData::empty();
    let d1 = prepare_hash(&password, &salt, None, &secret_key, &additional_data, &config).unwrap();
    let d2 = prepare_hash(&password, &salt, None, &secret_key, &additional_data, &config).unwrap();
    assert!(d1 == d2);
    let engine_output = vec![9u8; 32];
    let blocking = finalize_hash_encoded(&d1, engine_output.clone());
    let pool = futures::executor::ThreadPool::new().unwrap();
    let (tx, rx) = futures::channel::oneshot::channel::<String>();
    pool.spawn_ok(async move {
        let _ = tx.send(finalize_hash_encoded(&d2, engine_output));
    });
    let non_blocking = futures::executor::block_on(rx).unwrap();
    assert_eq!(blocking, non_blocking);
}

#[test]
fn test_prepare_verify_resolves_from_hash() {
    // The verify path derives variant, version, memory, iterations and
    // lanes from the decoded hash, overriding caller configuration.
    let encoded = "$argon2d$v=16$m=32,t=3,p=1$c29tZXNhbHQ$AAECAwQFBgc";
    let config = VerifierConfig::new(Backend::Rust, None, false, false, 2);
    let password = Password::from_borrowed(b"P@ssw0rd");
    let secret_key = SecretKey::from_borrowed(b"");
    let additional_data = AdditionalData::empty();
    let (decoded, descriptor) =
        prepare_verify(encoded, &password, &secret_key, &additional_data, &config).unwrap();
    assert_eq!(descriptor.variant, Variant::Argon2d);
    assert_eq!(descriptor.version, Version::_0x10);
    assert_eq!(descriptor.memory_size, 32);
    assert_eq!(descriptor.iterations, 3);
    assert_eq!(descriptor.lanes, 1);
    assert_eq!(descriptor.threads, 2);
    assert_eq!(descriptor.backend, Backend::Rust);
    assert_eq!(descriptor.hash_len, 8);
    assert_eq!(descriptor.salt, b"somesalt".to_vec());
    assert_eq!(decoded.raw_hash_bytes(), &[0u8, 1, 2, 3, 4, 5, 6, 7]);
}

#[test]
fn test_prepare_verify_rejects_bad_hash() {
    let config = VerifierConfig::new(Backend::C, None, false, false, 1);
    let password = Password::from_borrowed(b"P@ssw0rd");
    let secret_key = SecretKey::from_borrowed(b"");
    let additional_data = AdditionalData::empty();
    let err = match prepare_verify("$argon2x$v=19$m=32,t=3,p=1$c29tZXNhbHQ$AAECAwQFBgc",
        &password, &secret_key, &additional_data, &config)
    {
        Err(e) => e,
        Ok(_) => panic!("expected a decode error"),
    };
    assert_eq!(err.kind(), ErrorKind::HashDecodeError);
}

#[test]
fn test_verify_comparison() {
    // The exact recomputed bytes verify; a single altered byte does
    // not, wherever it sits.
    let decoded = decode_rust("$argon2id$v=19$m=64,t=3,p=1$c29tZXNhbHQ$AAECAwQFBgc").unwrap();
    let exact = vec![0u8, 1, 2, 3, 4, 5, 6, 7];
    assert!(verify_raw(decoded.raw_hash_bytes(), exact.as_slice()));
    for altered_at in 0..exact.len() {
        let mut altered = exact.clone();
        altered[altered_at] ^= 0x01;
        assert!(!verify_raw(decoded.raw_hash_bytes(), altered.as_slice()));
    }
    assert!(!verify_raw(decoded.raw_hash_bytes(), &exact[..7]));
}

#[test]
fn test_clearing_policy_applied() {
    // With clearing enabled on mutable inputs, re-reading them after
    // the clear step yields all zero bytes; with it disabled they are
    // untouched.
    let mut password = Password::from_owned(b"P@ssw0rd".to_vec());
    let mut secret_key = SecretKey::from_owned(b"secret".to_vec());
    let (password_cleared, secret_key_cleared) =
        apply_clearing(&mut password, &mut secret_key, true, true);
    assert!(password_cleared);
    assert!(secret_key_cleared);
    assert_eq!(password.as_bytes(), &[0u8; 8]);
    assert_eq!(secret_key.as_bytes(), &[0u8; 6]);

    let mut password = Password::from_owned(b"P@ssw0rd".to_vec());
    let mut secret_key = SecretKey::from_owned(b"secret".to_vec());
    let (password_cleared, secret_key_cleared) =
        apply_clearing(&mut password, &mut secret_key, false, false);
    assert!(!password_cleared);
    assert!(!secret_key_cleared);
    assert_eq!(password.as_bytes(), b"P@ssw0rd");
    assert_eq!(secret_key.as_bytes(), b"secret");
}

#[test]
fn test_dropped_handle_leaves_inputs_intact() {
    // A non-blocking caller may abandon its handle before completion.
    // The descriptor owns independent copies of every input buffer, so
    // the in-flight work keeps its own bytes alive and the caller's
    // inputs stay untouched and readable throughout.
    let config = HasherConfigBuilder::new()
        .fast_but_insecure()
        .configure_password_clearing(false)
        .configure_secret_key_clearing(false)
        .build()
        .unwrap();
    let password = Password::from_borrowed(b"P@ssw0rd");
    let salt = Salt::from_borrowed(b"somesalt");
    let secret_key = SecretKey::from_borrowed(b"secret");
    let additional_data = AdditionalData::empty();
    let descriptor =
        prepare_hash(&password, &salt, None, &secret_key, &additional_data, &config).unwrap();
    let pool = futures::executor::ThreadPool::new().unwrap();
    let (tx, rx) = futures::channel::oneshot::channel::<String>();
    let (done_tx, done_rx) = futures::channel::oneshot::channel::<()>();
    pool.spawn_ok(async move {
        let encoded = finalize_hash_encoded(&descriptor, vec![9u8; 32]);
        // The receiver may already be gone; the result is discarded
        // safely.
        let _ = tx.send(encoded);
        let _ = done_tx.send(());
    });
    drop(rx);
    let _ = futures::executor::block_on(done_rx);
    assert_eq!(password.as_bytes(), b"P@ssw0rd");
    assert_eq!(secret_key.as_bytes(), b"secret");
    assert_eq!(salt.fixed_bytes().unwrap(), b"somesalt");
}
