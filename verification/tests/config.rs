//! Tests of the configuration records: builder defaults, cross-field
//! validation, and the verifier configuration's accessors and marker
//! traits.

use argonautica::config::verifier_config::VerifierConfig;
use argonautica::config::{
    Backend, HasherConfigBuilder, Variant, Version, DEFAULT_HASH_LEN, DEFAULT_ITERATIONS,
    DEFAULT_LANES, DEFAULT_MEMORY_SIZE, DEFAULT_THREADS,
};
use argonautica::error::ErrorKind;

fn assert_send<T: Send>() {}

fn assert_sync<T: Sync>() {}

#[test]
fn test_send() {
    assert_send::<VerifierConfig>();
}

#[test]
fn test_sync() {
    assert_sync::<VerifierConfig>();
}

#[test]
fn test_builder_defaults() {
    let config = HasherConfigBuilder::new().build().unwrap();
    assert_eq!(config.variant, Variant::Argon2id);
    assert_eq!(config.version, Version::_0x13);
    assert_eq!(config.backend, Backend::C);
    assert_eq!(config.memory_size, DEFAULT_MEMORY_SIZE);
    assert_eq!(config.iterations, DEFAULT_ITERATIONS);
    assert_eq!(config.lanes, DEFAULT_LANES);
    assert_eq!(config.hash_len, DEFAULT_HASH_LEN);
    assert_eq!(config.threads, DEFAULT_THREADS);
    assert!(config.password_clearing);
    assert!(config.secret_key_clearing);
}

#[test]
fn test_builder_rejections() {
    let cases = [
        HasherConfigBuilder::new().configure_iterations(0),
        HasherConfigBuilder::new().configure_lanes(0),
        HasherConfigBuilder::new().configure_lanes(0x1000000),
        HasherConfigBuilder::new().configure_memory_size(100),
        HasherConfigBuilder::new().configure_lanes(2).configure_memory_size(8),
        HasherConfigBuilder::new().configure_hash_len(3),
        HasherConfigBuilder::new().configure_threads(0),
    ];
    for builder in cases.iter() {
        let err = builder.build().unwrap_err();
        assert_eq!(err.kind(), ErrorKind::ConfigurationError);
    }
}

#[test]
fn test_builder_choices_kept() {
    let config = HasherConfigBuilder::new()
        .configure_variant(Variant::Argon2d)
        .configure_version(Version::_0x10)
        .configure_backend(Backend::Rust)
        .configure_memory_size(128)
        .configure_iterations(7)
        .configure_lanes(2)
        .configure_hash_len(16)
        .configure_threads(4)
        .configure_password_clearing(false)
        .configure_secret_key_clearing(false)
        .build()
        .unwrap();
    assert_eq!(config.variant, Variant::Argon2d);
    assert_eq!(config.version, Version::_0x10);
    assert_eq!(config.backend, Backend::Rust);
    assert_eq!(config.memory_size, 128);
    assert_eq!(config.iterations, 7);
    assert_eq!(config.lanes, 2);
    assert_eq!(config.hash_len, 16);
    // A thread count above the lane count is accepted; only `lanes`
    // threads are ever used concurrently.
    assert_eq!(config.threads, 4);
    assert!(!config.password_clearing);
    assert!(!config.secret_key_clearing);
}

#[test]
fn test_fast_but_insecure_preset() {
    // The insecure preset is a deliberate, separately named choice and
    // clearly lowers the secure defaults.
    let config = HasherConfigBuilder::new().fast_but_insecure().build().unwrap();
    assert!(config.memory_size < DEFAULT_MEMORY_SIZE);
    assert!(config.iterations < DEFAULT_ITERATIONS);
    assert_eq!(config.memory_size, 8);
    assert_eq!(config.iterations, 1);
}

#[test]
fn test_verifier_config_accessors() {
    let config = VerifierConfig::new(Backend::Rust, None, true, false, 3);
    assert_eq!(config.backend(), Backend::Rust);
    assert!(config.thread_pool().is_none());
    assert!(config.password_clearing());
    assert!(!config.secret_key_clearing());
    assert_eq!(config.threads(), 3);
}

#[test]
fn test_verifier_config_thread_pool() {
    let pool = futures::executor::ThreadPool::new().unwrap();
    let config = VerifierConfig::new(Backend::C, Some(pool), false, false, 1);
    assert!(config.thread_pool().is_some());
}

#[test]
fn test_variant_and_version_tokens() {
    assert_eq!(Variant::Argon2d.as_str(), "argon2d");
    assert_eq!(Variant::Argon2i.as_str(), "argon2i");
    assert_eq!(Variant::Argon2id.as_str(), "argon2id");
    assert_eq!(Version::_0x10.as_u32(), 16);
    assert_eq!(Version::_0x13.as_u32(), 19);
}
