//! A password-hashing library built around the Argon2 key-derivation
//! function.
//!
//! The crate covers the layer that surrounds the raw Argon2 memory-filling
//! computation: ownership-aware containers for sensitive byte buffers, typed
//! inputs with their validation rules, validated hasher and verifier
//! configurations, the PHC-style textual hash codec, and the pure steps of
//! the hash/verify pipeline. The compute engine itself is an external
//! collaborator: callers hand its raw output to the pipeline's finalize
//! steps.

pub mod b64;
pub mod codec;
pub mod config;
pub mod error;
pub mod execute;
pub mod input;
