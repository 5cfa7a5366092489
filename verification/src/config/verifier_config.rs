//! Read-only configuration for a verification operation.

use vstd::prelude::*;

use crate::config::Backend;

verus! {

/// The `futures` crate's thread pool, carried opaquely: the library only
/// stores a handle and hands clones of it out; spawning work on it is
/// the surrounding runtime's business.
#[verifier::external_type_specification]
#[verifier::external_body]
pub struct ExThreadPool(futures::executor::ThreadPool);

/// Relies on `<futures::executor::ThreadPool as Clone>::clone`: it
/// creates a new reference to the same pool. Nothing further is assumed
/// of the handle.
#[verifier::external_body]
fn clone_thread_pool(pool: &futures::executor::ThreadPool) -> futures::executor::ThreadPool {
    pool.clone()
}

/// Read-only configuration for a verification operation. The algorithm
/// parameters (variant, version, memory, iterations, lanes) are absent
/// here: a verifier derives them from the decoded hash string rather
/// than from caller input.
#[derive(Debug)]
pub struct VerifierConfig {
    pub(crate) backend: Backend,
    pub(crate) thread_pool: Option<futures::executor::ThreadPool>,
    pub(crate) password_clearing: bool,
    pub(crate) secret_key_clearing: bool,
    pub(crate) threads: u32,
}

impl VerifierConfig {
    /// The configured backend, for use in specifications.
    pub closed spec fn spec_backend(&self) -> Backend {
        self.backend
    }

    /// Whether a thread pool is attached, for use in specifications.
    pub closed spec fn spec_has_thread_pool(&self) -> bool {
        self.thread_pool is Some
    }

    /// The password-clearing flag, for use in specifications.
    pub closed spec fn spec_password_clearing(&self) -> bool {
        self.password_clearing
    }

    /// The secret-key-clearing flag, for use in specifications.
    pub closed spec fn spec_secret_key_clearing(&self) -> bool {
        self.secret_key_clearing
    }

    /// The thread count, for use in specifications.
    pub closed spec fn spec_threads(&self) -> u32 {
        self.threads
    }

    /// Assembles a verifier configuration from its parts.
    pub fn new(
        backend: Backend,
        thread_pool: Option<futures::executor::ThreadPool>,
        password_clearing: bool,
        secret_key_clearing: bool,
        threads: u32,
    ) -> (c: VerifierConfig)
        ensures
            c.spec_backend() == backend,
            c.spec_has_thread_pool() == (thread_pool is Some),
            c.spec_password_clearing() == password_clearing,
            c.spec_secret_key_clearing() == secret_key_clearing,
            c.spec_threads() == threads,
    {
        VerifierConfig { backend, thread_pool, password_clearing, secret_key_clearing, threads }
    }

    /// The configured backend.
    pub fn backend(&self) -> (b: Backend)
        ensures
            b == self.spec_backend(),
    {
        self.backend
    }

    /// A new handle to the attached thread pool, where one is attached.
    pub fn thread_pool(&self) -> (p: Option<futures::executor::ThreadPool>)
        ensures
            (p is Some) == self.spec_has_thread_pool(),
    {
        match &self.thread_pool {
            Some(pool) => Some(clone_thread_pool(pool)),
            None => None,
        }
    }

    /// Whether the password buffer is zeroed after the operation.
    pub fn password_clearing(&self) -> (r: bool)
        ensures
            r == self.spec_password_clearing(),
    {
        self.password_clearing
    }

    /// Whether the secret-key buffer is zeroed after the operation.
    pub fn secret_key_clearing(&self) -> (r: bool)
        ensures
            r == self.spec_secret_key_clearing(),
    {
        self.secret_key_clearing
    }

    /// The configured thread count.
    pub fn threads(&self) -> (t: u32)
        ensures
            t == self.spec_threads(),
    {
        self.threads
    }
}

} // verus!
