//! Algorithm parameters and the validated, read-only configuration
//! records for hashing and verifying, together with their documented
//! defaults.

pub mod verifier_config;

use vstd::prelude::*;

use crate::error::{Error, ErrorKind};

verus! {

/// The Argon2 sub-algorithm: data-dependent (`d`), data-independent
/// (`i`), or the hybrid of the two (`id`).
#[derive(Clone, Copy, Debug, PartialEq, Eq, Structural, Hash)]
pub enum Variant {
    Argon2d,
    Argon2i,
    Argon2id,
}

/// The Argon2 wire version: the legacy `0x10` or the current `0x13`.
#[derive(Clone, Copy, Debug, PartialEq, Eq, Structural, Hash)]
pub enum Version {
    _0x10,
    _0x13,
}

/// Which compute engine an operation is dispatched to: the native
/// reference engine, or the self-contained one written in Rust. Both
/// satisfy the same call signature; the core never branches on engine
/// identity anywhere else.
#[derive(Clone, Copy, Debug, PartialEq, Eq, Structural, Hash)]
pub enum Backend {
    C,
    Rust,
}

impl Variant {
    /// The token that names this variant in an encoded hash string.
    pub fn as_str(&self) -> (s: &'static str)
        ensures
            self is Argon2d ==> s@ == "argon2d"@,
            self is Argon2i ==> s@ == "argon2i"@,
            self is Argon2id ==> s@ == "argon2id"@,
    {
        match self {
            Variant::Argon2d => "argon2d",
            Variant::Argon2i => "argon2i",
            Variant::Argon2id => "argon2id",
        }
    }
}

impl Version {
    /// The decimal number that names this version in an encoded hash
    /// string: 16 for `0x10`, 19 for `0x13`.
    pub fn as_u32(&self) -> (n: u32)
        ensures
            self is _0x10 ==> n == 16,
            self is _0x13 ==> n == 19,
    {
        match self {
            Version::_0x10 => 16,
            Version::_0x13 => 19,
        }
    }
}

/// Default variant: the hybrid `argon2id`.
pub const DEFAULT_VARIANT: Variant = Variant::Argon2id;

/// Default version: the current `0x13`.
pub const DEFAULT_VERSION: Version = Version::_0x13;

/// Default backend: the native reference engine.
pub const DEFAULT_BACKEND: Backend = Backend::C;

/// Default desired length of the derived hash, in bytes.
pub const DEFAULT_HASH_LEN: u32 = 32;

/// Default number of iterations (passes over memory).
pub const DEFAULT_ITERATIONS: u32 = 192;

/// Default number of lanes of intra-hash parallelism.
pub const DEFAULT_LANES: u32 = 1;

/// Default working-memory budget, in KiB.
pub const DEFAULT_MEMORY_SIZE: u32 = 4096;

/// Default length of a randomly generated salt, in bytes.
pub const DEFAULT_SALT_LEN: u32 = 32;

/// Default number of execution threads.
pub const DEFAULT_THREADS: u32 = 1;

/// The practical ceiling on the lane count.
pub const MAX_LANES: u32 = 0xffffff;

/// Each lane needs at least this many KiB of working memory.
pub const MIN_MEMORY_PER_LANE: u32 = 8;

/// The minimum desired hash length, in bytes.
pub const MIN_HASH_LEN: u32 = 4;

/// Whether `n` is a power of two.
pub open spec fn is_power_of_two(n: int) -> bool
    decreases n,
{
    if n <= 0 {
        false
    } else if n == 1 {
        true
    } else {
        n % 2 == 0 && is_power_of_two(n / 2)
    }
}

/// Checks whether `n` is a power of two by stripping factors of two.
pub fn check_power_of_two(n: u32) -> (r: bool)
    ensures
        r == is_power_of_two(n as int),
{
    if n == 0 {
        return false;
    }
    let mut m: u32 = n;
    while m % 2 == 0
        invariant
            1 <= m <= n,
            is_power_of_two(n as int) == is_power_of_two(m as int),
        decreases m,
    {
        m = m / 2;
    }
    m == 1
}

/// Read-only configuration for a hashing operation, produced and
/// validated by [`HasherConfigBuilder`] and never mutated afterwards.
#[derive(Clone, Copy, Debug, PartialEq, Eq, Structural)]
pub struct HasherConfig {
    pub variant: Variant,
    pub version: Version,
    pub backend: Backend,
    /// Working memory in KiB: a power of two, at least 8 KiB per lane.
    pub memory_size: u32,
    /// Number of passes over memory: at least one.
    pub iterations: u32,
    /// Lanes of intra-hash parallelism: at least one, at most
    /// [`MAX_LANES`].
    pub lanes: u32,
    /// Desired length of the derived hash in bytes: at least
    /// [`MIN_HASH_LEN`].
    pub hash_len: u32,
    /// Zero the password buffer after the operation, where it is
    /// mutable.
    pub password_clearing: bool,
    /// Zero the secret-key buffer after the operation; demands a mutable
    /// secret key.
    pub secret_key_clearing: bool,
    /// Execution threads: at least one. A count above `lanes` is
    /// accepted, but only `lanes` threads are ever used concurrently.
    pub threads: u32,
}

impl HasherConfig {
    /// The cross-field validity rules a configuration must satisfy
    /// before any work is dispatched.
    pub open spec fn spec_valid(&self) -> bool {
        &&& self.iterations >= 1
        &&& 1 <= self.lanes <= MAX_LANES
        &&& is_power_of_two(self.memory_size as int)
        &&& self.memory_size >= MIN_MEMORY_PER_LANE * self.lanes
        &&& self.hash_len >= MIN_HASH_LEN
        &&& self.threads >= 1
    }
}

/// Accumulates configuration choices and produces a validated
/// [`HasherConfig`]. Every option has a documented default; `build`
/// performs one cross-field validation pass and never clamps a value
/// silently.
#[derive(Clone, Copy, Debug)]
pub struct HasherConfigBuilder {
    cfg: HasherConfig,
}

impl HasherConfigBuilder {
    /// The configuration as accumulated so far, before validation.
    pub closed spec fn spec_config(&self) -> HasherConfig {
        self.cfg
    }

    /// A builder holding the secure defaults.
    pub fn new() -> (b: HasherConfigBuilder)
        ensures
            b.spec_config() == (HasherConfig {
                variant: DEFAULT_VARIANT,
                version: DEFAULT_VERSION,
                backend: DEFAULT_BACKEND,
                memory_size: DEFAULT_MEMORY_SIZE,
                iterations: DEFAULT_ITERATIONS,
                lanes: DEFAULT_LANES,
                hash_len: DEFAULT_HASH_LEN,
                password_clearing: true,
                secret_key_clearing: true,
                threads: DEFAULT_THREADS,
            }),
    {
        HasherConfigBuilder {
            cfg: HasherConfig {
                variant: DEFAULT_VARIANT,
                version: DEFAULT_VERSION,
                backend: DEFAULT_BACKEND,
                memory_size: DEFAULT_MEMORY_SIZE,
                iterations: DEFAULT_ITERATIONS,
                lanes: DEFAULT_LANES,
                hash_len: DEFAULT_HASH_LEN,
                password_clearing: true,
                secret_key_clearing: true,
                threads: DEFAULT_THREADS,
            },
        }
    }

    /// An explicitly insecure preset for demonstrations and tests: the
    /// smallest legal memory budget and a single iteration. It is never
    /// the implicit default; selecting it must be this deliberate call.
    pub fn fast_but_insecure(self) -> (b: HasherConfigBuilder)
        ensures
            b.spec_config() == (HasherConfig {
                memory_size: MIN_MEMORY_PER_LANE,
                iterations: 1,
                lanes: 1,
                threads: 1,
                ..self.spec_config()
            }),
    {
        HasherConfigBuilder {
            cfg: HasherConfig { memory_size: MIN_MEMORY_PER_LANE, iterations: 1, lanes: 1, threads: 1, ..self.cfg },
        }
    }

    /// Chooses the Argon2 variant.
    pub fn configure_variant(self, variant: Variant) -> (b: HasherConfigBuilder)
        ensures
            b.spec_config() == (HasherConfig { variant, ..self.spec_config() }),
    {
        HasherConfigBuilder { cfg: HasherConfig { variant, ..self.cfg } }
    }

    /// Chooses the Argon2 wire version.
    pub fn configure_version(self, version: Version) -> (b: HasherConfigBuilder)
        ensures
            b.spec_config() == (HasherConfig { version, ..self.spec_config() }),
    {
        HasherConfigBuilder { cfg: HasherConfig { version, ..self.cfg } }
    }

    /// Chooses the compute engine.
    pub fn configure_backend(self, backend: Backend) -> (b: HasherConfigBuilder)
        ensures
            b.spec_config() == (HasherConfig { backend, ..self.spec_config() }),
    {
        HasherConfigBuilder { cfg: HasherConfig { backend, ..self.cfg } }
    }

    /// Chooses the working-memory budget in KiB.
    pub fn configure_memory_size(self, memory_size: u32) -> (b: HasherConfigBuilder)
        ensures
            b.spec_config() == (HasherConfig { memory_size, ..self.spec_config() }),
    {
        HasherConfigBuilder { cfg: HasherConfig { memory_size, ..self.cfg } }
    }

    /// Chooses the number of passes over memory.
    pub fn configure_iterations(self, iterations: u32) -> (b: HasherConfigBuilder)
        ensures
            b.spec_config() == (HasherConfig { iterations, ..self.spec_config() }),
    {
        HasherConfigBuilder { cfg: HasherConfig { iterations, ..self.cfg } }
    }

    /// Chooses the lane count.
    pub fn configure_lanes(self, lanes: u32) -> (b: HasherConfigBuilder)
        ensures
            b.spec_config() == (HasherConfig { lanes, ..self.spec_config() }),
    {
        HasherConfigBuilder { cfg: HasherConfig { lanes, ..self.cfg } }
    }

    /// Chooses the desired hash length in bytes.
    pub fn configure_hash_len(self, hash_len: u32) -> (b: HasherConfigBuilder)
        ensures
            b.spec_config() == (HasherConfig { hash_len, ..self.spec_config() }),
    {
        HasherConfigBuilder { cfg: HasherConfig { hash_len, ..self.cfg } }
    }

    /// Chooses whether the password buffer is zeroed after the
    /// operation.
    pub fn configure_password_clearing(self, password_clearing: bool) -> (b: HasherConfigBuilder)
        ensures
            b.spec_config() == (HasherConfig { password_clearing, ..self.spec_config() }),
    {
        HasherConfigBuilder { cfg: HasherConfig { password_clearing, ..self.cfg } }
    }

    /// Chooses whether the secret-key buffer is zeroed after the
    /// operation.
    pub fn configure_secret_key_clearing(self, secret_key_clearing: bool) -> (b:
        HasherConfigBuilder)
        ensures
            b.spec_config() == (HasherConfig { secret_key_clearing, ..self.spec_config() }),
    {
        HasherConfigBuilder { cfg: HasherConfig { secret_key_clearing, ..self.cfg } }
    }

    /// Chooses the thread count.
    pub fn configure_threads(self, threads: u32) -> (b: HasherConfigBuilder)
        ensures
            b.spec_config() == (HasherConfig { threads, ..self.spec_config() }),
    {
        HasherConfigBuilder { cfg: HasherConfig { threads, ..self.cfg } }
    }

    /// One validation pass over the accumulated choices: returns the
    /// immutable configuration exactly when every cross-field rule
    /// holds, and otherwise an error naming the offending field. Nothing
    /// is ever clamped silently.
    pub fn build(self) -> (r: Result<HasherConfig, Error>)
        ensures
            r is Ok <==> self.spec_config().spec_valid(),
            r matches Ok(c) ==> c == self.spec_config(),
            r matches Err(e) ==> e.spec_kind() == ErrorKind::ConfigurationError,
    {
        validate_hasher_config(&self.cfg)?;
        Ok(self.cfg)
    }
}

/// The cross-field validation pass over a hasher configuration:
/// succeeds exactly when every rule of
/// [`HasherConfig::spec_valid`] holds, and otherwise returns a
/// configuration error naming the offending field.
pub fn validate_hasher_config(cfg: &HasherConfig) -> (r: Result<(), Error>)
    ensures
        r is Ok <==> cfg.spec_valid(),
        r matches Err(e) ==> e.spec_kind() == ErrorKind::ConfigurationError,
{
    if cfg.iterations < 1 {
        return Err(
            Error::new(ErrorKind::ConfigurationError).add_context(
                "iterations must be at least 1".to_owned(),
            ),
        );
    }
    if cfg.lanes < 1 || cfg.lanes > MAX_LANES {
        return Err(
            Error::new(ErrorKind::ConfigurationError).add_context(
                "lanes must be between 1 and the lane ceiling".to_owned(),
            ),
        );
    }
    if !check_power_of_two(cfg.memory_size) {
        return Err(
            Error::new(ErrorKind::ConfigurationError).add_context(
                "memory size must be a power of two".to_owned(),
            ),
        );
    }
    if cfg.memory_size < MIN_MEMORY_PER_LANE * cfg.lanes {
        return Err(
            Error::new(ErrorKind::ConfigurationError).add_context(
                "memory size must allow at least 8 KiB per lane".to_owned(),
            ),
        );
    }
    if cfg.hash_len < MIN_HASH_LEN {
        return Err(
            Error::new(ErrorKind::ConfigurationError).add_context(
                "hash length must be at least 4 bytes".to_owned(),
            ),
        );
    }
    if cfg.threads < 1 {
        return Err(
            Error::new(ErrorKind::ConfigurationError).add_context(
                "thread count must be at least 1".to_owned(),
            ),
        );
    }
    Ok(())
}

} // verus!
