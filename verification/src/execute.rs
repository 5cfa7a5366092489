//! The pure steps of the hash/verify pipeline.
//!
//! One operation runs validate, resolve, dispatch, finalize and clear,
//! strictly in that order. The dispatch step — the Argon2 memory-filling
//! computation itself — is the external compute engine's work and is
//! potentially long-running; everything around it is here, as functions
//! from plain values to plain values. The caller (or the surrounding
//! runtime, for the non-blocking call shape) performs the engine call
//! described by a [`ComputeDescriptor`] and hands the raw output to a
//! finalize step. Both the blocking and the non-blocking call shapes run
//! these same functions verbatim, so their results coincide byte for
//! byte; see [`lemma_call_shapes_agree`].

use vstd::prelude::*;
use vstd::string::StringSliceAdditionalSpecFns;
use vstd::utf8::{encode_utf8, encode_utf8_decode_utf8};

use crate::b64::b64_nopad_bytes;
use crate::codec::{decode_rust, encode_rust, spec_encoded, spec_parse, HashRaw, HashRawView};
use crate::config::{validate_hasher_config, Backend, HasherConfig, Variant, Version};
use crate::config::verifier_config::VerifierConfig;
use crate::error::{Error, ErrorKind};
use crate::input::container::zeroed;
use crate::input::{AdditionalData, Password, Salt, SecretKey};

verus! {

/// A fully validated operation, ready for the compute engine: the
/// resolved algorithm parameters together with owned copies of every
/// input byte buffer. Owning the copies keeps the inputs of an
/// in-flight operation alive for its whole duration, whatever the
/// caller does with the originals in the meantime.
#[derive(PartialEq, Eq)]
pub struct ComputeDescriptor {
    pub variant: Variant,
    pub version: Version,
    pub backend: Backend,
    pub memory_size: u32,
    pub iterations: u32,
    pub lanes: u32,
    pub threads: u32,
    /// The number of raw bytes the engine must derive.
    pub hash_len: u32,
    pub password: Vec<u8>,
    pub salt: Vec<u8>,
    pub secret_key: Vec<u8>,
    pub additional_data: Vec<u8>,
}

impl ComputeDescriptor {
    /// The record that the hash path's finalize step builds from this
    /// descriptor and the engine's raw output.
    pub open spec fn spec_result_record(&self, out: Seq<u8>) -> HashRawView {
        HashRawView {
            variant: self.variant,
            version: self.version,
            memory_size: self.memory_size,
            iterations: self.iterations,
            lanes: self.lanes,
            salt: self.salt@,
            hash: out,
        }
    }
}

/// When a hash operation's inputs pass the validate step: every input
/// obeys its own length rules, each requested clearing has a mutable
/// buffer to act on, a random salt comes with exactly the fresh bytes
/// it asked for, and the configuration obeys its cross-field rules.
pub open spec fn spec_hash_inputs_valid(
    password: &Password,
    salt: &Salt,
    fresh: &Option<Vec<u8>>,
    secret_key: &SecretKey,
    additional_data: &AdditionalData,
    config: &HasherConfig,
) -> bool {
    &&& password.spec_valid()
    &&& salt.spec_valid()
    &&& secret_key.spec_valid()
    &&& additional_data.spec_valid()
    &&& (config.secret_key_clearing ==> secret_key.spec_is_mutable())
    &&& (config.password_clearing ==> password.spec_is_mutable())
    &&& (salt.spec_is_random() ==> (fresh matches Some(v) && v@.len() == salt.spec_len()))
    &&& config.spec_valid()
}

/// The salt bytes an operation uses: the fixed bytes, or the freshly
/// drawn ones for a random salt.
pub open spec fn spec_resolved_salt(salt: &Salt, fresh: &Option<Vec<u8>>) -> Seq<u8> {
    match salt {
        Salt::Fixed(c) => c@,
        Salt::Random(_) => match fresh {
            Some(v) => v@,
            None => Seq::<u8>::empty(),
        },
    }
}

/// The validate and resolve steps of the hash path, run before any
/// compute work is dispatched (so invalid input never occupies an
/// engine or a pool thread).
///
/// Inputs are checked in a fixed order — password, salt, secret key,
/// additional data, the two clearing rules, the fresh-salt rule, then
/// the configuration — and the first violation is returned. For a
/// random salt the caller passes the freshly drawn bytes in `fresh`;
/// for a fixed salt `fresh` is ignored.
pub fn prepare_hash(
    password: &Password,
    salt: &Salt,
    fresh: Option<Vec<u8>>,
    secret_key: &SecretKey,
    additional_data: &AdditionalData,
    config: &HasherConfig,
) -> (r: Result<ComputeDescriptor, Error>)
    ensures
        r is Ok <==> spec_hash_inputs_valid(password, salt, &fresh, secret_key, additional_data, config),
        r matches Ok(d) ==> d.variant == config.variant && d.version == config.version
            && d.backend == config.backend && d.memory_size == config.memory_size && d.iterations
            == config.iterations && d.lanes == config.lanes && d.threads == config.threads
            && d.hash_len == config.hash_len && d.password@ == password@ && d.salt@
            == spec_resolved_salt(salt, &fresh) && d.secret_key@ == secret_key@
            && d.additional_data@ == additional_data@,
        password@.len() == 0 ==> (r matches Err(e) && e.spec_kind()
            == ErrorKind::PasswordTooShortError),
        (password.spec_valid() && salt.spec_valid() && secret_key.spec_valid()
            && additional_data.spec_valid() && config.secret_key_clearing
            && !secret_key.spec_is_mutable()) ==> (r matches Err(e) && e.spec_kind()
            == ErrorKind::SecretKeyImmutableError && e.spec_context()
            == "clearing requested on an immutably borrowed secret key"@),
        (password.spec_valid() && salt.spec_valid() && secret_key.spec_valid()
            && additional_data.spec_valid() && (config.secret_key_clearing
            ==> secret_key.spec_is_mutable()) && config.password_clearing
            && !password.spec_is_mutable()) ==> (r matches Err(e) && e.spec_kind()
            == ErrorKind::PasswordImmutableError && e.spec_context()
            == "clearing requested on an immutably borrowed password"@),
{
    password.validate()?;
    salt.validate()?;
    secret_key.validate()?;
    additional_data.validate()?;
    if config.secret_key_clearing && !secret_key.is_mutable() {
        return Err(
            Error::new(ErrorKind::SecretKeyImmutableError).add_context(
                "clearing requested on an immutably borrowed secret key".to_owned(),
            ),
        );
    }
    if config.password_clearing && !password.is_mutable() {
        return Err(
            Error::new(ErrorKind::PasswordImmutableError).add_context(
                "clearing requested on an immutably borrowed password".to_owned(),
            ),
        );
    }
    let salt_bytes: Vec<u8> = match salt {
        Salt::Fixed(c) => crate::codec::copy_range(c.as_bytes(), 0, c.len()),
        Salt::Random(n) => {
            match fresh {
                Some(v) => {
                    if v.len() != *n as usize {
                        return Err(
                            Error::new(ErrorKind::ConfigurationError).add_context(
                                "a random salt needs exactly the drawn bytes it asked for".to_owned(),
                            ),
                        );
                    }
                    v
                },
                None => {
                    return Err(
                        Error::new(ErrorKind::ConfigurationError).add_context(
                            "a random salt needs fresh bytes drawn before the operation".to_owned(),
                        ),
                    );
                },
            }
        },
    };
    validate_hasher_config(config)?;
    proof {
        assert(salt_bytes@ == spec_resolved_salt(salt, &fresh));
    }
    Ok(
        ComputeDescriptor {
            variant: config.variant,
            version: config.version,
            backend: config.backend,
            memory_size: config.memory_size,
            iterations: config.iterations,
            lanes: config.lanes,
            threads: config.threads,
            hash_len: config.hash_len,
            password: crate::codec::copy_range(password.as_bytes(), 0, password.len()),
            salt: salt_bytes,
            secret_key: crate::codec::copy_range(secret_key.as_bytes(), 0, secret_key.len()),
            additional_data: crate::codec::copy_range(
                additional_data.as_bytes(),
                0,
                additional_data.len(),
            ),
        },
    )
}

/// The hash path's finalize step for the raw output form: wraps the
/// engine's raw output and the operation's parameters as a decoded
/// hash record.
pub fn finalize_hash_raw(descriptor: &ComputeDescriptor, output: Vec<u8>) -> (h: HashRaw)
    ensures
        h@ == descriptor.spec_result_record(output@),
{
    let salt_copy = crate::codec::copy_range(descriptor.salt.as_slice(), 0, descriptor.salt.len());
    proof {
        assert(salt_copy@ =~= descriptor.salt@);
    }
    HashRaw::new(
        descriptor.variant,
        descriptor.version,
        descriptor.memory_size,
        descriptor.iterations,
        descriptor.lanes,
        salt_copy,
        output,
    )
}

/// The hash path's finalize step for the encoded output form: wraps
/// the engine's raw output as a record and encodes it canonically.
pub fn finalize_hash_encoded(descriptor: &ComputeDescriptor, output: Vec<u8>) -> (r: String)
    ensures
        encode_utf8(r@) == spec_encoded(descriptor.spec_result_record(output@)),
{
    let h = finalize_hash_raw(descriptor, output);
    encode_rust(&h)
}

/// Both call shapes — blocking and non-blocking — finalize through
/// [`finalize_hash_encoded`], whose result is pinned to a function of
/// the descriptor and the engine output alone. So two calls over the
/// same descriptor and the same engine output return byte-identical
/// encoded strings, wherever each of them ran. Note that
/// [`ComputeDescriptor::spec_result_record`] mentions neither the
/// thread count, the backend, nor any thread pool: those choose where
/// the work runs, never what comes out.
pub proof fn lemma_call_shapes_agree(
    descriptor: &ComputeDescriptor,
    out1: Seq<u8>,
    out2: Seq<u8>,
    r1: String,
    r2: String,
)
    requires
        encode_utf8(r1@) == spec_encoded(descriptor.spec_result_record(out1)),
        encode_utf8(r2@) == spec_encoded(descriptor.spec_result_record(out2)),
        out1 == out2,
    ensures
        r1@ == r2@,
{
    encode_utf8_decode_utf8(r1@);
    encode_utf8_decode_utf8(r2@);
}

/// The verify path's validate and resolve steps: decode the encoded
/// hash first, then validate the supplied inputs, and assemble the
/// compute descriptor from the decoded parameters — variant, version,
/// memory, iterations and lanes all come from the hash string,
/// overriding any caller-supplied equivalents; the backend, thread
/// count and clearing flags come from the verifier configuration.
pub fn prepare_verify(
    encoded: &str,
    password: &Password,
    secret_key: &SecretKey,
    additional_data: &AdditionalData,
    config: &VerifierConfig,
) -> (r: Result<(HashRaw, ComputeDescriptor), Error>)
    ensures
        r matches Ok((h, d)) ==> (spec_parse(encoded.spec_bytes()) matches Some(f) && h@.variant
            == f.variant && h@.version == f.version && h@.memory_size == f.memory_size
            && h@.iterations == f.iterations && h@.lanes == f.lanes && f.salt_b64
            == b64_nopad_bytes(h@.salt) && f.hash_b64 == b64_nopad_bytes(h@.hash)),
        r matches Ok((h, d)) ==> d.variant == h@.variant && d.version == h@.version
            && d.memory_size == h@.memory_size && d.iterations == h@.iterations && d.lanes
            == h@.lanes && d.salt@ == h@.salt && d.hash_len as nat == h@.hash.len() && d.backend
            == config.spec_backend() && d.threads == config.spec_threads() && d.password@
            == password@ && d.secret_key@ == secret_key@ && d.additional_data@
            == additional_data@,
        r is Ok <==> (crate::codec::spec_decodable(encoded.spec_bytes())
            && spec_verify_inputs_valid(encoded.spec_bytes(), password, secret_key,
        additional_data, config)),
        (password.spec_valid() && secret_key.spec_valid() && additional_data.spec_valid()
            && config.spec_secret_key_clearing() && !secret_key.spec_is_mutable()
            && crate::codec::spec_decodable(encoded.spec_bytes())) ==> (r matches Err(e)
            && e.spec_kind() == ErrorKind::SecretKeyImmutableError && e.spec_context()
            == "clearing requested on an immutably borrowed secret key"@),
        (password.spec_valid() && secret_key.spec_valid() && additional_data.spec_valid()
            && (config.spec_secret_key_clearing() ==> secret_key.spec_is_mutable())
            && config.spec_password_clearing() && !password.spec_is_mutable()
            && crate::codec::spec_decodable(encoded.spec_bytes())) ==> (r matches Err(e)
            && e.spec_kind() == ErrorKind::PasswordImmutableError && e.spec_context()
            == "clearing requested on an immutably borrowed password"@),
{
    let decoded = decode_rust(encoded)?;
    password.validate()?;
    secret_key.validate()?;
    additional_data.validate()?;
    if config.secret_key_clearing() && !secret_key.is_mutable() {
        return Err(
            Error::new(ErrorKind::SecretKeyImmutableError).add_context(
                "clearing requested on an immutably borrowed secret key".to_owned(),
            ),
        );
    }
    if config.password_clearing() && !password.is_mutable() {
        return Err(
            Error::new(ErrorKind::PasswordImmutableError).add_context(
                "clearing requested on an immutably borrowed password".to_owned(),
            ),
        );
    }
    if decoded.raw_hash_bytes().len() > u32::MAX as usize {
        return Err(Error::new(ErrorKind::HashDecodeError).add_context(encoded.to_owned()));
    }
    let descriptor = ComputeDescriptor {
        variant: decoded.variant(),
        version: decoded.version(),
        backend: config.backend(),
        memory_size: decoded.memory_size(),
        iterations: decoded.iterations(),
        lanes: decoded.lanes(),
        threads: config.threads(),
        hash_len: decoded.raw_hash_bytes().len() as u32,
        password: crate::codec::copy_range(password.as_bytes(), 0, password.len()),
        salt: crate::codec::copy_range(decoded.raw_salt_bytes(), 0, decoded.raw_salt_bytes().len()),
        secret_key: crate::codec::copy_range(secret_key.as_bytes(), 0, secret_key.len()),
        additional_data: crate::codec::copy_range(
            additional_data.as_bytes(),
            0,
            additional_data.len(),
        ),
    };
    Ok((decoded, descriptor))
}

/// When a verify operation's inputs pass the validate step (the
/// decoded hash aside): the supplied inputs obey their length rules,
/// each requested clearing has a mutable buffer to act on, and the
/// decoded hash's payload length is representable in 32 bits.
pub open spec fn spec_verify_inputs_valid(
    s: Seq<u8>,
    password: &Password,
    secret_key: &SecretKey,
    additional_data: &AdditionalData,
    config: &VerifierConfig,
) -> bool {
    &&& password.spec_valid()
    &&& secret_key.spec_valid()
    &&& additional_data.spec_valid()
    &&& (config.spec_secret_key_clearing() ==> secret_key.spec_is_mutable())
    &&& (config.spec_password_clearing() ==> password.spec_is_mutable())
    &&& (spec_parse(s) matches Some(f) ==> (forall|hb: Seq<u8>|
        f.hash_b64 == b64_nopad_bytes(hb) ==> hb.len() <= u32::MAX))
}

/// The verify path's comparison step: whether the recomputed bytes
/// equal the expected ones, in constant time.
///
/// The comparison inspects every byte pair whatever the outcome — it
/// accumulates the differences bitwise instead of exiting at the first
/// mismatch — so its running time does not depend on where a mismatch
/// occurs. A mismatch is a plain `false`, never an error.
pub fn verify_raw(expected: &[u8], computed: &[u8]) -> (r: bool)
    ensures
        r == (expected@ == computed@),
{
    if expected.len() != computed.len() {
        return false;
    }
    let mut acc: u8 = 0;
    let mut i: usize = 0;
    while i < expected.len()
        invariant
            i <= expected@.len(),
            expected@.len() == computed@.len(),
            (acc == 0) <==> (forall|j: int| 0 <= j < i ==> expected@[j] == computed@[j]),
        decreases expected@.len() - i,
    {
        let x = expected[i];
        let y = computed[i];
        let ghost old_acc = acc;
        acc = acc | (x ^ y);
        i = i + 1;
        proof {
            assert(((x ^ y) == 0) == (x == y)) by (bit_vector);
            assert(((old_acc | (x ^ y)) == 0) == (old_acc == 0 && (x ^ y) == 0)) by (bit_vector);
        }
    }
    if acc == 0 {
        proof {
            assert(expected@ =~= computed@);
        }
        true
    } else {
        false
    }
}

/// The clear step, last in the pipeline: zeroes each input whose
/// clearing flag is set and whose buffer is mutable, and leaves every
/// other input untouched. An immutable buffer with its flag set was
/// already rejected by the validate step; reaching it here clears
/// nothing and reports `false` for that input. Clearing is attempted
/// whether the operation succeeded or failed.
pub fn apply_clearing(
    password: &mut Password,
    secret_key: &mut SecretKey,
    password_clearing: bool,
    secret_key_clearing: bool,
) -> (cleared: (bool, bool))
    ensures
        !password_clearing ==> *final(password) == *old(password) && !cleared.0,
        !secret_key_clearing ==> *final(secret_key) == *old(secret_key) && !cleared.1,
        password_clearing && old(password).spec_is_mutable() ==> final(password)@ == zeroed(
            old(password)@.len(),
        ) && cleared.0,
        password_clearing && !old(password).spec_is_mutable() ==> *final(password) == *old(
            password,
        ) && !cleared.0,
        secret_key_clearing && old(secret_key).spec_is_mutable() ==> final(secret_key)@ == zeroed(
            old(secret_key)@.len(),
        ) && cleared.1,
        secret_key_clearing && !old(secret_key).spec_is_mutable() ==> *final(secret_key) == *old(
            secret_key,
        ) && !cleared.1,
{
    let password_cleared = if password_clearing {
        password.clear()
    } else {
        false
    };
    let secret_key_cleared = if secret_key_clearing {
        secret_key.clear()
    } else {
        false
    };
    (password_cleared, secret_key_cleared)
}

} // verus!
