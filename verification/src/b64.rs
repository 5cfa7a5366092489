//! The trusted boundary to the `base64` crate.
//!
//! The exact byte-for-byte output of base64 encoding is not restated here;
//! instead each encoding gets an uninterpreted name, and the trusted
//! wrappers below relate the crate's calls to those names. Decoding with
//! the engines used here succeeds exactly on canonical encodings (they
//! are configured to reject stray padding and nonzero trailing bits), so
//! the decode wrappers can promise that a successful decode returns the
//! unique preimage.

use vstd::prelude::*;

verus! {

/// The standard-alphabet, unpadded base64 encoding of `bytes`, as the
/// byte string `base64::engine::general_purpose::STANDARD_NO_PAD` emits.
pub uninterp spec fn b64_nopad_bytes(bytes: Seq<u8>) -> Seq<u8>;

/// The standard-alphabet, padded base64 encoding of `bytes`, as the
/// character string `base64::engine::general_purpose::STANDARD` emits.
pub uninterp spec fn b64_std_chars(bytes: Seq<u8>) -> Seq<char>;

/// What a decode against the unpadded standard encoding returns: it
/// succeeds exactly when the input is the canonical unpadded encoding of
/// some byte string, and then yields that byte string.
pub open spec fn nopad_decoding(input: Seq<u8>, r: Option<Vec<u8>>) -> bool {
    &&& (r matches Some(v) ==> input == b64_nopad_bytes(v@))
    &&& (forall|p: Seq<u8>| input == b64_nopad_bytes(p) ==> (r matches Some(v) && v@ == p))
}

/// What a decode against the padded standard encoding returns: it
/// succeeds exactly when the input is the canonical padded encoding of
/// some byte string, and then yields that byte string.
pub open spec fn std_decoding(input: Seq<char>, r: Option<Vec<u8>>) -> bool {
    &&& (r matches Some(v) ==> input == b64_std_chars(v@))
    &&& (forall|p: Seq<u8>| input == b64_std_chars(p) ==> (r matches Some(v) && v@ == p))
}

/// Whether `b` is a byte of the standard base64 alphabet:
/// `A`-`Z`, `a`-`z`, `0`-`9`, `+` or `/`.
pub open spec fn is_b64_byte(b: u8) -> bool {
    (0x41 <= b <= 0x5a) || (0x61 <= b <= 0x7a) || (0x30 <= b <= 0x39) || b == 0x2b || b == 0x2f
}

/// Relies on `base64::engine::Engine::encode` with the `STANDARD_NO_PAD`
/// engine: the output is a function of the input bytes alone and consists
/// only of standard-alphabet characters (no padding), which in particular
/// are ASCII and are neither `$` nor `,`.
#[verifier::external_body]
pub fn nopad_encode(bytes: &[u8]) -> (r: Vec<u8>)
    ensures
        r@ == b64_nopad_bytes(bytes@),
        forall|i: int| 0 <= i < r@.len() ==> is_b64_byte(#[trigger] r@[i]),
{
    base64::Engine::encode(&base64::engine::general_purpose::STANDARD_NO_PAD, bytes).into_bytes()
}

/// Relies on `base64::engine::Engine::decode` with the `STANDARD_NO_PAD`
/// engine. That engine is configured with `DecodePaddingMode::RequireNone`
/// and to reject nonzero trailing bits, so it succeeds exactly on the
/// canonical unpadded encoding of some byte string and then returns that
/// byte string.
#[verifier::external_body]
pub fn nopad_decode(bytes: &[u8]) -> (r: Option<Vec<u8>>)
    ensures
        nopad_decoding(bytes@, r),
{
    base64::Engine::decode(&base64::engine::general_purpose::STANDARD_NO_PAD, bytes).ok()
}

/// Relies on `base64::engine::Engine::encode` with the `STANDARD` engine:
/// the output is a function of the input bytes alone.
#[verifier::external_body]
pub fn std_encode(bytes: &[u8]) -> (r: String)
    ensures
        r@ == b64_std_chars(bytes@),
{
    base64::Engine::encode(&base64::engine::general_purpose::STANDARD, bytes)
}

/// Relies on `base64::engine::Engine::decode` with the `STANDARD` engine.
/// That engine requires canonical padding and rejects nonzero trailing
/// bits, so it succeeds exactly on the canonical padded encoding of some
/// byte string and then returns that byte string.
#[verifier::external_body]
pub fn std_decode(s: &str) -> (r: Option<Vec<u8>>)
    ensures
        std_decoding(s@, r),
{
    base64::Engine::decode(&base64::engine::general_purpose::STANDARD, s).ok()
}

/// The `base64` crate's configurable engine, carried opaquely so that a
/// caller can pick a non-standard alphabet or padding rule.
#[verifier::external_type_specification]
#[verifier::external_body]
pub struct ExGeneralPurpose(base64::engine::GeneralPurpose);

/// Relies on `base64::engine::Engine::encode` with a caller-chosen
/// engine. Which string comes back depends on that engine's alphabet and
/// padding configuration, so nothing is promised of it.
#[verifier::external_body]
pub fn engine_encode(engine: &base64::engine::GeneralPurpose, bytes: &[u8]) -> String {
    base64::Engine::encode(engine, bytes)
}

/// Relies on `base64::engine::Engine::decode` with a caller-chosen
/// engine. Which inputs decode, and to what, depends on that engine's
/// configuration, so nothing is promised of the outcome.
#[verifier::external_body]
pub fn engine_decode(engine: &base64::engine::GeneralPurpose, s: &str) -> Option<Vec<u8>> {
    base64::Engine::decode(engine, s).ok()
}

} // verus!
