//! The secret-key input: an optional additional secret mixed into every
//! hash, with the strictest clearing rules of the four input types.

use vstd::prelude::*;
use vstd::string::StringSliceAdditionalSpecFns;
use vstd::utf8::{encode_utf8, valid_utf8};

use crate::b64::{b64_std_chars, engine_decode, engine_encode, std_decode, std_decoding, std_encode};
use crate::codec::{dec_repr, dec_string};
use crate::error::{Error, ErrorKind};
use crate::input::container::{zeroed, Container};

verus! {

/// Type-safe struct representing the raw bytes of a secret key.
///
/// A secret key must be mutable (supplied through an exclusive borrow or
/// an owned transfer) whenever the configuration asks for secret-key
/// clearing; requesting clearing on an immutably borrowed key is a
/// contract violation that validation reports as an error.
///
/// The type deliberately has no `Debug` form, so secret bytes cannot
/// leak through diagnostic formatting.
#[derive(PartialEq, Eq, Hash)]
pub struct SecretKey {
    pub(crate) inner: Container,
}

/// Relies on `core::str::from_utf8`: it succeeds exactly when the bytes
/// are valid UTF-8, and then the returned string views those same bytes.
#[verifier::external_body]
fn utf8_from_bytes(bytes: &[u8]) -> (r: Option<&str>)
    ensures
        r matches Some(s) ==> s.spec_bytes() == bytes@,
        r is Some <==> valid_utf8(bytes@),
{
    core::str::from_utf8(bytes).ok()
}

impl View for SecretKey {
    type V = Seq<u8>;

    closed spec fn view(&self) -> Seq<u8> {
        self.inner@
    }
}

impl SecretKey {
    /// Whether the underlying buffer may be zeroed in place.
    pub closed spec fn spec_is_mutable(&self) -> bool {
        self.inner.spec_is_mutable()
    }

    /// A secret key over bytes the caller grants read-only access to.
    /// Such a key can never be cleared.
    pub fn from_borrowed(bytes: &[u8]) -> (k: SecretKey)
        ensures
            k@ == bytes@,
            !k.spec_is_mutable(),
    {
        SecretKey { inner: Container::from_borrowed(bytes) }
    }

    /// A secret key over bytes the caller grants exclusive access to; the
    /// caller's buffer itself is left unchanged.
    pub fn from_mutable(bytes: &mut Vec<u8>) -> (k: SecretKey)
        ensures
            k@ == old(bytes)@,
            *final(bytes) == *old(bytes),
            k.spec_is_mutable(),
    {
        SecretKey { inner: Container::from_mutable(bytes) }
    }

    /// A secret key that takes ownership of the bytes.
    pub fn from_owned(bytes: Vec<u8>) -> (k: SecretKey)
        ensures
            k@ == bytes@,
            k.spec_is_mutable(),
    {
        SecretKey { inner: Container::from_owned(bytes) }
    }

    /// Constructs a [`SecretKey`] from a base64-encoded `&str` using the
    /// standard (padded) base64 encoding. Fails with a base64 decode
    /// error exactly when the string is not the canonical standard
    /// encoding of some byte string.
    pub fn from_base64_encoded(s: &str) -> (r: Result<SecretKey, Error>)
        ensures
            r matches Ok(k) ==> s@ == b64_std_chars(k@) && k.spec_is_mutable(),
            forall|p: Seq<u8>| s@ == b64_std_chars(p) ==> (r matches Ok(k) && k@ == p),
            r matches Err(e) ==> e.spec_kind() == ErrorKind::Base64DecodeError
                && e.spec_context() == s@,
    {
        match std_decode(s) {
            Some(bytes) => Ok(SecretKey { inner: Container::from_owned(bytes) }),
            None => Err(Error::new(ErrorKind::Base64DecodeError).add_context(s.to_owned())),
        }
    }

    /// Same as [`SecretKey::from_base64_encoded`] except with a
    /// caller-chosen base64 engine (for example a url-safe one). Which
    /// strings decode depends on that engine, so only the ownership of
    /// the result is promised.
    pub fn from_base64_encoded_config(s: &str, engine: &base64::engine::GeneralPurpose) -> (r:
        Result<SecretKey, Error>)
        ensures
            r matches Ok(k) ==> k.spec_is_mutable(),
            r matches Err(e) ==> e.spec_kind() == ErrorKind::Base64DecodeError
                && e.spec_context() == s@,
    {
        match engine_decode(engine, s) {
            Some(bytes) => Ok(SecretKey { inner: Container::from_owned(bytes) }),
            None => Err(Error::new(ErrorKind::Base64DecodeError).add_context(s.to_owned())),
        }
    }

    /// Read-only access to the underlying byte buffer.
    pub fn as_bytes(&self) -> (b: &[u8])
        ensures
            b@ == self@,
    {
        self.inner.as_bytes()
    }

    /// Indicates whether the underlying byte buffer is mutable. It is
    /// mutable when the key was constructed from an owned value or an
    /// exclusive borrow, and immutable when it was constructed from an
    /// immutable borrow. The key must be mutable in order to hash or
    /// verify with secret-key clearing switched on.
    pub fn is_mutable(&self) -> (r: bool)
        ensures
            r == self.spec_is_mutable(),
    {
        self.inner.is_mutable()
    }

    /// Read-only access to the underlying byte buffer's length in bytes.
    pub fn len(&self) -> (n: usize)
        ensures
            n == self@.len(),
    {
        self.inner.len()
    }

    /// Clones the underlying byte buffer into a new, owned [`SecretKey`]
    /// that is independent of this one, so it can be moved across thread
    /// or task boundaries and kept alive for a whole in-flight operation.
    pub fn to_owned(&self) -> (k: SecretKey)
        ensures
            k@ == self@,
            k.spec_is_mutable(),
    {
        SecretKey { inner: self.inner.to_owned() }
    }

    /// The underlying byte buffer as a base64-encoded `String` in the
    /// standard (padded) encoding.
    pub fn to_base64_encoded(&self) -> (s: String)
        ensures
            s@ == b64_std_chars(self@),
    {
        std_encode(self.inner.as_bytes())
    }

    /// The underlying byte buffer base64-encoded by a caller-chosen
    /// engine; what the string looks like depends on that engine.
    pub fn to_base64_encoded_config(&self, engine: &base64::engine::GeneralPurpose) -> String {
        engine_encode(engine, self.inner.as_bytes())
    }

    /// Read-only access to the underlying byte buffer as a `&str`. It
    /// succeeds exactly when the bytes are valid UTF-8.
    pub fn to_str(&self) -> (r: Result<&str, Error>)
        ensures
            r matches Ok(s) ==> s.spec_bytes() == self@,
            r is Ok <==> valid_utf8(self@),
            r matches Err(e) ==> e.spec_kind() == ErrorKind::Utf8EncodeError,
    {
        match utf8_from_bytes(self.inner.as_bytes()) {
            Some(s) => Ok(s),
            None => Err(Error::new(ErrorKind::Utf8EncodeError)),
        }
    }

    /// A secret key is valid exactly when its length is representable in
    /// 32 bits; it may be empty.
    pub open spec fn spec_valid(&self) -> bool {
        self@.len() <= u32::MAX
    }

    /// Checks the length rule: a secret key longer than a 32-bit length
    /// can describe is rejected, and nothing else is. The error carries
    /// the offending length as context, so the outcome is a function of
    /// the length alone, never of the secret bytes.
    pub fn validate(&self) -> (r: Result<(), Error>)
        ensures
            r is Ok <==> self.spec_valid(),
            r matches Err(e) ==> e.spec_kind() == ErrorKind::SecretKeyTooLongError
                && encode_utf8(e.spec_context()) == dec_repr(self@.len() as nat),
    {
        if self.len() > u32::MAX as usize {
            return Err(
                Error::new(ErrorKind::SecretKeyTooLongError).add_context(
                    dec_string(self.len() as u64),
                ),
            );
        }
        Ok(())
    }

    /// Zeroes the key in place where its tag permits it; an immutably
    /// borrowed key is left untouched and reported as unclearable.
    pub fn clear(&mut self) -> (cleared: bool)
        ensures
            cleared == old(self).spec_is_mutable(),
            old(self).spec_is_mutable() ==> final(self)@ == zeroed(old(self)@.len()),
            !old(self).spec_is_mutable() ==> *final(self) == *old(self),
            final(self).spec_is_mutable() == old(self).spec_is_mutable(),
    {
        self.inner.clear()
    }
}

} // verus!
