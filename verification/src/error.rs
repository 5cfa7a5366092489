//! Error kinds and the structured error value returned by every fallible
//! operation of the library.

use vstd::prelude::*;

verus! {

/// The taxonomy of failures. Every fallible operation reports exactly one
/// of these kinds; a failed verification is not an error but a `false`
/// result.
#[derive(Clone, Copy, Debug, PartialEq, Eq, Structural, Hash)]
pub enum ErrorKind {
    /// Additional data longer than a 32-bit length can describe.
    AdditionalDataTooLongError,
    /// A string that was supposed to be base64-encoded failed to decode.
    Base64DecodeError,
    /// The compute engine reported a failure; it is surfaced verbatim and
    /// never retried.
    ComputationError,
    /// A cross-field configuration rule was violated.
    ConfigurationError,
    /// A textual encoded hash did not match the canonical format.
    HashDecodeError,
    /// Password clearing was requested on a password that only borrows
    /// its bytes immutably and therefore can never be zeroed in place.
    PasswordImmutableError,
    /// An empty password was supplied.
    PasswordTooShortError,
    /// A password longer than a 32-bit length can describe.
    PasswordTooLongError,
    /// A salt shorter than the required minimum of 8 bytes.
    SaltTooShortError,
    /// A salt longer than a 32-bit length can describe.
    SaltTooLongError,
    /// Secret-key clearing was requested on a secret key that only borrows
    /// its bytes immutably and therefore can never be zeroed in place.
    SecretKeyImmutableError,
    /// A secret key longer than a 32-bit length can describe.
    SecretKeyTooLongError,
    /// A byte buffer was requested as text but does not hold valid UTF-8.
    Utf8EncodeError,
}

/// A structured error: a kind plus free-form human-readable context
/// (for example the offending string or field).
#[derive(Clone, Debug)]
pub struct Error {
    kind: ErrorKind,
    context: String,
}

impl Error {
    /// The kind recorded in this error, for use in specifications.
    pub closed spec fn spec_kind(&self) -> ErrorKind {
        self.kind
    }

    /// The context recorded in this error, for use in specifications.
    pub closed spec fn spec_context(&self) -> Seq<char> {
        self.context@
    }

    /// A fresh error of the given kind, with no context yet.
    pub fn new(kind: ErrorKind) -> (e: Error)
        ensures
            e.spec_kind() == kind,
            e.spec_context() == Seq::<char>::empty(),
    {
        Error { kind, context: String::new() }
    }

    /// The same error, with its context replaced by `context`.
    pub fn add_context(self, context: String) -> (e: Error)
        ensures
            e.spec_kind() == self.spec_kind(),
            e.spec_context() == context@,
    {
        Error { kind: self.kind, context }
    }

    /// The kind of failure.
    pub fn kind(&self) -> (k: ErrorKind)
        ensures
            k == self.spec_kind(),
    {
        self.kind
    }

    /// The human-readable context carried with the error.
    pub fn context(&self) -> (c: &String)
        ensures
            c@ == self.spec_context(),
    {
        &self.context
    }
}

} // verus!
