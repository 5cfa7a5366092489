//! The password input: the one input every hash and verify operation
//! must have. It must be non-empty.

use vstd::prelude::*;
use vstd::utf8::encode_utf8;

use crate::codec::{dec_repr, dec_string};
use crate::error::{Error, ErrorKind};
use crate::input::container::{zeroed, Container};

verus! {

/// Type-safe struct representing the raw bytes of a password.
#[derive(PartialEq, Eq, Hash)]
pub struct Password {
    pub(crate) inner: Container,
}

impl View for Password {
    type V = Seq<u8>;

    closed spec fn view(&self) -> Seq<u8> {
        self.inner@
    }
}

impl Password {
    /// Whether the underlying buffer may be zeroed in place.
    pub closed spec fn spec_is_mutable(&self) -> bool {
        self.inner.spec_is_mutable()
    }

    /// A password over bytes the caller grants read-only access to. Such
    /// a password can never be cleared.
    pub fn from_borrowed(bytes: &[u8]) -> (p: Password)
        ensures
            p@ == bytes@,
            !p.spec_is_mutable(),
    {
        Password { inner: Container::from_borrowed(bytes) }
    }

    /// A password over bytes the caller grants exclusive access to; the
    /// caller's buffer itself is left unchanged.
    pub fn from_mutable(bytes: &mut Vec<u8>) -> (p: Password)
        ensures
            p@ == old(bytes)@,
            *final(bytes) == *old(bytes),
            p.spec_is_mutable(),
    {
        Password { inner: Container::from_mutable(bytes) }
    }

    /// A password that takes ownership of the bytes.
    pub fn from_owned(bytes: Vec<u8>) -> (p: Password)
        ensures
            p@ == bytes@,
            p.spec_is_mutable(),
    {
        Password { inner: Container::from_owned(bytes) }
    }

    /// Read-only access to the underlying byte buffer.
    pub fn as_bytes(&self) -> (b: &[u8])
        ensures
            b@ == self@,
    {
        self.inner.as_bytes()
    }

    /// Whether the underlying byte buffer may be zeroed in place. The
    /// password must be mutable in order to hash or verify with
    /// password clearing switched on.
    pub fn is_mutable(&self) -> (r: bool)
        ensures
            r == self.spec_is_mutable(),
    {
        self.inner.is_mutable()
    }

    /// Read-only access to the underlying byte buffer's length in bytes.
    pub fn len(&self) -> (n: usize)
        ensures
            n == self@.len(),
    {
        self.inner.len()
    }

    /// Clones the underlying byte buffer into a new, owned [`Password`]
    /// independent of this one, so it can be moved across thread or task
    /// boundaries and kept alive for a whole in-flight operation.
    pub fn to_owned(&self) -> (p: Password)
        ensures
            p@ == self@,
            p.spec_is_mutable(),
    {
        Password { inner: self.inner.to_owned() }
    }

    /// A password is valid exactly when it is non-empty and its length
    /// is representable in 32 bits.
    pub open spec fn spec_valid(&self) -> bool {
        0 < self@.len() <= u32::MAX
    }

    /// Checks the length rules: an empty password and a password longer
    /// than a 32-bit length can describe are rejected, and nothing else
    /// is. The error carries the offending length as context, so the
    /// outcome is a function of the length alone, never of the bytes.
    pub fn validate(&self) -> (r: Result<(), Error>)
        ensures
            r is Ok <==> self.spec_valid(),
            r matches Err(e) ==> (e.spec_kind() == ErrorKind::PasswordTooShortError
                || e.spec_kind() == ErrorKind::PasswordTooLongError) && encode_utf8(
                e.spec_context(),
            ) == dec_repr(self@.len() as nat),
            self@.len() == 0 ==> (r matches Err(e) && e.spec_kind()
                == ErrorKind::PasswordTooShortError),
    {
        if self.len() == 0 {
            return Err(
                Error::new(ErrorKind::PasswordTooShortError).add_context(
                    dec_string(self.len() as u64),
                ),
            );
        }
        if self.len() > u32::MAX as usize {
            return Err(
                Error::new(ErrorKind::PasswordTooLongError).add_context(
                    dec_string(self.len() as u64),
                ),
            );
        }
        Ok(())
    }

    /// Zeroes the password in place where its tag permits it; an
    /// immutably borrowed password is left untouched and reported as
    /// unclearable.
    pub fn clear(&mut self) -> (cleared: bool)
        ensures
            cleared == old(self).spec_is_mutable(),
            old(self).spec_is_mutable() ==> final(self)@ == zeroed(old(self)@.len()),
            !old(self).spec_is_mutable() ==> *final(self) == *old(self),
            final(self).spec_is_mutable() == old(self).spec_is_mutable(),
    {
        self.inner.clear()
    }
}

} // verus!
