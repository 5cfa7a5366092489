//! The additional-data input: optional extra bytes mixed into a hash,
//! with the loosest rules of the four input types (it may be empty).

use vstd::prelude::*;
use vstd::utf8::encode_utf8;

use crate::codec::{dec_repr, dec_string};
use crate::error::{Error, ErrorKind};
use crate::input::container::{zeroed, Container};

verus! {

/// Type-safe struct representing raw additional data to mix into a hash.
#[derive(PartialEq, Eq, Hash)]
pub struct AdditionalData {
    pub(crate) inner: Container,
}

impl View for AdditionalData {
    type V = Seq<u8>;

    closed spec fn view(&self) -> Seq<u8> {
        self.inner@
    }
}

impl AdditionalData {
    /// Whether the underlying buffer may be zeroed in place.
    pub closed spec fn spec_is_mutable(&self) -> bool {
        self.inner.spec_is_mutable()
    }

    /// Additional data over bytes the caller grants read-only access to.
    pub fn from_borrowed(bytes: &[u8]) -> (a: AdditionalData)
        ensures
            a@ == bytes@,
            !a.spec_is_mutable(),
    {
        AdditionalData { inner: Container::from_borrowed(bytes) }
    }

    /// Additional data over bytes the caller grants exclusive access to;
    /// the caller's buffer itself is left unchanged.
    pub fn from_mutable(bytes: &mut Vec<u8>) -> (a: AdditionalData)
        ensures
            a@ == old(bytes)@,
            *final(bytes) == *old(bytes),
            a.spec_is_mutable(),
    {
        AdditionalData { inner: Container::from_mutable(bytes) }
    }

    /// Additional data that takes ownership of the bytes.
    pub fn from_owned(bytes: Vec<u8>) -> (a: AdditionalData)
        ensures
            a@ == bytes@,
            a.spec_is_mutable(),
    {
        AdditionalData { inner: Container::from_owned(bytes) }
    }

    /// Empty additional data: the default when a caller supplies none.
    pub fn empty() -> (a: AdditionalData)
        ensures
            a@ == Seq::<u8>::empty(),
            a.spec_is_mutable(),
    {
        AdditionalData { inner: Container::from_owned(Vec::new()) }
    }

    /// Read-only access to the underlying byte buffer.
    pub fn as_bytes(&self) -> (b: &[u8])
        ensures
            b@ == self@,
    {
        self.inner.as_bytes()
    }

    /// Whether the underlying byte buffer may be zeroed in place.
    pub fn is_mutable(&self) -> (r: bool)
        ensures
            r == self.spec_is_mutable(),
    {
        self.inner.is_mutable()
    }

    /// Read-only access to the underlying byte buffer's length in bytes.
    pub fn len(&self) -> (n: usize)
        ensures
            n == self@.len(),
    {
        self.inner.len()
    }

    /// Clones the underlying byte buffer into a new, owned
    /// [`AdditionalData`] independent of this one.
    pub fn to_owned(&self) -> (a: AdditionalData)
        ensures
            a@ == self@,
            a.spec_is_mutable(),
    {
        AdditionalData { inner: self.inner.to_owned() }
    }

    /// Additional data is valid exactly when its length is representable
    /// in 32 bits; it may be empty.
    pub open spec fn spec_valid(&self) -> bool {
        self@.len() <= u32::MAX
    }

    /// Checks the length rule: additional data longer than a 32-bit
    /// length can describe is rejected, and nothing else is. The error
    /// carries the offending length as context, so the outcome is a
    /// function of the length alone, never of the bytes.
    pub fn validate(&self) -> (r: Result<(), Error>)
        ensures
            r is Ok <==> self.spec_valid(),
            r matches Err(e) ==> e.spec_kind() == ErrorKind::AdditionalDataTooLongError
                && encode_utf8(e.spec_context()) == dec_repr(self@.len() as nat),
    {
        if self.len() > u32::MAX as usize {
            return Err(
                Error::new(ErrorKind::AdditionalDataTooLongError).add_context(
                    dec_string(self.len() as u64),
                ),
            );
        }
        Ok(())
    }

    /// Zeroes the buffer in place where its tag permits it; an immutably
    /// borrowed buffer is left untouched and reported as unclearable.
    pub fn clear(&mut self) -> (cleared: bool)
        ensures
            cleared == old(self).spec_is_mutable(),
            old(self).spec_is_mutable() ==> final(self)@ == zeroed(old(self)@.len()),
            !old(self).spec_is_mutable() ==> *final(self) == *old(self),
            final(self).spec_is_mutable() == old(self).spec_is_mutable(),
    {
        self.inner.clear()
    }
}

} // verus!
