//! The ownership-tagged byte container underlying every sensitive input.

use vstd::prelude::*;

verus! {

/// A sensitive byte buffer together with a record of how its bytes were
/// supplied. The tag governs the clearing (zeroing) policy: bytes that a
/// caller handed over through an immutable borrow must never be zeroed in
/// place, while bytes from a mutable borrow or an owned transfer may be.
///
/// The container always holds its own storage; the tag is what remains of
/// the provenance of the bytes and is the sole input to every mutability
/// decision.
#[derive(PartialEq, Eq, Hash)]
pub enum Container {
    /// Bytes supplied through an immutable borrow: zeroing in place is
    /// impossible, so any clearing request on this container must fail.
    Borrowed(Vec<u8>),
    /// Bytes supplied through an exclusive (mutable) borrow: the buffer
    /// may be zeroed in place.
    BorrowedMut(Vec<u8>),
    /// Bytes owned outright: the buffer may be zeroed in place.
    Owned(Vec<u8>),
}

/// A sequence of `n` zero bytes: what a cleared buffer must read back as.
pub open spec fn zeroed(n: nat) -> Seq<u8> {
    Seq::new(n, |i: int| 0u8)
}

/// A vector of `n` zero bytes.
pub fn zero_vec(n: usize) -> (v: Vec<u8>)
    ensures
        v@ == zeroed(n as nat),
{
    let mut v: Vec<u8> = Vec::new();
    let mut i: usize = 0;
    while i < n
        invariant
            i <= n,
            v@ =~= zeroed(i as nat),
        decreases n - i,
    {
        v.push(0u8);
        i = i + 1;
        proof {
            assert(v@ =~= zeroed(i as nat));
        }
    }
    v
}

/// A fresh vector holding the same bytes as `bytes`.
pub fn copy_bytes(bytes: &[u8]) -> (v: Vec<u8>)
    ensures
        v@ == bytes@,
{
    let mut copy: Vec<u8> = Vec::new();
    let mut i: usize = 0;
    while i < bytes.len()
        invariant
            i <= bytes@.len(),
            copy@ =~= bytes@.subrange(0, i as int),
        decreases bytes@.len() - i,
    {
        copy.push(bytes[i]);
        i = i + 1;
    }
    proof {
        assert(copy@ =~= bytes@);
    }
    copy
}

impl View for Container {
    type V = Seq<u8>;

    open spec fn view(&self) -> Seq<u8> {
        match self {
            Container::Borrowed(v) => v@,
            Container::BorrowedMut(v) => v@,
            Container::Owned(v) => v@,
        }
    }
}

impl Container {
    /// Whether the buffer may be zeroed in place: true for every tag but
    /// an immutable borrow.
    pub open spec fn spec_is_mutable(&self) -> bool {
        !(self is Borrowed)
    }

    /// A container for bytes the caller grants read-only access to. It
    /// can never be cleared.
    pub fn from_borrowed(bytes: &[u8]) -> (c: Container)
        ensures
            c@ == bytes@,
            c is Borrowed,
    {
        Container::Borrowed(copy_bytes(bytes))
    }

    /// A container for bytes the caller grants exclusive access to. It
    /// may be cleared; the caller's buffer itself is left unchanged.
    pub fn from_mutable(bytes: &mut Vec<u8>) -> (c: Container)
        ensures
            c@ == old(bytes)@,
            *final(bytes) == *old(bytes),
            c is BorrowedMut,
    {
        Container::BorrowedMut(copy_bytes(bytes.as_slice()))
    }

    /// A container that takes ownership of the bytes. It may be cleared.
    pub fn from_owned(bytes: Vec<u8>) -> (c: Container)
        ensures
            c@ == bytes@,
            c is Owned,
    {
        Container::Owned(bytes)
    }

    /// Read-only access to the bytes, whatever the tag.
    pub fn as_bytes(&self) -> (b: &[u8])
        ensures
            b@ == self@,
    {
        match self {
            Container::Borrowed(v) => v.as_slice(),
            Container::BorrowedMut(v) => v.as_slice(),
            Container::Owned(v) => v.as_slice(),
        }
    }

    /// Whether the buffer may be zeroed in place.
    pub fn is_mutable(&self) -> (r: bool)
        ensures
            r == self.spec_is_mutable(),
    {
        !matches!(self, Container::Borrowed(_))
    }

    /// The number of bytes held.
    pub fn len(&self) -> (n: usize)
        ensures
            n == self@.len(),
    {
        self.as_bytes().len()
    }

    /// A deep copy of the bytes under the `Owned` tag, independent of the
    /// original, so that it can outlive it and cross thread or task
    /// boundaries.
    pub fn to_owned(&self) -> (c: Container)
        ensures
            c@ == self@,
            c is Owned,
    {
        Container::Owned(copy_bytes(self.as_bytes()))
    }

    /// Zeroes the buffer in place where the tag permits it; an immutable
    /// borrow is left untouched and reported as unclearable. Zeroing never
    /// changes the length, so a cleared buffer reads back as all zero
    /// bytes.
    pub fn clear(&mut self) -> (cleared: bool)
        ensures
            cleared == old(self).spec_is_mutable(),
            old(self).spec_is_mutable() ==> final(self)@ == zeroed(old(self)@.len()),
            !old(self).spec_is_mutable() ==> *final(self) == *old(self),
            final(self).spec_is_mutable() == old(self).spec_is_mutable(),
    {
        match self {
            Container::Borrowed(_) => false,
            Container::BorrowedMut(v) => {
                let z = zero_vec(v.len());
                *v = z;
                true
            },
            Container::Owned(v) => {
                let z = zero_vec(v.len());
                *v = z;
                true
            },
        }
    }
}

} // verus!
