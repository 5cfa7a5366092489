//! The salt input: fixed bytes of at least 8 bytes, or the request that
//! fresh random bytes of a given length be drawn before each operation.

use vstd::prelude::*;
use vstd::utf8::encode_utf8;

use crate::codec::{dec_repr, dec_string};
use crate::error::{Error, ErrorKind};
use crate::input::container::{zeroed, Container};

verus! {

/// The minimum number of bytes a salt must have.
pub const MIN_SALT_LEN: u32 = 8;

/// Type-safe representation of a salt.
///
/// A salt is either a fixed byte buffer, or `Random(n)`: the request
/// that `n` fresh cryptographically secure random bytes be drawn anew
/// before each hashing operation. Drawing the bytes is the caller's
/// (or the surrounding runtime's) outside work; the library validates
/// the requested length and consumes the drawn bytes as a fixed salt.
#[derive(PartialEq, Eq, Hash)]
pub enum Salt {
    /// Draw this many fresh random bytes before each operation.
    Random(u32),
    /// Use exactly these bytes.
    Fixed(Container),
}

impl Salt {
    /// The byte length of the salt: the fixed buffer's length, or the
    /// length that a random salt asks to have drawn.
    pub open spec fn spec_len(&self) -> nat {
        match self {
            Salt::Random(n) => *n as nat,
            Salt::Fixed(c) => c@.len(),
        }
    }

    /// Whether the salt regenerates itself before each operation.
    pub open spec fn spec_is_random(&self) -> bool {
        self is Random
    }

    /// A salt that asks for `len` fresh random bytes before each
    /// operation.
    pub fn random(len: u32) -> (s: Salt)
        ensures
            s == Salt::Random(len),
    {
        Salt::Random(len)
    }

    /// A fixed salt over bytes the caller grants read-only access to.
    pub fn from_borrowed(bytes: &[u8]) -> (s: Salt)
        ensures
            s matches Salt::Fixed(c) && c@ == bytes@ && !c.spec_is_mutable(),
    {
        Salt::Fixed(Container::from_borrowed(bytes))
    }

    /// A fixed salt over bytes the caller grants exclusive access to;
    /// the caller's buffer itself is left unchanged.
    pub fn from_mutable(bytes: &mut Vec<u8>) -> (s: Salt)
        ensures
            s matches Salt::Fixed(c) && c@ == old(bytes)@ && c.spec_is_mutable(),
            *final(bytes) == *old(bytes),
    {
        Salt::Fixed(Container::from_mutable(bytes))
    }

    /// A fixed salt that takes ownership of the bytes.
    pub fn from_owned(bytes: Vec<u8>) -> (s: Salt)
        ensures
            s matches Salt::Fixed(c) && c@ == bytes@ && c.spec_is_mutable(),
    {
        Salt::Fixed(Container::from_owned(bytes))
    }

    /// Whether the salt regenerates itself before each operation.
    pub fn is_random(&self) -> (r: bool)
        ensures
            r == self.spec_is_random(),
    {
        matches!(self, Salt::Random(_))
    }

    /// The byte length of the salt.
    pub fn len(&self) -> (n: usize)
        requires
            self.spec_len() <= usize::MAX,
        ensures
            n == self.spec_len(),
    {
        match self {
            Salt::Random(n) => *n as usize,
            Salt::Fixed(c) => c.len(),
        }
    }

    /// The fixed bytes, where the salt has any: a random salt holds
    /// none until the operation draws them.
    pub fn fixed_bytes(&self) -> (b: Option<&[u8]>)
        ensures
            self matches Salt::Fixed(c) ==> (b matches Some(v) && v@ == c@),
            self is Random ==> b is None,
    {
        match self {
            Salt::Random(_) => None,
            Salt::Fixed(c) => Some(c.as_bytes()),
        }
    }

    /// An independent owned copy of the salt.
    pub fn to_owned(&self) -> (s: Salt)
        ensures
            s.spec_is_random() == self.spec_is_random(),
            s.spec_len() == self.spec_len(),
            self matches Salt::Fixed(c) ==> (s matches Salt::Fixed(d) && d@ == c@
                && d.spec_is_mutable()),
            self matches Salt::Random(n) ==> s == Salt::Random(*n),
    {
        match self {
            Salt::Random(n) => Salt::Random(*n),
            Salt::Fixed(c) => Salt::Fixed(c.to_owned()),
        }
    }

    /// A salt is valid exactly when its length is at least
    /// [`MIN_SALT_LEN`] and representable in 32 bits (a random salt's
    /// requested length always is).
    pub open spec fn spec_valid(&self) -> bool {
        MIN_SALT_LEN <= self.spec_len() <= u32::MAX
    }

    /// Checks the length rules: a salt shorter than 8 bytes or longer
    /// than a 32-bit length can describe is rejected, and nothing else
    /// is. The error carries the offending length as context, so the
    /// outcome is a function of the length alone, never of the bytes.
    pub fn validate(&self) -> (r: Result<(), Error>)
        ensures
            r is Ok <==> self.spec_valid(),
            r matches Err(e) ==> (e.spec_kind() == ErrorKind::SaltTooShortError || e.spec_kind()
                == ErrorKind::SaltTooLongError) && encode_utf8(e.spec_context()) == dec_repr(
                self.spec_len() as nat,
            ),
            self.spec_len() < MIN_SALT_LEN ==> (r matches Err(e) && e.spec_kind()
                == ErrorKind::SaltTooShortError),
    {
        match self {
            Salt::Random(n) => {
                if *n < MIN_SALT_LEN {
                    Err(
                        Error::new(ErrorKind::SaltTooShortError).add_context(
                            dec_string(*n as u64),
                        ),
                    )
                } else {
                    Ok(())
                }
            },
            Salt::Fixed(c) => {
                let n = c.len();
                if n < MIN_SALT_LEN as usize {
                    Err(Error::new(ErrorKind::SaltTooShortError).add_context(dec_string(n as u64)))
                } else if n > u32::MAX as usize {
                    Err(Error::new(ErrorKind::SaltTooLongError).add_context(dec_string(n as u64)))
                } else {
                    Ok(())
                }
            },
        }
    }

    /// Zeroes a fixed salt's buffer where its tag permits it; a random
    /// salt holds no bytes, so there is nothing to clear and the call
    /// reports success.
    pub fn clear(&mut self) -> (cleared: bool)
        ensures
            (*old(self)) matches Salt::Fixed(c) ==> cleared == c.spec_is_mutable(),
            (*old(self)) matches Salt::Fixed(c) ==> (c.spec_is_mutable() ==> ((*final(self))
                matches Salt::Fixed(d) && d@ == zeroed(c@.len()))),
            (*old(self)) matches Salt::Fixed(c) ==> (!c.spec_is_mutable() ==> *final(self) == *old(self)),
            (*old(self)) matches Salt::Random(_) ==> cleared && *final(self) == *old(self),
    {
        match self {
            Salt::Random(_) => true,
            Salt::Fixed(c) => c.clear(),
        }
    }
}

} // verus!
