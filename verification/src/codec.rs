//! The textual hash codec: the bidirectional mapping between a decoded
//! hash record ([`HashRaw`]) and the canonical encoded form
//! `$<variant>$v=<version>$m=<memory>,t=<iterations>,p=<lanes>$<salt>$<hash>`
//! with the salt and hash in unpadded standard base64.
//!
//! The format is specified here byte by byte over `Seq<u8>`:
//! [`spec_parse`] is the structural grammar, [`spec_encoded`] the
//! canonical encoding. Decoding accepts leading zeros in the numeric
//! fields (their value must still fit 32 bits); encoding always emits
//! the canonical digits, so a decode of an encode gives the record back
//! exactly.

use vstd::prelude::*;
use vstd::string::StringSliceAdditionalSpecFns;
use vstd::utf8::encode_utf8;

use crate::b64::{b64_nopad_bytes, is_b64_byte, nopad_decode, nopad_encode};
use crate::config::{Variant, Version};
use crate::error::{Error, ErrorKind};

verus! {

/// `$`, the field delimiter.
pub const DOLLAR: u8 = 0x24;

/// `,`, the delimiter inside the parameter field.
pub const COMMA: u8 = 0x2c;

/// `=`, the byte after a parameter name.
pub const EQUALS: u8 = 0x3d;

/// `v`, the version parameter name.
pub const LOWER_V: u8 = 0x76;

/// `m`, the memory parameter name.
pub const LOWER_M: u8 = 0x6d;

/// `t`, the iterations parameter name.
pub const LOWER_T: u8 = 0x74;

/// `p`, the lanes parameter name.
pub const LOWER_P: u8 = 0x70;

/// The token that names `variant` in the encoded form: `argon2d`,
/// `argon2i` or `argon2id`.
pub open spec fn variant_token(variant: Variant) -> Seq<u8> {
    match variant {
        Variant::Argon2d => seq![0x61u8, 0x72u8, 0x67u8, 0x6fu8, 0x6eu8, 0x32u8, 0x64u8],
        Variant::Argon2i => seq![0x61u8, 0x72u8, 0x67u8, 0x6fu8, 0x6eu8, 0x32u8, 0x69u8],
        Variant::Argon2id => seq![0x61u8, 0x72u8, 0x67u8, 0x6fu8, 0x6eu8, 0x32u8, 0x69u8, 0x64u8],
    }
}

/// The token that names `version` in the encoded form: `16` for the
/// legacy version, `19` for the current one.
pub open spec fn version_token(version: Version) -> Seq<u8> {
    match version {
        Version::_0x10 => seq![0x31u8, 0x36u8],
        Version::_0x13 => seq![0x31u8, 0x39u8],
    }
}

/// Whether `b` is an ASCII decimal digit.
pub open spec fn is_dec_digit(b: u8) -> bool {
    0x30 <= b <= 0x39
}

/// The value of the digit `b`.
pub open spec fn digit_val(b: u8) -> nat
    recommends
        is_dec_digit(b),
{
    (b - 0x30) as nat
}

/// Whether every byte of `s` is an ASCII decimal digit.
pub open spec fn all_dec_digits(s: Seq<u8>) -> bool {
    forall|i: int| 0 <= i < s.len() ==> is_dec_digit(#[trigger] s[i])
}

/// The value of the digit string `s`, read as a decimal number.
pub open spec fn dec_val(s: Seq<u8>) -> nat
    decreases s.len(),
{
    if s.len() == 0 {
        0
    } else {
        dec_val(s.drop_last()) * 10 + digit_val(s.last())
    }
}

/// The canonical decimal digits of `n`: no sign, no leading zeros.
pub open spec fn dec_repr(n: nat) -> Seq<u8>
    decreases n,
{
    if n < 10 {
        seq![(0x30 + n) as u8]
    } else {
        dec_repr(n / 10).push((0x30 + n % 10) as u8)
    }
}

/// Whether `s` is a digit string a 32-bit numeric field accepts: at
/// least one digit, digits only, and a value that fits in 32 bits.
pub open spec fn is_dec_u32(s: Seq<u8>) -> bool {
    &&& s.len() >= 1
    &&& all_dec_digits(s)
    &&& dec_val(s) <= u32::MAX
}

/// Whether `s` can stand as a base64 payload segment of the encoded
/// form: standard-alphabet bytes only (in particular no `$` and no
/// `,`, and all ASCII).
pub open spec fn seg_ok(s: Seq<u8>) -> bool {
    forall|i: int| 0 <= i < s.len() ==> is_b64_byte(#[trigger] s[i])
}

/// The index of the first occurrence of `b` in `s` at or after `from`,
/// or `s.len()` if there is none.
pub open spec fn find(s: Seq<u8>, b: u8, from: int) -> int
    decreases s.len() - from,
{
    if from < 0 || from >= s.len() {
        s.len() as int
    } else if s[from] == b {
        from
    } else {
        find(s, b, from + 1)
    }
}

/// If no occurrence of `b` lies in `[from, upto)` and `upto` is either
/// the end or an occurrence, then `find` returns `upto`.
pub proof fn lemma_find_eq(s: Seq<u8>, b: u8, from: int, upto: int)
    requires
        0 <= from <= upto <= s.len(),
        forall|i: int| from <= i < upto ==> s[i] != b,
        upto == s.len() || s[upto] == b,
    ensures
        find(s, b, from) == upto,
    decreases upto - from,
{
    if from < upto {
        lemma_find_eq(s, b, from + 1, upto);
    }
}

/// The canonical digits of `n` are digits, and there is at least one.
pub proof fn lemma_dec_repr_digits(n: nat)
    ensures
        dec_repr(n).len() >= 1,
        all_dec_digits(dec_repr(n)),
    decreases n,
{
    if n >= 10 {
        lemma_dec_repr_digits(n / 10);
        assert forall|i: int| 0 <= i < dec_repr(n).len() implies is_dec_digit(
            #[trigger] dec_repr(n)[i],
        ) by {
            if i < dec_repr(n / 10).len() {
                assert(dec_repr(n)[i] == dec_repr(n / 10)[i]);
            }
        }
    }
}

/// Reading the canonical digits of `n` back gives `n`.
pub proof fn lemma_dec_val_of_repr(n: nat)
    ensures
        dec_val(dec_repr(n)) == n,
    decreases n,
{
    if n < 10 {
        assert(dec_repr(n).drop_last() =~= Seq::<u8>::empty());
        assert(dec_val(Seq::<u8>::empty()) == 0);
        assert(dec_repr(n).last() == (0x30 + n) as u8);
        assert(digit_val((0x30 + n) as u8) == n);
    } else {
        lemma_dec_val_of_repr(n / 10);
        assert(dec_repr(n).drop_last() =~= dec_repr(n / 10));
        assert(dec_repr(n).last() == (0x30 + n % 10) as u8);
        assert(digit_val((0x30 + n % 10) as u8) == n % 10);
        assert(dec_val(dec_repr(n)) == (n / 10) * 10 + n % 10);
    }
}

/// Extending a digit string by one digit multiplies its value by ten
/// and adds the digit.
pub proof fn lemma_dec_val_step(s: Seq<u8>, k: int)
    requires
        0 <= k < s.len(),
    ensures
        dec_val(s.subrange(0, k + 1)) == dec_val(s.subrange(0, k)) * 10 + digit_val(s[k]),
{
    assert(s.subrange(0, k + 1).drop_last() =~= s.subrange(0, k));
    assert(s.subrange(0, k + 1).last() == s[k]);
}

/// A digit string's value is at least the value of any of its prefixes.
pub proof fn lemma_dec_val_mono(s: Seq<u8>, k: int)
    requires
        0 <= k <= s.len(),
    ensures
        dec_val(s.subrange(0, k)) <= dec_val(s),
    decreases s.len() - k,
{
    if k == s.len() {
        assert(s.subrange(0, k) =~= s);
    } else {
        lemma_dec_val_step(s, k);
        lemma_dec_val_mono(s, k + 1);
    }
}

/// The fields of one decoded hash, as mathematical values: the decoded
/// representation of an encoded hash string.
pub ghost struct HashRawView {
    pub variant: Variant,
    pub version: Version,
    pub memory_size: u32,
    pub iterations: u32,
    pub lanes: u32,
    pub salt: Seq<u8>,
    pub hash: Seq<u8>,
}

/// The fields read off an encoded string by the structural grammar,
/// before base64 decoding of the two payload segments.
pub ghost struct ParsedFields {
    pub variant: Variant,
    pub version: Version,
    pub memory_size: u32,
    pub iterations: u32,
    pub lanes: u32,
    pub salt_b64: Seq<u8>,
    pub hash_b64: Seq<u8>,
}

/// The variant a token names, if any. An unrecognized token is a
/// decode error, never a default substitution.
pub open spec fn spec_parse_variant(t: Seq<u8>) -> Option<Variant> {
    if t == variant_token(Variant::Argon2d) {
        Some(Variant::Argon2d)
    } else if t == variant_token(Variant::Argon2i) {
        Some(Variant::Argon2i)
    } else if t == variant_token(Variant::Argon2id) {
        Some(Variant::Argon2id)
    } else {
        None
    }
}

/// The version a token names, if any.
pub open spec fn spec_parse_version(t: Seq<u8>) -> Option<Version> {
    if t == version_token(Version::_0x10) {
        Some(Version::_0x10)
    } else if t == version_token(Version::_0x13) {
        Some(Version::_0x13)
    } else {
        None
    }
}

/// The structural grammar of the encoded form, scanning left to right
/// for the literal delimiters `$`, `v=`, `m=`, `,t=`, `,p=`. Yields the
/// parsed fields, or `None` on any missing delimiter, non-numeric or
/// oversized numeric field, or unrecognized variant or version token.
pub open spec fn spec_parse(s: Seq<u8>) -> Option<ParsedFields> {
    if s.len() < 1 || s[0] != DOLLAR {
        None
    } else {
        let i1 = find(s, DOLLAR, 1);
        if i1 >= s.len() || spec_parse_variant(s.subrange(1, i1)) is None {
            None
        } else {
            let variant = spec_parse_variant(s.subrange(1, i1))->Some_0;
            if i1 + 3 > s.len() || s[i1 + 1] != LOWER_V || s[i1 + 2] != EQUALS {
                None
            } else {
                let i2 = find(s, DOLLAR, i1 + 3);
                if i2 >= s.len() || spec_parse_version(s.subrange(i1 + 3, i2)) is None {
                    None
                } else {
                    let version = spec_parse_version(s.subrange(i1 + 3, i2))->Some_0;
                    if i2 + 3 > s.len() || s[i2 + 1] != LOWER_M || s[i2 + 2] != EQUALS {
                        None
                    } else {
                        let i3 = find(s, COMMA, i2 + 3);
                        if i3 >= s.len() || !is_dec_u32(s.subrange(i2 + 3, i3)) {
                            None
                        } else {
                            let m = dec_val(s.subrange(i2 + 3, i3));
                            if i3 + 3 > s.len() || s[i3 + 1] != LOWER_T || s[i3 + 2] != EQUALS {
                                None
                            } else {
                                let i4 = find(s, COMMA, i3 + 3);
                                if i4 >= s.len() || !is_dec_u32(s.subrange(i3 + 3, i4)) {
                                    None
                                } else {
                                    let t = dec_val(s.subrange(i3 + 3, i4));
                                    if i4 + 3 > s.len() || s[i4 + 1] != LOWER_P || s[i4 + 2]
                                        != EQUALS {
                                        None
                                    } else {
                                        let i5 = find(s, DOLLAR, i4 + 3);
                                        if i5 >= s.len() || !is_dec_u32(s.subrange(i4 + 3, i5)) {
                                            None
                                        } else {
                                            let p = dec_val(s.subrange(i4 + 3, i5));
                                            let i6 = find(s, DOLLAR, i5 + 1);
                                            if i6 >= s.len() {
                                                None
                                            } else {
                                                Some(
                                                    ParsedFields {
                                                        variant,
                                                        version,
                                                        memory_size: m as u32,
                                                        iterations: t as u32,
                                                        lanes: p as u32,
                                                        salt_b64: s.subrange(i5 + 1, i6),
                                                        hash_b64: s.subrange(
                                                            i6 + 1,
                                                            s.len() as int,
                                                        ),
                                                    },
                                                )
                                            }
                                        }
                                    }
                                }
                            }
                        }
                    }
                }
            }
        }
    }
}

/// The encoded form assembled from already-rendered field texts.
pub open spec fn encoded_with(
    variant: Variant,
    version: Version,
    m: Seq<u8>,
    t: Seq<u8>,
    p: Seq<u8>,
    salt_b64: Seq<u8>,
    hash_b64: Seq<u8>,
) -> Seq<u8> {
    seq![DOLLAR] + variant_token(variant) + seq![DOLLAR, LOWER_V, EQUALS] + version_token(version)
        + seq![DOLLAR, LOWER_M, EQUALS] + m + seq![COMMA, LOWER_T, EQUALS] + t + seq![
        COMMA,
        LOWER_P,
        EQUALS,
    ] + p + seq![DOLLAR] + salt_b64 + seq![DOLLAR] + hash_b64
}

/// The canonical encoded form of a decoded hash record.
pub open spec fn spec_encoded(h: HashRawView) -> Seq<u8> {
    encoded_with(
        h.variant,
        h.version,
        dec_repr(h.memory_size as nat),
        dec_repr(h.iterations as nat),
        dec_repr(h.lanes as nat),
        b64_nopad_bytes(h.salt),
        b64_nopad_bytes(h.hash),
    )
}

/// The decoded representation of an encoded hash string: the algorithm
/// parameters an encoded hash carries, together with the raw salt and
/// hash bytes.
#[derive(Debug, PartialEq, Eq)]
pub struct HashRaw {
    pub(crate) variant: Variant,
    pub(crate) version: Version,
    pub(crate) memory_size: u32,
    pub(crate) iterations: u32,
    pub(crate) lanes: u32,
    pub(crate) raw_salt_bytes: Vec<u8>,
    pub(crate) raw_hash_bytes: Vec<u8>,
}

impl View for HashRaw {
    type V = HashRawView;

    closed spec fn view(&self) -> HashRawView {
        HashRawView {
            variant: self.variant,
            version: self.version,
            memory_size: self.memory_size,
            iterations: self.iterations,
            lanes: self.lanes,
            salt: self.raw_salt_bytes@,
            hash: self.raw_hash_bytes@,
        }
    }
}

impl HashRaw {
    /// Assembles a decoded hash record from its parts.
    pub fn new(
        variant: Variant,
        version: Version,
        memory_size: u32,
        iterations: u32,
        lanes: u32,
        raw_salt_bytes: Vec<u8>,
        raw_hash_bytes: Vec<u8>,
    ) -> (h: HashRaw)
        ensures
            h@ == (HashRawView {
                variant,
                version,
                memory_size,
                iterations,
                lanes,
                salt: raw_salt_bytes@,
                hash: raw_hash_bytes@,
            }),
    {
        HashRaw {
            variant,
            version,
            memory_size,
            iterations,
            lanes,
            raw_salt_bytes,
            raw_hash_bytes,
        }
    }

    /// The Argon2 variant the hash was produced with.
    pub fn variant(&self) -> (v: Variant)
        ensures
            v == self@.variant,
    {
        self.variant
    }

    /// The Argon2 version the hash was produced with.
    pub fn version(&self) -> (v: Version)
        ensures
            v == self@.version,
    {
        self.version
    }

    /// The memory cost in KiB the hash was produced with.
    pub fn memory_size(&self) -> (m: u32)
        ensures
            m == self@.memory_size,
    {
        self.memory_size
    }

    /// The iteration count the hash was produced with.
    pub fn iterations(&self) -> (t: u32)
        ensures
            t == self@.iterations,
    {
        self.iterations
    }

    /// The lane count the hash was produced with.
    pub fn lanes(&self) -> (p: u32)
        ensures
            p == self@.lanes,
    {
        self.lanes
    }

    /// The raw salt bytes.
    pub fn raw_salt_bytes(&self) -> (b: &[u8])
        ensures
            b@ == self@.salt,
    {
        self.raw_salt_bytes.as_slice()
    }

    /// The raw derived hash bytes.
    pub fn raw_hash_bytes(&self) -> (b: &[u8])
        ensures
            b@ == self@.hash,
    {
        self.raw_hash_bytes.as_slice()
    }
}

/// A fresh vector holding `bytes[start..end]`.
pub fn copy_range(bytes: &[u8], start: usize, end: usize) -> (v: Vec<u8>)
    requires
        start <= end <= bytes@.len(),
    ensures
        v@ == bytes@.subrange(start as int, end as int),
{
    let mut v: Vec<u8> = Vec::new();
    let mut i: usize = start;
    while i < end
        invariant
            start <= i <= end <= bytes@.len(),
            v@ =~= bytes@.subrange(start as int, i as int),
        decreases end - i,
    {
        v.push(bytes[i]);
        i = i + 1;
    }
    proof {
        assert(v@ =~= bytes@.subrange(start as int, end as int));
    }
    v
}

/// The index of the first occurrence of `b` in `s` at or after `from`,
/// or the length of `s` if there is none.
fn find_byte(s: &[u8], b: u8, from: usize) -> (r: usize)
    requires
        from <= s@.len(),
    ensures
        r == find(s@, b, from as int),
        from <= r <= s@.len(),
        r < s@.len() ==> s@[r as int] == b,
{
    let mut i: usize = from;
    while i < s.len()
        invariant
            from <= i <= s@.len(),
            forall|j: int| from <= j < i ==> s@[j] != b,
        decreases s@.len() - i,
    {
        if s[i] == b {
            proof {
                lemma_find_eq(s@, b, from as int, i as int);
            }
            return i;
        }
        i = i + 1;
    }
    proof {
        lemma_find_eq(s@, b, from as int, s@.len() as int);
    }
    s.len()
}

/// Parses `s[start..end]` as a 32-bit decimal field: at least one
/// digit, digits only, value at most `u32::MAX`. Leading zeros are
/// accepted; the value is what counts.
fn parse_u32_seg(s: &[u8], start: usize, end: usize) -> (r: Option<u32>)
    requires
        start <= end <= s@.len(),
    ensures
        r matches Some(n) ==> is_dec_u32(s@.subrange(start as int, end as int)) && n == dec_val(
            s@.subrange(start as int, end as int),
        ),
        r is None ==> !is_dec_u32(s@.subrange(start as int, end as int)),
{
    let ghost seg = s@.subrange(start as int, end as int);
    if start == end {
        return None;
    }
    let mut acc: u32 = 0;
    let mut i: usize = start;
    while i < end
        invariant
            start <= i <= end <= s@.len(),
            seg == s@.subrange(start as int, end as int),
            acc == dec_val(seg.subrange(0, i - start)),
            all_dec_digits(seg.subrange(0, i - start)),
        decreases end - i,
    {
        let ghost k = i - start;
        let byte = s[i];
        proof {
            assert(seg[k as int] == s@[i as int]);
        }
        if byte < 0x30 || byte > 0x39 {
            proof {
                assert(!is_dec_digit(seg[k as int]));
            }
            return None;
        }
        let d: u32 = (byte - 0x30) as u32;
        let wide: u64 = (acc as u64) * 10 + (d as u64);
        proof {
            lemma_dec_val_step(seg, k as int);
        }
        if wide > u32::MAX as u64 {
            proof {
                lemma_dec_val_mono(seg, k as int + 1);
            }
            return None;
        }
        acc = wide as u32;
        i = i + 1;
        proof {
            assert(all_dec_digits(seg.subrange(0, i - start)));
        }
    }
    proof {
        assert(seg.subrange(0, end - start) =~= seg);
    }
    Some(acc)
}

/// The variant named by `s[start..end]`, if it is a recognized token.
fn match_variant(s: &[u8], start: usize, end: usize) -> (r: Option<Variant>)
    requires
        start <= end <= s@.len(),
    ensures
        r == spec_parse_variant(s@.subrange(start as int, end as int)),
{
    let ghost seg = s@.subrange(start as int, end as int);
    let ghost td = variant_token(Variant::Argon2d);
    let ghost ti = variant_token(Variant::Argon2i);
    let ghost tid = variant_token(Variant::Argon2id);
    proof {
        assert(td.len() == 7 && ti.len() == 7 && tid.len() == 8);
        assert(td[0] == 0x61 && td[1] == 0x72 && td[2] == 0x67 && td[3] == 0x6f && td[4] == 0x6e
            && td[5] == 0x32 && td[6] == 0x64);
        assert(ti[0] == 0x61 && ti[1] == 0x72 && ti[2] == 0x67 && ti[3] == 0x6f && ti[4] == 0x6e
            && ti[5] == 0x32 && ti[6] == 0x69);
        assert(tid[0] == 0x61 && tid[1] == 0x72 && tid[2] == 0x67 && tid[3] == 0x6f && tid[4]
            == 0x6e && tid[5] == 0x32 && tid[6] == 0x69 && tid[7] == 0x64);
        assert(seg.len() == end - start);
    }
    let n = end - start;
    if n != 7 && n != 8 {
        return None;
    }
    proof {
        assert(seg[0] == s@[start as int] && seg[1] == s@[start + 1] && seg[2] == s@[start + 2]
            && seg[3] == s@[start + 3] && seg[4] == s@[start + 4] && seg[5] == s@[start + 5]
            && seg[6] == s@[start + 6]);
        if n == 8 {
            assert(seg[7] == s@[start + 7]);
        }
    }
    if s[start] != 0x61 || s[start + 1] != 0x72 || s[start + 2] != 0x67 || s[start + 3] != 0x6f
        || s[start + 4] != 0x6e || s[start + 5] != 0x32 {
        return None;
    }
    if n == 7 {
        if s[start + 6] == 0x64 {
            proof {
                assert(seg =~= td);
            }
            Some(Variant::Argon2d)
        } else if s[start + 6] == 0x69 {
            proof {
                assert(seg =~= ti);
            }
            Some(Variant::Argon2i)
        } else {
            None
        }
    } else {
        if s[start + 6] == 0x69 && s[start + 7] == 0x64 {
            proof {
                assert(seg =~= tid);
            }
            Some(Variant::Argon2id)
        } else {
            None
        }
    }
}

/// The version named by `s[start..end]`, if it is a recognized token.
fn match_version(s: &[u8], start: usize, end: usize) -> (r: Option<Version>)
    requires
        start <= end <= s@.len(),
    ensures
        r == spec_parse_version(s@.subrange(start as int, end as int)),
{
    let ghost seg = s@.subrange(start as int, end as int);
    let ghost t10 = version_token(Version::_0x10);
    let ghost t13 = version_token(Version::_0x13);
    proof {
        assert(t10.len() == 2 && t10[0] == 0x31 && t10[1] == 0x36);
        assert(t13.len() == 2 && t13[0] == 0x31 && t13[1] == 0x39);
        assert(seg.len() == end - start);
    }
    if end - start != 2 {
        return None;
    }
    proof {
        assert(seg[0] == s@[start as int] && seg[1] == s@[start + 1]);
    }
    if s[start] != 0x31 {
        return None;
    }
    if s[start + 1] == 0x36 {
        proof {
            assert(seg =~= t10);
        }
        Some(Version::_0x10)
    } else if s[start + 1] == 0x39 {
        proof {
            assert(seg =~= t13);
        }
        Some(Version::_0x13)
    } else {
        None
    }
}

/// The indices that the structural parse of a byte string yields: the
/// parsed scalar fields plus where the two base64 payload segments lie.
struct ParsedIdx {
    variant: Variant,
    version: Version,
    memory_size: u32,
    iterations: u32,
    lanes: u32,
    salt_start: usize,
    salt_end: usize,
    hash_start: usize,
}

/// Runs the structural grammar [`spec_parse`] over `s`.
#[verifier::rlimit(40)]
fn parse_hash(s: &[u8]) -> (r: Option<ParsedIdx>)
    ensures
        r matches Some(p) ==> (spec_parse(s@) matches Some(f) && f.variant == p.variant
            && f.version == p.version && f.memory_size == p.memory_size && f.iterations
            == p.iterations && f.lanes == p.lanes && p.salt_start <= p.salt_end < p.hash_start
            <= s@.len() && f.salt_b64 == s@.subrange(p.salt_start as int, p.salt_end as int)
            && f.hash_b64 == s@.subrange(p.hash_start as int, s@.len() as int)),
        r is None ==> spec_parse(s@) is None,
{
    if s.len() < 1 || s[0] != DOLLAR {
        return None;
    }
    let i1 = find_byte(s, DOLLAR, 1);
    if i1 >= s.len() {
        return None;
    }
    let variant = match match_variant(s, 1, i1) {
        Some(v) => v,
        None => {
            return None;
        },
    };
    if s.len() - i1 < 3 || s[i1 + 1] != LOWER_V || s[i1 + 2] != EQUALS {
        return None;
    }
    let i2 = find_byte(s, DOLLAR, i1 + 3);
    if i2 >= s.len() {
        return None;
    }
    let version = match match_version(s, i1 + 3, i2) {
        Some(v) => v,
        None => {
            return None;
        },
    };
    if s.len() - i2 < 3 || s[i2 + 1] != LOWER_M || s[i2 + 2] != EQUALS {
        return None;
    }
    let i3 = find_byte(s, COMMA, i2 + 3);
    if i3 >= s.len() {
        return None;
    }
    let memory_size = match parse_u32_seg(s, i2 + 3, i3) {
        Some(n) => n,
        None => {
            return None;
        },
    };
    if s.len() - i3 < 3 || s[i3 + 1] != LOWER_T || s[i3 + 2] != EQUALS {
        return None;
    }
    let i4 = find_byte(s, COMMA, i3 + 3);
    if i4 >= s.len() {
        return None;
    }
    let iterations = match parse_u32_seg(s, i3 + 3, i4) {
        Some(n) => n,
        None => {
            return None;
        },
    };
    if s.len() - i4 < 3 || s[i4 + 1] != LOWER_P || s[i4 + 2] != EQUALS {
        return None;
    }
    let i5 = find_byte(s, DOLLAR, i4 + 3);
    if i5 >= s.len() {
        return None;
    }
    let lanes = match parse_u32_seg(s, i4 + 3, i5) {
        Some(n) => n,
        None => {
            return None;
        },
    };
    let i6 = find_byte(s, DOLLAR, i5 + 1);
    if i6 >= s.len() {
        return None;
    }
    Some(
        ParsedIdx {
            variant,
            version,
            memory_size,
            iterations,
            lanes,
            salt_start: i5 + 1,
            salt_end: i6,
            hash_start: i6 + 1,
        },
    )
}

/// Whether an encoded string can be decoded at all: the structural
/// grammar accepts it and both payload segments are canonical unpadded
/// base64.
pub open spec fn spec_decodable(s: Seq<u8>) -> bool {
    &&& spec_parse(s) matches Some(f)
    &&& (exists|sb: Seq<u8>| f.salt_b64 == b64_nopad_bytes(sb))
    &&& (exists|hb: Seq<u8>| f.hash_b64 == b64_nopad_bytes(hb))
}

/// The round-trip law of the codec, stated of a decode result `r` for
/// the input bytes `s`: whenever `s` is the canonical encoding of some
/// record, the decode must succeed and return exactly that record. The
/// two `seg_ok` premises record what [`encode_rust`] guarantees of its
/// base64 payloads.
pub open spec fn decodes_all_encodings(s: Seq<u8>, r: Result<HashRaw, Error>) -> bool {
    forall|hv: HashRawView|
        (s == #[trigger] spec_encoded(hv) && seg_ok(b64_nopad_bytes(hv.salt)) && seg_ok(
            b64_nopad_bytes(hv.hash),
        )) ==> (r matches Ok(h) && h@ == hv)
}

/// The value-level decode over raw bytes: the structural parse
/// followed by the base64 decode of the two payload segments. The
/// contract pins the result completely: success exactly on decodable
/// inputs, and then the unique record whose encoding the input is.
#[verifier::rlimit(60)]
fn decode_bytes(bytes: &[u8]) -> (r: Result<HashRaw, ()>)
    ensures
        r matches Ok(h) ==> (spec_parse(bytes@) matches Some(f) && h@.variant == f.variant
            && h@.version == f.version && h@.memory_size == f.memory_size && h@.iterations
            == f.iterations && h@.lanes == f.lanes && f.salt_b64 == b64_nopad_bytes(h@.salt)
            && f.hash_b64 == b64_nopad_bytes(h@.hash)),
        r matches Ok(h) ==> (spec_parse(bytes@) matches Some(f) && (forall|sb2: Seq<u8>|
            f.salt_b64 == b64_nopad_bytes(sb2) ==> sb2 == h@.salt) && (forall|hb2: Seq<u8>|
            f.hash_b64 == b64_nopad_bytes(hb2) ==> hb2 == h@.hash)),
        r is Ok <==> spec_decodable(bytes@),
{
    let parsed = match parse_hash(bytes) {
        Some(p) => p,
        None => {
            return Err(());
        },
    };
    let salt_seg = copy_range(bytes, parsed.salt_start, parsed.salt_end);
    let salt = match nopad_decode(salt_seg.as_slice()) {
        Some(v) => v,
        None => {
            return Err(());
        },
    };
    let hash_seg = copy_range(bytes, parsed.hash_start, bytes.len());
    let hash_bytes = match nopad_decode(hash_seg.as_slice()) {
        Some(v) => v,
        None => {
            return Err(());
        },
    };
    Ok(
        HashRaw::new(
            parsed.variant,
            parsed.version,
            parsed.memory_size,
            parsed.iterations,
            parsed.lanes,
            salt,
            hash_bytes,
        ),
    )
}

/// The round-trip clause follows from the exactness clauses alone: a
/// decode that succeeds exactly on decodable inputs and returns the
/// unique base64 preimages must map the canonical encoding of any
/// record back to that record.
proof fn lemma_round_trip_of_decode(s: Seq<u8>, r: Result<HashRaw, Error>)
    requires
        r is Ok <==> spec_decodable(s),
        r matches Ok(h) ==> (spec_parse(s) matches Some(f) && h@.variant == f.variant
            && h@.version == f.version && h@.memory_size == f.memory_size && h@.iterations
            == f.iterations && h@.lanes == f.lanes && f.salt_b64 == b64_nopad_bytes(h@.salt)
            && f.hash_b64 == b64_nopad_bytes(h@.hash)),
        r matches Ok(h) ==> (spec_parse(s) matches Some(f) && (forall|sb2: Seq<u8>| f.salt_b64
            == b64_nopad_bytes(sb2) ==> sb2 == h@.salt) && (forall|hb2: Seq<u8>| f.hash_b64
            == b64_nopad_bytes(hb2) ==> hb2 == h@.hash)),
    ensures
        decodes_all_encodings(s, r),
{
    assert forall|hv: HashRawView|
        (s == #[trigger] spec_encoded(hv) && seg_ok(b64_nopad_bytes(hv.salt)) && seg_ok(
            b64_nopad_bytes(hv.hash),
        )) implies (r matches Ok(h2) && h2@ == hv) by {
        lemma_parse_of_encoding(
            hv.variant,
            hv.version,
            hv.memory_size,
            hv.iterations,
            hv.lanes,
            b64_nopad_bytes(hv.salt),
            b64_nopad_bytes(hv.hash),
        );
    }
}

/// Decodes an encoded hash string into a [`HashRaw`] record.
///
/// Succeeds exactly on strings the grammar accepts whose payload
/// segments are canonical unpadded base64; every failure is one
/// `HashDecodeError` carrying the offending string, with no partial
/// recovery and no default substitution. The final clause is the codec
/// round trip: the canonical encoding of any record decodes back to
/// exactly that record.
pub fn decode_rust(hash: &str) -> (r: Result<HashRaw, Error>)
    ensures
        r matches Ok(h) ==> (spec_parse(hash.spec_bytes()) matches Some(f) && h@.variant
            == f.variant && h@.version == f.version && h@.memory_size == f.memory_size
            && h@.iterations == f.iterations && h@.lanes == f.lanes && f.salt_b64
            == b64_nopad_bytes(h@.salt) && f.hash_b64 == b64_nopad_bytes(h@.hash)),
        r matches Ok(h) ==> (spec_parse(hash.spec_bytes()) matches Some(f) && (forall|
            sb2: Seq<u8>,
        | f.salt_b64 == b64_nopad_bytes(sb2) ==> sb2 == h@.salt) && (forall|hb2: Seq<u8>|
            f.hash_b64 == b64_nopad_bytes(hb2) ==> hb2 == h@.hash)),
        r is Ok <==> spec_decodable(hash.spec_bytes()),
        r matches Err(e) ==> e.spec_kind() == ErrorKind::HashDecodeError && e.spec_context()
            == hash@,
        decodes_all_encodings(hash.spec_bytes(), r),
{
    let bytes = s_as_bytes(hash);
    let r: Result<HashRaw, Error> = match decode_bytes(bytes) {
        Ok(h) => Ok(h),
        Err(()) => Err(Error::new(ErrorKind::HashDecodeError).add_context(hash.to_owned())),
    };
    proof {
        lemma_round_trip_of_decode(hash.spec_bytes(), r);
    }
    r
}

/// Relies on `str::as_bytes` through vstd's specification of it: the
/// UTF-8 byte view of the string.
fn s_as_bytes(s: &str) -> (b: &[u8])
    ensures
        b@ == s.spec_bytes(),
{
    s.as_bytes()
}

/// Every variant token parses back to its variant, is 7 or 8 bytes
/// long, and consists of bytes strictly between the delimiters and the
/// digits (so none of them is `$`, `,` or a digit).
proof fn lemma_variant_token_facts(variant: Variant)
    ensures
        spec_parse_variant(variant_token(variant)) == Some(variant),
        7 <= variant_token(variant).len() <= 8,
        forall|i: int|
            0 <= i < variant_token(variant).len() ==> 0x32 <= #[trigger] variant_token(variant)[i]
                < 0x7b,
{
    let td = variant_token(Variant::Argon2d);
    let ti = variant_token(Variant::Argon2i);
    let tid = variant_token(Variant::Argon2id);
    assert(td.len() == 7 && ti.len() == 7 && tid.len() == 8);
    assert(td[0] == 0x61 && td[1] == 0x72 && td[2] == 0x67 && td[3] == 0x6f && td[4] == 0x6e
        && td[5] == 0x32 && td[6] == 0x64);
    assert(ti[0] == 0x61 && ti[1] == 0x72 && ti[2] == 0x67 && ti[3] == 0x6f && ti[4] == 0x6e
        && ti[5] == 0x32 && ti[6] == 0x69);
    assert(tid[0] == 0x61 && tid[1] == 0x72 && tid[2] == 0x67 && tid[3] == 0x6f && tid[4] == 0x6e
        && tid[5] == 0x32 && tid[6] == 0x69 && tid[7] == 0x64);
    match variant {
        Variant::Argon2d => {
            assert forall|i: int| 0 <= i < td.len() implies 0x32 <= #[trigger] td[i] < 0x7b by {}
        },
        Variant::Argon2i => {
            assert(ti != td);
            assert forall|i: int| 0 <= i < ti.len() implies 0x32 <= #[trigger] ti[i] < 0x7b by {}
        },
        Variant::Argon2id => {
            assert(tid != td && tid != ti);
            assert forall|i: int| 0 <= i < tid.len() implies 0x32 <= #[trigger] tid[i]
                < 0x7b by {}
        },
    }
}

/// Every version token parses back to its version, and is two decimal
/// digits.
proof fn lemma_version_token_facts(version: Version)
    ensures
        spec_parse_version(version_token(version)) == Some(version),
        version_token(version).len() == 2,
        all_dec_digits(version_token(version)),
{
    let t10 = version_token(Version::_0x10);
    let t13 = version_token(Version::_0x13);
    assert(t10.len() == 2 && t10[0] == 0x31 && t10[1] == 0x36);
    assert(t13.len() == 2 && t13[0] == 0x31 && t13[1] == 0x39);
    match version {
        Version::_0x10 => {
            assert forall|i: int| 0 <= i < t10.len() implies is_dec_digit(#[trigger] t10[i]) by {}
        },
        Version::_0x13 => {
            assert(t13 != t10);
            assert forall|i: int| 0 <= i < t13.len() implies is_dec_digit(#[trigger] t13[i]) by {}
        },
    }
}

/// The completeness half of the codec: the structural grammar accepts
/// an assembled encoding and reads back exactly the fields it was built
/// from, provided the two payload segments hold only base64-alphabet
/// bytes (which excludes both delimiters).
#[verifier::rlimit(100)]
pub proof fn lemma_parse_of_encoding(
    variant: Variant,
    version: Version,
    m: u32,
    t: u32,
    p: u32,
    salt_b64: Seq<u8>,
    hash_b64: Seq<u8>,
)
    requires
        seg_ok(salt_b64),
        seg_ok(hash_b64),
    ensures
        spec_parse(
            encoded_with(
                variant,
                version,
                dec_repr(m as nat),
                dec_repr(t as nat),
                dec_repr(p as nat),
                salt_b64,
                hash_b64,
            ),
        ) == Some(
            ParsedFields {
                variant,
                version,
                memory_size: m,
                iterations: t,
                lanes: p,
                salt_b64,
                hash_b64,
            },
        ),
{
    let vt = variant_token(variant);
    let vr = version_token(version);
    let dm = dec_repr(m as nat);
    let dt = dec_repr(t as nat);
    let dp = dec_repr(p as nat);
    lemma_variant_token_facts(variant);
    lemma_version_token_facts(version);
    lemma_dec_repr_digits(m as nat);
    lemma_dec_repr_digits(t as nat);
    lemma_dec_repr_digits(p as nat);
    lemma_dec_val_of_repr(m as nat);
    lemma_dec_val_of_repr(t as nat);
    lemma_dec_val_of_repr(p as nat);
    let e1 = seq![DOLLAR] + vt;
    let e2 = e1 + seq![DOLLAR, LOWER_V, EQUALS];
    let e3 = e2 + vr;
    let e4 = e3 + seq![DOLLAR, LOWER_M, EQUALS];
    let e5 = e4 + dm;
    let e6 = e5 + seq![COMMA, LOWER_T, EQUALS];
    let e7 = e6 + dt;
    let e8 = e7 + seq![COMMA, LOWER_P, EQUALS];
    let e9 = e8 + dp;
    let e10 = e9 + seq![DOLLAR];
    let e11 = e10 + salt_b64;
    let e12 = e11 + seq![DOLLAR];
    let s = e12 + hash_b64;
    assert(s == encoded_with(variant, version, dm, dt, dp, salt_b64, hash_b64));
    let lv = vt.len() as int;
    let lm = dm.len() as int;
    let lt = dt.len() as int;
    let lp = dp.len() as int;
    let ls = salt_b64.len() as int;
    let lh = hash_b64.len() as int;
    let i1 = 1 + lv;
    let i2 = i1 + 5;
    let i3 = i2 + 3 + lm;
    let i4 = i3 + 3 + lt;
    let i5 = i4 + 3 + lp;
    let i6 = i5 + 1 + ls;
    let n = i6 + 1 + lh;
    assert(s.len() == n);
    // The literal delimiter bytes stand exactly at the boundaries.
    assert(s[0] == DOLLAR);
    assert(s[i1] == DOLLAR && s[i1 + 1] == LOWER_V && s[i1 + 2] == EQUALS);
    assert(s[i2] == DOLLAR && s[i2 + 1] == LOWER_M && s[i2 + 2] == EQUALS);
    assert(s[i3] == COMMA && s[i3 + 1] == LOWER_T && s[i3 + 2] == EQUALS);
    assert(s[i4] == COMMA && s[i4 + 1] == LOWER_P && s[i4 + 2] == EQUALS);
    assert(s[i5] == DOLLAR);
    assert(s[i6] == DOLLAR);
    // Each field occupies its range.
    assert forall|j: int| 1 <= j < i1 implies s[j] == vt[j - 1] by {}
    assert forall|j: int| i1 + 3 <= j < i2 implies s[j] == vr[j - (i1 + 3)] by {}
    assert forall|j: int| i2 + 3 <= j < i3 implies s[j] == dm[j - (i2 + 3)] by {}
    assert forall|j: int| i3 + 3 <= j < i4 implies s[j] == dt[j - (i3 + 3)] by {}
    assert forall|j: int| i4 + 3 <= j < i5 implies s[j] == dp[j - (i4 + 3)] by {}
    assert forall|j: int| i5 + 1 <= j < i6 implies s[j] == salt_b64[j - (i5 + 1)] by {}
    assert forall|j: int| i6 + 1 <= j < n implies s[j] == hash_b64[j - (i6 + 1)] by {}
    // No delimiter occurs inside a field, so each scan stops at its
    // boundary.
    assert forall|j: int| 1 <= j < i1 implies s[j] != DOLLAR by {
        assert(0x32 <= vt[j - 1] < 0x7b);
    }
    lemma_find_eq(s, DOLLAR, 1, i1);
    assert forall|j: int| i1 + 3 <= j < i2 implies s[j] != DOLLAR by {
        assert(is_dec_digit(vr[j - (i1 + 3)]));
    }
    lemma_find_eq(s, DOLLAR, i1 + 3, i2);
    assert forall|j: int| i2 + 3 <= j < i3 implies s[j] != COMMA by {
        assert(is_dec_digit(dm[j - (i2 + 3)]));
    }
    lemma_find_eq(s, COMMA, i2 + 3, i3);
    assert forall|j: int| i3 + 3 <= j < i4 implies s[j] != COMMA by {
        assert(is_dec_digit(dt[j - (i3 + 3)]));
    }
    lemma_find_eq(s, COMMA, i3 + 3, i4);
    assert forall|j: int| i4 + 3 <= j < i5 implies s[j] != DOLLAR by {
        assert(is_dec_digit(dp[j - (i4 + 3)]));
    }
    lemma_find_eq(s, DOLLAR, i4 + 3, i5);
    assert forall|j: int| i5 + 1 <= j < i6 implies s[j] != DOLLAR by {
        assert(is_b64_byte(salt_b64[j - (i5 + 1)]));
    }
    lemma_find_eq(s, DOLLAR, i5 + 1, i6);
    // The subranges between the boundaries are the fields themselves.
    assert(s.subrange(1, i1) =~= vt);
    assert(s.subrange(i1 + 3, i2) =~= vr);
    assert(s.subrange(i2 + 3, i3) =~= dm);
    assert(s.subrange(i3 + 3, i4) =~= dt);
    assert(s.subrange(i4 + 3, i5) =~= dp);
    assert(s.subrange(i5 + 1, i6) =~= salt_b64);
    assert(s.subrange(i6 + 1, n) =~= hash_b64);
    assert(is_dec_u32(dm) && is_dec_u32(dt) && is_dec_u32(dp));
    assert(spec_parse(s) == Some(
        ParsedFields {
            variant,
            version,
            memory_size: m,
            iterations: t,
            lanes: p,
            salt_b64,
            hash_b64,
        },
    ));
}

/// Whether every byte of `s` is ASCII.
pub open spec fn ascii_seq(s: Seq<u8>) -> bool {
    forall|i: int| 0 <= i < s.len() ==> #[trigger] s[i] < 0x80
}

/// ASCII is preserved by concatenation.
proof fn lemma_ascii_concat(a: Seq<u8>, b: Seq<u8>)
    requires
        ascii_seq(a),
        ascii_seq(b),
    ensures
        ascii_seq(a + b),
{
    assert forall|i: int| 0 <= i < (a + b).len() implies #[trigger] (a + b)[i] < 0x80 by {
        if i < a.len() {
            assert((a + b)[i] == a[i]);
        } else {
            assert((a + b)[i] == b[i - a.len()]);
        }
    }
}

/// Decimal digits are ASCII.
proof fn lemma_digits_ascii(s: Seq<u8>)
    requires
        all_dec_digits(s),
    ensures
        ascii_seq(s),
{
}

/// Base64-alphabet bytes are ASCII.
proof fn lemma_seg_ascii(s: Seq<u8>)
    requires
        seg_ok(s),
    ensures
        ascii_seq(s),
{
}

/// Relies on `String::from_utf8`: ASCII bytes are valid UTF-8, so the
/// conversion succeeds and the returned string views exactly the bytes
/// it was built from.
#[verifier::external_body]
fn string_from_ascii(v: Vec<u8>) -> (r: String)
    requires
        ascii_seq(v@),
    ensures
        encode_utf8(r@) == v@,
{
    match String::from_utf8(v) {
        Ok(s) => s,
        Err(_) => String::new(),
    }
}

/// Appends the token of `variant`.
fn push_variant(out: &mut Vec<u8>, variant: Variant)
    ensures
        final(out)@ == old(out)@ + variant_token(variant),
{
    match variant {
        Variant::Argon2d => {
            out.push(0x61);
            out.push(0x72);
            out.push(0x67);
            out.push(0x6f);
            out.push(0x6e);
            out.push(0x32);
            out.push(0x64);
        },
        Variant::Argon2i => {
            out.push(0x61);
            out.push(0x72);
            out.push(0x67);
            out.push(0x6f);
            out.push(0x6e);
            out.push(0x32);
            out.push(0x69);
        },
        Variant::Argon2id => {
            out.push(0x61);
            out.push(0x72);
            out.push(0x67);
            out.push(0x6f);
            out.push(0x6e);
            out.push(0x32);
            out.push(0x69);
            out.push(0x64);
        },
    }
    proof {
        assert(out@ =~= old(out)@ + variant_token(variant));
    }
}

/// Appends the token of `version`.
fn push_version(out: &mut Vec<u8>, version: Version)
    ensures
        final(out)@ == old(out)@ + version_token(version),
{
    match version {
        Version::_0x10 => {
            out.push(0x31);
            out.push(0x36);
        },
        Version::_0x13 => {
            out.push(0x31);
            out.push(0x39);
        },
    }
    proof {
        assert(out@ =~= old(out)@ + version_token(version));
    }
}

/// Appends the canonical decimal digits of `n`.
fn push_dec(out: &mut Vec<u8>, n: u64)
    ensures
        final(out)@ == old(out)@ + dec_repr(n as nat),
    decreases n,
{
    if n < 10 {
        out.push(0x30 + n as u8);
        proof {
            assert(out@ =~= old(out)@ + dec_repr(n as nat));
        }
    } else {
        push_dec(out, n / 10);
        out.push(0x30 + (n % 10) as u8);
        proof {
            assert(out@ =~= old(out)@ + dec_repr(n as nat));
        }
    }
}

/// The canonical decimal digits of `n`, as a string: how a numeric
/// value is rendered into human-readable error context.
pub fn dec_string(n: u64) -> (r: String)
    ensures
        encode_utf8(r@) == dec_repr(n as nat),
{
    let mut out: Vec<u8> = Vec::new();
    push_dec(&mut out, n);
    proof {
        lemma_dec_repr_digits(n as nat);
        assert(out@ =~= dec_repr(n as nat));
        lemma_digits_ascii(out@);
    }
    string_from_ascii(out)
}

/// Appends all of `piece`.
fn append_bytes(out: &mut Vec<u8>, piece: &[u8])
    ensures
        final(out)@ == old(out)@ + piece@,
{
    let mut i: usize = 0;
    while i < piece.len()
        invariant
            i <= piece@.len(),
            out@ =~= old(out)@ + piece@.subrange(0, i as int),
        decreases piece@.len() - i,
    {
        out.push(piece[i]);
        i = i + 1;
        proof {
            assert(out@ =~= old(out)@ + piece@.subrange(0, i as int));
        }
    }
    proof {
        assert(out@ =~= old(out)@ + piece@);
    }
}

/// Encodes a [`HashRaw`] record into its canonical textual form:
/// `$<variant>$v=<version>$m=<memory>,t=<iterations>,p=<lanes>$<salt>$<hash>`
/// with unpadded standard base64 payloads and canonical decimal digits.
/// The two `seg_ok` clauses record that base64 payloads never contain a
/// delimiter, which is what feeds the round-trip clause of
/// [`decode_rust`].
#[verifier::rlimit(60)]
pub fn encode_rust(h: &HashRaw) -> (r: String)
    ensures
        encode_utf8(r@) == spec_encoded(h@),
        seg_ok(b64_nopad_bytes(h@.salt)),
        seg_ok(b64_nopad_bytes(h@.hash)),
        ascii_seq(spec_encoded(h@)),
{
    proof {
        lemma_variant_token_facts(h@.variant);
        lemma_version_token_facts(h@.version);
        lemma_dec_repr_digits(h@.memory_size as nat);
        lemma_dec_repr_digits(h@.iterations as nat);
        lemma_dec_repr_digits(h@.lanes as nat);
    }
    let mut out: Vec<u8> = Vec::new();
    out.push(DOLLAR);
    proof {
        assert(out@ =~= seq![DOLLAR]);
    }
    push_variant(&mut out, h.variant);
    let ghost c1 = seq![DOLLAR] + variant_token(h@.variant);
    proof {
        assert(out@ == c1);
    }
    out.push(DOLLAR);
    out.push(LOWER_V);
    out.push(EQUALS);
    let ghost c2 = c1 + seq![DOLLAR, LOWER_V, EQUALS];
    proof {
        assert(out@ =~= c2);
    }
    push_version(&mut out, h.version);
    let ghost c3 = c2 + version_token(h@.version);
    proof {
        assert(out@ == c3);
    }
    out.push(DOLLAR);
    out.push(LOWER_M);
    out.push(EQUALS);
    let ghost c4 = c3 + seq![DOLLAR, LOWER_M, EQUALS];
    proof {
        assert(out@ =~= c4);
    }
    push_dec(&mut out, h.memory_size as u64);
    let ghost c5 = c4 + dec_repr(h@.memory_size as nat);
    proof {
        assert(out@ == c5);
    }
    out.push(COMMA);
    out.push(LOWER_T);
    out.push(EQUALS);
    let ghost c6 = c5 + seq![COMMA, LOWER_T, EQUALS];
    proof {
        assert(out@ =~= c6);
    }
    push_dec(&mut out, h.iterations as u64);
    let ghost c7 = c6 + dec_repr(h@.iterations as nat);
    proof {
        assert(out@ == c7);
    }
    out.push(COMMA);
    out.push(LOWER_P);
    out.push(EQUALS);
    let ghost c8 = c7 + seq![COMMA, LOWER_P, EQUALS];
    proof {
        assert(out@ =~= c8);
    }
    push_dec(&mut out, h.lanes as u64);
    let ghost c9 = c8 + dec_repr(h@.lanes as nat);
    proof {
        assert(out@ == c9);
    }
    out.push(DOLLAR);
    let ghost c10 = c9 + seq![DOLLAR];
    proof {
        assert(out@ =~= c10);
    }
    let salt_b64 = nopad_encode(h.raw_salt_bytes.as_slice());
    append_bytes(&mut out, salt_b64.as_slice());
    let ghost c11 = c10 + b64_nopad_bytes(h@.salt);
    proof {
        assert(out@ == c11);
    }
    out.push(DOLLAR);
    let ghost c12 = c11 + seq![DOLLAR];
    proof {
        assert(out@ =~= c12);
    }
    let hash_b64 = nopad_encode(h.raw_hash_bytes.as_slice());
    append_bytes(&mut out, hash_b64.as_slice());
    proof {
        assert(out@ == c12 + b64_nopad_bytes(h@.hash));
        assert(out@ == spec_encoded(h@));
        assert(ascii_seq(seq![DOLLAR])) by {
            assert(seq![DOLLAR][0] < 0x80);
        }
        assert(ascii_seq(seq![DOLLAR, LOWER_V, EQUALS])) by {
            assert(seq![DOLLAR, LOWER_V, EQUALS][0] < 0x80);
            assert(seq![DOLLAR, LOWER_V, EQUALS][1] < 0x80);
            assert(seq![DOLLAR, LOWER_V, EQUALS][2] < 0x80);
        }
        assert(ascii_seq(seq![DOLLAR, LOWER_M, EQUALS])) by {
            assert(seq![DOLLAR, LOWER_M, EQUALS][0] < 0x80);
            assert(seq![DOLLAR, LOWER_M, EQUALS][1] < 0x80);
            assert(seq![DOLLAR, LOWER_M, EQUALS][2] < 0x80);
        }
        assert(ascii_seq(seq![COMMA, LOWER_T, EQUALS])) by {
            assert(seq![COMMA, LOWER_T, EQUALS][0] < 0x80);
            assert(seq![COMMA, LOWER_T, EQUALS][1] < 0x80);
            assert(seq![COMMA, LOWER_T, EQUALS][2] < 0x80);
        }
        assert(ascii_seq(seq![COMMA, LOWER_P, EQUALS])) by {
            assert(seq![COMMA, LOWER_P, EQUALS][0] < 0x80);
            assert(seq![COMMA, LOWER_P, EQUALS][1] < 0x80);
            assert(seq![COMMA, LOWER_P, EQUALS][2] < 0x80);
        }
        assert(ascii_seq(variant_token(h@.variant)));
        lemma_digits_ascii(version_token(h@.version));
        lemma_digits_ascii(dec_repr(h@.memory_size as nat));
        lemma_digits_ascii(dec_repr(h@.iterations as nat));
        lemma_digits_ascii(dec_repr(h@.lanes as nat));
        lemma_seg_ascii(b64_nopad_bytes(h@.salt));
        lemma_seg_ascii(b64_nopad_bytes(h@.hash));
        lemma_ascii_concat(seq![DOLLAR], variant_token(h@.variant));
        lemma_ascii_concat(c1, seq![DOLLAR, LOWER_V, EQUALS]);
        lemma_ascii_concat(c2, version_token(h@.version));
        lemma_ascii_concat(c3, seq![DOLLAR, LOWER_M, EQUALS]);
        lemma_ascii_concat(c4, dec_repr(h@.memory_size as nat));
        lemma_ascii_concat(c5, seq![COMMA, LOWER_T, EQUALS]);
        lemma_ascii_concat(c6, dec_repr(h@.iterations as nat));
        lemma_ascii_concat(c7, seq![COMMA, LOWER_P, EQUALS]);
        lemma_ascii_concat(c8, dec_repr(h@.lanes as nat));
        lemma_ascii_concat(c9, seq![DOLLAR]);
        lemma_ascii_concat(c10, b64_nopad_bytes(h@.salt));
        lemma_ascii_concat(c11, seq![DOLLAR]);
        lemma_ascii_concat(c12, b64_nopad_bytes(h@.hash));
    }
    string_from_ascii(out)
}

/// The codec round trip, in one statement: a decode of the canonical
/// encoding of any record yields exactly that record.
///
/// The premises are exactly what the two codec functions promise:
/// [`encode_rust`] guarantees that its output is `spec_encoded` of the
/// record and that both base64 payloads satisfy `seg_ok`, and
/// [`decode_rust`] guarantees `decodes_all_encodings` of its input and
/// result. So for every record `hv`, decoding what `encode_rust`
/// produced for it gives `Ok` of a record equal to `hv`.
pub proof fn lemma_codec_round_trip(hv: HashRawView, r: Result<HashRaw, Error>)
    requires
        seg_ok(b64_nopad_bytes(hv.salt)),
        seg_ok(b64_nopad_bytes(hv.hash)),
        decodes_all_encodings(spec_encoded(hv), r),
    ensures
        r matches Ok(h) && h@ == hv,
{
    assert(spec_encoded(hv) == spec_encoded(hv));
}

/// An encoded string whose variant token is not one of the recognized
/// tokens never parses: an unrecognized variant is a decode error,
/// never a default substitution. The token of a string that starts
/// with `$` is what stands between that `$` and the next.
pub proof fn lemma_unknown_variant_rejected(s: Seq<u8>)
    requires
        s.len() >= 1,
        s[0] == DOLLAR,
        spec_parse_variant(s.subrange(1, find(s, DOLLAR, 1))) is None,
    ensures
        spec_parse(s) is None,
{
}

} // verus!
