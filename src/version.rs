use vstd::prelude::*;

use crate::bytes::pow256;

verus! {

/// The packed version word of the plugin ABI: `[reserved:8][major:8][minor:8][patch:8]`.
#[derive(Debug, Clone, Copy, PartialEq, Eq, Structural)]
pub struct ErrorModelAPIVersion {
    /// Reserved for future use, must be 0.
    pub reserved: u8,
    /// Major version of the API.
    pub major: u8,
    /// Minor version of the API.
    pub minor: u8,
    /// Patch version of the API.
    pub patch: u8,
}

/// Major version of the API that this host speaks.
pub const CURRENT_API_MAJOR: u8 = 0;

/// Minor version of the API that this host speaks.
pub const CURRENT_API_MINOR: u8 = 2;

/// Patch version of the API that this host speaks.
pub const CURRENT_API_PATCH: u8 = 0;

/// The version of the API that this host speaks.
pub fn current_api_version() -> (r: ErrorModelAPIVersion)
    ensures
        r == (ErrorModelAPIVersion {
            reserved: 0,
            major: CURRENT_API_MAJOR,
            minor: CURRENT_API_MINOR,
            patch: CURRENT_API_PATCH,
        }),
{
    ErrorModelAPIVersion {
        reserved: 0,
        major: CURRENT_API_MAJOR,
        minor: CURRENT_API_MINOR,
        patch: CURRENT_API_PATCH,
    }
}

/// Why a plugin's reported version was refused.
#[derive(Debug, Clone, Copy, PartialEq, Eq, Structural)]
pub enum VersionError {
    /// The reserved byte was not zero; holds the byte found.
    NonZeroReserved(u8),
    /// The major version differs: `expected`, then `found`.
    MajorMismatch { expected: u8, found: u8 },
    /// The minor version differs: `expected`, then `found`.
    MinorMismatch { expected: u8, found: u8 },
}

/// The version that a word packs: its four low bytes, most significant first.
pub open spec fn unpacked(v: u64) -> ErrorModelAPIVersion {
    ErrorModelAPIVersion {
        reserved: byte_of(v, 3),
        major: byte_of(v, 2),
        minor: byte_of(v, 1),
        patch: byte_of(v, 0),
    }
}

/// The integer value of a packed version word.
pub open spec fn packed_word(reserved: u8, major: u8, minor: u8, patch: u8) -> nat {
    reserved as nat * 0x1000000 + major as nat * 0x10000 + minor as nat * 0x100 + patch as nat
}

/// The `n`-th byte of `v`, counting from the least significant one.
pub open spec fn byte_of(v: u64, n: nat) -> u8 {
    ((v as nat / pow256(n)) % 256) as u8
}

impl ErrorModelAPIVersion {
    /// The result of `validate`: which check refuses this version, if any.
    pub open spec fn spec_validate(self) -> Result<(), VersionError> {
        if self.reserved != 0 {
            Err(VersionError::NonZeroReserved(self.reserved))
        } else if self.major != CURRENT_API_MAJOR {
            Err(VersionError::MajorMismatch { expected: CURRENT_API_MAJOR, found: self.major })
        } else if self.minor != CURRENT_API_MINOR {
            Err(VersionError::MinorMismatch { expected: CURRENT_API_MINOR, found: self.minor })
        } else {
            Ok(())
        }
    }

    /// Accepts exactly the versions with reserved byte 0 and the host's major and
    /// minor version; the patch level is not constrained.
    pub fn validate(&self) -> (r: Result<(), VersionError>)
        ensures
            r == self.spec_validate(),
            r is Ok <==> (self.reserved == 0 && self.major == CURRENT_API_MAJOR
                && self.minor == CURRENT_API_MINOR),
    {
        if self.reserved != 0 {
            return Err(VersionError::NonZeroReserved(self.reserved));
        }
        if self.major != CURRENT_API_MAJOR {
            return Err(
                VersionError::MajorMismatch { expected: CURRENT_API_MAJOR, found: self.major },
            );
        }
        if self.minor != CURRENT_API_MINOR {
            return Err(
                VersionError::MinorMismatch { expected: CURRENT_API_MINOR, found: self.minor },
            );
        }
        Ok(())
    }

    /// The packed word of this version.
    pub open spec fn spec_word(self) -> nat {
        packed_word(self.reserved, self.major, self.minor, self.patch)
    }
}

impl From<u64> for ErrorModelAPIVersion {
    /// Splits the low 32 bits of a word into its four bytes, most significant first.
    fn from(value: u64) -> (r: Self) {
        let r = Self {
            reserved: ((value >> 24u64) & 255) as u8,
            major: ((value >> 16u64) & 255) as u8,
            minor: ((value >> 8u64) & 255) as u8,
            patch: (value & 255) as u8,
        };
        proof {
            lemma_unpack(value);
        }
        r
    }
}

impl vstd::std_specs::convert::FromSpecImpl<u64> for ErrorModelAPIVersion {
    open spec fn obeys_from_spec() -> bool {
        true
    }

    open spec fn from_spec(v: u64) -> Self {
        unpacked(v)
    }
}

impl From<ErrorModelAPIVersion> for u64 {
    /// Packs the four bytes into a word, reserved byte most significant.
    fn from(value: ErrorModelAPIVersion) -> (r: u64) {
        let r = ((value.reserved as u64) << 24u64) | ((value.major as u64) << 16u64) | ((
        value.minor as u64) << 8u64) | (value.patch as u64);
        proof {
            lemma_pack(value.reserved, value.major, value.minor, value.patch);
        }
        r
    }
}

impl vstd::std_specs::convert::FromSpecImpl<ErrorModelAPIVersion> for u64 {
    open spec fn obeys_from_spec() -> bool {
        true
    }

    open spec fn from_spec(v: ErrorModelAPIVersion) -> u64 {
        v.spec_word() as u64
    }
}

proof fn lemma_pow256()
    ensures
        pow256(0) == 1,
        pow256(1) == 0x100,
        pow256(2) == 0x10000,
        pow256(3) == 0x1000000,
{
    reveal_with_fuel(pow256, 4);
}

proof fn lemma_unpack(v: u64)
    ensures
        ((v >> 24u64) & 255) as u8 == byte_of(v, 3),
        ((v >> 16u64) & 255) as u8 == byte_of(v, 2),
        ((v >> 8u64) & 255) as u8 == byte_of(v, 1),
        (v & 255) as u8 == byte_of(v, 0),
{
    lemma_pow256();
    assert(((v >> 24u64) & 255) == (v / 0x1000000) % 256) by (bit_vector);
    assert(((v >> 16u64) & 255) == (v / 0x10000) % 256) by (bit_vector);
    assert(((v >> 8u64) & 255) == (v / 0x100) % 256) by (bit_vector);
    assert((v & 255) == v % 256) by (bit_vector);
}

proof fn lemma_pack(a: u8, b: u8, c: u8, d: u8)
    ensures
        ((a as u64) << 24u64) | ((b as u64) << 16u64) | ((c as u64) << 8u64) | (d as u64)
            == packed_word(a, b, c, d),
{
    let (a64, b64, c64, d64) = (a as u64, b as u64, c as u64, d as u64);
    assert(a64 < 256 && b64 < 256 && c64 < 256 && d64 < 256);
    assert(a64 < 256 && b64 < 256 && c64 < 256 && d64 < 256 ==> (a64 << 24u64) | (b64 << 16u64)
        | (c64 << 8u64) | d64 == a64 * 0x1000000 + b64 * 0x10000 + c64 * 0x100 + d64)
        by (bit_vector);
}

/// Packing a version and unpacking the word gives the same version back.
pub proof fn lemma_version_round_trip(v: ErrorModelAPIVersion)
    ensures
        unpacked(v.spec_word() as u64) == v,
{
    let w = v.spec_word() as u64;
    let (a, b, c, d) = (v.reserved as u64, v.major as u64, v.minor as u64, v.patch as u64);
    lemma_pow256();
    assert(a < 256 && b < 256 && c < 256 && d < 256);
    assert(v.spec_word() < 0x1_0000_0000);
    assert(a < 256 && b < 256 && c < 256 && d < 256 ==> {
        let x = (a * 0x1000000 + b * 0x10000 + c * 0x100 + d) as u64;
        &&& (x / 0x1000000) % 256 == a
        &&& (x / 0x10000) % 256 == b
        &&& (x / 0x100) % 256 == c
        &&& x % 256 == d
    }) by (nonlinear_arith);
}

} // verus!
