//! What is left of the legacy protocol at the edge of the negotiation: the
//! second flags field of its header and the parameters of its negotiate
//! command.

use vstd::prelude::*;

verus! {

/// Strings are Unicode.
pub const FLAGS2_UNICODE_STRINGS: u16 = 0x8000;

/// Errors are 32-bit status codes.
pub const FLAGS2_ERROR_CODE_STATUS: u16 = 0x4000;

/// Reading is allowed where executing is.
pub const FLAGS2_READ_IF_EXECUTE: u16 = 0x2000;

/// Path names are resolved by the distributed file system.
pub const FLAGS2_DFS_PATHNAME: u16 = 0x1000;

/// Extended security.
pub const FLAGS2_EXTENDED_SECURITY: u16 = 0x0800;

/// Reserved.
pub const FLAGS2_RESERVED_01: u16 = 0x0400;

/// Reserved.
pub const FLAGS2_RESERVED_02: u16 = 0x0200;

/// Reserved.
pub const FLAGS2_RESERVED_03: u16 = 0x0100;

/// Reserved.
pub const FLAGS2_RESERVED_04: u16 = 0x0080;

/// Path names are long names.
pub const FLAGS2_IS_LONG_NAME: u16 = 0x0040;

/// Reserved.
pub const FLAGS2_RESERVED_05: u16 = 0x0020;

/// Reserved.
pub const FLAGS2_RESERVED_06: u16 = 0x0008;

/// Messages carry a security signature.
pub const FLAGS2_SECURITY_SIGNATURE: u16 = 0x0004;

/// Extended attributes.
pub const FLAGS2_EAS: u16 = 0x0002;

/// Long names are understood.
pub const FLAGS2_KNOWS_LONG_NAMES: u16 = 0x0001;

/// Every bit that the flags field can hold.
pub const FLAGS2_ALL: u16 = 0xffef;

/// The second flags field of the legacy header.
#[derive(Clone, Copy, Debug, PartialEq, Eq, Structural, Hash)]
pub struct LegacySMBFlags2 {
    bits: u16,
}

impl LegacySMBFlags2 {
    #[verifier::type_invariant]
    spec fn known_bits_only(self) -> bool {
        self.bits & !FLAGS2_ALL == 0
    }

    /// The underlying integer.
    pub closed spec fn spec_bits(self) -> u16 {
        self.bits
    }

    /// The underlying integer, which holds no unknown bit.
    #[verifier::when_used_as_spec(spec_bits)]
    pub fn bits(self) -> (r: u16)
        ensures
            r == self.spec_bits(),
            r & !FLAGS2_ALL == 0,
    {
        proof {
            use_type_invariant(self);
        }
        self.bits
    }

    /// The set without any flag.
    pub fn empty() -> (r: LegacySMBFlags2)
        ensures
            r.bits() == 0,
    {
        assert(0u16 & !FLAGS2_ALL == 0) by (bit_vector);
        LegacySMBFlags2 { bits: 0 }
    }

    /// Reads a raw integer, dropping the bits that name no flag.
    pub fn from_bits_truncate(raw: u16) -> (r: LegacySMBFlags2)
        ensures
            r.bits() == raw & FLAGS2_ALL,
    {
        assert((raw & FLAGS2_ALL) & !FLAGS2_ALL == 0) by (bit_vector);
        LegacySMBFlags2 { bits: raw & FLAGS2_ALL }
    }

    /// Whether every flag of `other` is in this set.
    pub fn contains(self, other: LegacySMBFlags2) -> (r: bool)
        ensures
            r == (self.bits() & other.bits() == other.bits()),
    {
        self.bits & other.bits == other.bits
    }

    /// Takes every flag out of the set.
    pub fn clear(&mut self)
        ensures
            final(self).bits() == 0,
    {
        assert(0u16 & !FLAGS2_ALL == 0) by (bit_vector);
        self.bits = 0;
    }
}

impl Default for LegacySMBFlags2 {
    /// The set without any flag.
    fn default() -> (r: LegacySMBFlags2)
        ensures
            r.bits() == 0,
    {
        LegacySMBFlags2::empty()
    }
}

/// The parameters of a legacy command.
#[derive(Clone, Debug, PartialEq, Eq)]
pub enum SMBParameters {
    /// The dialect names that a legacy negotiate command offers.
    Negotiate(Vec<String>),
}

} // verus!
