//! Bit-flag sets for the security mode and the capability advertisement.
//!
//! A set is a subset of the bits that its type names. Bits that no name
//! covers never enter a set: reading a raw integer drops them.

use vstd::prelude::*;
use vstd::std_specs::ops::BitOrSpecImpl;

verus! {

/// Signing is enabled.
pub const NEGOTIATE_SIGNING_ENABLED: u8 = 0x01;

/// Signing is required.
pub const NEGOTIATE_SIGNING_REQUIRED: u8 = 0x02;

/// Every bit that a security mode can hold.
pub const SECURITY_MODE_ALL: u8 = 0x03;

/// Distributed file system support.
pub const CAP_DFS: u32 = 0x01;

/// Leasing support.
pub const CAP_LEASING: u32 = 0x02;

/// Multi-credit operations.
pub const CAP_LARGE_MTU: u32 = 0x04;

/// Several channels for one session.
pub const CAP_MULTI_CHANNEL: u32 = 0x08;

/// Persistent handles.
pub const CAP_PERSISTENT_HANDLES: u32 = 0x10;

/// Directory leasing.
pub const CAP_DIRECTORY_LEASING: u32 = 0x20;

/// Encryption support.
pub const CAP_ENCRYPTION: u32 = 0x40;

/// Every bit that a capability set can hold.
pub const CAPABILITIES_ALL: u32 = 0x7f;

/// The signing policy that a peer announces.
#[derive(Clone, Copy, Debug, PartialEq, Eq, Structural, Hash)]
pub struct SecurityMode {
    bits: u8,
}

impl SecurityMode {
    #[verifier::type_invariant]
    spec fn known_bits_only(self) -> bool {
        self.bits & !SECURITY_MODE_ALL == 0
    }

    /// The underlying integer.
    pub closed spec fn spec_bits(self) -> u8 {
        self.bits
    }

    /// The underlying integer, which holds no unknown bit.
    #[verifier::when_used_as_spec(spec_bits)]
    pub fn bits(self) -> (r: u8)
        ensures
            r == self.spec_bits(),
            r & !SECURITY_MODE_ALL == 0,
    {
        proof {
            use_type_invariant(self);
        }
        self.bits
    }

    /// Two sets with the same underlying integer are the same set.
    pub proof fn lemma_bits_decide(self, other: SecurityMode)
        ensures
            self.bits() == other.bits() <==> self == other,
    {
    }

    /// The set without any flag.
    pub fn empty() -> (r: SecurityMode)
        ensures
            r.bits() == 0,
    {
        assert(0u8 & !SECURITY_MODE_ALL == 0) by (bit_vector);
        SecurityMode { bits: 0 }
    }

    /// The set of every flag.
    pub fn all() -> (r: SecurityMode)
        ensures
            r.bits() == SECURITY_MODE_ALL,
    {
        assert(SECURITY_MODE_ALL & !SECURITY_MODE_ALL == 0) by (bit_vector);
        SecurityMode { bits: SECURITY_MODE_ALL }
    }

    /// The set that holds only "signing required".
    pub fn signing_required() -> (r: SecurityMode)
        ensures
            r.bits() == NEGOTIATE_SIGNING_REQUIRED,
    {
        assert(NEGOTIATE_SIGNING_REQUIRED & !SECURITY_MODE_ALL == 0) by (bit_vector);
        SecurityMode { bits: NEGOTIATE_SIGNING_REQUIRED }
    }

    /// The set that holds only "signing enabled".
    pub fn signing_enabled() -> (r: SecurityMode)
        ensures
            r.bits() == NEGOTIATE_SIGNING_ENABLED,
    {
        assert(NEGOTIATE_SIGNING_ENABLED & !SECURITY_MODE_ALL == 0) by (bit_vector);
        SecurityMode { bits: NEGOTIATE_SIGNING_ENABLED }
    }

    /// Reads a raw integer, dropping the bits that name no flag.
    pub fn from_bits_truncate(raw: u8) -> (r: SecurityMode)
        ensures
            r.bits() == raw & SECURITY_MODE_ALL,
    {
        assert((raw & SECURITY_MODE_ALL) & !SECURITY_MODE_ALL == 0) by (bit_vector);
        SecurityMode { bits: raw & SECURITY_MODE_ALL }
    }

    /// Reads a raw integer, refusing one with a bit that names no flag.
    pub fn from_bits(raw: u8) -> (r: Option<SecurityMode>)
        ensures
            raw & !SECURITY_MODE_ALL == 0 ==> (r matches Some(m) && m.bits() == raw),
            raw & !SECURITY_MODE_ALL != 0 ==> r is None,
    {
        if raw & !SECURITY_MODE_ALL == 0 {
            Some(SecurityMode { bits: raw })
        } else {
            None
        }
    }

    /// Whether every flag of `other` is in this set.
    pub fn contains(self, other: SecurityMode) -> (r: bool)
        ensures
            r == (self.bits() & other.bits() == other.bits()),
    {
        self.bits & other.bits == other.bits
    }

    /// Whether the set holds no flag.
    pub fn is_empty(self) -> (r: bool)
        ensures
            r == (self.bits() == 0),
    {
        self.bits == 0
    }

    /// The set of the flags that are in either set.
    pub closed spec fn spec_union(self, other: SecurityMode) -> SecurityMode {
        SecurityMode { bits: self.bits | other.bits }
    }

    /// The bits of a union are the bits of the one set or-ed with those of
    /// the other.
    pub proof fn lemma_union_bits(self, other: SecurityMode)
        ensures
            self.spec_union(other).bits() == self.bits() | other.bits(),
    {
    }

    /// The flags that are in either set. The operator `|` does the same.
    #[verifier::when_used_as_spec(spec_union)]
    pub fn union(self, other: SecurityMode) -> (r: SecurityMode)
        ensures
            r == self.spec_union(other),
            r.bits() == self.bits() | other.bits(),
    {
        proof {
            use_type_invariant(self);
            use_type_invariant(other);
        }
        let a = self.bits;
        let b = other.bits;
        assert((a | b) & !SECURITY_MODE_ALL == 0) by (bit_vector)
            requires
                a & !SECURITY_MODE_ALL == 0,
                b & !SECURITY_MODE_ALL == 0,
        ;
        SecurityMode { bits: a | b }
    }

    /// The flags that are in both sets.
    pub fn intersection(self, other: SecurityMode) -> (r: SecurityMode)
        ensures
            r.bits() == self.bits() & other.bits(),
    {
        proof {
            use_type_invariant(self);
        }
        let a = self.bits;
        let b = other.bits;
        assert((a & b) & !SECURITY_MODE_ALL == 0) by (bit_vector)
            requires
                a & !SECURITY_MODE_ALL == 0,
        ;
        SecurityMode { bits: a & b }
    }
}

impl core::ops::BitOr for SecurityMode {
    type Output = SecurityMode;

    fn bitor(self, rhs: SecurityMode) -> (r: SecurityMode) {
        self.union(rhs)
    }
}

impl BitOrSpecImpl for SecurityMode {
    open spec fn obeys_bitor_spec() -> bool {
        true
    }

    open spec fn bitor_req(self, rhs: SecurityMode) -> bool {
        true
    }

    open spec fn bitor_spec(self, rhs: SecurityMode) -> SecurityMode {
        self.spec_union(rhs)
    }
}

/// The optional features that a peer announces.
#[derive(Clone, Copy, Debug, PartialEq, Eq, Structural, Hash)]
pub struct Capabilities {
    bits: u32,
}

impl Capabilities {
    #[verifier::type_invariant]
    spec fn known_bits_only(self) -> bool {
        self.bits & !CAPABILITIES_ALL == 0
    }

    /// The underlying integer.
    pub closed spec fn spec_bits(self) -> u32 {
        self.bits
    }

    /// The underlying integer, which holds no unknown bit.
    #[verifier::when_used_as_spec(spec_bits)]
    pub fn bits(self) -> (r: u32)
        ensures
            r == self.spec_bits(),
            r & !CAPABILITIES_ALL == 0,
    {
        proof {
            use_type_invariant(self);
        }
        self.bits
    }

    /// Two sets with the same underlying integer are the same set.
    pub proof fn lemma_bits_decide(self, other: Capabilities)
        ensures
            self.bits() == other.bits() <==> self == other,
    {
    }

    /// The set without any flag.
    pub fn empty() -> (r: Capabilities)
        ensures
            r.bits() == 0,
    {
        assert(0u32 & !CAPABILITIES_ALL == 0) by (bit_vector);
        Capabilities { bits: 0 }
    }

    /// The set of every flag.
    pub fn all() -> (r: Capabilities)
        ensures
            r.bits() == CAPABILITIES_ALL,
    {
        assert(CAPABILITIES_ALL & !CAPABILITIES_ALL == 0) by (bit_vector);
        Capabilities { bits: CAPABILITIES_ALL }
    }

    /// Reads a raw integer, dropping the bits that name no flag.
    pub fn from_bits_truncate(raw: u32) -> (r: Capabilities)
        ensures
            r.bits() == raw & CAPABILITIES_ALL,
    {
        assert((raw & CAPABILITIES_ALL) & !CAPABILITIES_ALL == 0) by (bit_vector);
        Capabilities { bits: raw & CAPABILITIES_ALL }
    }

    /// Reads a raw integer, refusing one with a bit that names no flag.
    pub fn from_bits(raw: u32) -> (r: Option<Capabilities>)
        ensures
            raw & !CAPABILITIES_ALL == 0 ==> (r matches Some(c) && c.bits() == raw),
            raw & !CAPABILITIES_ALL != 0 ==> r is None,
    {
        if raw & !CAPABILITIES_ALL == 0 {
            Some(Capabilities { bits: raw })
        } else {
            None
        }
    }

    /// Whether every flag of `other` is in this set.
    pub fn contains(self, other: Capabilities) -> (r: bool)
        ensures
            r == (self.bits() & other.bits() == other.bits()),
    {
        self.bits & other.bits == other.bits
    }

    /// Whether the set holds no flag.
    pub fn is_empty(self) -> (r: bool)
        ensures
            r == (self.bits() == 0),
    {
        self.bits == 0
    }

    /// The set of the flags that are in either set.
    pub closed spec fn spec_union(self, other: Capabilities) -> Capabilities {
        Capabilities { bits: self.bits | other.bits }
    }

    /// The bits of a union are the bits of the one set or-ed with those of
    /// the other.
    pub proof fn lemma_union_bits(self, other: Capabilities)
        ensures
            self.spec_union(other).bits() == self.bits() | other.bits(),
    {
    }

    /// The flags that are in either set. The operator `|` does the same.
    #[verifier::when_used_as_spec(spec_union)]
    pub fn union(self, other: Capabilities) -> (r: Capabilities)
        ensures
            r == self.spec_union(other),
            r.bits() == self.bits() | other.bits(),
    {
        proof {
            use_type_invariant(self);
            use_type_invariant(other);
        }
        let a = self.bits;
        let b = other.bits;
        assert((a | b) & !CAPABILITIES_ALL == 0) by (bit_vector)
            requires
                a & !CAPABILITIES_ALL == 0,
                b & !CAPABILITIES_ALL == 0,
        ;
        Capabilities { bits: a | b }
    }

    /// The flags that are in both sets.
    pub fn intersection(self, other: Capabilities) -> (r: Capabilities)
        ensures
            r.bits() == self.bits() & other.bits(),
    {
        proof {
            use_type_invariant(self);
        }
        let a = self.bits;
        let b = other.bits;
        assert((a & b) & !CAPABILITIES_ALL == 0) by (bit_vector)
            requires
                a & !CAPABILITIES_ALL == 0,
        ;
        Capabilities { bits: a & b }
    }
}

impl core::ops::BitOr for Capabilities {
    type Output = Capabilities;

    fn bitor(self, rhs: Capabilities) -> (r: Capabilities) {
        self.union(rhs)
    }
}

impl BitOrSpecImpl for Capabilities {
    open spec fn obeys_bitor_spec() -> bool {
        true
    }

    open spec fn bitor_req(self, rhs: Capabilities) -> bool {
        true
    }

    open spec fn bitor_spec(self, rhs: Capabilities) -> Capabilities {
        self.spec_union(rhs)
    }
}

/// A flag set goes through its underlying integer unchanged: reading the
/// integer of a set gives the set back.
pub proof fn lemma_flags_round_trip(mode: u8, capabilities: u32)
    ensures
        (mode & SECURITY_MODE_ALL) & SECURITY_MODE_ALL == mode & SECURITY_MODE_ALL,
        (capabilities & CAPABILITIES_ALL) & CAPABILITIES_ALL == capabilities & CAPABILITIES_ALL,
        mode & !SECURITY_MODE_ALL == 0 ==> mode & SECURITY_MODE_ALL == mode,
        capabilities & !CAPABILITIES_ALL == 0 ==> capabilities & CAPABILITIES_ALL == capabilities,
{
    assert((mode & SECURITY_MODE_ALL) & SECURITY_MODE_ALL == mode & SECURITY_MODE_ALL)
        by (bit_vector);
    assert((capabilities & CAPABILITIES_ALL) & CAPABILITIES_ALL == capabilities
        & CAPABILITIES_ALL) by (bit_vector);
    assert(mode & !SECURITY_MODE_ALL == 0 ==> mode & SECURITY_MODE_ALL == mode) by (bit_vector);
    assert(capabilities & !CAPABILITIES_ALL == 0 ==> capabilities & CAPABILITIES_ALL
        == capabilities) by (bit_vector);
}

} // verus!
