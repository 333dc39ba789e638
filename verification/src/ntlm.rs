//! The NTLM challenge message, which the server sends after the negotiation.
//!
//! Layout, all integers little-endian: `["NTLMSSP\0": 8][message type: 4 = 2]`
//! `[target name length: 2][the same: 2][target name offset: 4]`
//! `[negotiate flags: 4][server challenge: 8][reserved: 8]`
//! `[target info length: 2][the same: 2][target info offset: 4]`
//! `[version: 8]`, then the target name in UTF-16 and the target info, each
//! at the offset declared for it.

use crate::byte_helper::{
    lemma_u16_round_trip, lemma_u32_round_trip, push_bytes, push_u16, push_u16s, push_u32,
    push_zeros, u16_at, u16_le, u16s_le, u32_at, u32_le, zeros,
};
use vstd::prelude::*;
use vstd::string::StrSliceExecFns;

verus! {

/// Unicode character set.
pub const NTLMSSP_NEGOTIATE_UNICODE: u32 = 0x0000_0001;

/// OEM character set.
pub const NTLM_NEGOTIATE_OEM: u32 = 0x0000_0002;

/// The target name is requested.
pub const NTLMSSP_REQUEST_TARGET: u32 = 0x0000_0004;

/// Signing.
pub const NTLMSSP_NEGOTIATE_SIGN: u32 = 0x0000_0010;

/// Sealing.
pub const NTLMSSP_NEGOTIATE_SEAL: u32 = 0x0000_0020;

/// Connectionless authentication.
pub const NTLMSSP_NEGOTIATE_DATAGRAM: u32 = 0x0000_0040;

/// LAN Manager session key.
pub const NTLMSSP_NEGOTIATE_LM_KEY: u32 = 0x0000_0080;

/// NTLM v1 session security.
pub const NTLMSSP_NEGOTIATE_NTLM: u32 = 0x0000_0200;

/// Anonymous connection.
pub const NTLMSSP_ANONYMOUS: u32 = 0x0000_0800;

/// The domain name is supplied.
pub const NTLMSSP_NEGOTIATE_OEM_DOMAIN_SUPPLIED: u32 = 0x0000_1000;

/// The workstation name is supplied.
pub const NTLMSSP_NEGOTIATE_OEM_WORKSTATION_SUPPLIED: u32 = 0x0000_2000;

/// A signature accompanies every message.
pub const NTLMSSP_NEGOTIATE_ALWAYS_SIGN: u32 = 0x0000_8000;

/// The target name is a domain name.
pub const NTLMSSP_TARGET_TYPE_DOMAIN: u32 = 0x0001_0000;

/// The target name is a server name.
pub const NTLMSSP_TARGET_TYPE_SERVER: u32 = 0x0002_0000;

/// NTLM v2 session security.
pub const NTLMSSP_NEGOTIATE_EXTENDED_SESSIONSECURITY: u32 = 0x0008_0000;

/// Identify-level token.
pub const NTLMSSP_NEGOTIATE_IDENTIFY: u32 = 0x0010_0000;

/// LAN Manager session key computation.
pub const NTLMSSP_REQUEST_NON_NT_SESSION_KEY: u32 = 0x0040_0000;

/// The target info is present.
pub const NTLMSSP_NEGOTIATE_TARGET_INFO: u32 = 0x0080_0000;

/// The version is present.
pub const NTLMSSP_NEGOTIATE_VERSION: u32 = 0x0200_0000;

/// 128-bit session keys.
pub const NTLMSSP_NEGOTIATE_128: u32 = 0x2000_0000;

/// Key exchange.
pub const NTLMSSP_NEGOTIATE_KEY_EXCH: u32 = 0x4000_0000;

/// 56-bit encryption.
pub const NTLMSSP_NEGOTIATE_56: u32 = 0x8000_0000;

/// Every bit that an NTLM flag set can hold.
pub const NTLM_FLAGS_ALL: u32 = 0xe2db_baf7;

/// The message type of a challenge.
pub const NTLM_CHALLENGE_MESSAGE_TYPE: u32 = 2;

/// The number of bytes before the target name.
pub const NTLM_PAYLOAD_OFFSET: u32 = 56;

/// The identifier of a computer name in the target info.
pub const AV_NB_COMPUTER_NAME: u16 = 1;

/// The identifier of a domain name in the target info.
pub const AV_NB_DOMAIN_NAME: u16 = 2;

/// The most UTF-16 code units that a target name can have: with more, the
/// length of the target info does not fit its 16-bit field.
pub const MAX_TARGET_NAME_UNITS: usize = 16380;

/// The flags of the NTLM negotiation.
#[derive(Clone, Copy, Debug, PartialEq, Eq, Structural, Hash)]
pub struct NTLMNegotiateFlags {
    bits: u32,
}

impl NTLMNegotiateFlags {
    #[verifier::type_invariant]
    spec fn known_bits_only(self) -> bool {
        self.bits & !NTLM_FLAGS_ALL == 0
    }

    /// The underlying integer.
    pub closed spec fn spec_bits(self) -> u32 {
        self.bits
    }

    /// The underlying integer, which holds no unknown bit.
    #[verifier::when_used_as_spec(spec_bits)]
    pub fn bits(self) -> (r: u32)
        ensures
            r == self.spec_bits(),
            r & !NTLM_FLAGS_ALL == 0,
    {
        proof {
            use_type_invariant(self);
        }
        self.bits
    }

    /// The set without any flag.
    pub fn empty() -> (r: NTLMNegotiateFlags)
        ensures
            r.bits() == 0,
    {
        assert(0u32 & !NTLM_FLAGS_ALL == 0) by (bit_vector);
        NTLMNegotiateFlags { bits: 0 }
    }

    /// Reads a raw integer, dropping the bits that name no flag.
    pub fn from_bits_truncate(raw: u32) -> (r: NTLMNegotiateFlags)
        ensures
            r.bits() == raw & NTLM_FLAGS_ALL,
    {
        assert((raw & NTLM_FLAGS_ALL) & !NTLM_FLAGS_ALL == 0) by (bit_vector);
        NTLMNegotiateFlags { bits: raw & NTLM_FLAGS_ALL }
    }

    /// Whether every flag of `other` is in this set.
    pub fn contains(self, other: NTLMNegotiateFlags) -> (r: bool)
        ensures
            r == (self.bits() & other.bits() == other.bits()),
    {
        self.bits & other.bits == other.bits
    }

    /// The flags that are in either set.
    pub fn union(self, other: NTLMNegotiateFlags) -> (r: NTLMNegotiateFlags)
        ensures
            r.bits() == self.bits() | other.bits(),
    {
        proof {
            use_type_invariant(self);
            use_type_invariant(other);
        }
        let a = self.bits;
        let b = other.bits;
        assert((a | b) & !NTLM_FLAGS_ALL == 0) by (bit_vector)
            requires
                a & !NTLM_FLAGS_ALL == 0,
                b & !NTLM_FLAGS_ALL == 0,
        ;
        NTLMNegotiateFlags { bits: a | b }
    }
}

/// The UTF-16 code units of a character: one unit for a character of the
/// basic plane, a surrogate pair for any other.
pub open spec fn utf16_of_char(c: char) -> Seq<u16> {
    if (c as u32) < 0x1_0000 {
        seq![c as u16]
    } else {
        seq![
            (0xd800 + (c as u32 - 0x1_0000) / 0x400) as u16,
            (0xdc00 + (c as u32 - 0x1_0000) % 0x400) as u16,
        ]
    }
}

/// The UTF-16 code units of a string.
pub open spec fn utf16_of(s: Seq<char>) -> Seq<u16>
    decreases s.len(),
{
    if s.len() == 0 {
        Seq::empty()
    } else {
        utf16_of(s.drop_last()) + utf16_of_char(s.last())
    }
}

/// The signature that opens every NTLM message: `NTLMSSP` and a zero byte.
pub open spec fn ntlm_signature() -> Seq<u8> {
    seq![0x4eu8, 0x54u8, 0x4cu8, 0x4du8, 0x53u8, 0x53u8, 0x50u8, 0x00u8]
}

/// The version block: major 5, minor 2, build 3790, three reserved bytes and
/// the NTLM revision 15.
pub open spec fn ntlm_version() -> Seq<u8> {
    seq![5u8, 2u8] + u16_le(3790) + seq![0u8, 0u8, 0u8, 15u8]
}

/// The target info for a name: the name as computer name and as domain
/// name, each behind its identifier and its length, and the end mark.
pub open spec fn target_info(name: Seq<u8>) -> Seq<u8> {
    u16_le(AV_NB_COMPUTER_NAME as int) + u16_le(name.len() as int) + name + u16_le(
        AV_NB_DOMAIN_NAME as int,
    ) + u16_le(name.len() as int) + name + zeros(4)
}

/// The mathematical value of a challenge message.
pub ghost struct ChallengeModel {
    pub signature: Seq<u8>,
    pub target_name: Seq<char>,
    /// The bits of the negotiate flags.
    pub negotiate_flags: u32,
    pub server_challenge: Seq<u8>,
}

impl ChallengeModel {
    /// The bytes of the target name on the wire: its UTF-16 code units,
    /// each little-endian.
    pub open spec fn name_bytes(self) -> Seq<u8> {
        u16s_le(utf16_of(self.target_name))
    }

    /// A message can be encoded when its target name has at most 16380
    /// UTF-16 code units.
    pub open spec fn wf(self) -> bool {
        &&& self.signature.len() == 8
        &&& self.server_challenge.len() == 8
        &&& utf16_of(self.target_name).len() <= MAX_TARGET_NAME_UNITS
    }

    /// The 56 bytes before the target name.
    #[verifier::opaque]
    pub open spec fn fixed_part(self) -> Seq<u8> {
        let n = self.name_bytes().len() as int;
        self.signature + u32_le(NTLM_CHALLENGE_MESSAGE_TYPE as int) + u16_le(n) + u16_le(n)
            + u32_le(NTLM_PAYLOAD_OFFSET as int) + u32_le(self.negotiate_flags as int)
            + self.server_challenge + zeros(8) + u16_le(2 * n + 12) + u16_le(2 * n + 12) + u32_le(
            NTLM_PAYLOAD_OFFSET + n,
        ) + ntlm_version()
    }

    /// The whole message.
    pub open spec fn encode(self) -> Seq<u8> {
        self.fixed_part() + self.name_bytes() + target_info(self.name_bytes())
    }
}

/// `rand::rngs::ThreadRng::default` and `rand::RngCore::fill_bytes` on eight
/// bytes. The bytes are random: nothing is stated of them. The call panics
/// when the generator of the thread cannot be seeded.
#[verifier::external_body]
fn random_challenge() -> (r: [u8; 8]) {
    let mut out = [0u8; 8];
    rand::RngCore::fill_bytes(&mut rand::rngs::ThreadRng::default(), &mut out);
    out
}

/// Encodes a string in UTF-16.
pub fn encode_utf16(s: &str) -> (r: Vec<u16>)
    ensures
        r@ == utf16_of(s@),
{
    let n = s.unicode_len();
    let mut out: Vec<u16> = Vec::new();
    let mut i: usize = 0;
    assert(s@.subrange(0, 0) =~= Seq::<char>::empty());
    while i < n
        invariant
            i <= n,
            n == s@.len(),
            out@ == utf16_of(s@.subrange(0, i as int)),
        decreases n - i,
    {
        let c = s.get_char(i);
        let v = c as u32;
        assert(s@.subrange(0, i + 1).drop_last() =~= s@.subrange(0, i as int));
        assert(s@.subrange(0, i + 1).last() == c);
        let ghost before = out@;
        if v < 0x1_0000 {
            out.push(v as u16);
            assert(out@ =~= before + utf16_of_char(c));
        } else {
            let w = v - 0x1_0000;
            out.push((0xd800 + w / 0x400) as u16);
            out.push((0xdc00 + w % 0x400) as u16);
            assert(out@ =~= before + utf16_of_char(c));
        }
        i += 1;
    }
    assert(s@.subrange(0, i as int) =~= s@);
    out
}

/// The challenge message of the NTLM handshake.
#[derive(Clone, Debug, PartialEq, Eq)]
pub struct NTLMChallengeMessageBody {
    signature: [u8; 8],
    target_name: String,
    negotiate_flags: NTLMNegotiateFlags,
    server_challenge: [u8; 8],
}

impl View for NTLMChallengeMessageBody {
    type V = ChallengeModel;

    closed spec fn view(&self) -> ChallengeModel {
        ChallengeModel {
            signature: self.signature@,
            target_name: self.target_name@,
            negotiate_flags: self.negotiate_flags.bits(),
            server_challenge: self.server_challenge@,
        }
    }
}

impl NTLMChallengeMessageBody {
    /// A challenge message with a fresh random server challenge.
    pub fn new(target_name: String, negotiate_flags: NTLMNegotiateFlags) -> (r:
        NTLMChallengeMessageBody)
        ensures
            r@ == (ChallengeModel {
                signature: ntlm_signature(),
                target_name: target_name@,
                negotiate_flags: negotiate_flags.bits(),
                server_challenge: r@.server_challenge,
            }),
            r@.server_challenge.len() == 8,
    {
        NTLMChallengeMessageBody::with_challenge(target_name, negotiate_flags, random_challenge())
    }

    /// A challenge message with the given server challenge.
    pub fn with_challenge(
        target_name: String,
        negotiate_flags: NTLMNegotiateFlags,
        server_challenge: [u8; 8],
    ) -> (r: NTLMChallengeMessageBody)
        ensures
            r@ == (ChallengeModel {
                signature: ntlm_signature(),
                target_name: target_name@,
                negotiate_flags: negotiate_flags.bits(),
                server_challenge: server_challenge@,
            }),
    {
        let signature = [0x4eu8, 0x54u8, 0x4cu8, 0x4du8, 0x53u8, 0x53u8, 0x50u8, 0x00u8];
        assert(signature@ =~= ntlm_signature());
        NTLMChallengeMessageBody { signature, target_name, negotiate_flags, server_challenge }
    }

    /// Decoding a challenge is the part of the peer: the responder never
    /// reads one, and no input gives a message.
    pub fn from_bytes(bytes: &[u8]) -> (r: Option<NTLMChallengeMessageBody>)
        ensures
            r is None,
    {
        None
    }

    /// The signature: `NTLMSSP` and a zero byte.
    pub fn signature(&self) -> (r: [u8; 8])
        ensures
            r@ == self@.signature,
    {
        self.signature
    }

    /// The target name.
    pub fn target_name(&self) -> (r: &String)
        ensures
            r@ == self@.target_name,
    {
        &self.target_name
    }

    /// The negotiate flags.
    pub fn negotiate_flags(&self) -> (r: NTLMNegotiateFlags)
        ensures
            r.bits() == self@.negotiate_flags,
    {
        self.negotiate_flags
    }

    /// The server challenge.
    pub fn server_challenge(&self) -> (r: [u8; 8])
        ensures
            r@ == self@.server_challenge,
    {
        self.server_challenge
    }

    /// Whether the message can be encoded: whether its target name has at
    /// most 16380 UTF-16 code units.
    pub fn is_well_formed(&self) -> (r: bool)
        ensures
            r == self@.wf(),
    {
        let units = encode_utf16(self.target_name.as_str());
        units.len() <= MAX_TARGET_NAME_UNITS
    }

    /// Encodes the message. The lengths and offsets that it declares are
    /// computed from the target name.
    pub fn as_bytes(&self) -> (r: Vec<u8>)
        requires
            self@.wf(),
        ensures
            r@ == self@.encode(),
    {
        let units = encode_utf16(self.target_name.as_str());
        let mut name: Vec<u8> = Vec::new();
        push_u16s(&mut name, &units);
        assert(name@ =~= self@.name_bytes());
        let name_len = name.len() as u16;
        let info_len = 2 * name_len + 12;
        let mut out: Vec<u8> = Vec::new();
        push_bytes(&mut out, self.signature.as_slice());
        push_u32(&mut out, NTLM_CHALLENGE_MESSAGE_TYPE);
        push_u16(&mut out, name_len);
        push_u16(&mut out, name_len);
        push_u32(&mut out, NTLM_PAYLOAD_OFFSET);
        push_u32(&mut out, self.negotiate_flags.bits());
        push_bytes(&mut out, self.server_challenge.as_slice());
        push_zeros(&mut out, 8);
        push_u16(&mut out, info_len);
        push_u16(&mut out, info_len);
        push_u32(&mut out, NTLM_PAYLOAD_OFFSET + name_len as u32);
        out.push(5u8);
        out.push(2u8);
        push_u16(&mut out, 3790);
        out.push(0u8);
        out.push(0u8);
        out.push(0u8);
        out.push(15u8);
        assert(out@ =~= self@.fixed_part()) by {
            reveal(ChallengeModel::fixed_part);
        }
        push_bytes(&mut out, name.as_slice());
        push_u16(&mut out, AV_NB_COMPUTER_NAME);
        push_u16(&mut out, name_len);
        push_bytes(&mut out, name.as_slice());
        push_u16(&mut out, AV_NB_DOMAIN_NAME);
        push_u16(&mut out, name_len);
        push_bytes(&mut out, name.as_slice());
        push_zeros(&mut out, 4);
        assert(out@ =~= self@.encode());
        out
    }
}

/// The fields of the fixed part, read back.
proof fn lemma_fixed_fields(m: ChallengeModel)
    requires
        m.wf(),
    ensures
        m.fixed_part().len() == 56,
        m.fixed_part().subrange(0, 8) == m.signature,
        u32_at(m.fixed_part(), 8) == 2,
        u16_at(m.fixed_part(), 12) == m.name_bytes().len(),
        u16_at(m.fixed_part(), 14) == m.name_bytes().len(),
        u32_at(m.fixed_part(), 16) == 56,
        u32_at(m.fixed_part(), 20) == m.negotiate_flags,
        m.fixed_part().subrange(24, 32) == m.server_challenge,
        m.fixed_part().subrange(32, 40) == zeros(8),
        u16_at(m.fixed_part(), 40) == 2 * m.name_bytes().len() + 12,
        u16_at(m.fixed_part(), 42) == 2 * m.name_bytes().len() + 12,
        u32_at(m.fixed_part(), 44) == 56 + m.name_bytes().len(),
{
    reveal(ChallengeModel::fixed_part);
    let f = m.fixed_part();
    let n = m.name_bytes().len() as int;
    lemma_u32_round_trip(2);
    lemma_u16_round_trip(n);
    lemma_u32_round_trip(56);
    lemma_u32_round_trip(m.negotiate_flags as int);
    lemma_u16_round_trip(2 * n + 12);
    lemma_u32_round_trip(56 + n);
    assert(f.len() == 56);
    assert(f.subrange(0, 8) =~= m.signature);
    assert(f[8] == u32_le(2)[0] && f[9] == u32_le(2)[1] && f[10] == u32_le(2)[2] && f[11]
        == u32_le(2)[3]);
    assert(f[12] == u16_le(n)[0] && f[13] == u16_le(n)[1]);
    assert(f[14] == u16_le(n)[0] && f[15] == u16_le(n)[1]);
    assert(f[16] == u32_le(56)[0] && f[17] == u32_le(56)[1] && f[18] == u32_le(56)[2] && f[19]
        == u32_le(56)[3]);
    let fl = u32_le(m.negotiate_flags as int);
    assert(f[20] == fl[0] && f[21] == fl[1] && f[22] == fl[2] && f[23] == fl[3]);
    assert(f.subrange(24, 32) =~= m.server_challenge);
    assert(f.subrange(32, 40) =~= zeros(8));
    let il = u16_le(2 * n + 12);
    assert(f[40] == il[0] && f[41] == il[1] && f[42] == il[0] && f[43] == il[1]);
    let io = u32_le(56 + n);
    assert(f[44] == io[0] && f[45] == io[1] && f[46] == io[2] && f[47] == io[3]);
}

/// The lengths and offsets that an encoded challenge declares are those of
/// the sections: the target name stands at the declared offset 56 with the
/// declared length, and the target info stands at its declared offset, right
/// behind the name, with its declared length, and ends the message.
pub proof fn lemma_challenge_layout(m: ChallengeModel)
    requires
        m.wf(),
    ensures
        m.encode().subrange(0, 8) == m.signature,
        u32_at(m.encode(), 8) == 2,
        u16_at(m.encode(), 12) == m.name_bytes().len(),
        u32_at(m.encode(), 16) == 56,
        m.encode().subrange(56, 56 + u16_at(m.encode(), 12)) == m.name_bytes(),
        u32_at(m.encode(), 20) == m.negotiate_flags,
        m.encode().subrange(24, 32) == m.server_challenge,
        u16_at(m.encode(), 40) == target_info(m.name_bytes()).len(),
        u32_at(m.encode(), 44) == 56 + m.name_bytes().len(),
        m.encode().skip(u32_at(m.encode(), 44)) == target_info(m.name_bytes()),
        m.encode().len() == u32_at(m.encode(), 44) + u16_at(m.encode(), 40),
{
    lemma_fixed_fields(m);
    let f = m.fixed_part();
    let name = m.name_bytes();
    let info = target_info(name);
    let out = m.encode();
    assert(out.subrange(0, 8) =~= f.subrange(0, 8));
    assert(out.subrange(24, 32) =~= f.subrange(24, 32));
    assert(forall|k: int| 0 <= k < 56 ==> out[k] == f[k]);
    assert(out.subrange(56, 56 + name.len() as int) =~= name);
    assert(out.skip(56 + name.len() as int) =~= info);
}

} // verus!
