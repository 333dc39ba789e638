//! Negotiate contexts: the type-tagged records by which the newest revision
//! agrees on hash, cipher, compression, transport and signing parameters.
//!
//! A record is `[type: 2][length: 2][reserved: 4][payload: length]`, all
//! integers little-endian. The length of a record is computed from its
//! payload, never assumed.

use crate::byte_helper::{
    lemma_u16_round_trip, lemma_u16s_round_trip, lemma_u32_round_trip, push_bytes, push_u16, push_u16s, push_u32, push_zeros, read_u16, read_u16s, read_u32, u16_at,
    u16_le, u16s_at, u16s_le, u32_at, u32_le, zeros,
};
use crate::error::NegotiateError;
use vstd::prelude::*;
use vstd::slice::slice_subrange;
use vstd::slice::slice_to_vec;

verus! {

/// Type code of the preauthentication integrity context.
pub const CONTEXT_PREAUTH_INTEGRITY: u16 = 0x0001;

/// Type code of the encryption context.
pub const CONTEXT_ENCRYPTION: u16 = 0x0002;

/// Type code of the compression context.
pub const CONTEXT_COMPRESSION: u16 = 0x0003;

/// Type code of the server name context.
pub const CONTEXT_NETNAME: u16 = 0x0005;

/// Type code of the transport context.
pub const CONTEXT_TRANSPORT: u16 = 0x0006;

/// Type code of the RDMA transform context.
pub const CONTEXT_RDMA_TRANSFORM: u16 = 0x0007;

/// Type code of the signing context.
pub const CONTEXT_SIGNING: u16 = 0x0008;

/// The number of bytes of a record before its payload.
pub const CONTEXT_HEADER_LEN: usize = 8;

/// One negotiate context.
#[derive(Clone, Debug, PartialEq, Eq)]
pub enum NegotiateContext {
    /// Hash algorithms for the preauthentication integrity check, and a salt.
    PreAuthIntegrityCapabilities { hash_algorithms: Vec<u16>, salt: Vec<u8> },
    /// Ciphers for encryption.
    EncryptionCapabilities { ciphers: Vec<u16> },
    /// Compression algorithms, and the compression flags.
    CompressionCapabilities { flags: u32, algorithms: Vec<u16> },
    /// The server name that the client connects to, in UTF-16 code units.
    NetnameNegotiateContextID { net_name: Vec<u16> },
    /// Transport flags.
    TransportCapabilities { flags: u32 },
    /// RDMA transforms.
    RDMATransformCapabilities { transform_ids: Vec<u16> },
    /// Signing algorithms.
    SigningCapabilities { algorithms: Vec<u16> },
}

/// The mathematical value of a negotiate context.
pub ghost enum ContextModel {
    PreAuthIntegrityCapabilities { hash_algorithms: Seq<u16>, salt: Seq<u8> },
    EncryptionCapabilities { ciphers: Seq<u16> },
    CompressionCapabilities { flags: u32, algorithms: Seq<u16> },
    NetnameNegotiateContextID { net_name: Seq<u16> },
    TransportCapabilities { flags: u32 },
    RDMATransformCapabilities { transform_ids: Seq<u16> },
    SigningCapabilities { algorithms: Seq<u16> },
}

impl View for NegotiateContext {
    type V = ContextModel;

    open spec fn view(&self) -> ContextModel {
        match *self {
            NegotiateContext::PreAuthIntegrityCapabilities { hash_algorithms, salt } => {
                ContextModel::PreAuthIntegrityCapabilities {
                    hash_algorithms: hash_algorithms@,
                    salt: salt@,
                }
            },
            NegotiateContext::EncryptionCapabilities { ciphers } => {
                ContextModel::EncryptionCapabilities { ciphers: ciphers@ }
            },
            NegotiateContext::CompressionCapabilities { flags, algorithms } => {
                ContextModel::CompressionCapabilities { flags, algorithms: algorithms@ }
            },
            NegotiateContext::NetnameNegotiateContextID { net_name } => {
                ContextModel::NetnameNegotiateContextID { net_name: net_name@ }
            },
            NegotiateContext::TransportCapabilities { flags } => {
                ContextModel::TransportCapabilities { flags }
            },
            NegotiateContext::RDMATransformCapabilities { transform_ids } => {
                ContextModel::RDMATransformCapabilities { transform_ids: transform_ids@ }
            },
            NegotiateContext::SigningCapabilities { algorithms } => {
                ContextModel::SigningCapabilities { algorithms: algorithms@ }
            },
        }
    }
}

/// A count, the bytes that fill the header up to `header_len`, and as many
/// 16-bit integers as the count says.
pub open spec fn counted_list(header_len: int, values: Seq<u16>) -> Seq<u8> {
    u16_le(values.len() as int) + zeros(header_len - 2) + u16s_le(values)
}

/// Reads what `counted_list` writes: `None` when the payload ends before the
/// header or before the last integer.
pub open spec fn read_counted_list(payload: Seq<u8>, header_len: int) -> Option<Seq<u16>> {
    if payload.len() < header_len {
        None
    } else if payload.len() < header_len + 2 * u16_at(payload, 0) {
        None
    } else {
        Some(u16s_at(payload, header_len, u16_at(payload, 0)))
    }
}

impl ContextModel {
    /// The 16-bit code that tags the record.
    pub open spec fn type_code(self) -> u16 {
        match self {
            ContextModel::PreAuthIntegrityCapabilities { .. } => CONTEXT_PREAUTH_INTEGRITY,
            ContextModel::EncryptionCapabilities { .. } => CONTEXT_ENCRYPTION,
            ContextModel::CompressionCapabilities { .. } => CONTEXT_COMPRESSION,
            ContextModel::NetnameNegotiateContextID { .. } => CONTEXT_NETNAME,
            ContextModel::TransportCapabilities { .. } => CONTEXT_TRANSPORT,
            ContextModel::RDMATransformCapabilities { .. } => CONTEXT_RDMA_TRANSFORM,
            ContextModel::SigningCapabilities { .. } => CONTEXT_SIGNING,
        }
    }

    /// The number of payload bytes, which the variant and its contents fix.
    pub open spec fn payload_len(self) -> nat {
        match self {
            ContextModel::PreAuthIntegrityCapabilities { hash_algorithms, salt } => 4 + 2
                * hash_algorithms.len() + salt.len(),
            ContextModel::EncryptionCapabilities { ciphers } => 2 + 2 * ciphers.len(),
            ContextModel::CompressionCapabilities { flags, algorithms } => 8 + 2
                * algorithms.len(),
            ContextModel::NetnameNegotiateContextID { net_name } => 2 * net_name.len(),
            ContextModel::TransportCapabilities { flags } => 4,
            ContextModel::RDMATransformCapabilities { transform_ids } => 8 + 2
                * transform_ids.len(),
            ContextModel::SigningCapabilities { algorithms } => 2 + 2 * algorithms.len(),
        }
    }

    /// A context can be encoded when its payload length fits the 16-bit
    /// length field.
    pub open spec fn wf(self) -> bool {
        self.payload_len() <= 0xffff
    }

    /// The payload bytes.
    pub open spec fn payload(self) -> Seq<u8> {
        match self {
            ContextModel::PreAuthIntegrityCapabilities { hash_algorithms, salt } => u16_le(
                hash_algorithms.len() as int,
            ) + u16_le(salt.len() as int) + u16s_le(hash_algorithms) + salt,
            ContextModel::EncryptionCapabilities { ciphers } => counted_list(2, ciphers),
            ContextModel::CompressionCapabilities { flags, algorithms } => u16_le(
                algorithms.len() as int,
            ) + zeros(2) + u32_le(flags as int) + u16s_le(algorithms),
            ContextModel::NetnameNegotiateContextID { net_name } => u16s_le(net_name),
            ContextModel::TransportCapabilities { flags } => u32_le(flags as int),
            ContextModel::RDMATransformCapabilities { transform_ids } => counted_list(
                8,
                transform_ids,
            ),
            ContextModel::SigningCapabilities { algorithms } => counted_list(2, algorithms),
        }
    }

    /// The whole record: type, payload length, four reserved zero bytes and
    /// the payload.
    pub open spec fn encode(self) -> Seq<u8> {
        u16_le(self.type_code() as int) + u16_le(self.payload_len() as int) + zeros(4) + self.payload()
    }
}

/// Decodes a payload of the given type. An unknown type is an error of its
/// own; a payload that ends before one of its fields is truncated. Bytes of
/// the payload behind its last field are passed over.
#[verifier::opaque]
pub open spec fn parse_payload(code: int, p: Seq<u8>) -> Result<ContextModel, NegotiateError> {
    if code == CONTEXT_PREAUTH_INTEGRITY {
        if p.len() < 4 {
            Err(NegotiateError::TruncatedBuffer)
        } else if p.len() < 4 + 2 * u16_at(p, 0) + u16_at(p, 2) {
            Err(NegotiateError::TruncatedBuffer)
        } else {
            Ok(
                ContextModel::PreAuthIntegrityCapabilities {
                    hash_algorithms: u16s_at(p, 4, u16_at(p, 0)),
                    salt: p.subrange(4 + 2 * u16_at(p, 0), 4 + 2 * u16_at(p, 0) + u16_at(p, 2)),
                },
            )
        }
    } else if code == CONTEXT_ENCRYPTION {
        match read_counted_list(p, 2) {
            Some(ciphers) => Ok(ContextModel::EncryptionCapabilities { ciphers }),
            None => Err(NegotiateError::TruncatedBuffer),
        }
    } else if code == CONTEXT_COMPRESSION {
        match read_counted_list(p, 8) {
            Some(algorithms) => Ok(
                ContextModel::CompressionCapabilities {
                    flags: u32_at(p, 4) as u32,
                    algorithms,
                },
            ),
            None => Err(NegotiateError::TruncatedBuffer),
        }
    } else if code == CONTEXT_NETNAME {
        if p.len() % 2 != 0 {
            Err(NegotiateError::TruncatedBuffer)
        } else {
            Ok(
                ContextModel::NetnameNegotiateContextID {
                    net_name: u16s_at(p, 0, p.len() as int / 2),
                },
            )
        }
    } else if code == CONTEXT_TRANSPORT {
        if p.len() < 4 {
            Err(NegotiateError::TruncatedBuffer)
        } else {
            Ok(ContextModel::TransportCapabilities { flags: u32_at(p, 0) as u32 })
        }
    } else if code == CONTEXT_RDMA_TRANSFORM {
        match read_counted_list(p, 8) {
            Some(transform_ids) => Ok(ContextModel::RDMATransformCapabilities { transform_ids }),
            None => Err(NegotiateError::TruncatedBuffer),
        }
    } else if code == CONTEXT_SIGNING {
        match read_counted_list(p, 2) {
            Some(algorithms) => Ok(ContextModel::SigningCapabilities { algorithms }),
            None => Err(NegotiateError::TruncatedBuffer),
        }
    } else {
        Err(NegotiateError::UnrecognizedContextType)
    }
}

/// Decodes the record at the start of `bytes`. The record ends where its
/// length field says; what follows is not looked at.
pub open spec fn parse_context(bytes: Seq<u8>) -> Result<ContextModel, NegotiateError> {
    if bytes.len() < 8 {
        Err(NegotiateError::TruncatedBuffer)
    } else if bytes.len() < 8 + u16_at(bytes, 2) {
        Err(NegotiateError::TruncatedBuffer)
    } else {
        parse_payload(u16_at(bytes, 0), bytes.subrange(8, 8 + u16_at(bytes, 2)))
    }
}

/// Reads a count and that many 16-bit integers behind a header of
/// `header_len` bytes.
fn read_counted(p: &[u8], header_len: usize) -> (r: Option<Vec<u16>>)
    requires
        2 <= header_len <= 8,
    ensures
        match r {
            Some(v) => read_counted_list(p@, header_len as int) == Some(v@),
            None => read_counted_list(p@, header_len as int) is None,
        },
{
    if p.len() < header_len {
        return None;
    }
    let n = read_u16(p, 0) as usize;
    if (p.len() - header_len) / 2 < n {
        return None;
    }
    Some(read_u16s(p, header_len, n))
}

/// Appends a count, zero bytes up to `header_len`, and the integers.
fn push_counted(out: &mut Vec<u8>, header_len: usize, values: &Vec<u16>)
    requires
        2 <= header_len <= 8,
        values@.len() <= 0xffff,
    ensures
        final(out)@ == old(out)@ + counted_list(header_len as int, values@),
{
    push_u16(out, values.len() as u16);
    push_zeros(out, header_len - 2);
    push_u16s(out, values);
    assert(out@ =~= old(out)@ + counted_list(header_len as int, values@));
}

impl NegotiateContext {
    /// The 16-bit code that tags the record.
    pub fn type_code(&self) -> (r: u16)
        ensures
            r == self@.type_code(),
    {
        match self {
            NegotiateContext::PreAuthIntegrityCapabilities { .. } => CONTEXT_PREAUTH_INTEGRITY,
            NegotiateContext::EncryptionCapabilities { .. } => CONTEXT_ENCRYPTION,
            NegotiateContext::CompressionCapabilities { .. } => CONTEXT_COMPRESSION,
            NegotiateContext::NetnameNegotiateContextID { .. } => CONTEXT_NETNAME,
            NegotiateContext::TransportCapabilities { .. } => CONTEXT_TRANSPORT,
            NegotiateContext::RDMATransformCapabilities { .. } => CONTEXT_RDMA_TRANSFORM,
            NegotiateContext::SigningCapabilities { .. } => CONTEXT_SIGNING,
        }
    }

    /// Whether the context can be encoded: whether its payload length fits
    /// the 16-bit length field.
    pub fn is_well_formed(&self) -> (r: bool)
        ensures
            r == self@.wf(),
    {
        match self {
            NegotiateContext::PreAuthIntegrityCapabilities { hash_algorithms, salt } => {
                hash_algorithms.len() <= 0x7fff && salt.len() <= 0xffff && 4 + 2
                    * hash_algorithms.len() + salt.len() <= 0xffff
            },
            NegotiateContext::EncryptionCapabilities { ciphers } => {
                ciphers.len() <= 0x7fff && 2 + 2 * ciphers.len() <= 0xffff
            },
            NegotiateContext::CompressionCapabilities { flags, algorithms } => {
                algorithms.len() <= 0x7fff && 8 + 2 * algorithms.len() <= 0xffff
            },
            NegotiateContext::NetnameNegotiateContextID { net_name } => {
                net_name.len() <= 0x7fff
            },
            NegotiateContext::TransportCapabilities { flags } => true,
            NegotiateContext::RDMATransformCapabilities { transform_ids } => {
                transform_ids.len() <= 0x7fff && 8 + 2 * transform_ids.len() <= 0xffff
            },
            NegotiateContext::SigningCapabilities { algorithms } => {
                algorithms.len() <= 0x7fff && 2 + 2 * algorithms.len() <= 0xffff
            },
        }
    }

    /// The number of payload bytes, computed from the contents.
    pub fn payload_len(&self) -> (r: u16)
        requires
            self@.wf(),
        ensures
            r == self@.payload_len(),
    {
        match self {
            NegotiateContext::PreAuthIntegrityCapabilities { hash_algorithms, salt } => {
                (4 + 2 * hash_algorithms.len() + salt.len()) as u16
            },
            NegotiateContext::EncryptionCapabilities { ciphers } => {
                (2 + 2 * ciphers.len()) as u16
            },
            NegotiateContext::CompressionCapabilities { flags, algorithms } => {
                (8 + 2 * algorithms.len()) as u16
            },
            NegotiateContext::NetnameNegotiateContextID { net_name } => {
                (2 * net_name.len()) as u16
            },
            NegotiateContext::TransportCapabilities { flags } => 4,
            NegotiateContext::RDMATransformCapabilities { transform_ids } => {
                (8 + 2 * transform_ids.len()) as u16
            },
            NegotiateContext::SigningCapabilities { algorithms } => {
                (2 + 2 * algorithms.len()) as u16
            },
        }
    }

    /// Appends the record to `out`.
    pub fn write_to(&self, out: &mut Vec<u8>)
        requires
            self@.wf(),
        ensures
            final(out)@ == old(out)@ + self@.encode(),
            self@.encode().len() == 8 + self@.payload_len(),
    {
        proof {
            lemma_encoded_len(self@);
        }
        push_u16(out, self.type_code());
        push_u16(out, self.payload_len());
        push_zeros(out, 4);
        let ghost head = out@;
        match self {
            NegotiateContext::PreAuthIntegrityCapabilities { hash_algorithms, salt } => {
                push_u16(out, hash_algorithms.len() as u16);
                push_u16(out, salt.len() as u16);
                push_u16s(out, hash_algorithms);
                push_bytes(out, salt.as_slice());
            },
            NegotiateContext::EncryptionCapabilities { ciphers } => {
                push_counted(out, 2, ciphers);
            },
            NegotiateContext::CompressionCapabilities { flags, algorithms } => {
                push_u16(out, algorithms.len() as u16);
                push_zeros(out, 2);
                push_u32(out, *flags);
                push_u16s(out, algorithms);
            },
            NegotiateContext::NetnameNegotiateContextID { net_name } => {
                push_u16s(out, net_name);
            },
            NegotiateContext::TransportCapabilities { flags } => {
                push_u32(out, *flags);
            },
            NegotiateContext::RDMATransformCapabilities { transform_ids } => {
                push_counted(out, 8, transform_ids);
            },
            NegotiateContext::SigningCapabilities { algorithms } => {
                push_counted(out, 2, algorithms);
            },
        }
        assert(out@ =~= head + self@.payload());
        assert(out@ =~= old(out)@ + self@.encode());
    }

    /// Encodes the record.
    pub fn as_bytes(&self) -> (r: Vec<u8>)
        requires
            self@.wf(),
        ensures
            r@ == self@.encode(),
            r@.len() == 8 + self@.payload_len(),
    {
        let mut out: Vec<u8> = Vec::new();
        self.write_to(&mut out);
        assert(out@ =~= self@.encode());
        out
    }

    /// Decodes the payload of a record of the given type.
    pub fn from_payload(code: u16, p: &[u8]) -> (r: Result<NegotiateContext, NegotiateError>)
        ensures
            match r {
                Ok(c) => parse_payload(code as int, p@) == Ok::<ContextModel, NegotiateError>(c@),
                Err(e) => parse_payload(code as int, p@) == Err::<ContextModel, NegotiateError>(
                    e,
                ),
            },
    {
        reveal(parse_payload);
        if code == CONTEXT_PREAUTH_INTEGRITY {
            if p.len() < 4 {
                return Err(NegotiateError::TruncatedBuffer);
            }
            let n = read_u16(p, 0) as usize;
            let s = read_u16(p, 2) as usize;
            if p.len() - 4 < 2 * n + s {
                return Err(NegotiateError::TruncatedBuffer);
            }
            let hash_algorithms = read_u16s(p, 4, n);
            let salt = slice_to_vec(slice_subrange(p, 4 + 2 * n, 4 + 2 * n + s));
            Ok(NegotiateContext::PreAuthIntegrityCapabilities { hash_algorithms, salt })
        } else if code == CONTEXT_ENCRYPTION {
            match read_counted(p, 2) {
                Some(ciphers) => Ok(NegotiateContext::EncryptionCapabilities { ciphers }),
                None => Err(NegotiateError::TruncatedBuffer),
            }
        } else if code == CONTEXT_COMPRESSION {
            match read_counted(p, 8) {
                Some(algorithms) => {
                    let flags = read_u32(p, 4);
                    Ok(NegotiateContext::CompressionCapabilities { flags, algorithms })
                },
                None => Err(NegotiateError::TruncatedBuffer),
            }
        } else if code == CONTEXT_NETNAME {
            if p.len() % 2 != 0 {
                return Err(NegotiateError::TruncatedBuffer);
            }
            let net_name = read_u16s(p, 0, p.len() / 2);
            Ok(NegotiateContext::NetnameNegotiateContextID { net_name })
        } else if code == CONTEXT_TRANSPORT {
            if p.len() < 4 {
                return Err(NegotiateError::TruncatedBuffer);
            }
            Ok(NegotiateContext::TransportCapabilities { flags: read_u32(p, 0) })
        } else if code == CONTEXT_RDMA_TRANSFORM {
            match read_counted(p, 8) {
                Some(transform_ids) => Ok(
                    NegotiateContext::RDMATransformCapabilities { transform_ids },
                ),
                None => Err(NegotiateError::TruncatedBuffer),
            }
        } else if code == CONTEXT_SIGNING {
            match read_counted(p, 2) {
                Some(algorithms) => Ok(NegotiateContext::SigningCapabilities { algorithms }),
                None => Err(NegotiateError::TruncatedBuffer),
            }
        } else {
            Err(NegotiateError::UnrecognizedContextType)
        }
    }

    /// Decodes the record at the start of `bytes`. The record ends where its
    /// length field says, so `bytes` may go on behind it.
    pub fn from_bytes(bytes: &[u8]) -> (r: Result<NegotiateContext, NegotiateError>)
        ensures
            match r {
                Ok(c) => parse_context(bytes@) == Ok::<ContextModel, NegotiateError>(c@),
                Err(e) => parse_context(bytes@) == Err::<ContextModel, NegotiateError>(e),
            },
    {
        if bytes.len() < CONTEXT_HEADER_LEN {
            return Err(NegotiateError::TruncatedBuffer);
        }
        let code = read_u16(bytes, 0);
        let len = read_u16(bytes, 2) as usize;
        if bytes.len() - CONTEXT_HEADER_LEN < len {
            return Err(NegotiateError::TruncatedBuffer);
        }
        NegotiateContext::from_payload(
            code,
            slice_subrange(bytes, CONTEXT_HEADER_LEN, CONTEXT_HEADER_LEN + len),
        )
    }
}

/// The length of a payload is what `payload_len` computes, and a record is
/// eight bytes longer.
pub proof fn lemma_encoded_len(c: ContextModel)
    ensures
        c.payload().len() == c.payload_len(),
        c.encode().len() == 8 + c.payload_len(),
{
}

/// What `read_counted_list` reads back from what `counted_list` wrote.
proof fn lemma_counted_round_trip(header_len: int, values: Seq<u16>)
    requires
        2 <= header_len <= 8,
        values.len() <= 0xffff,
    ensures
        counted_list(header_len, values).len() == header_len + 2 * values.len(),
        read_counted_list(counted_list(header_len, values), header_len) == Some(values),
{
    let head = u16_le(values.len() as int) + zeros(header_len - 2);
    let p = counted_list(header_len, values);
    lemma_u16_round_trip(values.len() as int);
    assert(p[0] == u16_le(values.len() as int)[0]);
    assert(p[1] == u16_le(values.len() as int)[1]);
    assert(u16_at(p, 0) == values.len());
    lemma_u16s_round_trip(head, values, Seq::empty());
    assert(p =~= head + u16s_le(values) + Seq::<u8>::empty());
}

/// A payload is read back from its encoding.
pub proof fn lemma_payload_round_trip(c: ContextModel)
    requires
        c.wf(),
    ensures
        parse_payload(c.type_code() as int, c.payload()) == Ok::<ContextModel, NegotiateError>(c),
{
    reveal(parse_payload);
    let p = c.payload();
    match c {
        ContextModel::PreAuthIntegrityCapabilities { hash_algorithms, salt } => {
            let n = hash_algorithms.len() as int;
            let s = salt.len() as int;
            let head = u16_le(n) + u16_le(s);
            lemma_u16_round_trip(n);
            lemma_u16_round_trip(s);
            assert(p[0] == u16_le(n)[0] && p[1] == u16_le(n)[1]);
            assert(p[2] == u16_le(s)[0] && p[3] == u16_le(s)[1]);
            assert(u16_at(p, 0) == n);
            assert(u16_at(p, 2) == s);
            lemma_u16s_round_trip(head, hash_algorithms, salt);
            assert(p =~= head + u16s_le(hash_algorithms) + salt);
            assert(p.subrange(4 + 2 * n, 4 + 2 * n + s) =~= salt);
        },
        ContextModel::EncryptionCapabilities { ciphers } => {
            lemma_counted_round_trip(2, ciphers);
        },
        ContextModel::CompressionCapabilities { flags, algorithms } => {
            let n = algorithms.len() as int;
            let head = u16_le(n) + zeros(2) + u32_le(flags as int);
            lemma_u16_round_trip(n);
            lemma_u32_round_trip(flags as int);
            assert(p[0] == u16_le(n)[0] && p[1] == u16_le(n)[1]);
            assert(u16_at(p, 0) == n);
            assert(p[4] == u32_le(flags as int)[0] && p[5] == u32_le(flags as int)[1]);
            assert(p[6] == u32_le(flags as int)[2] && p[7] == u32_le(flags as int)[3]);
            assert(u32_at(p, 4) == flags);
            lemma_u16s_round_trip(head, algorithms, Seq::empty());
            assert(p =~= head + u16s_le(algorithms) + Seq::<u8>::empty());
        },
        ContextModel::NetnameNegotiateContextID { net_name } => {
            lemma_u16s_round_trip(Seq::empty(), net_name, Seq::empty());
            assert(p =~= Seq::<u8>::empty() + u16s_le(net_name) + Seq::<u8>::empty());
            assert(p.len() == 2 * net_name.len());
        },
        ContextModel::TransportCapabilities { flags } => {
            lemma_u32_round_trip(flags as int);
        },
        ContextModel::RDMATransformCapabilities { transform_ids } => {
            lemma_counted_round_trip(8, transform_ids);
        },
        ContextModel::SigningCapabilities { algorithms } => {
            lemma_counted_round_trip(2, algorithms);
        },
    }
}

/// A record is read back from its encoding, whatever follows it.
pub proof fn lemma_context_round_trip(c: ContextModel, rest: Seq<u8>)
    requires
        c.wf(),
    ensures
        parse_context(c.encode() + rest) == Ok::<ContextModel, NegotiateError>(c),
        u16_at(c.encode() + rest, 0) == c.type_code(),
        u16_at(c.encode() + rest, 2) == c.payload_len(),
{
    let e = c.encode();
    let bytes = e + rest;
    lemma_encoded_len(c);
    lemma_u16_round_trip(c.type_code() as int);
    lemma_u16_round_trip(c.payload_len() as int);
    assert(bytes[0] == u16_le(c.type_code() as int)[0]);
    assert(bytes[1] == u16_le(c.type_code() as int)[1]);
    assert(bytes[2] == u16_le(c.payload_len() as int)[0]);
    assert(bytes[3] == u16_le(c.payload_len() as int)[1]);
    assert(bytes.subrange(8, 8 + c.payload_len() as int) =~= c.payload());
    lemma_payload_round_trip(c);
}

/// What was decoded can be encoded again: the payload of a decoded context
/// is no longer than the payload it was read from.
pub proof fn lemma_parsed_payload_fits(code: int, p: Seq<u8>)
    ensures
        parse_payload(code, p) matches Ok(c) ==> c.payload_len() <= p.len(),
{
    reveal(parse_payload);
}

/// A context that was decoded from a record can be encoded.
pub proof fn lemma_parsed_is_well_formed(bytes: Seq<u8>)
    ensures
        parse_context(bytes) matches Ok(c) ==> c.wf(),
{
    if bytes.len() >= 8 && bytes.len() >= 8 + u16_at(bytes, 2) {
        lemma_parsed_payload_fits(u16_at(bytes, 0), bytes.subrange(8, 8 + u16_at(bytes, 2)));
    }
}

} // verus!
