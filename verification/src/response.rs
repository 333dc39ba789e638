//! The negotiate response: what the server answers.
//!
//! Layout of the body, all integers little-endian:
//! `[structure size: 2 = 65][security mode: 2][dialect: 2][context count: 2]`
//! `[server identifier: 16][capabilities: 4][max transact size: 4]`
//! `[max read size: 4][max write size: 4][system time: 8]`
//! `[server start time: 8][security buffer offset: 2]`
//! `[security buffer length: 2][context offset: 4]`, then the security
//! buffer, the zero bytes that bring the total to a multiple of eight (none
//! where it is one already), and the context list. Both offsets count from
//! the start of the 64-byte header that precedes the body, so the security
//! buffer stands at offset 128.

use crate::byte_helper::{
    lemma_u16_round_trip, lemma_u32_round_trip, push_bytes, push_u16, push_u32, push_zeros, u16_at,
    u16_le, u32_at, u32_le, u64_le, zeros,
};
use crate::context::{ContextModel, NegotiateContext};
use crate::context_list::{
    all_wf, encode_list, lemma_list_round_trip, lemma_padding_aligns, padding_after, parse_list,
    views, write_list,
};
use crate::dialect::{lemma_selection_ignores_order, newest, SMBDialect};
use crate::error::NegotiateError;
use crate::file_time::{FileTime, UNIX_EPOCH_TICKS};
use crate::flags::{Capabilities, SecurityMode, NEGOTIATE_SIGNING_REQUIRED};
use crate::guid::{is_random_guid, Guid};
use crate::request::{RequestModel, SMBNegotiateRequestBody};
use crate::support::{
    default_support, derive_context, lemma_derived_keeps_type, SupportModel, SupportedAlgorithms,
};
use vstd::prelude::*;

verus! {

/// The value of the structure size field.
pub const RESPONSE_STRUCTURE_SIZE: u16 = 65;

/// The offset of the security buffer, counted from the start of the header.
pub const SECURITY_BUFFER_OFFSET: u16 = 128;

/// The size limit that the server grants for transactions, reads and writes.
pub const DEFAULT_MAX_SIZE: u32 = 65535;

/// A negotiate response.
#[derive(Clone, Debug, PartialEq, Eq)]
pub struct SMBNegotiateResponseBody {
    security_mode: SecurityMode,
    dialect: SMBDialect,
    guid: Guid,
    capabilities: Capabilities,
    max_transact_size: u32,
    max_read_size: u32,
    max_write_size: u32,
    system_time: FileTime,
    server_start_time: FileTime,
    buffer: Vec<u8>,
    negotiate_contexts: Vec<NegotiateContext>,
}

/// Another name of [`SMBNegotiateResponseBody`].
pub type SMBNegotiationResponseBody = SMBNegotiateResponseBody;

/// The mathematical value of a negotiate response.
pub ghost struct ResponseModel {
    /// The bits of the security mode.
    pub security_mode: u8,
    /// The selected dialect.
    pub dialect: SMBDialect,
    /// The 16 bytes of the server's identifier.
    pub guid: Seq<u8>,
    /// The bits of the capabilities.
    pub capabilities: u32,
    pub max_transact_size: u32,
    pub max_read_size: u32,
    pub max_write_size: u32,
    /// The ticks of the system time.
    pub system_time: u64,
    /// The ticks of the server start time.
    pub server_start_time: u64,
    /// The authentication token.
    pub buffer: Seq<u8>,
    /// The response contexts.
    pub negotiate_contexts: Seq<ContextModel>,
}

impl ResponseModel {
    /// A response can be encoded when its lengths fit their fields and its
    /// contexts can be encoded. Only a response for 3.1.1 has contexts.
    pub open spec fn wf(self) -> bool {
        &&& self.guid.len() == 16
        &&& self.buffer.len() <= 0xffff
        &&& self.negotiate_contexts.len() <= 0xffff
        &&& all_wf(self.negotiate_contexts)
        &&& self.dialect != SMBDialect::V3_1_1 ==> self.negotiate_contexts.len() == 0
    }

    /// The number of zero bytes between the security buffer and the context
    /// list: as many as bring the total to a multiple of eight, so none for
    /// a token of 0, 8, 16 and so on bytes.
    pub open spec fn padding_len(self) -> int {
        padding_after(128 + self.buffer.len() as int)
    }

    /// The declared offset of the security buffer: 128, or 0 for an empty
    /// buffer.
    pub open spec fn security_offset(self) -> int {
        if self.buffer.len() == 0 {
            0
        } else {
            128
        }
    }

    /// The declared offset of the context list: behind the security buffer
    /// and its padding, or 0 for a dialect without contexts.
    pub open spec fn context_offset(self) -> int {
        if self.dialect == SMBDialect::V3_1_1 {
            128 + self.buffer.len() + self.padding_len()
        } else {
            0
        }
    }

    /// The bytes of the context list: none for a dialect without contexts.
    pub open spec fn context_bytes(self) -> Seq<u8> {
        if self.dialect == SMBDialect::V3_1_1 {
            encode_list(self.negotiate_contexts)
        } else {
            Seq::empty()
        }
    }

    /// The first 56 bytes: everything before the offsets.
    #[verifier::opaque]
    pub open spec fn head(self) -> Seq<u8> {
        u16_le(65) + seq![self.security_mode, 0u8] + u16_le(self.dialect.code() as int) + u16_le(
            self.negotiate_contexts.len() as int,
        ) + self.guid + u32_le(self.capabilities as int) + u32_le(self.max_transact_size as int)
            + u32_le(self.max_read_size as int) + u32_le(self.max_write_size as int) + u64_le(
            self.system_time as int,
        ) + u64_le(self.server_start_time as int)
    }

    /// The eight bytes of the offsets: security buffer offset and length,
    /// and context offset.
    pub open spec fn offsets(self) -> Seq<u8> {
        u16_le(self.security_offset()) + u16_le(self.buffer.len() as int) + u32_le(
            self.context_offset(),
        )
    }

    /// The whole body.
    pub open spec fn encode(self) -> Seq<u8> {
        self.head() + self.offsets() + self.buffer + zeros(self.padding_len())
            + self.context_bytes()
    }
}

/// The response contexts for a list of request contexts, one for each and in
/// the same order. One context without a common entry fails them all.
pub open spec fn derive_contexts(contexts: Seq<ContextModel>, s: SupportModel) -> Result<
    Seq<ContextModel>,
    NegotiateError,
>
    decreases contexts.len(),
{
    if contexts.len() == 0 {
        Ok(Seq::empty())
    } else {
        match derive_contexts(contexts.drop_last(), s) {
            Err(e) => Err(e),
            Ok(init) => match derive_context(contexts.last(), s) {
                Ok(d) => Ok(init.push(d)),
                Err(e) => Err(e),
            },
        }
    }
}

/// What is agreed: the newest dialect of the offer and, for 3.1.1, the
/// response contexts. An offer without a known dialect fails, and so does a
/// 3.1.1 offer with a context that has no common entry.
pub open spec fn agreement(request: RequestModel, s: SupportModel) -> Result<
    (SMBDialect, Seq<ContextModel>),
    NegotiateError,
> {
    match newest(request.dialects) {
        None => Err(NegotiateError::NoCommonDialect),
        Some(dialect) => if dialect == SMBDialect::V3_1_1 {
            match derive_contexts(request.negotiate_contexts, s) {
                Ok(contexts) => Ok((dialect, contexts)),
                Err(e) => Err(e),
            }
        } else {
            Ok((dialect, Seq::empty()))
        },
    }
}

/// The response to a request, once dialect and contexts are agreed. The
/// security mode is that of the request with "signing required" set; the
/// capabilities are those of the request; the three size limits are 65535;
/// the server start time is the Unix epoch.
pub open spec fn response_to(
    request: RequestModel,
    token: Seq<u8>,
    guid: Seq<u8>,
    system_time: u64,
    dialect: SMBDialect,
    contexts: Seq<ContextModel>,
) -> ResponseModel {
    ResponseModel {
        security_mode: request.security_mode | NEGOTIATE_SIGNING_REQUIRED,
        dialect,
        guid,
        capabilities: request.capabilities,
        max_transact_size: DEFAULT_MAX_SIZE,
        max_read_size: DEFAULT_MAX_SIZE,
        max_write_size: DEFAULT_MAX_SIZE,
        system_time,
        server_start_time: UNIX_EPOCH_TICKS,
        buffer: token,
        negotiate_contexts: contexts,
    }
}

impl View for SMBNegotiateResponseBody {
    type V = ResponseModel;

    closed spec fn view(&self) -> ResponseModel {
        ResponseModel {
            security_mode: self.security_mode.bits(),
            dialect: self.dialect,
            guid: self.guid@,
            capabilities: self.capabilities.bits(),
            max_transact_size: self.max_transact_size,
            max_read_size: self.max_read_size,
            max_write_size: self.max_write_size,
            system_time: self.system_time.ticks(),
            server_start_time: self.server_start_time.ticks(),
            buffer: self.buffer@,
            negotiate_contexts: views(self.negotiate_contexts@),
        }
    }
}

/// Derives the response contexts for the contexts of a request.
pub fn derive_all(contexts: &Vec<NegotiateContext>, supported: &SupportedAlgorithms) -> (r: Result<
    Vec<NegotiateContext>,
    NegotiateError,
>)
    ensures
        match r {
            Ok(derived) => derive_contexts(views(contexts@), supported@) == Ok::<
                Seq<ContextModel>,
                NegotiateError,
            >(views(derived@)),
            Err(e) => derive_contexts(views(contexts@), supported@) == Err::<
                Seq<ContextModel>,
                NegotiateError,
            >(e),
        },
{
    let ghost all = views(contexts@);
    let mut derived: Vec<NegotiateContext> = Vec::new();
    let mut i: usize = 0;
    assert(all.subrange(0, 0) =~= Seq::<ContextModel>::empty());
    assert(views(derived@) =~= Seq::<ContextModel>::empty());
    while i < contexts.len()
        invariant
            i <= contexts@.len(),
            all == views(contexts@),
            derive_contexts(all.subrange(0, i as int), supported@) == Ok::<
                Seq<ContextModel>,
                NegotiateError,
            >(views(derived@)),
        decreases contexts@.len() - i,
    {
        let ghost before = views(derived@);
        assert(all.subrange(0, i + 1).drop_last() =~= all.subrange(0, i as int));
        assert(all.subrange(0, i + 1).last() == contexts@[i as int]@);
        match contexts[i].response_with(supported) {
            Ok(d) => {
                derived.push(d);
                assert(views(derived@) =~= before.push(d@));
            },
            Err(e) => {
                proof {
                    lemma_derive_fails_on_prefix(all, i + 1, supported@);
                }
                return Err(e);
            },
        }
        i += 1;
    }
    assert(all.subrange(0, i as int) =~= all);
    Ok(derived)
}

impl SMBNegotiateResponseBody {
    /// A response with the given contents, a fresh random identifier and the
    /// current system time. It has no negotiate contexts.
    pub fn new(
        security_mode: SecurityMode,
        dialect: SMBDialect,
        capabilities: Capabilities,
        max_transact_size: u32,
        max_read_size: u32,
        max_write_size: u32,
        server_start_time: FileTime,
        buffer: Vec<u8>,
    ) -> (r: SMBNegotiateResponseBody)
        ensures
            r@ == (ResponseModel {
                security_mode: security_mode.bits(),
                dialect,
                guid: r@.guid,
                capabilities: capabilities.bits(),
                max_transact_size,
                max_read_size,
                max_write_size,
                system_time: r@.system_time,
                server_start_time: server_start_time.ticks(),
                buffer: buffer@,
                negotiate_contexts: Seq::empty(),
            }),
            is_random_guid(r@.guid),
            r@.system_time >= UNIX_EPOCH_TICKS,
            buffer@.len() <= 0xffff ==> r@.wf(),
    {
        let negotiate_contexts: Vec<NegotiateContext> = Vec::new();
        assert(views(negotiate_contexts@) =~= Seq::<ContextModel>::empty());
        SMBNegotiateResponseBody::from_parts(
            security_mode,
            dialect,
            Guid::new_v4(),
            capabilities,
            max_transact_size,
            max_read_size,
            max_write_size,
            FileTime::now(),
            server_start_time,
            buffer,
            negotiate_contexts,
        )
    }

    /// A response with the given contents, all of them.
    pub fn from_parts(
        security_mode: SecurityMode,
        dialect: SMBDialect,
        guid: Guid,
        capabilities: Capabilities,
        max_transact_size: u32,
        max_read_size: u32,
        max_write_size: u32,
        system_time: FileTime,
        server_start_time: FileTime,
        buffer: Vec<u8>,
        negotiate_contexts: Vec<NegotiateContext>,
    ) -> (r: SMBNegotiateResponseBody)
        ensures
            r@ == (ResponseModel {
                security_mode: security_mode.bits(),
                dialect,
                guid: guid@,
                capabilities: capabilities.bits(),
                max_transact_size,
                max_read_size,
                max_write_size,
                system_time: system_time.ticks(),
                server_start_time: server_start_time.ticks(),
                buffer: buffer@,
                negotiate_contexts: views(negotiate_contexts@),
            }),
            r@.guid.len() == 16,
    {
        proof {
            guid.lemma_len();
        }
        SMBNegotiateResponseBody {
            security_mode,
            dialect,
            guid,
            capabilities,
            max_transact_size,
            max_read_size,
            max_write_size,
            system_time,
            server_start_time,
            buffer,
            negotiate_contexts,
        }
    }

    /// Answers a request with the given token, identifier, system time and
    /// table of supported parameters.
    pub fn respond(
        request: &SMBNegotiateRequestBody,
        token: Vec<u8>,
        guid: Guid,
        system_time: FileTime,
        supported: &SupportedAlgorithms,
    ) -> (r: Result<SMBNegotiateResponseBody, NegotiateError>)
        ensures
            match r {
                Ok(response) => agreement(request@, supported@) matches Ok((dialect, contexts))
                    && response@ == response_to(
                    request@,
                    token@,
                    guid@,
                    system_time.ticks(),
                    dialect,
                    contexts,
                ) && (request@.wf() && token@.len() <= 0xffff ==> response@.wf()),
                Err(e) => agreement(request@, supported@) == Err::<
                    (SMBDialect, Seq<ContextModel>),
                    NegotiateError,
                >(e),
            },
    {
        let dialect = match SMBDialect::select(request.dialects().as_slice()) {
            Ok(d) => d,
            Err(e) => {
                return Err(e);
            },
        };
        let negotiate_contexts = if dialect == SMBDialect::V3_1_1 {
            match derive_all(request.negotiate_contexts(), supported) {
                Ok(derived) => derived,
                Err(e) => {
                    return Err(e);
                },
            }
        } else {
            let none: Vec<NegotiateContext> = Vec::new();
            assert(views(none@) =~= Seq::<ContextModel>::empty());
            none
        };
        proof {
            guid.lemma_len();
            lemma_derived_are_well_formed(request@.negotiate_contexts, supported@);
        }
        let security_mode = request.security_mode().union(SecurityMode::signing_required());
        Ok(
            SMBNegotiateResponseBody {
                security_mode,
                dialect,
                guid,
                capabilities: request.capabilities(),
                max_transact_size: DEFAULT_MAX_SIZE,
                max_read_size: DEFAULT_MAX_SIZE,
                max_write_size: DEFAULT_MAX_SIZE,
                system_time,
                server_start_time: FileTime::from_unix(0),
                buffer: token,
                negotiate_contexts,
            },
        )
    }

    /// Answers a request with the given token, a fresh random identifier,
    /// the current system time and the server's default table. `None` when
    /// nothing can be agreed.
    pub fn from_request(request: SMBNegotiateRequestBody, token: Vec<u8>) -> (r: Option<
        SMBNegotiateResponseBody,
    >)
        ensures
            match r {
                Some(response) => agreement(request@, default_support()) matches Ok(
                    (dialect, contexts),
                ) && response@ == response_to(
                    request@,
                    token@,
                    response@.guid,
                    response@.system_time,
                    dialect,
                    contexts,
                ) && (request@.wf() && token@.len() <= 0xffff ==> response@.wf())
                    && is_random_guid(response@.guid) && response@.system_time
                    >= UNIX_EPOCH_TICKS,
                None => agreement(request@, default_support()) is Err,
            },
    {
        let supported = SupportedAlgorithms::server_default();
        let guid = Guid::new_v4();
        let system_time = FileTime::now();
        match SMBNegotiateResponseBody::respond(&request, token, guid, system_time, &supported) {
            Ok(response) => Some(response),
            Err(_) => None,
        }
    }

    /// The security mode of the response.
    pub fn security_mode(&self) -> (r: SecurityMode)
        ensures
            r.bits() == self@.security_mode,
    {
        self.security_mode
    }

    /// The selected dialect.
    pub fn dialect(&self) -> (r: SMBDialect)
        ensures
            r == self@.dialect,
    {
        self.dialect
    }

    /// The server's identifier.
    pub fn guid(&self) -> (r: Guid)
        ensures
            r@ == self@.guid,
    {
        self.guid
    }

    /// The capabilities of the response.
    pub fn capabilities(&self) -> (r: Capabilities)
        ensures
            r.bits() == self@.capabilities,
    {
        self.capabilities
    }

    /// The greatest size of a transaction that the server grants.
    pub fn max_transact_size(&self) -> (r: u32)
        ensures
            r == self@.max_transact_size,
    {
        self.max_transact_size
    }

    /// The greatest size of a read that the server grants.
    pub fn max_read_size(&self) -> (r: u32)
        ensures
            r == self@.max_read_size,
    {
        self.max_read_size
    }

    /// The greatest size of a write that the server grants.
    pub fn max_write_size(&self) -> (r: u32)
        ensures
            r == self@.max_write_size,
    {
        self.max_write_size
    }

    /// The system time of the response.
    pub fn system_time(&self) -> (r: FileTime)
        ensures
            r.ticks() == self@.system_time,
    {
        self.system_time
    }

    /// The server start time of the response.
    pub fn server_start_time(&self) -> (r: FileTime)
        ensures
            r.ticks() == self@.server_start_time,
    {
        self.server_start_time
    }

    /// The authentication token.
    pub fn buffer(&self) -> (r: &Vec<u8>)
        ensures
            r@ == self@.buffer,
    {
        &self.buffer
    }

    /// The response contexts.
    pub fn negotiate_contexts(&self) -> (r: &Vec<NegotiateContext>)
        ensures
            views(r@) == self@.negotiate_contexts,
    {
        &self.negotiate_contexts
    }

    /// Whether the response can be encoded: whether the lengths of its token
    /// and of its contexts fit their fields, and only a response for 3.1.1
    /// has contexts.
    pub fn is_well_formed(&self) -> (r: bool)
        ensures
            r == self@.wf(),
    {
        proof {
            self.guid.lemma_len();
        }
        if self.buffer.len() > 0xffff || self.negotiate_contexts.len() > 0xffff {
            return false;
        }
        if self.dialect != SMBDialect::V3_1_1 && self.negotiate_contexts.len() != 0 {
            return false;
        }
        let mut i: usize = 0;
        while i < self.negotiate_contexts.len()
            invariant
                i <= self.negotiate_contexts@.len(),
                forall|k: int| 0 <= k < i ==> (#[trigger] views(self.negotiate_contexts@)[k]).wf(),
            decreases self.negotiate_contexts@.len() - i,
        {
            if !self.negotiate_contexts[i].is_well_formed() {
                assert(!views(self.negotiate_contexts@)[i as int].wf());
                return false;
            }
            i += 1;
        }
        true
    }

    /// Encodes the body. The offsets that it declares are computed from the
    /// lengths of the sections that precede them.
    pub fn as_bytes(&self) -> (r: Vec<u8>)
        requires
            self@.wf(),
        ensures
            r@ == self@.encode(),
    {
        let buffer_len = self.buffer.len();
        let len_w_buffer = 128 + buffer_len;
        let padding_len = (8 - len_w_buffer % 8) % 8;
        let newest_dialect = self.dialect == SMBDialect::V3_1_1;
        let security_offset: u16 = if buffer_len == 0 {
            0
        } else {
            SECURITY_BUFFER_OFFSET
        };
        let context_offset: u32 = if newest_dialect {
            (len_w_buffer + padding_len) as u32
        } else {
            0
        };
        let mut out: Vec<u8> = Vec::new();
        push_u16(&mut out, RESPONSE_STRUCTURE_SIZE);
        out.push(self.security_mode.bits());
        out.push(0u8);
        push_u16(&mut out, self.dialect.code());
        push_u16(&mut out, self.negotiate_contexts.len() as u16);
        push_bytes(&mut out, self.guid.as_bytes().as_slice());
        push_u32(&mut out, self.capabilities.bits());
        push_u32(&mut out, self.max_transact_size);
        push_u32(&mut out, self.max_read_size);
        push_u32(&mut out, self.max_write_size);
        let system_time = self.system_time.as_bytes();
        push_bytes(&mut out, system_time.as_slice());
        let server_start_time = self.server_start_time.as_bytes();
        push_bytes(&mut out, server_start_time.as_slice());
        assert(out@ =~= self@.head()) by {
            reveal(ResponseModel::head);
        }
        push_u16(&mut out, security_offset);
        push_u16(&mut out, buffer_len as u16);
        push_u32(&mut out, context_offset);
        assert(out@ =~= self@.head() + self@.offsets());
        push_bytes(&mut out, self.buffer.as_slice());
        push_zeros(&mut out, padding_len);
        if newest_dialect {
            write_list(&self.negotiate_contexts, &mut out);
        }
        assert(out@ =~= self@.encode());
        out
    }
}

/// The fixed part of a response is 64 bytes long: 56 bytes, then the eight
/// bytes of the offsets.
pub proof fn lemma_fixed_part_len(r: ResponseModel)
    requires
        r.wf(),
    ensures
        r.head().len() == 56,
        r.offsets().len() == 8,
        r.encode().len() == 64 + r.buffer.len() + r.padding_len() + r.context_bytes().len(),
        0 <= r.padding_len() < 8,
        (64 + r.buffer.len() + r.padding_len()) % 8 == 0,
        r.buffer.len() % 8 == 0 ==> r.padding_len() == 0,
{
    reveal(ResponseModel::head);
    lemma_padding_aligns(128 + r.buffer.len() as int);
}

/// Every offset that an encoded response declares is the position at which
/// the section stands, counted from the start of the 64-byte header before
/// the body. This holds with and without a token, and for every dialect.
///
/// The security buffer length field holds the length of the token. A token
/// that is not empty stands at the declared security buffer offset, which
/// is 128; for an empty token the offset is 0. For 3.1.1 the declared
/// context offset is a multiple of eight, the context list stands there and
/// runs to the end, and decoding as many contexts as the count field says
/// from there gives the contexts of the response. For any other dialect the
/// context offset is 0 and nothing follows the padding.
pub proof fn lemma_offsets_match_sections(r: ResponseModel)
    requires
        r.wf(),
    ensures
        u16_at(r.encode(), 0) == 65,
        u16_at(r.encode(), 6) == r.negotiate_contexts.len(),
        u16_at(r.encode(), 58) == r.buffer.len(),
        r.buffer.len() == 0 ==> u16_at(r.encode(), 56) == 0,
        r.buffer.len() > 0 ==> u16_at(r.encode(), 56) == 128 && r.encode().subrange(
            128 - 64,
            128 - 64 + r.buffer.len(),
        ) == r.buffer,
        r.dialect != SMBDialect::V3_1_1 ==> u32_at(r.encode(), 60) == 0 && r.encode().len() == 64
            + r.buffer.len() + r.padding_len(),
        r.dialect == SMBDialect::V3_1_1 ==> u32_at(r.encode(), 60) % 8 == 0 && u32_at(
            r.encode(),
            60,
        ) == 128 + r.buffer.len() + r.padding_len() && r.encode().skip(
            u32_at(r.encode(), 60) - 64,
        ) == encode_list(r.negotiate_contexts) && parse_list(
            r.encode(),
            u32_at(r.encode(), 60) - 64,
            u16_at(r.encode(), 6) as nat,
        ) == Ok::<(Seq<ContextModel>, int), NegotiateError>(
            (r.negotiate_contexts, r.encode().len() as int),
        ),
{
    let out = r.encode();
    let before = r.head() + r.offsets() + r.buffer + zeros(r.padding_len());
    lemma_fixed_part_len(r);
    lemma_head_fields(r);
    lemma_offset_fields(r.security_offset(), r.buffer.len() as int, r.context_offset());
    lemma_sections(r.head(), r.offsets(), r.buffer, zeros(r.padding_len()), r.context_bytes());
    if r.dialect == SMBDialect::V3_1_1 {
        assert(before.len() == 64 + r.buffer.len() + r.padding_len());
        assert(before.len() == r.context_offset() - 64);
        lemma_list_round_trip(before, r.negotiate_contexts, Seq::empty());
    }
}

/// The structure size and the context count, read from the head.
proof fn lemma_head_fields(r: ResponseModel)
    requires
        r.wf(),
    ensures
        u16_at(r.head(), 0) == 65,
        u16_at(r.head(), 6) == r.negotiate_contexts.len(),
{
    reveal(ResponseModel::head);
    let head = r.head();
    lemma_u16_round_trip(65);
    lemma_u16_round_trip(r.negotiate_contexts.len() as int);
    assert(head[0] == u16_le(65)[0] && head[1] == u16_le(65)[1]);
    assert(head[6] == u16_le(r.negotiate_contexts.len() as int)[0]);
    assert(head[7] == u16_le(r.negotiate_contexts.len() as int)[1]);
}

/// The three fields of the offsets, read back.
proof fn lemma_offset_fields(security_offset: int, buffer_len: int, context_offset: int)
    requires
        0 <= security_offset < 0x1_0000,
        0 <= buffer_len < 0x1_0000,
        0 <= context_offset < 0x1_0000_0000,
    ensures
        ({
            let offsets = u16_le(security_offset) + u16_le(buffer_len) + u32_le(context_offset);
            &&& offsets.len() == 8
            &&& u16_at(offsets, 0) == security_offset
            &&& u16_at(offsets, 2) == buffer_len
            &&& u32_at(offsets, 4) == context_offset
        }),
{
    let offsets = u16_le(security_offset) + u16_le(buffer_len) + u32_le(context_offset);
    lemma_u16_round_trip(security_offset);
    lemma_u16_round_trip(buffer_len);
    lemma_u32_round_trip(context_offset);
    assert(offsets[0] == u16_le(security_offset)[0]);
    assert(offsets[1] == u16_le(security_offset)[1]);
    assert(offsets[2] == u16_le(buffer_len)[0]);
    assert(offsets[3] == u16_le(buffer_len)[1]);
    assert(offsets[4] == u32_le(context_offset)[0]);
    assert(offsets[5] == u32_le(context_offset)[1]);
    assert(offsets[6] == u32_le(context_offset)[2]);
    assert(offsets[7] == u32_le(context_offset)[3]);
}

/// Where the sections of a body stand, and that a field of the fixed part
/// reads the same in the whole body.
proof fn lemma_sections(
    head: Seq<u8>,
    offsets: Seq<u8>,
    buffer: Seq<u8>,
    pad: Seq<u8>,
    contexts: Seq<u8>,
)
    requires
        head.len() == 56,
        offsets.len() == 8,
    ensures
        ({
            let out = head + offsets + buffer + pad + contexts;
            &&& u16_at(out, 0) == u16_at(head, 0)
            &&& u16_at(out, 6) == u16_at(head, 6)
            &&& u16_at(out, 56) == u16_at(offsets, 0)
            &&& u16_at(out, 58) == u16_at(offsets, 2)
            &&& u32_at(out, 60) == u32_at(offsets, 4)
            &&& out.subrange(64, 64 + buffer.len() as int) == buffer
            &&& out.skip((64 + buffer.len() + pad.len()) as int) == contexts
            &&& out == (head + offsets + buffer + pad) + contexts + Seq::<u8>::empty()
        }),
{
    let out = head + offsets + buffer + pad + contexts;
    assert(out[0] == head[0] && out[1] == head[1] && out[6] == head[6] && out[7] == head[7]);
    assert(out[56] == offsets[0] && out[57] == offsets[1]);
    assert(out[58] == offsets[2] && out[59] == offsets[3]);
    assert(out[60] == offsets[4] && out[61] == offsets[5]);
    assert(out[62] == offsets[6] && out[63] == offsets[7]);
    assert(out.subrange(64, 64 + buffer.len() as int) =~= buffer);
    assert(out.skip((64 + buffer.len() + pad.len()) as int) =~= contexts);
    assert(out =~= (head + offsets + buffer + pad) + contexts + Seq::<u8>::empty());
}

/// The dialect of the response does not depend on the order of the offer:
/// two requests whose dialect lists are permutations of each other are
/// answered, where both are answered, with the same dialect; and where one
/// has no common dialect, the other has none either.
pub proof fn lemma_agreed_dialect_ignores_order(a: RequestModel, b: RequestModel, s: SupportModel)
    requires
        a.dialects.to_multiset() == b.dialects.to_multiset(),
    ensures
        newest(a.dialects) == newest(b.dialects),
        agreement(a, s) matches Ok((dialect, _)) ==> Some(dialect) == newest(b.dialects),
        agreement(a, s) == Err::<(SMBDialect, Seq<ContextModel>), NegotiateError>(
            NegotiateError::NoCommonDialect,
        ) <==> agreement(b, s) == Err::<(SMBDialect, Seq<ContextModel>), NegotiateError>(
            NegotiateError::NoCommonDialect,
        ),
{
    assert forall|d: SMBDialect| a.dialects.contains(d) <==> b.dialects.contains(d) by {
        vstd::seq_lib::to_multiset_contains(a.dialects, d);
        vstd::seq_lib::to_multiset_contains(b.dialects, d);
    }
    lemma_selection_ignores_order(a.dialects, b.dialects);
    lemma_derive_never_lacks_a_dialect(a.negotiate_contexts, s);
    lemma_derive_never_lacks_a_dialect(b.negotiate_contexts, s);
}

/// The derivation of contexts fails for want of a common algorithm only.
proof fn lemma_derive_never_lacks_a_dialect(contexts: Seq<ContextModel>, s: SupportModel)
    ensures
        derive_contexts(contexts, s) matches Err(e) ==> e == NegotiateError::NoCommonAlgorithm,
    decreases contexts.len(),
{
    if contexts.len() > 0 {
        lemma_derive_never_lacks_a_dialect(contexts.drop_last(), s);
    }
}

/// Once a prefix of the contexts has no derivation, the whole list has none.
proof fn lemma_derive_fails_on_prefix(contexts: Seq<ContextModel>, upto: int, s: SupportModel)
    requires
        0 <= upto <= contexts.len(),
        derive_contexts(contexts.subrange(0, upto), s) is Err,
    ensures
        derive_contexts(contexts, s) == derive_contexts(contexts.subrange(0, upto), s),
    decreases contexts.len() - upto,
{
    if upto < contexts.len() {
        assert(contexts.subrange(0, upto + 1).drop_last() =~= contexts.subrange(0, upto));
        lemma_derive_fails_on_prefix(contexts, upto + 1, s);
    } else {
        assert(contexts.subrange(0, upto) =~= contexts);
    }
}

/// The derived contexts are as many as the request's, each of the type of
/// the context it answers, and each can be encoded if that one can.
pub proof fn lemma_derived_are_well_formed(contexts: Seq<ContextModel>, s: SupportModel)
    ensures
        derive_contexts(contexts, s) matches Ok(derived) ==> derived.len() == contexts.len()
            && (forall|i: int|
            0 <= i < contexts.len() ==> (#[trigger] derived[i]).type_code()
                == contexts[i].type_code()) && (all_wf(contexts) ==> all_wf(derived)),
    decreases contexts.len(),
{
    if contexts.len() > 0 {
        let init = contexts.drop_last();
        lemma_derived_are_well_formed(init, s);
        lemma_derived_keeps_type(contexts.last(), s);
        match derive_contexts(contexts, s) {
            Ok(derived) => {
                let di = derive_contexts(init, s)->Ok_0;
                assert forall|i: int| 0 <= i < contexts.len() implies (#[trigger] derived[i])
                    .type_code() == contexts[i].type_code() by {
                    if i < init.len() {
                        assert(derived[i] == di[i]);
                        assert(init[i] == contexts[i]);
                    }
                }
                if all_wf(contexts) {
                    assert forall|i: int| 0 <= i < init.len() implies (#[trigger] init[i]).wf() by {
                        assert(init[i] == contexts[i]);
                    }
                    assert(contexts[contexts.len() - 1].wf());
                    assert forall|i: int| 0 <= i < derived.len() implies (#[trigger] derived[i])
                        .wf() by {
                        if i < init.len() {
                            assert(derived[i] == di[i]);
                        }
                    }
                }
            },
            Err(_) => {},
        }
    }
}

} // verus!
