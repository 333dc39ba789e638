//! The negotiate request: what a client offers.
//!
//! Layout of the body, all integers little-endian:
//! `[structure size: 2][dialect count: 2][security mode: 1][reserved: 3]`
//! `[capabilities: 4][client identifier: 16][context offset: 4]`
//! `[context count: 2][reserved: 2]`, then the dialect codes of two bytes
//! each from byte 36 on. The context offset counts from the start of the
//! 64-byte header that precedes the body.

use crate::byte_helper::{read_u16, read_u16s, read_u32, u16_at, u16s_at, u32_at};
use crate::context::{lemma_parsed_is_well_formed, ContextModel, NegotiateContext};
use crate::context_list::{all_wf, parse_list, read_list, views};
use crate::dialect::{recognized, SMBDialect};
use crate::error::NegotiateError;
use crate::flags::{Capabilities, SecurityMode, CAPABILITIES_ALL, SECURITY_MODE_ALL};
use crate::guid::Guid;
use vstd::prelude::*;
use vstd::slice::slice_subrange;

verus! {

/// The least number of bytes of a request body.
pub const REQUEST_MIN_LEN: usize = 37;

/// The position of the first dialect code.
pub const DIALECTS_OFFSET: usize = 36;

/// The number of bytes of the header that precedes the body.
pub const HEADER_LEN: usize = 64;

/// A parsed negotiate request.
#[derive(Clone, Debug, PartialEq, Eq)]
pub struct SMBNegotiateRequestBody {
    security_mode: SecurityMode,
    capabilities: Capabilities,
    client_uuid: Guid,
    dialects: Vec<SMBDialect>,
    negotiate_contexts: Vec<NegotiateContext>,
}

/// Another name of [`SMBNegotiateRequestBody`].
pub type SMBNegotiationRequestBody = SMBNegotiateRequestBody;

/// The mathematical value of a negotiate request.
pub ghost struct RequestModel {
    /// The bits of the security mode.
    pub security_mode: u8,
    /// The bits of the capabilities.
    pub capabilities: u32,
    /// The 16 bytes of the client's identifier.
    pub client_guid: Seq<u8>,
    /// The known dialects of the offer, in the order received.
    pub dialects: Seq<SMBDialect>,
    /// The known negotiate contexts, in the order received.
    pub negotiate_contexts: Seq<ContextModel>,
}

impl RequestModel {
    /// The contexts of a request can be answered when each can be encoded
    /// and their number fits a 16-bit count.
    pub open spec fn wf(self) -> bool {
        &&& all_wf(self.negotiate_contexts)
        &&& self.negotiate_contexts.len() <= 0xffff
    }
}

/// Decodes a request body, and says how many bytes of the input it covers.
///
/// The dialect list holds as many codes as the dialect count says; a code
/// that names no known revision takes its two bytes and leaves nothing in
/// the result. Where the known dialects include 3.1.1 and the context count
/// is not zero, the context list is decoded from the context offset less
/// the 64 bytes of the header, and the request ends where its last context
/// ends. Otherwise the request ends behind the dialect list.
pub open spec fn parse_request(bytes: Seq<u8>) -> Result<(RequestModel, int), NegotiateError> {
    if bytes.len() < 37 {
        Err(NegotiateError::TruncatedBuffer)
    } else if 36 + 2 * u16_at(bytes, 2) > bytes.len() {
        Err(NegotiateError::TruncatedBuffer)
    } else {
        let dialects = recognized(u16s_at(bytes, 36, u16_at(bytes, 2)));
        let base = RequestModel {
            security_mode: bytes[4] & SECURITY_MODE_ALL,
            capabilities: (u32_at(bytes, 8) as u32) & CAPABILITIES_ALL,
            client_guid: bytes.subrange(12, 28),
            dialects,
            negotiate_contexts: Seq::empty(),
        };
        if dialects.contains(SMBDialect::V3_1_1) && u16_at(bytes, 32) > 0 {
            if u32_at(bytes, 28) < 64 {
                Err(NegotiateError::TruncatedBuffer)
            } else {
                match parse_list(bytes, u32_at(bytes, 28) - 64, u16_at(bytes, 32) as nat) {
                    Ok((contexts, end)) => Ok(
                        (RequestModel { negotiate_contexts: contexts, ..base }, end),
                    ),
                    Err(e) => Err(e),
                }
            }
        } else {
            Ok((base, 36 + 2 * u16_at(bytes, 2)))
        }
    }
}

impl View for SMBNegotiateRequestBody {
    type V = RequestModel;

    closed spec fn view(&self) -> RequestModel {
        RequestModel {
            security_mode: self.security_mode.bits(),
            capabilities: self.capabilities.bits(),
            client_guid: self.client_uuid@,
            dialects: self.dialects@,
            negotiate_contexts: views(self.negotiate_contexts@),
        }
    }
}

/// The known dialects among a list of codes, in order.
fn recognized_dialects(codes: &Vec<u16>) -> (r: Vec<SMBDialect>)
    ensures
        r@ == recognized(codes@),
{
    let mut dialects: Vec<SMBDialect> = Vec::new();
    let mut i: usize = 0;
    assert(codes@.subrange(0, 0) =~= Seq::<u16>::empty());
    while i < codes.len()
        invariant
            i <= codes@.len(),
            dialects@ == recognized(codes@.subrange(0, i as int)),
        decreases codes@.len() - i,
    {
        assert(codes@.subrange(0, i + 1).drop_last() =~= codes@.subrange(0, i as int));
        match SMBDialect::try_from(codes[i]) {
            Ok(d) => {
                dialects.push(d);
            },
            Err(_) => {},
        }
        i += 1;
    }
    assert(codes@.subrange(0, i as int) =~= codes@);
    dialects
}

impl SMBNegotiateRequestBody {
    /// A request with the given contents.
    pub fn new(
        security_mode: SecurityMode,
        capabilities: Capabilities,
        client_uuid: Guid,
        dialects: Vec<SMBDialect>,
        negotiate_contexts: Vec<NegotiateContext>,
    ) -> (r: SMBNegotiateRequestBody)
        ensures
            r@ == (RequestModel {
                security_mode: security_mode.bits(),
                capabilities: capabilities.bits(),
                client_guid: client_uuid@,
                dialects: dialects@,
                negotiate_contexts: views(negotiate_contexts@),
            }),
    {
        SMBNegotiateRequestBody {
            security_mode,
            capabilities,
            client_uuid,
            dialects,
            negotiate_contexts,
        }
    }

    /// The security mode that the client announced.
    pub fn security_mode(&self) -> (r: SecurityMode)
        ensures
            r.bits() == self@.security_mode,
    {
        self.security_mode
    }

    /// The capabilities that the client announced.
    pub fn capabilities(&self) -> (r: Capabilities)
        ensures
            r.bits() == self@.capabilities,
    {
        self.capabilities
    }

    /// The identifier that the client generated.
    pub fn client_uuid(&self) -> (r: Guid)
        ensures
            r@ == self@.client_guid,
    {
        self.client_uuid
    }

    /// The known dialects of the offer, in the order received.
    pub fn dialects(&self) -> (r: &Vec<SMBDialect>)
        ensures
            r@ == self@.dialects,
    {
        &self.dialects
    }

    /// The known negotiate contexts, in the order received.
    pub fn negotiate_contexts(&self) -> (r: &Vec<NegotiateContext>)
        ensures
            views(r@) == self@.negotiate_contexts,
    {
        &self.negotiate_contexts
    }

    /// Whether the contexts of the request can be answered.
    pub fn is_well_formed(&self) -> (r: bool)
        ensures
            r == self@.wf(),
    {
        if self.negotiate_contexts.len() > 0xffff {
            return false;
        }
        let mut i: usize = 0;
        while i < self.negotiate_contexts.len()
            invariant
                i <= self.negotiate_contexts@.len(),
                forall|k: int| 0 <= k < i ==> (#[trigger] views(self.negotiate_contexts@)[k]).wf(),
            decreases self.negotiate_contexts@.len() - i,
        {
            if !self.negotiate_contexts[i].is_well_formed() {
                assert(!views(self.negotiate_contexts@)[i as int].wf());
                return false;
            }
            i += 1;
        }
        true
    }

    /// Decodes a request body, and says how many bytes of the input it
    /// covers. Each failure names its cause.
    pub fn parse(bytes: &[u8]) -> (r: Result<(SMBNegotiateRequestBody, usize), NegotiateError>)
        ensures
            match r {
                Ok((request, consumed)) => parse_request(bytes@) == Ok::<
                    (RequestModel, int),
                    NegotiateError,
                >((request@, consumed as int)) && consumed <= bytes@.len() && request@.wf(),
                Err(e) => parse_request(bytes@) == Err::<(RequestModel, int), NegotiateError>(e),
            },
            bytes@.len() < 37 ==> r == Err::<(SMBNegotiateRequestBody, usize), NegotiateError>(
                NegotiateError::TruncatedBuffer,
            ),
    {
        let total = bytes.len();
        if total < REQUEST_MIN_LEN {
            return Err(NegotiateError::TruncatedBuffer);
        }
        let dialect_count = read_u16(bytes, 2) as usize;
        if (total - DIALECTS_OFFSET) / 2 < dialect_count {
            return Err(NegotiateError::TruncatedBuffer);
        }
        let security_mode = SecurityMode::from_bits_truncate(bytes[4]);
        let capabilities = Capabilities::from_bits_truncate(read_u32(bytes, 8));
        let client_uuid = match Guid::from_slice(slice_subrange(bytes, 12, 28)) {
            Ok(g) => g,
            Err(e) => {
                return Err(e);
            },
        };
        let codes = read_u16s(bytes, DIALECTS_OFFSET, dialect_count);
        let dialects = recognized_dialects(&codes);
        let dialects_end = DIALECTS_OFFSET + 2 * dialect_count;
        let context_count = read_u16(bytes, 32);
        if SMBDialect::is_offered(dialects.as_slice(), SMBDialect::V3_1_1) && context_count > 0 {
            let offset = read_u32(bytes, 28) as usize;
            if offset < HEADER_LEN {
                return Err(NegotiateError::TruncatedBuffer);
            }
            match read_list(bytes, offset - HEADER_LEN, context_count) {
                Ok((negotiate_contexts, end)) => {
                    proof {
                        lemma_parsed_list_is_well_formed(
                            bytes@,
                            offset - HEADER_LEN,
                            context_count as nat,
                        );
                    }
                    Ok(
                        (
                            SMBNegotiateRequestBody {
                                security_mode,
                                capabilities,
                                client_uuid,
                                dialects,
                                negotiate_contexts,
                            },
                            end,
                        ),
                    )
                },
                Err(e) => Err(e),
            }
        } else {
            let negotiate_contexts: Vec<NegotiateContext> = Vec::new();
            assert(views(negotiate_contexts@) =~= Seq::<ContextModel>::empty());
            Ok(
                (
                    SMBNegotiateRequestBody {
                        security_mode,
                        capabilities,
                        client_uuid,
                        dialects,
                        negotiate_contexts,
                    },
                    dialects_end,
                ),
            )
        }
    }

    /// Decodes a request body and hands back what is left of the input
    /// behind it. Any failure gives `None`; an input of fewer than 37 bytes
    /// always does.
    pub fn from_bytes(bytes: &[u8]) -> (r: Option<(SMBNegotiateRequestBody, &[u8])>)
        ensures
            match r {
                Some((request, rest)) => parse_request(bytes@) matches Ok((model, consumed))
                    && request@ == model && rest@ == bytes@.skip(consumed) && request@.wf(),
                None => parse_request(bytes@) is Err,
            },
            bytes@.len() < 37 ==> r is None,
    {
        match SMBNegotiateRequestBody::parse(bytes) {
            Ok((request, consumed)) => {
                let rest = slice_subrange(bytes, consumed, bytes.len());
                Some((request, rest))
            },
            Err(_) => None,
        }
    }
}

/// The contexts of a decoded list can be encoded, and are no more than the
/// count that was asked for.
pub proof fn lemma_parsed_list_is_well_formed(bytes: Seq<u8>, pos: int, count: nat)
    ensures
        parse_list(bytes, pos, count) matches Ok((contexts, end)) ==> all_wf(contexts)
            && contexts.len() <= count,
    decreases count,
{
    if count > 0 && pos >= 0 && pos + 8 <= bytes.len() && pos + 8 + u16_at(bytes, pos + 2)
        <= bytes.len() {
        let end = pos + 8 + u16_at(bytes, pos + 2);
        let next = if count == 1 {
            end
        } else {
            end + crate::context_list::padding_after(end)
        };
        lemma_parsed_list_is_well_formed(bytes, next, (count - 1) as nat);
        lemma_parsed_is_well_formed(bytes.skip(pos));
    }
}

} // verus!
