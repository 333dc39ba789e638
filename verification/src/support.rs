//! What the server supports, and the response context that it derives from a
//! context of the request.
//!
//! For each list that a request context offers, the server answers with the
//! one entry that it prefers most among those that the client offered. The
//! server's lists stand in the order of preference, the most preferred entry
//! first.

use crate::context::{ContextModel, NegotiateContext};
use crate::error::NegotiateError;
use vstd::prelude::*;
use vstd::slice::slice_to_vec;

verus! {

/// The hash algorithm SHA-512.
pub const HASH_SHA512: u16 = 0x0001;

/// The cipher AES-128-CCM.
pub const CIPHER_AES128_CCM: u16 = 0x0001;

/// The cipher AES-128-GCM.
pub const CIPHER_AES128_GCM: u16 = 0x0002;

/// The cipher AES-256-CCM.
pub const CIPHER_AES256_CCM: u16 = 0x0003;

/// The cipher AES-256-GCM.
pub const CIPHER_AES256_GCM: u16 = 0x0004;

/// No compression.
pub const COMPRESSION_NONE: u16 = 0x0000;

/// No RDMA transform.
pub const RDMA_TRANSFORM_NONE: u16 = 0x0000;

/// Signing with HMAC-SHA256.
pub const SIGNING_HMAC_SHA256: u16 = 0x0000;

/// Signing with AES-CMAC.
pub const SIGNING_AES_CMAC: u16 = 0x0001;

/// Signing with AES-GMAC.
pub const SIGNING_AES_GMAC: u16 = 0x0002;

/// The transport flag that accepts security at the transport level.
pub const TRANSPORT_ACCEPT_SECURITY: u32 = 0x0000_0001;

/// The server's table of supported parameters, one entry for each kind of
/// negotiate context. Each list stands in the order of preference.
#[derive(Clone, Debug, PartialEq, Eq)]
pub struct SupportedAlgorithms {
    pub hash_algorithms: Vec<u16>,
    pub ciphers: Vec<u16>,
    pub compression_algorithms: Vec<u16>,
    pub rdma_transforms: Vec<u16>,
    pub signing_algorithms: Vec<u16>,
    pub transport_flags: u32,
}

/// The mathematical value of the server's table.
pub ghost struct SupportModel {
    pub hash_algorithms: Seq<u16>,
    pub ciphers: Seq<u16>,
    pub compression_algorithms: Seq<u16>,
    pub rdma_transforms: Seq<u16>,
    pub signing_algorithms: Seq<u16>,
    pub transport_flags: u32,
}

impl View for SupportedAlgorithms {
    type V = SupportModel;

    open spec fn view(&self) -> SupportModel {
        SupportModel {
            hash_algorithms: self.hash_algorithms@,
            ciphers: self.ciphers@,
            compression_algorithms: self.compression_algorithms@,
            rdma_transforms: self.rdma_transforms@,
            signing_algorithms: self.signing_algorithms@,
            transport_flags: self.transport_flags,
        }
    }
}

/// The table that the server uses when the caller names none.
pub open spec fn default_support() -> SupportModel {
    SupportModel {
        hash_algorithms: seq![HASH_SHA512],
        ciphers: seq![CIPHER_AES128_GCM, CIPHER_AES128_CCM, CIPHER_AES256_GCM, CIPHER_AES256_CCM],
        compression_algorithms: seq![COMPRESSION_NONE],
        rdma_transforms: seq![RDMA_TRANSFORM_NONE],
        signing_algorithms: seq![SIGNING_AES_GMAC, SIGNING_AES_CMAC, SIGNING_HMAC_SHA256],
        transport_flags: TRANSPORT_ACCEPT_SECURITY,
    }
}

/// The first entry of the server's list that the client offered too.
pub open spec fn preferred(server: Seq<u16>, offered: Seq<u16>) -> Option<u16>
    decreases server.len(),
{
    if server.len() == 0 {
        None
    } else if offered.contains(server[0]) {
        Some(server[0])
    } else {
        preferred(server.drop_first(), offered)
    }
}

/// The result of a choice among an offer: the chosen entry alone, or the
/// failure of the derivation.
pub open spec fn chosen(server: Seq<u16>, offered: Seq<u16>) -> Result<Seq<u16>, NegotiateError> {
    match preferred(server, offered) {
        Some(entry) => Ok(seq![entry]),
        None => Err(NegotiateError::NoCommonAlgorithm),
    }
}

/// The response context that the server derives from a request context: a
/// context of the same type. A list of the request becomes the one entry
/// that the server prefers; without a common entry the derivation fails. The
/// transport flags become those that both sides have. The salt, the
/// compression flags and the server name are carried over.
pub open spec fn derive_context(c: ContextModel, s: SupportModel) -> Result<
    ContextModel,
    NegotiateError,
> {
    match c {
        ContextModel::PreAuthIntegrityCapabilities { hash_algorithms, salt } => match chosen(
            s.hash_algorithms,
            hash_algorithms,
        ) {
            Ok(one) => Ok(
                ContextModel::PreAuthIntegrityCapabilities { hash_algorithms: one, salt },
            ),
            Err(e) => Err(e),
        },
        ContextModel::EncryptionCapabilities { ciphers } => match chosen(s.ciphers, ciphers) {
            Ok(one) => Ok(ContextModel::EncryptionCapabilities { ciphers: one }),
            Err(e) => Err(e),
        },
        ContextModel::CompressionCapabilities { flags, algorithms } => match chosen(
            s.compression_algorithms,
            algorithms,
        ) {
            Ok(one) => Ok(ContextModel::CompressionCapabilities { flags, algorithms: one }),
            Err(e) => Err(e),
        },
        ContextModel::NetnameNegotiateContextID { net_name } => Ok(c),
        ContextModel::TransportCapabilities { flags } => Ok(
            ContextModel::TransportCapabilities { flags: flags & s.transport_flags },
        ),
        ContextModel::RDMATransformCapabilities { transform_ids } => match chosen(
            s.rdma_transforms,
            transform_ids,
        ) {
            Ok(one) => Ok(ContextModel::RDMATransformCapabilities { transform_ids: one }),
            Err(e) => Err(e),
        },
        ContextModel::SigningCapabilities { algorithms } => match chosen(
            s.signing_algorithms,
            algorithms,
        ) {
            Ok(one) => Ok(ContextModel::SigningCapabilities { algorithms: one }),
            Err(e) => Err(e),
        },
    }
}

/// Whether a list holds a value.
fn holds(list: &Vec<u16>, value: u16) -> (r: bool)
    ensures
        r == list@.contains(value),
{
    let mut i: usize = 0;
    while i < list.len()
        invariant
            i <= list@.len(),
            forall|k: int| 0 <= k < i ==> list@[k] != value,
        decreases list@.len() - i,
    {
        if list[i] == value {
            return true;
        }
        i += 1;
    }
    false
}

/// Chooses among an offer: the first entry of the server's list that the
/// client offered too, alone in a list.
pub fn choose_preferred(server: &Vec<u16>, offered: &Vec<u16>) -> (r: Result<
    Vec<u16>,
    NegotiateError,
>)
    ensures
        match r {
            Ok(one) => chosen(server@, offered@) == Ok::<Seq<u16>, NegotiateError>(one@),
            Err(e) => chosen(server@, offered@) == Err::<Seq<u16>, NegotiateError>(e),
        },
{
    let mut i: usize = 0;
    assert(server@.skip(0) =~= server@);
    while i < server.len()
        invariant
            i <= server@.len(),
            preferred(server@, offered@) == preferred(server@.skip(i as int), offered@),
        decreases server@.len() - i,
    {
        let entry = server[i];
        assert(server@.skip(i as int)[0] == entry);
        assert(server@.skip(i as int).drop_first() =~= server@.skip(i + 1));
        if holds(offered, entry) {
            let mut one: Vec<u16> = Vec::new();
            one.push(entry);
            assert(one@ =~= seq![entry]);
            return Ok(one);
        }
        i += 1;
    }
    Err(NegotiateError::NoCommonAlgorithm)
}

impl SupportedAlgorithms {
    /// The table that the server uses when the caller names none.
    pub fn server_default() -> (r: SupportedAlgorithms)
        ensures
            r@ == default_support(),
    {
        let mut hash_algorithms: Vec<u16> = Vec::new();
        hash_algorithms.push(HASH_SHA512);
        let mut ciphers: Vec<u16> = Vec::new();
        ciphers.push(CIPHER_AES128_GCM);
        ciphers.push(CIPHER_AES128_CCM);
        ciphers.push(CIPHER_AES256_GCM);
        ciphers.push(CIPHER_AES256_CCM);
        let mut compression_algorithms: Vec<u16> = Vec::new();
        compression_algorithms.push(COMPRESSION_NONE);
        let mut rdma_transforms: Vec<u16> = Vec::new();
        rdma_transforms.push(RDMA_TRANSFORM_NONE);
        let mut signing_algorithms: Vec<u16> = Vec::new();
        signing_algorithms.push(SIGNING_AES_GMAC);
        signing_algorithms.push(SIGNING_AES_CMAC);
        signing_algorithms.push(SIGNING_HMAC_SHA256);
        let r = SupportedAlgorithms {
            hash_algorithms,
            ciphers,
            compression_algorithms,
            rdma_transforms,
            signing_algorithms,
            transport_flags: TRANSPORT_ACCEPT_SECURITY,
        };
        proof {
            let d = default_support();
            assert(r@.hash_algorithms =~= d.hash_algorithms);
            assert(r@.ciphers =~= d.ciphers);
            assert(r@.compression_algorithms =~= d.compression_algorithms);
            assert(r@.rdma_transforms =~= d.rdma_transforms);
            assert(r@.signing_algorithms =~= d.signing_algorithms);
        }
        r
    }
}

impl NegotiateContext {
    /// Derives the response context from a request context and the server's
    /// table.
    pub fn response_with(&self, supported: &SupportedAlgorithms) -> (r: Result<
        NegotiateContext,
        NegotiateError,
    >)
        ensures
            match r {
                Ok(c) => derive_context(self@, supported@) == Ok::<ContextModel, NegotiateError>(
                    c@,
                ),
                Err(e) => derive_context(self@, supported@) == Err::<
                    ContextModel,
                    NegotiateError,
                >(e),
            },
    {
        match self {
            NegotiateContext::PreAuthIntegrityCapabilities { hash_algorithms, salt } => {
                match choose_preferred(&supported.hash_algorithms, hash_algorithms) {
                    Ok(one) => Ok(
                        NegotiateContext::PreAuthIntegrityCapabilities {
                            hash_algorithms: one,
                            salt: slice_to_vec(salt.as_slice()),
                        },
                    ),
                    Err(e) => Err(e),
                }
            },
            NegotiateContext::EncryptionCapabilities { ciphers } => {
                match choose_preferred(&supported.ciphers, ciphers) {
                    Ok(one) => Ok(NegotiateContext::EncryptionCapabilities { ciphers: one }),
                    Err(e) => Err(e),
                }
            },
            NegotiateContext::CompressionCapabilities { flags, algorithms } => {
                match choose_preferred(&supported.compression_algorithms, algorithms) {
                    Ok(one) => Ok(
                        NegotiateContext::CompressionCapabilities {
                            flags: *flags,
                            algorithms: one,
                        },
                    ),
                    Err(e) => Err(e),
                }
            },
            NegotiateContext::NetnameNegotiateContextID { net_name } => {
                Ok(
                    NegotiateContext::NetnameNegotiateContextID {
                        net_name: slice_to_vec(net_name.as_slice()),
                    },
                )
            },
            NegotiateContext::TransportCapabilities { flags } => {
                Ok(
                    NegotiateContext::TransportCapabilities {
                        flags: *flags & supported.transport_flags,
                    },
                )
            },
            NegotiateContext::RDMATransformCapabilities { transform_ids } => {
                match choose_preferred(&supported.rdma_transforms, transform_ids) {
                    Ok(one) => Ok(
                        NegotiateContext::RDMATransformCapabilities { transform_ids: one },
                    ),
                    Err(e) => Err(e),
                }
            },
            NegotiateContext::SigningCapabilities { algorithms } => {
                match choose_preferred(&supported.signing_algorithms, algorithms) {
                    Ok(one) => Ok(NegotiateContext::SigningCapabilities { algorithms: one }),
                    Err(e) => Err(e),
                }
            },
        }
    }

    /// Derives the response context from a request context and the server's
    /// default table: `None` when the context offers nothing that the server
    /// supports.
    pub fn response_from_existing(&self) -> (r: Option<NegotiateContext>)
        ensures
            match r {
                Some(c) => derive_context(self@, default_support()) == Ok::<
                    ContextModel,
                    NegotiateError,
                >(c@),
                None => derive_context(self@, default_support()) is Err,
            },
    {
        let supported = SupportedAlgorithms::server_default();
        match self.response_with(&supported) {
            Ok(c) => Some(c),
            Err(_) => None,
        }
    }
}

/// The preferred entry is common to both lists, and no entry that stands
/// before it in the server's list was offered. There is none exactly when
/// the lists have nothing in common.
pub proof fn lemma_preferred_is_common(server: Seq<u16>, offered: Seq<u16>)
    ensures
        match preferred(server, offered) {
            Some(entry) => exists|i: int|
                0 <= i < server.len() && server[i] == entry && offered.contains(entry) && forall|
                    k: int,
                |
                    0 <= k < i ==> !offered.contains(#[trigger] server[k]),
            None => forall|k: int| 0 <= k < server.len() ==> !offered.contains(#[trigger] server[k]),
        },
    decreases server.len(),
{
    if server.len() > 0 {
        if offered.contains(server[0]) {
            assert(0 <= 0 < server.len() && server[0] == server[0]);
        } else {
            let rest = server.drop_first();
            lemma_preferred_is_common(rest, offered);
            match preferred(rest, offered) {
                Some(entry) => {
                    let i = choose|i: int|
                        0 <= i < rest.len() && rest[i] == entry && offered.contains(entry)
                            && forall|k: int|
                            0 <= k < i ==> !offered.contains(#[trigger] rest[k]);
                    assert(server[i + 1] == entry);
                    assert forall|k: int| 0 <= k < i + 1 implies !offered.contains(
                        #[trigger] server[k],
                    ) by {
                        if k > 0 {
                            assert(rest[k - 1] == server[k]);
                        }
                    }
                },
                None => {
                    assert forall|k: int| 0 <= k < server.len() implies !offered.contains(
                        #[trigger] server[k],
                    ) by {
                        if k > 0 {
                            assert(rest[k - 1] == server[k]);
                        }
                    }
                },
            }
        }
    }
}

/// A derived context has the type of the context it was derived from, and
/// can be encoded if that one can.
pub proof fn lemma_derived_keeps_type(c: ContextModel, s: SupportModel)
    ensures
        derive_context(c, s) matches Ok(d) ==> d.type_code() == c.type_code() && (c.wf()
            ==> d.wf()),
{
    match c {
        ContextModel::PreAuthIntegrityCapabilities { hash_algorithms, salt } => {
            lemma_preferred_is_common(s.hash_algorithms, hash_algorithms);
        },
        ContextModel::EncryptionCapabilities { ciphers } => {
            lemma_preferred_is_common(s.ciphers, ciphers);
        },
        ContextModel::CompressionCapabilities { flags, algorithms } => {
            lemma_preferred_is_common(s.compression_algorithms, algorithms);
        },
        ContextModel::RDMATransformCapabilities { transform_ids } => {
            lemma_preferred_is_common(s.rdma_transforms, transform_ids);
        },
        ContextModel::SigningCapabilities { algorithms } => {
            lemma_preferred_is_common(s.signing_algorithms, algorithms);
        },
        _ => {},
    }
}

} // verus!
