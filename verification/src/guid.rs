//! The 128-bit identifier that a client and a server exchange.

use crate::error::NegotiateError;
use vstd::prelude::*;

verus! {

/// The error of the `uuid` crate, carried through unread.
#[verifier::external_type_specification]
#[verifier::external_body]
pub struct ExUuidError(uuid::Error);

/// `uuid::Uuid::from_slice`, with the identifier handed back as its bytes by
/// `uuid::Uuid::into_bytes`. It succeeds exactly on a slice of 16 bytes, and
/// the identifier then holds those bytes in order.
#[verifier::external_body]
fn uuid_from_slice(bytes: &[u8]) -> (r: Result<[u8; 16], uuid::Error>)
    ensures
        r is Ok <==> bytes@.len() == 16,
        r matches Ok(b) ==> b@ == bytes@,
{
    match uuid::Uuid::from_slice(bytes) {
        Ok(id) => Ok(id.into_bytes()),
        Err(e) => Err(e),
    }
}

/// `uuid::Uuid::new_v4`, with the identifier handed back as its bytes by
/// `uuid::Uuid::into_bytes`. The bytes are random but for the version
/// nibble, which is 4, and the two variant bits, which are `10`. The call
/// panics when the operating system gives no random bytes.
#[verifier::external_body]
fn uuid_new_v4() -> (r: [u8; 16])
    ensures
        r[6] & 0xf0 == 0x40,
        r[8] & 0xc0 == 0x80,
{
    uuid::Uuid::new_v4().into_bytes()
}

/// A 128-bit identifier, held as the 16 bytes that go on the wire.
#[derive(Clone, Copy, Debug, PartialEq, Eq, Hash)]
pub struct Guid {
    bytes: [u8; 16],
}

impl View for Guid {
    type V = Seq<u8>;

    closed spec fn view(&self) -> Seq<u8> {
        self.bytes@
    }
}

/// Whether 16 bytes carry the marks of a randomly generated identifier.
pub open spec fn is_random_guid(bytes: Seq<u8>) -> bool {
    &&& bytes.len() == 16
    &&& bytes[6] & 0xf0 == 0x40
    &&& bytes[8] & 0xc0 == 0x80
}

impl Guid {
    /// The identifier with the given wire bytes.
    pub fn from_bytes(bytes: [u8; 16]) -> (r: Guid)
        ensures
            r@ == bytes@,
    {
        Guid { bytes }
    }

    /// Decodes an identifier from its wire representation: `Ok` exactly when
    /// the slice is 16 bytes long.
    pub fn from_slice(bytes: &[u8]) -> (r: Result<Guid, NegotiateError>)
        ensures
            bytes@.len() == 16 ==> (r matches Ok(g) && g@ == bytes@),
            bytes@.len() != 16 ==> r == Err::<Guid, NegotiateError>(
                NegotiateError::MalformedIdentifier,
            ),
    {
        match uuid_from_slice(bytes) {
            Ok(b) => Ok(Guid { bytes: b }),
            Err(_) => Err(NegotiateError::MalformedIdentifier),
        }
    }

    /// A freshly generated random identifier.
    pub fn new_v4() -> (r: Guid)
        ensures
            is_random_guid(r@),
    {
        Guid { bytes: uuid_new_v4() }
    }

    /// The wire representation.
    pub fn as_bytes(&self) -> (r: &[u8; 16])
        ensures
            r@ == self@,
    {
        &self.bytes
    }

    /// Every identifier is 16 bytes long.
    pub proof fn lemma_len(self)
        ensures
            self@.len() == 16,
    {
    }
}

} // verus!
