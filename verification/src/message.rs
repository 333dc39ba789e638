//! The envelope of a message.

use vstd::prelude::*;
use vstd::slice::slice_subrange;

verus! {

/// The number of bytes of the protocol mark that opens a message.
pub const MESSAGE_MARK_LEN: usize = 4;

/// The position at which the body of a message starts.
pub const MESSAGE_BODY_OFFSET: usize = 60;

/// A message: a header and the body that belongs to it.
#[derive(Clone, Debug, PartialEq, Eq)]
pub struct SMBMessage<S, T> {
    pub header: S,
    pub body: T,
}

/// Cuts a message into the bytes of its header and the bytes of its body and
/// of all that follows. The header is what stands between the four bytes of
/// the protocol mark and byte 60; the body starts at byte 60. A message of
/// fewer than 60 bytes has no parts.
pub fn split(bytes: &[u8]) -> (r: Option<(&[u8], &[u8])>)
    ensures
        bytes@.len() < 60 ==> r is None,
        bytes@.len() >= 60 ==> (r matches Some((header, body)) && header@ == bytes@.subrange(4, 60)
            && body@ == bytes@.skip(60)),
{
    if bytes.len() < MESSAGE_BODY_OFFSET {
        None
    } else {
        let header = slice_subrange(bytes, MESSAGE_MARK_LEN, MESSAGE_BODY_OFFSET);
        let body = slice_subrange(bytes, MESSAGE_BODY_OFFSET, bytes.len());
        Some((header, body))
    }
}

} // verus!
