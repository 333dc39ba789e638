//! The ways in which decoding or negotiation can fail.

use vstd::prelude::*;

verus! {

/// Why a decode or a negotiation produced no value.
#[derive(Clone, Copy, Debug, PartialEq, Eq, Structural)]
pub enum NegotiateError {
    /// The input ends before the field that is being read.
    TruncatedBuffer,
    /// A dialect code that names no known protocol revision.
    UnrecognizedDialectCode,
    /// A negotiate-context type code that names no known context.
    UnrecognizedContextType,
    /// An identifier that is not exactly 16 bytes long.
    MalformedIdentifier,
    /// No dialect of the offer is known to the server.
    NoCommonDialect,
    /// A context offers nothing that the server supports.
    NoCommonAlgorithm,
}

} // verus!
