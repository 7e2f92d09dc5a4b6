//! The errors an operation can end in.

use vstd::prelude::*;

verus! {

/// A failure below HTTP: no connection, a timeout, a broken exchange.
/// It is produced by the transport and carries the transport's own words.
#[derive(Debug, Clone, PartialEq, Eq)]
pub struct TransportError {
    pub message: String,
}

/// Why a `send` did not produce its result.
#[derive(Debug, Clone, PartialEq, Eq)]
pub enum EsError {
    /// The transport failed; the failure is handed on as it came.
    TransportError(TransportError),
    /// A body arrived but is not JSON of the shape the operation reads.
    CodecError,
    /// The server answered with a status the operation does not accept.
    UnexpectedStatus(u16),
}

} // verus!
