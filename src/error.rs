use vstd::prelude::*;

verus! {

/// The ways a transfer can fail.
#[derive(Debug, Clone, Copy, PartialEq, Eq, Structural)]
pub enum TransferError {
    /// The socket could not be connected or accepted.
    ConnectionError,
    /// The framing was truncated or malformed.
    ProtocolError,
    /// The requested path resolves outside the served root.
    PathEscape,
    /// The requested path does not exist.
    NotFound,
    /// A read or a write failed in the middle of a transfer.
    IOError,
    /// The number of bytes received differs from the declared length.
    TruncatedTransfer,
    /// The client's destination already exists.
    DestinationExists,
    /// The requested path does not fit in a request's length prefix.
    PathTooLong,
}

} // verus!
