use vstd::prelude::*;

verus! {

/// The kinds of failure that end a session or an operation.
#[derive(Clone, Copy, Debug, PartialEq, Eq, Structural)]
pub enum ErrorKind {
    /// A malformed PDU, an unknown enum value or a framing violation.
    Protocol,
    /// Data that cannot be served, such as a clipboard format that is not cached.
    InvalidData,
    /// A message or information level that is not implemented.
    Unsupported,
    /// A host response that matches no request in flight, or a duplicate device.
    TdpMismatch,
    /// A host operation failed where no RDP reply can express it.
    TdpOpFailed,
}

pub type RdpResult<T> = Result<T, ErrorKind>;

} // verus!
