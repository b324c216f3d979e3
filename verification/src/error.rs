use vstd::prelude::*;

verus! {

/// The crate's result type.
pub type Result<T, E = Error> = core::result::Result<T, E>;

/// The error taxonomy of the client core.
#[derive(Debug, Clone, PartialEq, Eq)]
pub enum Error {
    /// HTTP or WebSocket I/O failed.
    TransportFailure,
    /// An envelope or body could not be decoded as JSON.
    ProtocolFailure,
    /// A framed packet, a zlib container, or one of its inner packets was
    /// malformed.
    MalformedFrame,
    /// An envelope arrived with a non-zero code; `msg` carries whichever of
    /// its two message fields was present.
    UpstreamRejected { code: i64, msg: Option<String> },
    /// `decode_body` was called on a packet whose body is not JSON.
    DecodeMismatch,
}

} // verus!
