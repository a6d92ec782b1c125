use vstd::prelude::*;

verus! {

/// Redacted protocol errors. Variants never retain payloads, destinations,
/// tokens, session IDs, or peer-supplied free-form strings.
#[derive(Debug, Clone, Copy, PartialEq, Eq)]
pub enum ProtocolError {
    /// The transport failed while reading or writing.
    Io,
    /// A message could not be encoded.
    Encode,
    /// A message body could not be decoded.
    Decode,
    FrameTooLarge { announced: usize, maximum: usize },
    EmptyFrame,
    InvalidLengthPrefix,
    NonCanonicalVarint,
    TruncatedWireValue,
    DuplicateField(u32),
    UnknownMessageTag(u32),
    MissingBody,
    InvalidField(&'static str),
    ProtocolViolation(&'static str),
    IncompatibleVersion,
    SilentDowngrade,
    InvalidSequence,
    InvalidSession,
    Backpressure,
    StreamLimit,
    InvalidStreamId,
    FlowControlViolation,
    IntegerOverflow,
    HandshakeTimeout,
    IdleTimeout,
    AuthenticationRejected,
    Closed,
    EntropyUnavailable,
}

} // verus!
