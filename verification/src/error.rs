use vstd::prelude::*;

verus! {

/// A failure raised while encoding or decoding a packet.
///
/// Every codec operation aborts on the first failure and hands it to the
/// caller unchanged; there is no recovery inside the codec.
#[derive(Debug, Clone, Copy, PartialEq, Eq, Structural)]
pub enum Error {
    /// The bytes are well formed but carry a value or structure the protocol
    /// forbids: a duplicate non-repeatable property, a property kind that is
    /// illegal for its packet, a zero subscription identifier, a reason code
    /// that is illegal for its packet kind, an invalid boolean byte, and the
    /// like.
    ProtocolError,
    /// A narrower, specifically flagged numeric violation (a zero
    /// receive-maximum) that callers may wish to tell apart from a generic
    /// protocol violation.
    MalformedPacket,
    /// The byte source ended before the bytes a length prefix promised were
    /// all available.
    UnexpectedEndOfStream,
}

} // verus!
