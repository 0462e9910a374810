use vstd::prelude::*;

verus! {

/// Why a handshake frame could not be read.
#[derive(Clone, Copy, Debug, PartialEq, Eq, Structural)]
pub enum ProtocolError {
    /// A VarInt kept its continuation bit set for more than five groups.
    VarIntTooLong,
    /// The byte stream ended inside a VarInt.
    UnexpectedEof,
    /// A field inside the frame runs past the end of the frame.
    Truncated,
    /// The hostname bytes are not valid UTF-8.
    InvalidEncoding,
    /// A declared length (of the frame or of the hostname) is negative.
    NegativeLength,
}

} // verus!
