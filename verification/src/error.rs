use vstd::prelude::*;

verus! {

/// Why a chunk, a message or a handshake was refused.
#[derive(Debug, Clone, Copy, PartialEq, Eq, Structural)]
pub enum ProtocolError {
    /// The basic header names a chunk format other than 0 to 3.
    UnknownChunkFormat,
    /// The message type id is absent, unknown or not handled.
    UnknownMessageType,
    /// An AMF0 data message whose name is not `@setDataFrame`.
    UnknownData,
    /// An AMF0 command whose name is not one the server handles.
    UnknownCommand,
    /// An AMF0 payload that does not hold the values its message needs.
    MalformedAmf,
    /// A value that AMF0 cannot carry: a string or key of more than 65535
    /// bytes, an empty key, or an ECMA array of 2^32 properties or more.
    Unencodable,
    /// The client asked for an RTMP version other than 3.
    UnsupportedVersion,
    /// The client's C2 does not echo the server's S1.
    HandshakeMismatch,
    /// The bytes at hand end inside a chunk.
    Truncated,
}

impl ProtocolError {
    /// The text that describes the error.
    pub fn message(&self) -> (s: &'static str)
        ensures
            s@ == match *self {
                ProtocolError::UnknownChunkFormat => "Unknown chunk format"@,
                ProtocolError::UnknownMessageType => "Unknown message type"@,
                ProtocolError::UnknownData => "Unknown Data"@,
                ProtocolError::UnknownCommand => "Unknown command"@,
                ProtocolError::MalformedAmf => "Malformed AMF0 payload"@,
                ProtocolError::Unencodable => "Value cannot be encoded as AMF0"@,
                ProtocolError::UnsupportedVersion => "Unsupported RTMP version"@,
                ProtocolError::HandshakeMismatch => "C2 does not match S1"@,
                ProtocolError::Truncated => "Input ends inside a chunk"@,
            },
    {
        match self {
            ProtocolError::UnknownChunkFormat => "Unknown chunk format",
            ProtocolError::UnknownMessageType => "Unknown message type",
            ProtocolError::UnknownData => "Unknown Data",
            ProtocolError::UnknownCommand => "Unknown command",
            ProtocolError::MalformedAmf => "Malformed AMF0 payload",
            ProtocolError::Unencodable => "Value cannot be encoded as AMF0",
            ProtocolError::UnsupportedVersion => "Unsupported RTMP version",
            ProtocolError::HandshakeMismatch => "C2 does not match S1",
            ProtocolError::Truncated => "Input ends inside a chunk",
        }
    }
}

} // verus!
