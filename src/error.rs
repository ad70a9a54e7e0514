use vstd::prelude::*;

verus! {

/// The ways a protocol operation can fail.
#[derive(Debug, Clone, PartialEq, Eq)]
pub enum ProtoError {
    /// Connecting, reading or writing on the socket failed.
    TransportError,
    /// A VarInt or a frame could not be read: empty or truncated input,
    /// or a decompressed size that disagrees with the declared one.
    FramingError,
    /// A field or a packet broke the protocol's rules.
    ProtocolViolation,
    /// The server closed the session, with its reason.
    ServerDisconnect(String),
    /// The system clock reads earlier than the Unix epoch.
    ClockError,
}

impl ProtoError {
    /// A short description of the failure.
    pub fn message(&self) -> (r: String) {
        match self {
            ProtoError::TransportError => String::from_str("transport error"),
            ProtoError::FramingError => String::from_str("framing error"),
            ProtoError::ProtocolViolation => String::from_str("protocol violation"),
            ProtoError::ClockError => String::from_str("clock error"),
            ProtoError::ServerDisconnect(reason) => {
                let mut m = String::from_str("disconnected: ");
                m.append(reason.as_str());
                m
            },
        }
    }
}

} // verus!
