//! Client-side codec for a length-framed, VarInt-tagged game protocol:
//! VarInt and string encoding, packet framing with optional zlib
//! compression, the packet catalog, and the session state machine.

pub mod error;
pub mod varint;
pub mod bytes;
pub mod text;
pub mod frame;
pub mod packets;
pub mod inbound;
pub mod session;
