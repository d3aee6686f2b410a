//! Wire protocol: primitive codec, packet catalog, framing, compression and
//! connection state.

use vstd::prelude::*;

pub mod compression;
pub mod cursor;
pub mod handshake;
pub mod list;
pub mod login;
pub mod packet;
pub mod packets;
pub mod play;
pub mod state;
pub mod status;
pub mod types;
pub mod varint;
pub mod wire;

pub use compression::Compression;
pub use state::{ConnectionState, ProtocolState};
pub use types::{McString, McUuid, Position, VarInt, VarLong};

verus! {

/// Protocol version spoken by this server.
pub const PROTOCOL_VERSION: i32 = 770;

/// Largest length a frame may announce (2^21 - 1 bytes).
pub const MAX_PACKET_SIZE: usize = 2_097_151;

/// Largest payload accepted after decompression (2^23 bytes).
pub const MAX_UNCOMPRESSED_PACKET_SIZE: usize = 8_388_608;

/// Number of bytes a frame length prefix may occupy.
pub const MAX_VARINT_LENGTH_FIELD_SIZE: usize = 3;

} // verus!
