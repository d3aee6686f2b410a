//! The handshake of the byte-level protocol.

use vstd::prelude::*;

use crate::error::{Fault, IoResult};
use crate::protocol::cursor::Cursor;
use crate::protocol::packet::{Packet, PacketReader, PacketWriter};
use crate::protocol::state::ConnectionState;
use crate::protocol::varint::VarInt;
use crate::protocol::wire::{
    parse_string, parse_u16, parse_varint, string_bytes, u16_bytes, varint_bytes, Parsed,
};

verus! {

/// Handshake sent by the client to open a connection.
#[derive(Debug, Clone)]
pub struct HandshakePacket {
    /// Protocol version used by the client.
    pub protocol_version: i32,
    /// Server address (hostname or IP) used to connect.
    pub server_address: String,
    /// Server port used to connect.
    pub server_port: u16,
    /// Next connection state: 1 for status, 2 for login, 3 for transfer.
    pub next_state: i32,
}

/// The fields of a handshake, as mathematics: protocol version, server
/// address, server port, next state.
pub type HandshakeTuple = (int, Seq<char>, u16, int);

/// Decoder of the handshake fields; the address may be as long as a VarInt
/// can announce.
pub open spec fn parse_handshake(bytes: Seq<u8>) -> Parsed<HandshakeTuple> {
    match parse_varint(bytes) {
        Err(e) => Err(e),
        Ok((protocol_version, b1)) => match parse_string(b1, 0x7fff_ffff) {
            Err(e) => Err(e),
            Ok((server_address, b2)) => match parse_u16(b2) {
                Err(e) => Err(e),
                Ok((server_port, b3)) => match parse_varint(b3) {
                    Err(e) => Err(e),
                    Ok((next_state, b4)) => Ok(
                        ((protocol_version, server_address, server_port, next_state), b4),
                    ),
                },
            },
        },
    }
}

impl View for HandshakePacket {
    type V = HandshakeTuple;

    open spec fn view(&self) -> HandshakeTuple {
        (
            self.protocol_version as int,
            self.server_address@,
            self.server_port,
            self.next_state as int,
        )
    }
}

impl HandshakePacket {
    /// A handshake with the given fields.
    pub fn new(
        protocol_version: i32,
        server_address: String,
        server_port: u16,
        next_state: i32,
    ) -> (p: Self)
        ensures
            p == (HandshakePacket { protocol_version, server_address, server_port, next_state }),
    {
        Self { protocol_version, server_address, server_port, next_state }
    }

    /// The connection state that the handshake asks for: Status for 1,
    /// Login for 2 and for 3, the transfer intent; nothing otherwise.
    pub fn get_next_state(&self) -> (s: Option<ConnectionState>)
        ensures
            s == if self.next_state == 1 {
                Some(ConnectionState::Status)
            } else if self.next_state == 2 || self.next_state == 3 {
                Some(ConnectionState::Login)
            } else {
                None
            },
    {
        match self.next_state {
            1 => Some(ConnectionState::Status),
            2 => Some(ConnectionState::Login),
            3 => Some(ConnectionState::Login),
            _ => None,
        }
    }

    /// Reads the fields from a packet reader.
    fn read_fields(reader: &mut PacketReader) -> (r: IoResult<Self>)
        ensures
            match r {
                Ok(p) => parse_handshake(old(reader)@) == Ok::<(HandshakeTuple, Seq<u8>), Fault>(
                    (p@, final(reader)@),
                ),
                Err(kind) => parse_handshake(old(reader)@) is Err && kind.fault() == Some(
                    parse_handshake(old(reader)@)->Err_0,
                ),
            },
    {
        let protocol_version = reader.read_varint()?.0;
        let server_address = reader.read_string()?;
        let server_port = reader.read_u16()?;
        let next_state = reader.read_varint()?.0;
        Ok(Self::new(protocol_version, server_address, server_port, next_state))
    }

    /// Parses a handshake from the field bytes of a packet; bytes after the
    /// fields are ignored.
    pub fn from_packet_data(data: &[u8]) -> (r: IoResult<Self>)
        ensures
            match r {
                Ok(p) => parse_handshake(data@) is Ok && parse_handshake(data@)->Ok_0.0 == p@,
                Err(kind) => parse_handshake(data@) is Err && kind.fault() == Some(
                    parse_handshake(data@)->Err_0,
                ),
            },
    {
        let mut reader = PacketReader::new(Cursor::new(data));
        Self::read_fields(&mut reader)
    }
}

impl Packet for HandshakePacket {
    open spec fn writable(&self) -> bool {
        vstd::utf8::encode_utf8(self.server_address@).len() <= 0x7fff_ffff
    }

    open spec fn spec_packet_id() -> i32 {
        0x00
    }

    open spec fn parse_data(bytes: Seq<u8>) -> Parsed<HandshakeTuple> {
        parse_handshake(bytes)
    }

    open spec fn data_bytes(&self) -> Seq<u8> {
        varint_bytes(self.protocol_version as int) + string_bytes(self.server_address@)
            + u16_bytes(self.server_port) + varint_bytes(self.next_state as int)
    }

    fn packet_id() -> (id: i32) {
        0x00
    }

    fn write_data(&self, writer: &mut Vec<u8>) -> (r: IoResult<()>) {
        let mut packet_writer = PacketWriter::new(Vec::new());
        packet_writer.write_varint(VarInt(self.protocol_version))?;
        packet_writer.write_string(self.server_address.as_str())?;
        packet_writer.write_u16(self.server_port)?;
        packet_writer.write_varint(VarInt(self.next_state))?;
        let bytes = packet_writer.into_inner();
        assert(bytes@ =~= self.data_bytes());
        crate::protocol::types::write_all(writer, bytes.as_slice());
        Ok(())
    }

    fn read_data(reader: &mut Cursor) -> (r: IoResult<Self>) {
        let protocol_version = VarInt::read(reader)?.0;
        let server_address = match crate::protocol::types::read_text(reader, 0x7fff_ffff) {
            Ok(s) => s,
            Err(e) => {
                return Err(e.kind());
            },
        };
        let server_port = match crate::protocol::types::read_unsigned_short(reader) {
            Ok(v) => v,
            Err(e) => {
                return Err(e.kind());
            },
        };
        let next_state = VarInt::read(reader)?.0;
        Ok(Self::new(protocol_version, server_address, server_port, next_state))
    }
}

} // verus!
