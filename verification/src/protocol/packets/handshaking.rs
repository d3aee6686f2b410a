//! Handshaking state: the single packet that opens every connection.

use vstd::prelude::*;
use vstd::utf8::encode_utf8;

use crate::error::{Fault, Result};
use crate::protocol::cursor::Cursor;
use crate::protocol::packets::{Packet, ServerboundPacket};
use crate::protocol::types::{
    protocol_error, read_unsigned_short, write_unsigned_short, McString, VarInt,
};
use crate::protocol::wire::{
    lemma_u16_roundtrip, lemma_parse_string_bound, lemma_parse_varint_range,
    lemma_string_roundtrip, lemma_varint_roundtrip, parse_string,
    parse_u16, parse_varint, string_bytes, u16_bytes, varint_bytes, Parsed,
};

verus! {

/// Handshake sent by the client to open a connection.
#[derive(Debug, Clone)]
pub struct HandshakePacket {
    /// Protocol version used by the client.
    pub protocol_version: VarInt,
    /// Server address (hostname or IP), at most 255 bytes.
    pub server_address: McString,
    /// Server port.
    pub server_port: u16,
    /// Next state: 1 for status, 2 for login, 3 for transfer.
    pub next_state: VarInt,
}

/// The fields of a handshake, as mathematics.
pub struct HandshakeFields {
    pub protocol_version: int,
    pub server_address: Seq<char>,
    pub server_port: u16,
    pub next_state: int,
}

impl View for HandshakePacket {
    type V = HandshakeFields;

    open spec fn view(&self) -> HandshakeFields {
        HandshakeFields {
            protocol_version: self.protocol_version@,
            server_address: self.server_address@,
            server_port: self.server_port,
            next_state: self.next_state@,
        }
    }
}

impl HandshakePacket {
    /// The packet id.
    pub const ID: i32 = 0x00;
}

impl Packet for HandshakePacket {
    open spec fn spec_id() -> i32 {
        0x00
    }

    fn id() -> (v: VarInt) {
        VarInt(0x00)
    }

    open spec fn wire(v: HandshakeFields) -> Seq<u8> {
        varint_bytes(v.protocol_version) + string_bytes(v.server_address) + u16_bytes(
            v.server_port,
        ) + varint_bytes(v.next_state)
    }

    open spec fn parse(bytes: Seq<u8>) -> Parsed<HandshakeFields> {
        match parse_varint(bytes) {
            Err(e) => Err(e),
            Ok((protocol_version, b1)) => match parse_string(b1, 255) {
                Err(e) => Err(e),
                Ok((server_address, b2)) => match parse_u16(b2) {
                    Err(e) => Err(e),
                    Ok((server_port, b3)) => match parse_varint(b3) {
                        Err(e) => Err(e),
                        Ok((next_state, b4)) => Ok(
                            (
                                HandshakeFields {
                                    protocol_version,
                                    server_address,
                                    server_port,
                                    next_state,
                                },
                                b4,
                            ),
                        ),
                    },
                },
            },
        }
    }

    open spec fn encodable(v: HandshakeFields) -> bool {
        &&& -0x8000_0000 <= v.protocol_version < 0x8000_0000
        &&& -0x8000_0000 <= v.next_state < 0x8000_0000
        &&& encode_utf8(v.server_address).len() <= 255
    }

    proof fn lemma_roundtrip(v: HandshakeFields, tail: Seq<u8>) {
        let t3 = varint_bytes(v.next_state) + tail;
        let t2 = u16_bytes(v.server_port) + t3;
        let t1 = string_bytes(v.server_address) + t2;
        assert(Self::wire(v) + tail =~= varint_bytes(v.protocol_version) + t1);
        lemma_varint_roundtrip(v.protocol_version, t1);
        lemma_string_roundtrip(v.server_address, 255, t2);
        lemma_u16_roundtrip(v.server_port, t3);
        lemma_varint_roundtrip(v.next_state, tail);
    }

    proof fn lemma_parsed_encodable(bytes: Seq<u8>) {
        lemma_parse_varint_range(bytes);
        let b1 = parse_varint(bytes)->Ok_0.1;
        lemma_parse_string_bound(b1, 255);
        let b2 = parse_string(b1, 255)->Ok_0.1;
        let b3 = parse_u16(b2)->Ok_0.1;
        lemma_parse_varint_range(b3);
    }

    fn read(reader: &mut Cursor) -> (r: Result<Self>) {
        let protocol_version = VarInt::read(reader)?;
        let server_address = McString::read_with_max_length(reader, 255)?;
        let server_port = read_unsigned_short(reader)?;
        let next_state = VarInt::read(reader)?;
        Ok(HandshakePacket { protocol_version, server_address, server_port, next_state })
    }

    fn write(&self, writer: &mut Vec<u8>) -> (r: Result<()>) {
        if self.server_address.0.as_str().as_bytes().len() > 255 {
            return Err(protocol_error("server address too long"));
        }
        self.protocol_version.write(writer)?;
        self.server_address.write(writer)?;
        write_unsigned_short(self.server_port, writer)?;
        self.next_state.write(writer)?;
        assert(writer@ =~= old(writer)@ + Self::wire(self@));
        Ok(())
    }
}

impl ServerboundPacket for HandshakePacket {

}

/// The states that a handshake may ask for by number.
#[derive(Debug, Clone, Copy, PartialEq, Eq, Structural)]
pub enum NextState {
    /// Status request (server list ping), number 1.
    Status,
    /// Login, number 2.
    Login,
}

impl NextState {
    /// The number that stands for the state in a handshake.
    pub open spec fn number(self) -> int {
        match self {
            NextState::Status => 1,
            NextState::Login => 2,
        }
    }
}

impl TryFrom<VarInt> for NextState {
    type Error = crate::error::ServerError;

    /// The state that a number stands for: Status for 1 and Login for 2.
    /// Any other number is a protocol fault.
    fn try_from(value: VarInt) -> (r: Result<Self>)
        ensures
            match r {
                Ok(state) => state.number() == value@,
                Err(e) => value@ != 1 && value@ != 2 && e.fault() == Some(Fault::Malformed),
            },
    {
        match value.0 {
            1 => Ok(NextState::Status),
            2 => Ok(NextState::Login),
            _ => Err(protocol_error("invalid next state")),
        }
    }
}

impl vstd::std_specs::convert::TryFromSpecImpl<VarInt> for NextState {
    open spec fn obeys_try_from_spec() -> bool {
        false
    }

    open spec fn try_from_spec(v: VarInt) -> core::result::Result<Self, Self::Error> {
        arbitrary()
    }
}

impl From<NextState> for VarInt {
    fn from(state: NextState) -> (r: Self) {
        match state {
            NextState::Status => VarInt(1),
            NextState::Login => VarInt(2),
        }
    }
}

impl vstd::std_specs::convert::FromSpecImpl<NextState> for VarInt {
    open spec fn obeys_from_spec() -> bool {
        true
    }

    open spec fn from_spec(v: NextState) -> Self {
        match v {
            NextState::Status => VarInt(1),
            NextState::Login => VarInt(2),
        }
    }
}

} // verus!
