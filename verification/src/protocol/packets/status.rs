//! Status state: the server list ping.

use vstd::prelude::*;
use vstd::utf8::encode_utf8;

use crate::error::Result;
use crate::protocol::cursor::Cursor;
use crate::protocol::types::VarInt;
use crate::protocol::packets::{ClientboundPacket, Packet, ServerboundPacket};
use crate::protocol::types::{read_long, write_long, McString};
use crate::protocol::wire::{
    i64_bytes, lemma_i64_roundtrip, lemma_parse_string_bound, lemma_string_roundtrip,
    parse_i64, parse_string, string_bytes, Parsed,
};

verus! {

/// Status request (serverbound): no fields.
#[derive(Debug, Clone)]
pub struct StatusRequestPacket;

impl View for StatusRequestPacket {
    type V = ();

    open spec fn view(&self) -> () {
        ()
    }
}

impl StatusRequestPacket {
    /// The packet id.
    pub const ID: i32 = 0x00;
}

impl Packet for StatusRequestPacket {
    open spec fn spec_id() -> i32 {
        0x00
    }

    fn id() -> (v: VarInt) {
        VarInt(0x00)
    }

    open spec fn wire(v: ()) -> Seq<u8> {
        Seq::empty()
    }

    open spec fn parse(bytes: Seq<u8>) -> Parsed<()> {
        Ok(((), bytes))
    }

    open spec fn encodable(v: ()) -> bool {
        true
    }

    proof fn lemma_roundtrip(v: (), tail: Seq<u8>) {
        assert(Self::wire(v) + tail =~= tail);
    }

    proof fn lemma_parsed_encodable(bytes: Seq<u8>) {
    }

    fn read(reader: &mut Cursor) -> (r: Result<Self>) {
        Ok(StatusRequestPacket)
    }

    fn write(&self, writer: &mut Vec<u8>) -> (r: Result<()>) {
        assert(writer@ =~= old(writer)@ + Self::wire(self@));
        Ok(())
    }
}

impl ServerboundPacket for StatusRequestPacket {

}

/// Status response (clientbound): the status document as JSON text.
#[derive(Debug, Clone)]
pub struct StatusResponsePacket {
    /// JSON response string.
    pub json_response: McString,
}

impl View for StatusResponsePacket {
    type V = Seq<char>;

    open spec fn view(&self) -> Seq<char> {
        self.json_response@
    }
}

impl StatusResponsePacket {
    /// The packet id.
    pub const ID: i32 = 0x00;
}

impl Packet for StatusResponsePacket {
    open spec fn spec_id() -> i32 {
        0x00
    }

    fn id() -> (v: VarInt) {
        VarInt(0x00)
    }

    open spec fn wire(v: Seq<char>) -> Seq<u8> {
        string_bytes(v)
    }

    open spec fn parse(bytes: Seq<u8>) -> Parsed<Seq<char>> {
        parse_string(bytes, 32767)
    }

    open spec fn encodable(v: Seq<char>) -> bool {
        encode_utf8(v).len() <= 32767
    }

    proof fn lemma_roundtrip(v: Seq<char>, tail: Seq<u8>) {
        lemma_string_roundtrip(v, 32767, tail);
    }

    proof fn lemma_parsed_encodable(bytes: Seq<u8>) {
        lemma_parse_string_bound(bytes, 32767);
    }

    fn read(reader: &mut Cursor) -> (r: Result<Self>) {
        let json_response = McString::read(reader)?;
        Ok(StatusResponsePacket { json_response })
    }

    fn write(&self, writer: &mut Vec<u8>) -> (r: Result<()>) {
        self.json_response.write(writer)
    }
}

impl ClientboundPacket for StatusResponsePacket {

}

/// Ping request (serverbound): eight bytes to echo.
#[derive(Debug, Clone)]
pub struct PingRequestPacket {
    /// Payload to echo back.
    pub payload: i64,
}

impl View for PingRequestPacket {
    type V = i64;

    open spec fn view(&self) -> i64 {
        self.payload
    }
}

impl PingRequestPacket {
    /// The packet id.
    pub const ID: i32 = 0x01;
}

impl Packet for PingRequestPacket {
    open spec fn spec_id() -> i32 {
        0x01
    }

    fn id() -> (v: VarInt) {
        VarInt(0x01)
    }

    open spec fn wire(v: i64) -> Seq<u8> {
        i64_bytes(v)
    }

    open spec fn parse(bytes: Seq<u8>) -> Parsed<i64> {
        parse_i64(bytes)
    }

    open spec fn encodable(v: i64) -> bool {
        true
    }

    proof fn lemma_roundtrip(v: i64, tail: Seq<u8>) {
        lemma_i64_roundtrip(v, tail);
    }

    proof fn lemma_parsed_encodable(bytes: Seq<u8>) {
    }

    fn read(reader: &mut Cursor) -> (r: Result<Self>) {
        let payload = read_long(reader)?;
        Ok(PingRequestPacket { payload })
    }

    fn write(&self, writer: &mut Vec<u8>) -> (r: Result<()>) {
        write_long(self.payload, writer)
    }
}

impl ServerboundPacket for PingRequestPacket {

}

/// Ping response (clientbound): the payload of the request, echoed.
#[derive(Debug, Clone)]
pub struct PingResponsePacket {
    /// Payload echoed back.
    pub payload: i64,
}

impl View for PingResponsePacket {
    type V = i64;

    open spec fn view(&self) -> i64 {
        self.payload
    }
}

impl PingResponsePacket {
    /// The packet id.
    pub const ID: i32 = 0x01;
}

impl Packet for PingResponsePacket {
    open spec fn spec_id() -> i32 {
        0x01
    }

    fn id() -> (v: VarInt) {
        VarInt(0x01)
    }

    open spec fn wire(v: i64) -> Seq<u8> {
        i64_bytes(v)
    }

    open spec fn parse(bytes: Seq<u8>) -> Parsed<i64> {
        parse_i64(bytes)
    }

    open spec fn encodable(v: i64) -> bool {
        true
    }

    proof fn lemma_roundtrip(v: i64, tail: Seq<u8>) {
        lemma_i64_roundtrip(v, tail);
    }

    proof fn lemma_parsed_encodable(bytes: Seq<u8>) {
    }

    fn read(reader: &mut Cursor) -> (r: Result<Self>) {
        let payload = read_long(reader)?;
        Ok(PingResponsePacket { payload })
    }

    fn write(&self, writer: &mut Vec<u8>) -> (r: Result<()>) {
        write_long(self.payload, writer)
    }
}

impl ClientboundPacket for PingResponsePacket {

}

/// The status document answered during Status.
#[derive(Debug, Clone)]
pub struct ServerStatus {
    /// Version information.
    pub version: VersionInfo,
    /// Player information.
    pub players: PlayersInfo,
    /// Server description.
    pub description: Description,
    /// Optional server favicon (base64 PNG data URL).
    pub favicon: Option<String>,
    /// Whether the server enforces secure chat.
    pub enforces_secure_chat: bool,
}

/// Version information.
#[derive(Debug, Clone)]
pub struct VersionInfo {
    /// Version name, such as "1.21.5".
    pub name: String,
    /// Protocol version number.
    pub protocol: i32,
}

/// Player information.
#[derive(Debug, Clone)]
pub struct PlayersInfo {
    /// Maximum number of players.
    pub max: u32,
    /// Current number of online players.
    pub online: u32,
    /// Sample of online players.
    pub sample: Option<Vec<PlayerSample>>,
}

/// One player of the sample.
#[derive(Debug, Clone)]
pub struct PlayerSample {
    /// Player name.
    pub name: String,
    /// Player UUID, in text form.
    pub id: String,
}

/// Server description.
#[derive(Debug, Clone)]
pub enum Description {
    /// Plain text.
    Text(String),
    /// A JSON text component, as JSON text.
    Rich(String),
}

} // verus!
