//! Status packets of the byte-level protocol: server status and ping.

use vstd::prelude::*;

use crate::error::IoResult;
use crate::protocol::cursor::Cursor;
use crate::protocol::packet::{Packet, PacketWriter};
use crate::protocol::wire::{i64_bytes, parse_i64, parse_string, string_bytes, Parsed};

verus! {

/// Status request: no fields.
#[derive(Debug, Clone)]
pub struct StatusRequest;

impl View for StatusRequest {
    type V = ();

    open spec fn view(&self) -> () {
        ()
    }
}

impl Packet for StatusRequest {
    open spec fn writable(&self) -> bool {
        true
    }

    open spec fn spec_packet_id() -> i32 {
        0x00
    }

    open spec fn parse_data(bytes: Seq<u8>) -> Parsed<()> {
        Ok(((), bytes))
    }

    open spec fn data_bytes(&self) -> Seq<u8> {
        Seq::empty()
    }

    fn packet_id() -> (id: i32) {
        0x00
    }

    fn write_data(&self, writer: &mut Vec<u8>) -> (r: IoResult<()>) {
        assert(writer@ =~= old(writer)@ + self.data_bytes());
        Ok(())
    }

    fn read_data(reader: &mut Cursor) -> (r: IoResult<Self>) {
        Ok(StatusRequest)
    }
}

/// Status response: the server information as JSON text.
#[derive(Debug, Clone)]
pub struct StatusResponse {
    /// JSON response containing server information.
    pub json_response: String,
}

/// The status document of a server that runs version 1.21.5 of protocol
/// 770 with room for 20 players and nobody online.
pub open spec fn default_status_json() -> Seq<char> {
    "{\"version\":{\"name\":\"1.21.5\",\"protocol\":770},\"players\":{\"max\":20,\"online\":0,\"sample\":[]},\"description\":{\"text\":\"A Minecraft Server\"},\"favicon\":\"\",\"enforcesSecureChat\":false,\"previewsChat\":false}"@
}

impl StatusResponse {
    /// A status response with the default server information.
    pub fn new() -> (p: Self)
        ensures
            p.json_response@ == default_status_json(),
    {
        Self {
            json_response: "{\"version\":{\"name\":\"1.21.5\",\"protocol\":770},\"players\":{\"max\":20,\"online\":0,\"sample\":[]},\"description\":{\"text\":\"A Minecraft Server\"},\"favicon\":\"\",\"enforcesSecureChat\":false,\"previewsChat\":false}".to_string(),
        }
    }

    /// A status response with the given JSON.
    pub fn with_json(json: String) -> (p: Self)
        ensures
            p.json_response == json,
    {
        Self { json_response: json }
    }
}

impl Default for StatusResponse {
    fn default() -> (p: Self)
        ensures
            p.json_response@ == default_status_json(),
    {
        Self::new()
    }
}

impl View for StatusResponse {
    type V = Seq<char>;

    open spec fn view(&self) -> Seq<char> {
        self.json_response@
    }
}

impl Packet for StatusResponse {
    open spec fn writable(&self) -> bool {
        vstd::utf8::encode_utf8(self.json_response@).len() <= 0x7fff_ffff
    }

    open spec fn spec_packet_id() -> i32 {
        0x00
    }

    open spec fn parse_data(bytes: Seq<u8>) -> Parsed<Seq<char>> {
        parse_string(bytes, 0x7fff_ffff)
    }

    open spec fn data_bytes(&self) -> Seq<u8> {
        string_bytes(self.json_response@)
    }

    fn packet_id() -> (id: i32) {
        0x00
    }

    fn write_data(&self, writer: &mut Vec<u8>) -> (r: IoResult<()>) {
        let mut packet_writer = PacketWriter::new(Vec::new());
        packet_writer.write_string(self.json_response.as_str())?;
        let bytes = packet_writer.into_inner();
        assert(bytes@ =~= self.data_bytes());
        crate::protocol::types::write_all(writer, bytes.as_slice());
        Ok(())
    }

    fn read_data(reader: &mut Cursor) -> (r: IoResult<Self>) {
        match crate::protocol::types::read_text(reader, 0x7fff_ffff) {
            Ok(json_response) => Ok(Self { json_response }),
            Err(e) => Err(e.kind()),
        }
    }
}

/// Ping request.
#[derive(Debug, Clone)]
pub struct PingRequest {
    /// Timestamp payload.
    pub payload: i64,
}

impl PingRequest {
    /// A ping request with the given payload.
    pub fn new(payload: i64) -> (p: Self)
        ensures
            p.payload == payload,
    {
        Self { payload }
    }
}

impl View for PingRequest {
    type V = i64;

    open spec fn view(&self) -> i64 {
        self.payload
    }
}

impl Packet for PingRequest {
    open spec fn writable(&self) -> bool {
        true
    }

    open spec fn spec_packet_id() -> i32 {
        0x01
    }

    open spec fn parse_data(bytes: Seq<u8>) -> Parsed<i64> {
        parse_i64(bytes)
    }

    open spec fn data_bytes(&self) -> Seq<u8> {
        i64_bytes(self.payload)
    }

    fn packet_id() -> (id: i32) {
        0x01
    }

    fn write_data(&self, writer: &mut Vec<u8>) -> (r: IoResult<()>) {
        let _ = crate::protocol::types::write_long(self.payload, writer);
        Ok(())
    }

    fn read_data(reader: &mut Cursor) -> (r: IoResult<Self>) {
        match crate::protocol::types::read_long(reader) {
            Ok(payload) => Ok(Self::new(payload)),
            Err(e) => Err(e.kind()),
        }
    }
}

/// Pong response.
#[derive(Debug, Clone)]
pub struct PongResponse {
    /// Timestamp payload; that of the ping request.
    pub payload: i64,
}

impl PongResponse {
    /// A pong response with the given payload.
    pub fn new(payload: i64) -> (p: Self)
        ensures
            p.payload == payload,
    {
        Self { payload }
    }

    /// The pong response that answers a ping request: the same payload.
    pub fn from_ping(ping: &PingRequest) -> (p: Self)
        ensures
            p.payload == ping.payload,
    {
        Self::new(ping.payload)
    }
}

impl View for PongResponse {
    type V = i64;

    open spec fn view(&self) -> i64 {
        self.payload
    }
}

impl Packet for PongResponse {
    open spec fn writable(&self) -> bool {
        true
    }

    open spec fn spec_packet_id() -> i32 {
        0x01
    }

    open spec fn parse_data(bytes: Seq<u8>) -> Parsed<i64> {
        parse_i64(bytes)
    }

    open spec fn data_bytes(&self) -> Seq<u8> {
        i64_bytes(self.payload)
    }

    fn packet_id() -> (id: i32) {
        0x01
    }

    fn write_data(&self, writer: &mut Vec<u8>) -> (r: IoResult<()>) {
        let _ = crate::protocol::types::write_long(self.payload, writer);
        Ok(())
    }

    fn read_data(reader: &mut Cursor) -> (r: IoResult<Self>) {
        match crate::protocol::types::read_long(reader) {
            Ok(payload) => Ok(Self::new(payload)),
            Err(e) => Err(e.kind()),
        }
    }
}

} // verus!
