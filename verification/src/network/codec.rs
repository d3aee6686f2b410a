//! Packet codec: whole packets to and from bytes, without compression.

use vstd::prelude::*;

use crate::error::{Fault, Result};
use crate::network::frame::{packet_frame, write_frame};
use crate::protocol::compression::payload_bytes;
use crate::protocol::cursor::Cursor;
use crate::protocol::packets::Packet;
use crate::protocol::types::{protocol_error, VarInt};
use crate::protocol::wire::{parse_varint, Parsed};

verus! {

/// Packet codec for reading and writing packets.
pub struct PacketCodec;

/// What `decode` makes of a payload: the id must be that of the packet
/// type, and the fields must decode.
pub open spec fn parse_packet<P: Packet>(payload: Seq<u8>) -> Parsed<P::V> {
    match parse_varint(payload) {
        Err(e) => Err(e),
        Ok((id, fields)) => if id != P::spec_id() as int {
            Err(Fault::Malformed)
        } else {
            P::parse(fields)
        },
    }
}

impl PacketCodec {
    /// Encodes a packet as a frame: length, id, fields.
    pub fn encode<P: Packet>(packet: &P) -> (r: Result<Vec<u8>>)
        ensures
            r is Ok <==> P::encodable(packet@) && payload_bytes(P::spec_id() as int, P::wire(packet@)).len()
                <= 0x7fff_ffff,
            r matches Ok(frame) ==> frame@ == packet_frame::<P>(packet@),
            r matches Err(e) ==> e.fault() == Some(Fault::Malformed),
    {
        let mut packet_data: Vec<u8> = Vec::new();
        let _ = P::id().write(&mut packet_data);
        packet.write(&mut packet_data)?;
        assert(packet_data@ =~= payload_bytes(P::spec_id() as int, P::wire(packet@)));
        let mut result: Vec<u8> = Vec::new();
        write_frame(packet_data.as_slice(), &mut result)?;
        assert(result@ =~= packet_frame::<P>(packet@));
        Ok(result)
    }

    /// Decodes a packet from the body of a frame: the id, which must be
    /// that of the packet type, then the fields.
    pub fn decode<P: Packet>(data: &[u8]) -> (r: Result<P>)
        ensures
            match r {
                Ok(packet) => parse_packet::<P>(data@) is Ok && parse_packet::<P>(data@)->Ok_0.0
                    == packet@,
                Err(e) => parse_packet::<P>(data@) is Err && e.fault() == Some(
                    parse_packet::<P>(data@)->Err_0,
                ),
            },
    {
        let mut cursor = Cursor::new(data);
        let packet_id = VarInt::read(&mut cursor)?;
        if packet_id.0 != P::id().0 {
            return Err(protocol_error("packet id mismatch"));
        }
        P::read(&mut cursor)
    }

    /// The packet id at the start of the body of a frame.
    pub fn get_packet_id(data: &[u8]) -> (r: Result<VarInt>)
        ensures
            match r {
                Ok(id) => parse_varint(data@) is Ok && parse_varint(data@)->Ok_0.0 == id@,
                Err(e) => parse_varint(data@) is Err && e.fault() == Some(
                    parse_varint(data@)->Err_0,
                ),
            },
    {
        let mut cursor = Cursor::new(data);
        VarInt::read(&mut cursor)
    }

    /// The total size of the frame of a packet.
    pub fn calculate_packet_size<P: Packet>(packet: &P) -> (r: Result<usize>)
        ensures
            r is Ok <==> P::encodable(packet@) && payload_bytes(P::spec_id() as int, P::wire(packet@)).len()
                <= 0x7fff_ffff,
            r matches Ok(size) ==> size == packet_frame::<P>(packet@).len(),
            r matches Err(e) ==> e.fault() == Some(Fault::Malformed),
    {
        let id_size = P::id().len();
        let mut temp_buffer: Vec<u8> = Vec::new();
        packet.write(&mut temp_buffer)?;
        assert(temp_buffer@ =~= P::wire(packet@));
        if temp_buffer.len() > 0x7fff_ffff - id_size {
            return Err(protocol_error("packet too long for its length field"));
        }
        let size = id_size + temp_buffer.len();
        let length_prefix = VarInt(size as i32);
        Ok(size + length_prefix.len())
    }
}

} // verus!
