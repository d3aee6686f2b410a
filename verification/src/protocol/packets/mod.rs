//! The packet catalog, one module per connection state.

use vstd::prelude::*;

use crate::error::{Fault, Result};
use crate::protocol::cursor::Cursor;
use crate::protocol::types::{decodes, write_all, VarInt};
use crate::protocol::wire::{parse_varint, varint_bytes, varint_rest, Parsed};

pub mod configuration;
pub mod handshaking;
pub mod login;
pub mod play;
pub mod status;

verus! {

/// A typed packet: a numeric id and a symmetric pair of reader and writer
/// for its fields.
pub trait Packet: Sized + View {
    /// The packet id within its state and direction.
    spec fn spec_id() -> i32;

    /// The bytes of the fields, in wire order.
    spec fn wire(v: Self::V) -> Seq<u8>;

    /// What the field decoder makes of a byte sequence.
    spec fn parse(bytes: Seq<u8>) -> Parsed<Self::V>;

    /// Whether the fields can be written at all: every string and array
    /// within its limit.
    spec fn encodable(v: Self::V) -> bool;

    /// Decoding what the writer emits recovers the packet, and stops
    /// exactly where the packet ends.
    proof fn lemma_roundtrip(v: Self::V, tail: Seq<u8>)
        requires
            Self::encodable(v),
        ensures
            Self::parse(Self::wire(v) + tail) == Ok::<(Self::V, Seq<u8>), Fault>((v, tail)),
    ;

    /// Whatever the decoder accepts can be written again.
    proof fn lemma_parsed_encodable(bytes: Seq<u8>)
        requires
            Self::parse(bytes) is Ok,
        ensures
            Self::encodable(Self::parse(bytes)->Ok_0.0),
    ;

    /// Reads the fields of the packet.
    fn read(reader: &mut Cursor) -> (r: Result<Self>)
        ensures
            final(reader).follows(*old(reader)),
            decodes(r, final(reader)@, Self::parse(old(reader)@)),
    ;

    /// Writes the fields of the packet.
    fn write(&self, writer: &mut Vec<u8>) -> (r: Result<()>)
        ensures
            r is Ok <==> Self::encodable(self@),
            r is Ok ==> final(writer)@ == old(writer)@ + Self::wire(self@),
            r matches Err(e) ==> e.fault() == Some(Fault::Malformed) && old(writer)@.is_prefix_of(
                final(writer)@,
            ),
    ;

    /// The packet id as a VarInt.
    fn id() -> (v: VarInt)
        ensures
            v@ == Self::spec_id(),
    ;
}

/// Marks the packets that the server sends.
pub trait ClientboundPacket: Packet {

}

/// Marks the packets that the client sends.
pub trait ServerboundPacket: Packet {

}

/// Whatever the decoder accepts can be written again, and what is written
/// decodes to the same packet, whatever follows it.
pub proof fn lemma_reencode<P: Packet>(bytes: Seq<u8>, tail: Seq<u8>)
    requires
        P::parse(bytes) is Ok,
    ensures
        P::encodable(P::parse(bytes)->Ok_0.0),
        P::parse(P::wire(P::parse(bytes)->Ok_0.0) + tail) == Ok::<(P::V, Seq<u8>), Fault>(
            (P::parse(bytes)->Ok_0.0, tail),
        ),
{
    P::lemma_parsed_encodable(bytes);
    P::lemma_roundtrip(P::parse(bytes)->Ok_0.0, tail);
}

/// The encoding is prefix-free: the bytes of one packet never start the
/// bytes of another packet of the same type.
pub proof fn lemma_prefix_free<P: Packet>(a: P::V, b: P::V)
    requires
        P::encodable(a),
        P::encodable(b),
        P::wire(a).is_prefix_of(P::wire(b)),
    ensures
        a == b,
{
    let rest = P::wire(b).skip(P::wire(a).len() as int);
    assert(P::wire(a) + rest =~= P::wire(b));
    assert(P::wire(b) + Seq::<u8>::empty() =~= P::wire(b));
    P::lemma_roundtrip(a, rest);
    P::lemma_roundtrip(b, Seq::<u8>::empty());
}

/// Reads the length prefix of a packet.
pub fn read_packet_length(reader: &mut Cursor) -> (r: Result<VarInt>)
    ensures
        final(reader).follows(*old(reader)),
        final(reader)@ == varint_rest(old(reader)@),
        decodes(r, final(reader)@, parse_varint(old(reader)@)),
{
    VarInt::read(reader)
}

/// Writes a packet behind its length prefix: the length of id and fields,
/// the id, the fields. On failure nothing is written.
pub fn write_packet_with_length<P: Packet>(packet: &P, writer: &mut Vec<u8>) -> (r: Result<()>)
    ensures
        r is Ok <==> P::encodable(packet@) && (varint_bytes(P::spec_id() as int) + P::wire(
            packet@,
        )).len() <= 0x7fff_ffff,
        r is Ok ==> final(writer)@ == old(writer)@ + varint_bytes(
            (varint_bytes(P::spec_id() as int) + P::wire(packet@)).len() as int,
        ) + (varint_bytes(P::spec_id() as int) + P::wire(packet@)),
        r matches Err(e) ==> e.fault() == Some(Fault::Malformed) && final(writer)@ == old(writer)@,
{
    let mut packet_data: Vec<u8> = Vec::new();
    let _ = P::id().write(&mut packet_data);
    packet.write(&mut packet_data)?;
    assert(packet_data@ =~= varint_bytes(P::spec_id() as int) + P::wire(packet@));
    if packet_data.len() > 0x7fff_ffff {
        return Err(crate::protocol::types::protocol_error("packet too long for its length field"));
    }
    let _ = VarInt(packet_data.len() as i32).write(writer);
    write_all(writer, packet_data.as_slice());
    Ok(())
}

} // verus!
