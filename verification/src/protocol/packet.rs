//! Byte-level packet handling: a reader and a writer for packet fields, and
//! the packets built on them.

use vstd::prelude::*;
use vstd::slice::slice_to_vec;

use crate::error::{ErrorKind, Fault, IoResult};
use crate::network::frame::frame_bytes;
use crate::protocol::compression::payload_bytes;
use crate::protocol::cursor::Cursor;
use crate::protocol::types;
use crate::protocol::varint::{io_decodes, VarInt};
use crate::protocol::wire::{
    i64_bytes, parse_i64, parse_string, parse_u16, parse_u8, parse_varint, string_bytes,
    sized_rest, u16_bytes, u8_bytes, varint_bytes, varint_rest, Parsed,
};

verus! {

/// A packet of the byte-level protocol.
pub trait Packet: Sized + View {
    /// The packet id, as mathematics.
    spec fn spec_packet_id() -> i32;

    /// What the field decoder makes of a byte sequence.
    spec fn parse_data(bytes: Seq<u8>) -> Parsed<Self::V>;

    /// The bytes of the fields, in wire order.
    spec fn data_bytes(&self) -> Seq<u8>;

    /// Whether the fields can be written at all: every string short enough
    /// for its length field.
    spec fn writable(&self) -> bool;

    /// The packet id.
    fn packet_id() -> (id: i32)
        ensures
            id == Self::spec_packet_id(),
    ;

    /// Writes the fields (without length prefix).
    fn write_data(&self, writer: &mut Vec<u8>) -> (r: IoResult<()>)
        ensures
            r is Ok <==> self.writable(),
            r is Ok ==> final(writer)@ == old(writer)@ + self.data_bytes(),
            r matches Err(kind) ==> kind == ErrorKind::InvalidData && old(writer)@.is_prefix_of(
                final(writer)@,
            ),
    ;

    /// Reads the fields.
    fn read_data(reader: &mut Cursor) -> (r: IoResult<Self>)
        ensures
            final(reader).follows(*old(reader)),
            io_decodes(r, final(reader)@, Self::parse_data(old(reader)@)),
    ;

    /// Writes the complete packet: the length prefix, the id and the
    /// fields. On failure nothing is written.
    fn write_packet(&self, writer: &mut Vec<u8>) -> (r: IoResult<()>)
        ensures
            r is Ok <==> self.writable() && payload_bytes(
                Self::spec_packet_id() as int,
                self.data_bytes(),
            ).len() <= 0x7fff_ffff,
            r is Ok ==> final(writer)@ == old(writer)@ + frame_bytes(
                payload_bytes(Self::spec_packet_id() as int, self.data_bytes()),
            ),
            r matches Err(kind) ==> kind == ErrorKind::InvalidData && final(writer)@ == old(writer)@,
    {
        let mut data_buffer: Vec<u8> = Vec::new();
        let _ = VarInt(Self::packet_id()).write(&mut data_buffer);
        self.write_data(&mut data_buffer)?;
        assert(data_buffer@ =~= payload_bytes(
            Self::spec_packet_id() as int,
            self.data_bytes(),
        ));
        if data_buffer.len() > 0x7fff_ffff {
            return Err(ErrorKind::InvalidData);
        }
        let _ = VarInt(data_buffer.len() as i32).write(writer);
        types::write_all(writer, data_buffer.as_slice());
        assert(writer@ =~= old(writer)@ + frame_bytes(data_buffer@));
        Ok(())
    }
}

/// Reads packet fields from a cursor.
pub struct PacketReader<'a> {
    reader: Cursor<'a>,
}

impl<'a> View for PacketReader<'a> {
    type V = Seq<u8>;

    /// The bytes that have not been read yet.
    closed spec fn view(&self) -> Seq<u8> {
        self.reader@
    }
}

/// The length that a packet announces: a VarInt that must not be negative.
pub open spec fn parse_length(bytes: Seq<u8>) -> Parsed<usize> {
    match parse_varint(bytes) {
        Err(e) => Err(e),
        Ok((length, rest)) => if length < 0 {
            Err(Fault::Malformed)
        } else {
            Ok((length as usize, rest))
        },
    }
}

/// Exactly `length` bytes.
pub open spec fn parse_exact(bytes: Seq<u8>, length: nat) -> Parsed<Seq<u8>> {
    if bytes.len() < length {
        Err(Fault::Truncated)
    } else {
        Ok((bytes.take(length as int), bytes.skip(length as int)))
    }
}

impl<'a> PacketReader<'a> {
    /// A packet reader over the given cursor.
    pub fn new(reader: Cursor<'a>) -> (r: Self)
        ensures
            r@ == reader@,
    {
        Self { reader }
    }

    /// Reads the length of the next packet.
    pub fn read_packet_length(&mut self) -> (r: IoResult<usize>)
        ensures
            final(self)@ == varint_rest(old(self)@),
            io_decodes(r, final(self)@, parse_length(old(self)@)),
    {
        let length = VarInt::read(&mut self.reader)?;
        if length.0 < 0 {
            return Err(ErrorKind::InvalidData);
        }
        Ok(length.0 as usize)
    }

    /// Reads packet data of the given length.
    pub fn read_packet_data(&mut self, length: usize) -> (r: IoResult<Vec<u8>>)
        ensures
            r is Err ==> final(self)@ == old(self)@,
            io_decodes(r, final(self)@, parse_exact(old(self)@, length as nat)),
    {
        match self.reader.take(length) {
            None => Err(ErrorKind::UnexpectedEof),
            Some(bytes) => Ok(slice_to_vec(bytes)),
        }
    }

    /// Reads a VarInt.
    pub fn read_varint(&mut self) -> (r: IoResult<VarInt>)
        ensures
            final(self)@ == varint_rest(old(self)@),
            io_decodes(r, final(self)@, parse_varint(old(self)@)),
    {
        VarInt::read(&mut self.reader)
    }

    /// Reads a string: length-prefixed UTF-8.
    pub fn read_string(&mut self) -> (r: IoResult<String>)
        ensures
            final(self)@ == sized_rest(old(self)@, 0, 0x7fff_ffff),
            io_decodes(r, final(self)@, parse_string(old(self)@, 0x7fff_ffff)),
    {
        match types::read_text(&mut self.reader, 0x7fff_ffff) {
            Ok(s) => Ok(s),
            Err(e) => Err(e.kind()),
        }
    }

    /// Reads a u16, big-endian.
    pub fn read_u16(&mut self) -> (r: IoResult<u16>)
        ensures
            io_decodes(r, final(self)@, parse_u16(old(self)@)),
    {
        match types::read_unsigned_short(&mut self.reader) {
            Ok(v) => Ok(v),
            Err(e) => Err(e.kind()),
        }
    }

    /// Reads a u8.
    pub fn read_u8(&mut self) -> (r: IoResult<u8>)
        ensures
            io_decodes(r, final(self)@, parse_u8(old(self)@)),
    {
        match types::read_unsigned_byte(&mut self.reader) {
            Ok(v) => Ok(v),
            Err(e) => Err(e.kind()),
        }
    }

    /// Reads a long (i64), big-endian.
    pub fn read_long(&mut self) -> (r: IoResult<i64>)
        ensures
            io_decodes(r, final(self)@, parse_i64(old(self)@)),
    {
        match types::read_long(&mut self.reader) {
            Ok(v) => Ok(v),
            Err(e) => Err(e.kind()),
        }
    }

    /// The bytes that have not been read yet.
    pub fn remaining(&self) -> (rest: &'a [u8])
        ensures
            rest@ == self@,
    {
        self.reader.rest()
    }
}

/// Writes packet fields into a byte vector.
pub struct PacketWriter {
    writer: Vec<u8>,
}

impl View for PacketWriter {
    type V = Seq<u8>;

    /// The bytes written so far.
    closed spec fn view(&self) -> Seq<u8> {
        self.writer@
    }
}

impl PacketWriter {
    /// A packet writer that appends to the given bytes.
    pub fn new(writer: Vec<u8>) -> (w: Self)
        ensures
            w@ == writer@,
    {
        Self { writer }
    }

    /// Writes a VarInt.
    pub fn write_varint(&mut self, varint: VarInt) -> (r: IoResult<()>)
        ensures
            r is Ok,
            final(self)@ == old(self)@ + varint_bytes(varint@),
    {
        varint.write(&mut self.writer)
    }

    /// Writes a string: length-prefixed UTF-8. A string of more than
    /// 2^31 - 1 bytes is invalid data, and nothing is written.
    pub fn write_string(&mut self, s: &str) -> (r: IoResult<()>)
        ensures
            r is Ok <==> vstd::utf8::encode_utf8(s@).len() <= 0x7fff_ffff,
            r is Ok ==> final(self)@ == old(self)@ + string_bytes(s@),
            r matches Err(kind) ==> kind == ErrorKind::InvalidData && final(self)@ == old(self)@,
    {
        match types::write_text(s, 0x7fff_ffff, &mut self.writer) {
            Ok(()) => Ok(()),
            Err(e) => Err(e.kind()),
        }
    }

    /// Writes a u16, big-endian.
    pub fn write_u16(&mut self, value: u16) -> (r: IoResult<()>)
        ensures
            r is Ok,
            final(self)@ == old(self)@ + u16_bytes(value),
    {
        let _ = types::write_unsigned_short(value, &mut self.writer);
        Ok(())
    }

    /// Writes a u8.
    pub fn write_u8(&mut self, value: u8) -> (r: IoResult<()>)
        ensures
            r is Ok,
            final(self)@ == old(self)@ + u8_bytes(value),
    {
        let _ = types::write_unsigned_byte(value, &mut self.writer);
        Ok(())
    }

    /// Writes a long (i64), big-endian.
    pub fn write_long(&mut self, value: i64) -> (r: IoResult<()>)
        ensures
            r is Ok,
            final(self)@ == old(self)@ + i64_bytes(value),
    {
        let _ = types::write_long(value, &mut self.writer);
        Ok(())
    }

    /// The bytes written.
    pub fn into_inner(self) -> (bytes: Vec<u8>)
        ensures
            bytes@ == self@,
    {
        self.writer
    }
}

/// Splits the body of a frame into packet id and field bytes.
pub fn parse_packet_data(data: &[u8]) -> (r: IoResult<(i32, Vec<u8>)>)
    ensures
        match r {
            Ok((id, fields)) => parse_varint(data@) == Ok::<(int, Seq<u8>), Fault>(
                (id as int, fields@),
            ),
            Err(kind) => parse_varint(data@) is Err && kind.fault() == Some(
                parse_varint(data@)->Err_0,
            ),
        },
{
    let mut cursor = Cursor::new(data);
    let packet_id = VarInt::read(&mut cursor)?.0;
    let packet_data = slice_to_vec(cursor.rest());
    Ok((packet_id, packet_data))
}

} // verus!
