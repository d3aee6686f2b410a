//! Login state: start, success, compression and acknowledgement.

use vstd::prelude::*;
use vstd::utf8::encode_utf8;

use crate::error::{Fault, Result};
use crate::protocol::cursor::Cursor;
use crate::protocol::list::{
    counted_encodable, counted_wire, lemma_counted_roundtrip, lemma_parsed_counted,
    parse_counted, read_counted, views, write_counted, Element,
};
use crate::protocol::packets::{ClientboundPacket, Packet, ServerboundPacket};
use crate::protocol::types::{
    decodes, protocol_error, read_bool, read_uuid, uuid_bytes, write_bool, write_uuid, McString,
    McUuid, VarInt,
};
use crate::protocol::wire::{
    bool_bytes, lemma_bool_roundtrip, lemma_parse_string_bound, lemma_parse_varint_range,
    lemma_parsed_raw16, lemma_raw16_roundtrip, lemma_string_roundtrip, lemma_varint_roundtrip, parse_bool,
    parse_raw16, parse_string, parse_varint, string_bytes, varint_bytes, Parsed,
};

verus! {

/// Login start (serverbound).
#[derive(Debug, Clone)]
pub struct LoginStartPacket {
    /// Player name, at most 16 bytes.
    pub name: McString,
    /// Player UUID.
    pub player_uuid: McUuid,
}

/// The fields of a login start, as mathematics.
pub struct LoginStartFields {
    pub name: Seq<char>,
    pub player_uuid: Seq<u8>,
}

impl View for LoginStartPacket {
    type V = LoginStartFields;

    open spec fn view(&self) -> LoginStartFields {
        LoginStartFields { name: self.name@, player_uuid: uuid_bytes(self.player_uuid) }
    }
}

impl LoginStartPacket {
    /// The packet id.
    pub const ID: i32 = 0x00;
}

impl Packet for LoginStartPacket {
    open spec fn spec_id() -> i32 {
        0x00
    }

    fn id() -> (v: VarInt) {
        VarInt(0x00)
    }

    open spec fn wire(v: LoginStartFields) -> Seq<u8> {
        string_bytes(v.name) + v.player_uuid
    }

    open spec fn parse(bytes: Seq<u8>) -> Parsed<LoginStartFields> {
        match parse_string(bytes, 16) {
            Err(e) => Err(e),
            Ok((name, b1)) => match parse_raw16(b1) {
                Err(e) => Err(e),
                Ok((player_uuid, b2)) => Ok((LoginStartFields { name, player_uuid }, b2)),
            },
        }
    }

    open spec fn encodable(v: LoginStartFields) -> bool {
        encode_utf8(v.name).len() <= 16 && v.player_uuid.len() == 16
    }

    proof fn lemma_roundtrip(v: LoginStartFields, tail: Seq<u8>) {
        let t1 = v.player_uuid + tail;
        assert(Self::wire(v) + tail =~= string_bytes(v.name) + t1);
        lemma_string_roundtrip(v.name, 16, t1);
        lemma_raw16_roundtrip(v.player_uuid, tail);
    }

    proof fn lemma_parsed_encodable(bytes: Seq<u8>) {
        lemma_parse_string_bound(bytes, 16);
        lemma_parsed_raw16(parse_string(bytes, 16)->Ok_0.1);
    }

    fn read(reader: &mut Cursor) -> (r: Result<Self>) {
        let name = McString::read_with_max_length(reader, 16)?;
        let player_uuid = read_uuid(reader)?;
        Ok(LoginStartPacket { name, player_uuid })
    }

    fn write(&self, writer: &mut Vec<u8>) -> (r: Result<()>) {
        if self.name.0.as_str().as_bytes().len() > 16 {
            return Err(protocol_error("player name too long"));
        }
        self.name.write(writer)?;
        write_uuid(&self.player_uuid, writer)?;
        assert(writer@ =~= old(writer)@ + Self::wire(self@));
        Ok(())
    }
}

impl ServerboundPacket for LoginStartPacket {

}

/// Player property, as carried by login success.
#[derive(Debug, Clone)]
pub struct Property {
    /// Property name.
    pub name: McString,
    /// Property value.
    pub value: McString,
    /// Optional signature.
    pub signature: Option<McString>,
}

/// The fields of a property, as mathematics.
pub struct PropertyFields {
    pub name: Seq<char>,
    pub value: Seq<char>,
    pub signature: Option<Seq<char>>,
}

impl View for Property {
    type V = PropertyFields;

    open spec fn view(&self) -> PropertyFields {
        PropertyFields {
            name: self.name@,
            value: self.value@,
            signature: match self.signature {
                Some(s) => Some(s@),
                None => None,
            },
        }
    }
}

/// The bytes of an optional signature: a presence flag, then the string
/// when there is one.
pub open spec fn signature_bytes(signature: Option<Seq<char>>) -> Seq<u8> {
    match signature {
        Some(s) => bool_bytes(true) + string_bytes(s),
        None => bool_bytes(false),
    }
}

/// Decoder of an optional signature.
pub open spec fn parse_signature(bytes: Seq<u8>) -> Parsed<Option<Seq<char>>> {
    match parse_bool(bytes) {
        Err(e) => Err(e),
        Ok((present, b1)) => if present {
            match parse_string(b1, 32767) {
                Err(e) => Err(e),
                Ok((s, b2)) => Ok((Some(s), b2)),
            }
        } else {
            Ok((None, b1))
        },
    }
}

impl Element for Property {
    open spec fn wire(v: PropertyFields) -> Seq<u8> {
        string_bytes(v.name) + string_bytes(v.value) + signature_bytes(v.signature)
    }

    open spec fn parse(bytes: Seq<u8>) -> Parsed<PropertyFields> {
        match parse_string(bytes, 32767) {
            Err(e) => Err(e),
            Ok((name, b1)) => match parse_string(b1, 32767) {
                Err(e) => Err(e),
                Ok((value, b2)) => match parse_signature(b2) {
                    Err(e) => Err(e),
                    Ok((signature, b3)) => Ok((PropertyFields { name, value, signature }, b3)),
                },
            },
        }
    }

    open spec fn encodable(v: PropertyFields) -> bool {
        &&& encode_utf8(v.name).len() <= 32767
        &&& encode_utf8(v.value).len() <= 32767
        &&& v.signature matches Some(s) ==> encode_utf8(s).len() <= 32767
    }

    proof fn lemma_roundtrip(v: PropertyFields, tail: Seq<u8>) {
        let t2 = signature_bytes(v.signature) + tail;
        let t1 = string_bytes(v.value) + t2;
        assert(Self::wire(v) + tail =~= string_bytes(v.name) + t1);
        lemma_string_roundtrip(v.name, 32767, t1);
        lemma_string_roundtrip(v.value, 32767, t2);
        match v.signature {
            Some(s) => {
                let t3 = string_bytes(s) + tail;
                assert(t2 =~= bool_bytes(true) + t3);
                lemma_bool_roundtrip(true, t3);
                lemma_string_roundtrip(s, 32767, tail);
            },
            None => {
                lemma_bool_roundtrip(false, tail);
            },
        }
    }

    proof fn lemma_parsed_encodable(bytes: Seq<u8>) {
        lemma_parse_string_bound(bytes, 32767);
        let b1 = parse_string(bytes, 32767)->Ok_0.1;
        lemma_parse_string_bound(b1, 32767);
        let b2 = parse_string(b1, 32767)->Ok_0.1;
        let present = parse_bool(b2)->Ok_0.0;
        if present {
            lemma_parse_string_bound(parse_bool(b2)->Ok_0.1, 32767);
        }
    }

    fn read_from(reader: &mut Cursor) -> (r: Result<Self>) {
        Property::read(reader)
    }

    fn write_to(&self, writer: &mut Vec<u8>) -> (r: Result<()>) {
        self.write(writer)
    }
}

impl Property {
    /// Reads a property.
    pub fn read(reader: &mut Cursor) -> (r: Result<Self>)
        ensures
            final(reader).follows(*old(reader)),
            decodes(r, final(reader)@, <Property as Element>::parse(old(reader)@)),
    {
        let name = McString::read(reader)?;
        let value = McString::read(reader)?;
        let is_signed = read_bool(reader)?;
        let signature = if is_signed {
            Some(McString::read(reader)?)
        } else {
            None
        };
        Ok(Property { name, value, signature })
    }

    /// Writes a property.
    pub fn write(&self, writer: &mut Vec<u8>) -> (r: Result<()>)
        ensures
            r is Ok <==> <Property as Element>::encodable(self@),
            r is Ok ==> final(writer)@ == old(writer)@ + <Property as Element>::wire(self@),
            r matches Err(e) ==> e.fault() == Some(Fault::Malformed) && old(writer)@.is_prefix_of(
                final(writer)@,
            ),
    {
        self.name.write(writer)?;
        self.value.write(writer)?;
        write_bool(self.signature.is_some(), writer)?;
        if let Some(ref signature) = self.signature {
            signature.write(writer)?;
        }
        assert(writer@ =~= old(writer)@ + <Property as Element>::wire(self@));
        Ok(())
    }
}

/// Login success (clientbound).
#[derive(Debug, Clone)]
pub struct LoginSuccessPacket {
    /// Player UUID.
    pub uuid: McUuid,
    /// Player username.
    pub username: McString,
    /// Player properties.
    pub properties: Vec<Property>,
}

/// The fields of a login success, as mathematics.
pub struct LoginSuccessFields {
    pub uuid: Seq<u8>,
    pub username: Seq<char>,
    pub properties: Seq<PropertyFields>,
}

impl View for LoginSuccessPacket {
    type V = LoginSuccessFields;

    open spec fn view(&self) -> LoginSuccessFields {
        LoginSuccessFields {
            uuid: uuid_bytes(self.uuid),
            username: self.username@,
            properties: views(self.properties@),
        }
    }
}

impl LoginSuccessPacket {
    /// The packet id.
    pub const ID: i32 = 0x02;
}

impl Packet for LoginSuccessPacket {
    open spec fn spec_id() -> i32 {
        0x02
    }

    fn id() -> (v: VarInt) {
        VarInt(0x02)
    }

    open spec fn wire(v: LoginSuccessFields) -> Seq<u8> {
        v.uuid + string_bytes(v.username) + counted_wire::<Property>(v.properties)
    }

    open spec fn parse(bytes: Seq<u8>) -> Parsed<LoginSuccessFields> {
        match parse_raw16(bytes) {
            Err(e) => Err(e),
            Ok((uuid, b1)) => match parse_string(b1, 32767) {
                Err(e) => Err(e),
                Ok((username, b2)) => match parse_counted::<Property>(b2) {
                    Err(e) => Err(e),
                    Ok((properties, b3)) => Ok(
                        (LoginSuccessFields { uuid, username, properties }, b3),
                    ),
                },
            },
        }
    }

    open spec fn encodable(v: LoginSuccessFields) -> bool {
        &&& v.uuid.len() == 16
        &&& encode_utf8(v.username).len() <= 32767
        &&& counted_encodable::<Property>(v.properties)
    }

    proof fn lemma_roundtrip(v: LoginSuccessFields, tail: Seq<u8>) {
        let t2 = counted_wire::<Property>(v.properties) + tail;
        let t1 = string_bytes(v.username) + t2;
        assert(Self::wire(v) + tail =~= v.uuid + t1);
        lemma_raw16_roundtrip(v.uuid, t1);
        lemma_string_roundtrip(v.username, 32767, t2);
        lemma_counted_roundtrip::<Property>(v.properties, tail);
    }

    proof fn lemma_parsed_encodable(bytes: Seq<u8>) {
        lemma_parsed_raw16(bytes);
        let b1 = parse_raw16(bytes)->Ok_0.1;
        lemma_parse_string_bound(b1, 32767);
        let b2 = parse_string(b1, 32767)->Ok_0.1;
        lemma_parsed_counted::<Property>(b2);
    }

    fn read(reader: &mut Cursor) -> (r: Result<Self>) {
        let uuid = read_uuid(reader)?;
        let username = McString::read(reader)?;
        let properties = read_counted::<Property>(reader)?;
        Ok(LoginSuccessPacket { uuid, username, properties })
    }

    fn write(&self, writer: &mut Vec<u8>) -> (r: Result<()>) {
        write_uuid(&self.uuid, writer)?;
        self.username.write(writer)?;
        write_counted::<Property>(&self.properties, writer)?;
        assert(writer@ =~= old(writer)@ + Self::wire(self@));
        Ok(())
    }
}

impl ClientboundPacket for LoginSuccessPacket {

}

/// Set compression (clientbound): every later packet uses the compressed
/// framing.
#[derive(Debug, Clone)]
pub struct SetCompressionPacket {
    /// Compression threshold.
    pub threshold: VarInt,
}

impl View for SetCompressionPacket {
    type V = int;

    open spec fn view(&self) -> int {
        self.threshold@
    }
}

impl SetCompressionPacket {
    /// The packet id.
    pub const ID: i32 = 0x03;
}

impl Packet for SetCompressionPacket {
    open spec fn spec_id() -> i32 {
        0x03
    }

    fn id() -> (v: VarInt) {
        VarInt(0x03)
    }

    open spec fn wire(v: int) -> Seq<u8> {
        varint_bytes(v)
    }

    open spec fn parse(bytes: Seq<u8>) -> Parsed<int> {
        parse_varint(bytes)
    }

    open spec fn encodable(v: int) -> bool {
        -0x8000_0000 <= v < 0x8000_0000
    }

    proof fn lemma_roundtrip(v: int, tail: Seq<u8>) {
        lemma_varint_roundtrip(v, tail);
    }

    proof fn lemma_parsed_encodable(bytes: Seq<u8>) {
        lemma_parse_varint_range(bytes);
    }

    fn read(reader: &mut Cursor) -> (r: Result<Self>) {
        let threshold = VarInt::read(reader)?;
        Ok(SetCompressionPacket { threshold })
    }

    fn write(&self, writer: &mut Vec<u8>) -> (r: Result<()>) {
        self.threshold.write(writer)
    }
}

impl ClientboundPacket for SetCompressionPacket {

}

/// Login acknowledged (serverbound): no fields.
#[derive(Debug, Clone)]
pub struct LoginAcknowledgedPacket;

impl View for LoginAcknowledgedPacket {
    type V = ();

    open spec fn view(&self) -> () {
        ()
    }
}

impl LoginAcknowledgedPacket {
    /// The packet id.
    pub const ID: i32 = 0x03;
}

impl Packet for LoginAcknowledgedPacket {
    open spec fn spec_id() -> i32 {
        0x03
    }

    fn id() -> (v: VarInt) {
        VarInt(0x03)
    }

    open spec fn wire(v: ()) -> Seq<u8> {
        Seq::empty()
    }

    open spec fn parse(bytes: Seq<u8>) -> Parsed<()> {
        Ok(((), bytes))
    }

    open spec fn encodable(v: ()) -> bool {
        true
    }

    proof fn lemma_roundtrip(v: (), tail: Seq<u8>) {
        assert(Self::wire(v) + tail =~= tail);
    }

    proof fn lemma_parsed_encodable(bytes: Seq<u8>) {
    }

    fn read(reader: &mut Cursor) -> (r: Result<Self>) {
        Ok(LoginAcknowledgedPacket)
    }

    fn write(&self, writer: &mut Vec<u8>) -> (r: Result<()>) {
        assert(writer@ =~= old(writer)@ + Self::wire(self@));
        Ok(())
    }
}

impl ServerboundPacket for LoginAcknowledgedPacket {

}

} // verus!
