//! Configuration state: the hand-off between login and play.

use vstd::prelude::*;
use vstd::slice::slice_to_vec;
use vstd::utf8::encode_utf8;

use crate::error::{Fault, Result};
use crate::protocol::cursor::Cursor;
use crate::protocol::list::{
    counted_encodable, counted_wire, lemma_counted_roundtrip, lemma_parsed_counted,
    parse_counted, read_counted, views, write_counted, Element,
};
use crate::protocol::types::VarInt;
use crate::protocol::packets::{ClientboundPacket, Packet, ServerboundPacket};
use crate::protocol::types::{
    protocol_error, read_bool, read_sized, write_bool, write_sized, McString,
};
use crate::protocol::wire::{
    bool_bytes, byte_array_bytes, lemma_byte_array_roundtrip, lemma_bool_roundtrip,
    lemma_parse_byte_array_bound, lemma_parse_string_bound, lemma_string_roundtrip, parse_bool, parse_byte_array,
    parse_string, string_bytes, Parsed,
};

verus! {

/// Finish configuration (clientbound): no fields.
#[derive(Debug, Clone)]
pub struct FinishConfigurationPacket;

impl View for FinishConfigurationPacket {
    type V = ();

    open spec fn view(&self) -> () {
        ()
    }
}

impl FinishConfigurationPacket {
    /// The packet id.
    pub const ID: i32 = 0x03;
}

impl Packet for FinishConfigurationPacket {
    open spec fn spec_id() -> i32 {
        0x03
    }

    fn id() -> (v: VarInt) {
        VarInt(0x03)
    }

    open spec fn wire(v: ()) -> Seq<u8> {
        Seq::empty()
    }

    open spec fn parse(bytes: Seq<u8>) -> Parsed<()> {
        Ok(((), bytes))
    }

    open spec fn encodable(v: ()) -> bool {
        true
    }

    proof fn lemma_roundtrip(v: (), tail: Seq<u8>) {
        assert(Self::wire(v) + tail =~= tail);
    }

    proof fn lemma_parsed_encodable(bytes: Seq<u8>) {
    }

    fn read(reader: &mut Cursor) -> (r: Result<Self>) {
        Ok(FinishConfigurationPacket)
    }

    fn write(&self, writer: &mut Vec<u8>) -> (r: Result<()>) {
        assert(writer@ =~= old(writer)@ + Self::wire(self@));
        Ok(())
    }
}

impl ClientboundPacket for FinishConfigurationPacket {

}

/// Acknowledge finish configuration (serverbound): no fields.
#[derive(Debug, Clone)]
pub struct AcknowledgeFinishConfigurationPacket;

impl View for AcknowledgeFinishConfigurationPacket {
    type V = ();

    open spec fn view(&self) -> () {
        ()
    }
}

impl AcknowledgeFinishConfigurationPacket {
    /// The packet id.
    pub const ID: i32 = 0x02;
}

impl Packet for AcknowledgeFinishConfigurationPacket {
    open spec fn spec_id() -> i32 {
        0x02
    }

    fn id() -> (v: VarInt) {
        VarInt(0x02)
    }

    open spec fn wire(v: ()) -> Seq<u8> {
        Seq::empty()
    }

    open spec fn parse(bytes: Seq<u8>) -> Parsed<()> {
        Ok(((), bytes))
    }

    open spec fn encodable(v: ()) -> bool {
        true
    }

    proof fn lemma_roundtrip(v: (), tail: Seq<u8>) {
        assert(Self::wire(v) + tail =~= tail);
    }

    proof fn lemma_parsed_encodable(bytes: Seq<u8>) {
    }

    fn read(reader: &mut Cursor) -> (r: Result<Self>) {
        Ok(AcknowledgeFinishConfigurationPacket)
    }

    fn write(&self, writer: &mut Vec<u8>) -> (r: Result<()>) {
        assert(writer@ =~= old(writer)@ + Self::wire(self@));
        Ok(())
    }
}

impl ServerboundPacket for AcknowledgeFinishConfigurationPacket {

}

/// One entry of a registry.
#[derive(Debug, Clone)]
pub struct RegistryEntry {
    /// Entry identifier.
    pub entry_id: McString,
    /// Whether the entry has data.
    pub has_data: bool,
    /// Entry data, present exactly when `has_data` is set.
    pub data: Option<Vec<u8>>,
}

/// The fields of a registry entry, as mathematics.
pub struct RegistryEntryFields {
    pub entry_id: Seq<char>,
    pub has_data: bool,
    pub data: Option<Seq<u8>>,
}

impl View for RegistryEntry {
    type V = RegistryEntryFields;

    open spec fn view(&self) -> RegistryEntryFields {
        RegistryEntryFields {
            entry_id: self.entry_id@,
            has_data: self.has_data,
            data: match self.data {
                Some(d) => Some(d@),
                None => None,
            },
        }
    }
}

/// The bytes of optional data: a presence flag, then a byte array when
/// there is one.
pub open spec fn optional_data_bytes(data: Option<Seq<u8>>) -> Seq<u8> {
    match data {
        Some(d) => bool_bytes(true) + byte_array_bytes(d),
        None => bool_bytes(false),
    }
}

/// Decoder of optional data.
pub open spec fn parse_optional_data(bytes: Seq<u8>) -> Parsed<Option<Seq<u8>>> {
    match parse_bool(bytes) {
        Err(e) => Err(e),
        Ok((present, b1)) => if present {
            match parse_byte_array(b1, 0x7fff_ffff) {
                Err(e) => Err(e),
                Ok((d, b2)) => Ok((Some(d), b2)),
            }
        } else {
            Ok((None, b1))
        },
    }
}

/// Optional data whose length fits a VarInt survives encoding followed by
/// decoding, whatever follows it.
pub proof fn lemma_optional_data_roundtrip(data: Option<Seq<u8>>, tail: Seq<u8>)
    requires
        data matches Some(d) ==> d.len() <= 0x7fff_ffff,
    ensures
        parse_optional_data(optional_data_bytes(data) + tail) == Ok::<
            (Option<Seq<u8>>, Seq<u8>),
            Fault,
        >((data, tail)),
{
    match data {
        Some(d) => {
            let t = byte_array_bytes(d) + tail;
            assert(optional_data_bytes(data) + tail =~= bool_bytes(true) + t);
            lemma_bool_roundtrip(true, t);
            lemma_byte_array_roundtrip(d, 0x7fff_ffff, tail);
        },
        None => {
            lemma_bool_roundtrip(false, tail);
        },
    }
}

/// Optional data that the decoder accepts is short enough to be written
/// again.
pub proof fn lemma_parsed_optional_data(bytes: Seq<u8>)
    requires
        parse_optional_data(bytes) is Ok,
    ensures
        parse_optional_data(bytes)->Ok_0.0 matches Some(d) ==> d.len() <= 0x7fff_ffff,
{
    let b1 = parse_bool(bytes)->Ok_0.1;
    if parse_bool(bytes)->Ok_0.0 {
        lemma_parse_byte_array_bound(b1, 0x7fff_ffff);
    }
}

/// Reads optional data: a presence flag, then a byte array when it is set.
pub fn read_optional_data(reader: &mut Cursor) -> (r: Result<Option<Vec<u8>>>)
    ensures
        final(reader).follows(*old(reader)),
        match r {
            Ok(data) => parse_optional_data(old(reader)@) == Ok::<
                (Option<Seq<u8>>, Seq<u8>),
                Fault,
            >((
                match data {
                    Some(d) => Some(d@),
                    None => None,
                },
                final(reader)@,
            )),
            Err(e) => parse_optional_data(old(reader)@) is Err && e.fault() == Some(
                parse_optional_data(old(reader)@)->Err_0,
            ),
        },
{
    let present = read_bool(reader)?;
    if present {
        let bytes = read_sized(reader, 0x7fff_ffff)?;
        Ok(Some(slice_to_vec(bytes)))
    } else {
        Ok(None)
    }
}

/// Writes optional data, or fails when it is longer than a VarInt can
/// announce.
pub fn write_optional_data(data: &Option<Vec<u8>>, writer: &mut Vec<u8>) -> (r: Result<()>)
    ensures
        r is Ok <==> (*data matches Some(d) ==> d@.len() <= 0x7fff_ffff),
        r is Ok ==> final(writer)@ == old(writer)@ + optional_data_bytes(
            match *data {
                Some(d) => Some(d@),
                None => None,
            },
        ),
        r matches Err(e) ==> e.fault() == Some(Fault::Malformed) && old(writer)@.is_prefix_of(
            final(writer)@,
        ),
{
    match data {
        Some(d) => {
            write_bool(true, writer)?;
            write_sized(d.as_slice(), 0x7fff_ffff, writer)?;
            assert(writer@ =~= old(writer)@ + (bool_bytes(true) + byte_array_bytes(d@)));
            Ok(())
        },
        None => write_bool(false, writer),
    }
}

impl Element for RegistryEntry {
    open spec fn wire(v: RegistryEntryFields) -> Seq<u8> {
        string_bytes(v.entry_id) + optional_data_bytes(v.data)
    }

    open spec fn parse(bytes: Seq<u8>) -> Parsed<RegistryEntryFields> {
        match parse_string(bytes, 32767) {
            Err(e) => Err(e),
            Ok((entry_id, b1)) => match parse_optional_data(b1) {
                Err(e) => Err(e),
                Ok((data, b2)) => Ok(
                    (RegistryEntryFields { entry_id, has_data: data is Some, data }, b2),
                ),
            },
        }
    }

    open spec fn encodable(v: RegistryEntryFields) -> bool {
        &&& encode_utf8(v.entry_id).len() <= 32767
        &&& v.has_data == (v.data is Some)
        &&& v.data matches Some(d) ==> d.len() <= 0x7fff_ffff
    }

    proof fn lemma_roundtrip(v: RegistryEntryFields, tail: Seq<u8>) {
        let t1 = optional_data_bytes(v.data) + tail;
        assert(Self::wire(v) + tail =~= string_bytes(v.entry_id) + t1);
        lemma_string_roundtrip(v.entry_id, 32767, t1);
        lemma_optional_data_roundtrip(v.data, tail);
    }

    proof fn lemma_parsed_encodable(bytes: Seq<u8>) {
        lemma_parse_string_bound(bytes, 32767);
        lemma_parsed_optional_data(parse_string(bytes, 32767)->Ok_0.1);
    }

    fn read_from(reader: &mut Cursor) -> (r: Result<Self>) {
        let entry_id = McString::read(reader)?;
        let data = read_optional_data(reader)?;
        let has_data = data.is_some();
        Ok(RegistryEntry { entry_id, has_data, data })
    }

    fn write_to(&self, writer: &mut Vec<u8>) -> (r: Result<()>) {
        if self.has_data != self.data.is_some() {
            return Err(protocol_error("registry entry data does not match its flag"));
        }
        self.entry_id.write(writer)?;
        write_optional_data(&self.data, writer)?;
        assert(writer@ =~= old(writer)@ + Self::wire(self@));
        Ok(())
    }
}

/// Registry data (clientbound): the entries of one registry.
#[derive(Debug, Clone)]
pub struct RegistryDataPacket {
    /// Registry identifier.
    pub registry_id: McString,
    /// Registry entries.
    pub entries: Vec<RegistryEntry>,
}

/// The fields of registry data, as mathematics.
pub struct RegistryDataFields {
    pub registry_id: Seq<char>,
    pub entries: Seq<RegistryEntryFields>,
}

impl View for RegistryDataPacket {
    type V = RegistryDataFields;

    open spec fn view(&self) -> RegistryDataFields {
        RegistryDataFields { registry_id: self.registry_id@, entries: views(self.entries@) }
    }
}

impl RegistryDataPacket {
    /// The packet id.
    pub const ID: i32 = 0x07;
}

impl Packet for RegistryDataPacket {
    open spec fn spec_id() -> i32 {
        0x07
    }

    fn id() -> (v: VarInt) {
        VarInt(0x07)
    }

    open spec fn wire(v: RegistryDataFields) -> Seq<u8> {
        string_bytes(v.registry_id) + counted_wire::<RegistryEntry>(v.entries)
    }

    open spec fn parse(bytes: Seq<u8>) -> Parsed<RegistryDataFields> {
        match parse_string(bytes, 32767) {
            Err(e) => Err(e),
            Ok((registry_id, b1)) => match parse_counted::<RegistryEntry>(b1) {
                Err(e) => Err(e),
                Ok((entries, b2)) => Ok((RegistryDataFields { registry_id, entries }, b2)),
            },
        }
    }

    open spec fn encodable(v: RegistryDataFields) -> bool {
        &&& encode_utf8(v.registry_id).len() <= 32767
        &&& counted_encodable::<RegistryEntry>(v.entries)
    }

    proof fn lemma_roundtrip(v: RegistryDataFields, tail: Seq<u8>) {
        let t1 = counted_wire::<RegistryEntry>(v.entries) + tail;
        assert(Self::wire(v) + tail =~= string_bytes(v.registry_id) + t1);
        lemma_string_roundtrip(v.registry_id, 32767, t1);
        lemma_counted_roundtrip::<RegistryEntry>(v.entries, tail);
    }

    proof fn lemma_parsed_encodable(bytes: Seq<u8>) {
        lemma_parse_string_bound(bytes, 32767);
        let b1 = parse_string(bytes, 32767)->Ok_0.1;
        lemma_parsed_counted::<RegistryEntry>(b1);
    }

    fn read(reader: &mut Cursor) -> (r: Result<Self>) {
        let registry_id = McString::read(reader)?;
        let entries = read_counted::<RegistryEntry>(reader)?;
        Ok(RegistryDataPacket { registry_id, entries })
    }

    fn write(&self, writer: &mut Vec<u8>) -> (r: Result<()>) {
        self.registry_id.write(writer)?;
        write_counted::<RegistryEntry>(&self.entries, writer)?;
        assert(writer@ =~= old(writer)@ + Self::wire(self@));
        Ok(())
    }
}

impl ClientboundPacket for RegistryDataPacket {

}

} // verus!
