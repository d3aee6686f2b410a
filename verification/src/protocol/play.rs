//! Play packets of the byte-level protocol.

use vstd::prelude::*;
use vstd::slice::slice_to_vec;
use vstd::utf8::{decode_utf8, valid_utf8};

use crate::error::{ErrorKind, Fault, IoResult};
use crate::protocol::cursor::Cursor;
use crate::protocol::packet::Packet;
use crate::protocol::types::string_from_utf8;
use crate::protocol::varint::VarInt;
use crate::protocol::wire::{
    bool_bytes, i32_bytes, i64_bytes, i8_bytes, parse_varint, string_bytes, u8_bytes,
    varint_bytes, Parsed,
};

verus! {

/// Client information (serverbound, packet id 0x00).
#[derive(Debug)]
pub struct ClientInformation {
    /// Client locale, such as "en_us".
    pub locale: String,
    /// View distance in chunks.
    pub view_distance: u8,
    /// Chat mode: 0 enabled, 1 commands only, 2 hidden.
    pub chat_mode: VarInt,
    /// Whether chat colors are enabled.
    pub chat_colors: bool,
    /// Displayed skin parts, as a bit mask.
    pub displayed_skin_parts: u8,
    /// Main hand: 0 left, 1 right.
    pub main_hand: VarInt,
    /// Whether text filtering is enabled.
    pub enable_text_filtering: bool,
    /// Whether the player may appear in server listings.
    pub allow_server_listings: bool,
}

/// What a lenient reader makes of a length-prefixed text at the start of
/// `bytes`: the text and the bytes after it. A length that cannot be read
/// or is zero gives the fallback and leaves what follows the length. A
/// length above `limit` gives the fallback as well. Text that is cut short
/// gives the fallback and leaves nothing. Text that is not UTF-8 gives the
/// fallback and is passed over.
pub open spec fn lenient_text(bytes: Seq<u8>, limit: nat, fallback: Seq<char>) -> (
    Seq<char>,
    Seq<u8>,
) {
    match parse_varint(bytes) {
        Err(Fault::Truncated) => (fallback, Seq::empty()),
        Err(Fault::Malformed) => (fallback, bytes.skip(5)),
        Ok((length, rest)) => if length <= 0 || length > limit {
            (fallback, rest)
        } else if rest.len() < length {
            (fallback, Seq::empty())
        } else if valid_utf8(rest.take(length)) {
            (decode_utf8(rest.take(length)), rest.skip(length))
        } else {
            (fallback, rest.skip(length))
        },
    }
}

/// What a lenient reader makes of a VarInt at the start of `bytes`: the
/// number, or the fallback when none can be read, and the bytes after it.
pub open spec fn lenient_varint(bytes: Seq<u8>, fallback: int) -> (int, Seq<u8>) {
    match parse_varint(bytes) {
        Err(Fault::Truncated) => (fallback, Seq::empty()),
        Err(Fault::Malformed) => (fallback, bytes.skip(5)),
        Ok((value, rest)) => (value, rest),
    }
}

/// What a lenient reader makes of one byte at the start of `bytes`: the
/// byte, or the fallback when there is none, and the bytes after it.
pub open spec fn lenient_byte(bytes: Seq<u8>, fallback: u8) -> (u8, Seq<u8>) {
    if bytes.len() == 0 {
        (fallback, bytes)
    } else {
        (bytes[0], bytes.skip(1))
    }
}

/// Reads a VarInt leniently.
fn read_lenient_varint(reader: &mut Cursor, fallback: i32) -> (r: VarInt)
    ensures
        final(reader).follows(*old(reader)),
        (r@, final(reader)@) == lenient_varint(old(reader)@, fallback as int),
{
    let ghost before = reader@;
    let start = reader.offset();
    let available = reader.remaining();
    match VarInt::read(reader) {
        Ok(v) => v,
        Err(_) => {
            proof {
                crate::protocol::wire::lemma_parse_varint_fault(before);
            }
            let skip = if available < 5 {
                available
            } else {
                5
            };
            let _ = reader.seek(start + skip);
            assert(old(reader).buffer().skip(start + skip) =~= before.skip(skip as int));
            assert(reader@ =~= lenient_varint(before, fallback as int).1);
            VarInt(fallback)
        },
    }
}

/// Reads one byte leniently.
fn read_lenient_byte(reader: &mut Cursor, fallback: u8) -> (r: u8)
    ensures
        final(reader).follows(*old(reader)),
        (r, final(reader)@) == lenient_byte(old(reader)@, fallback),
{
    match reader.read_byte() {
        Some(b) => b,
        None => fallback,
    }
}

/// Reads a length-prefixed text leniently.
fn read_lenient_text(reader: &mut Cursor, limit: usize, fallback: &str) -> (r: String)
    ensures
        final(reader).follows(*old(reader)),
        (r@, final(reader)@) == lenient_text(old(reader)@, limit as nat, fallback@),
{
    let ghost before = reader@;
    let start = reader.offset();
    let available = reader.remaining();
    match VarInt::read(reader) {
        Err(_) => {
            proof {
                crate::protocol::wire::lemma_parse_varint_fault(before);
            }
            let skip = if available < 5 {
                available
            } else {
                5
            };
            let _ = reader.seek(start + skip);
            assert(old(reader).buffer().skip(start + skip) =~= before.skip(skip as int));
            assert(reader@ =~= lenient_text(before, limit as nat, fallback@).1);
            fallback.to_string()
        },
        Ok(length) => {
            if length.0 <= 0 || length.0 as usize > limit {
                return fallback.to_string();
            }
            match reader.take(length.0 as usize) {
                None => {
                    let left = reader.remaining();
                    let _ = reader.take(left);
                    assert(reader@ =~= Seq::<u8>::empty());
                    fallback.to_string()
                },
                Some(bytes) => match string_from_utf8(slice_to_vec(bytes)) {
                    Some(s) => {
                        proof {
                            vstd::utf8::encode_utf8_decode_utf8(s@);
                        }
                        s
                    },
                    None => fallback.to_string(),
                },
            }
        },
    }
}

/// The fields that a lenient reader makes of the bytes of a client
/// information packet. Whatever is missing takes its default: the locale
/// `en_us`, view distance 10, chat mode 0, main hand 1, and false or zero
/// for the rest.
pub open spec fn lenient_client_information(data: Seq<u8>) -> (
    Seq<char>,
    u8,
    int,
    bool,
    u8,
    int,
    bool,
    bool,
) {
    let (locale, b1) = lenient_text(data, data.len(), "en_us"@);
    let (view_distance, b2) = lenient_byte(b1, 10);
    let (chat_mode, b3) = lenient_varint(b2, 0);
    let (chat_colors, b4) = lenient_byte(b3, 0);
    let (displayed_skin_parts, b5) = lenient_byte(b4, 0);
    let (main_hand, b6) = lenient_varint(b5, 1);
    let (enable_text_filtering, b7) = lenient_byte(b6, 0);
    let (allow_server_listings, b8) = lenient_byte(b7, 0);
    (
        locale,
        view_distance,
        chat_mode,
        chat_colors != 0,
        displayed_skin_parts,
        main_hand,
        enable_text_filtering != 0,
        allow_server_listings != 0,
    )
}

impl ClientInformation {
    /// The fields of the packet, as mathematics.
    pub open spec fn fields(&self) -> (Seq<char>, u8, int, bool, u8, int, bool, bool) {
        (
            self.locale@,
            self.view_distance,
            self.chat_mode@,
            self.chat_colors,
            self.displayed_skin_parts,
            self.main_hand@,
            self.enable_text_filtering,
            self.allow_server_listings,
        )
    }

    /// Parses client information from the field bytes of a packet. Empty
    /// data is refused; anything else is read leniently, with defaults for
    /// whatever is missing.
    pub fn from_packet_data(data: &[u8]) -> (r: IoResult<Self>)
        ensures
            r is Ok <==> data@.len() > 0,
            r matches Ok(p) ==> p.fields() == lenient_client_information(data@),
            r matches Err(kind) ==> kind == ErrorKind::InvalidData,
    {
        if data.len() == 0 {
            return Err(ErrorKind::InvalidData);
        }
        let mut cursor = Cursor::new(data);
        let locale = read_lenient_text(&mut cursor, data.len(), "en_us");
        let view_distance = read_lenient_byte(&mut cursor, 10);
        let chat_mode = read_lenient_varint(&mut cursor, 0);
        let chat_colors = read_lenient_byte(&mut cursor, 0) != 0;
        let displayed_skin_parts = read_lenient_byte(&mut cursor, 0);
        let main_hand = read_lenient_varint(&mut cursor, 1);
        let enable_text_filtering = read_lenient_byte(&mut cursor, 0) != 0;
        let allow_server_listings = read_lenient_byte(&mut cursor, 0) != 0;
        Ok(
            ClientInformation {
                locale,
                view_distance,
                chat_mode,
                chat_colors,
                displayed_skin_parts,
                main_hand,
                enable_text_filtering,
                allow_server_listings,
            },
        )
    }
}

/// Plugin message (serverbound, packet id 0x02).
#[derive(Debug)]
pub struct PluginMessage {
    /// Channel identifier.
    pub channel: String,
    /// Message data.
    pub data: Vec<u8>,
}

impl PluginMessage {
    /// Parses a plugin message from the field bytes of a packet. Empty
    /// data is refused; otherwise the channel is read leniently, `unknown`
    /// standing for a channel that cannot be read, and the rest is the
    /// message.
    pub fn from_packet_data(data: &[u8]) -> (r: IoResult<Self>)
        ensures
            r is Ok <==> data@.len() > 0,
            r matches Ok(p) ==> (p.channel@, p.data@) == lenient_text(
                data@,
                data@.len(),
                "unknown"@,
            ),
            r matches Err(kind) ==> kind == ErrorKind::InvalidData,
    {
        if data.len() == 0 {
            return Err(ErrorKind::InvalidData);
        }
        let mut cursor = Cursor::new(data);
        let channel = read_lenient_text(&mut cursor, data.len(), "unknown");
        let remaining_data = slice_to_vec(cursor.rest());
        Ok(PluginMessage { channel, data: remaining_data })
    }
}

/// Command suggestions request (serverbound, packet id 0x03).
#[derive(Debug)]
pub struct CommandSuggestionsRequest {
    /// Transaction id.
    pub transaction_id: VarInt,
    /// Command text.
    pub text: String,
}

impl CommandSuggestionsRequest {
    /// Parses a command suggestions request from the field bytes of a
    /// packet, leniently: a transaction id that cannot be read gives the
    /// request with id 0 and no text, and a text that cannot be read
    /// gives no text.
    pub fn from_packet_data(data: &[u8]) -> (r: IoResult<Self>)
        ensures
            r matches Ok(p) && match parse_varint(data@) {
                Err(_) => p.transaction_id@ == 0 && p.text@ == Seq::<char>::empty(),
                Ok((id, rest)) => p.transaction_id@ == id && p.text@ == lenient_text(
                    rest,
                    0x7fff_ffff,
                    Seq::<char>::empty(),
                ).0,
            },
    {
        proof {
            reveal_strlit("");
        }
        let mut cursor = Cursor::new(data);
        let transaction_id = match VarInt::read(&mut cursor) {
            Ok(id) => id,
            Err(_) => {
                return Ok(CommandSuggestionsRequest { transaction_id: VarInt(0), text: String::new() });
            },
        };
        let text = read_lenient_text(&mut cursor, 0x7fff_ffff, "");
        Ok(CommandSuggestionsRequest { transaction_id, text })
    }
}

/// Join game (clientbound, packet id 0x29).
#[derive(Debug)]
pub struct JoinGame {
    /// Entity id of the player.
    pub entity_id: i32,
    /// Whether hardcore mode is enabled.
    pub is_hardcore: bool,
    /// Dimension names.
    pub dimension_names: Vec<String>,
    /// Max players.
    pub max_players: VarInt,
    /// View distance.
    pub view_distance: VarInt,
    /// Simulation distance.
    pub simulation_distance: VarInt,
    /// Reduced debug info.
    pub reduced_debug_info: bool,
    /// Enable respawn screen.
    pub enable_respawn_screen: bool,
    /// Do limited crafting.
    pub do_limited_crafting: bool,
    /// Dimension type.
    pub dimension_type: String,
    /// Dimension name.
    pub dimension_name: String,
    /// Hashed seed.
    pub hashed_seed: i64,
    /// Game mode.
    pub game_mode: u8,
    /// Previous game mode.
    pub previous_game_mode: i8,
    /// Is debug.
    pub is_debug: bool,
    /// Is flat.
    pub is_flat: bool,
    /// Death location: dimension and packed position.
    pub death_location: Option<(String, i64)>,
    /// Portal cooldown.
    pub portal_cooldown: VarInt,
}

/// The bytes of a list of strings, one after another.
pub open spec fn names_bytes(names: Seq<String>) -> Seq<u8>
    decreases names.len(),
{
    if names.len() == 0 {
        Seq::empty()
    } else {
        names_bytes(names.drop_last()) + string_bytes(names.last()@)
    }
}

/// Whether a text is short enough for the length field of a string.
pub open spec fn fits_length_field(text: Seq<char>) -> bool {
    vstd::utf8::encode_utf8(text).len() <= 0x7fff_ffff
}

impl JoinGame {
    /// Whether the fields up to the dimension names can be written.
    pub open spec fn head_writable(&self) -> bool {
        &&& self.dimension_names@.len() <= 0x7fff_ffff
        &&& forall|i: int|
            0 <= i < self.dimension_names@.len() ==> fits_length_field(
                (#[trigger] self.dimension_names@[i])@,
            )
    }

    /// Whether the fields from the player limit to the dimension name can
    /// be written.
    pub open spec fn middle_writable(&self) -> bool {
        fits_length_field(self.dimension_type@) && fits_length_field(self.dimension_name@)
    }

    /// Whether the fields from the seed hash on can be written.
    pub open spec fn tail_writable(&self) -> bool {
        self.death_location matches Some((dimension, _)) ==> fits_length_field(dimension@)
    }

    /// The bytes of the fields up to the dimension names.
    pub open spec fn head_bytes(&self) -> Seq<u8> {
        i32_bytes(self.entity_id) + bool_bytes(self.is_hardcore) + varint_bytes(
            self.dimension_names@.len() as int,
        ) + names_bytes(self.dimension_names@)
    }

    /// The bytes of the fields from the player limit to the dimension name.
    pub open spec fn middle_bytes(&self) -> Seq<u8> {
        varint_bytes(self.max_players@) + varint_bytes(self.view_distance@) + varint_bytes(
            self.simulation_distance@,
        ) + bool_bytes(self.reduced_debug_info) + bool_bytes(self.enable_respawn_screen)
            + bool_bytes(self.do_limited_crafting) + string_bytes(self.dimension_type@)
            + string_bytes(self.dimension_name@)
    }

    /// The bytes of the fields from the seed hash on.
    pub open spec fn tail_bytes(&self) -> Seq<u8> {
        i64_bytes(self.hashed_seed) + u8_bytes(self.game_mode) + i8_bytes(self.previous_game_mode)
            + bool_bytes(self.is_debug) + bool_bytes(self.is_flat) + match self.death_location {
            Some((dimension, position)) => bool_bytes(true) + string_bytes(dimension@) + i64_bytes(
                position,
            ),
            None => bool_bytes(false),
        } + varint_bytes(self.portal_cooldown@)
    }

    /// A join game packet for a creative, flat overworld.
    pub fn new() -> (p: Self)
        ensures
            p.entity_id == 1,
            !p.is_hardcore,
            p.dimension_names@.len() == 1 && p.dimension_names@[0]@ == "minecraft:overworld"@,
            p.max_players@ == 20,
            p.view_distance@ == 10,
            p.simulation_distance@ == 10,
            !p.reduced_debug_info,
            p.enable_respawn_screen,
            !p.do_limited_crafting,
            p.dimension_type@ == "minecraft:overworld"@,
            p.dimension_name@ == "minecraft:overworld"@,
            p.hashed_seed == 0,
            p.game_mode == 1,
            p.previous_game_mode == -1,
            !p.is_debug,
            p.is_flat,
            p.death_location is None,
            p.portal_cooldown@ == 0,
    {
        let mut dimension_names: Vec<String> = Vec::new();
        dimension_names.push("minecraft:overworld".to_string());
        Self {
            entity_id: 1,
            is_hardcore: false,
            dimension_names,
            max_players: VarInt(20),
            view_distance: VarInt(10),
            simulation_distance: VarInt(10),
            reduced_debug_info: false,
            enable_respawn_screen: true,
            do_limited_crafting: false,
            dimension_type: "minecraft:overworld".to_string(),
            dimension_name: "minecraft:overworld".to_string(),
            hashed_seed: 0,
            game_mode: 1,
            previous_game_mode: -1,
            is_debug: false,
            is_flat: true,
            death_location: None,
            portal_cooldown: VarInt(0),
        }
    }

    /// Writes the fields up to the dimension names.
    fn write_head(&self, writer: &mut Vec<u8>) -> (r: IoResult<()>)
        ensures
            r is Ok <==> self.head_writable(),
            r is Ok ==> final(writer)@ == old(writer)@ + self.head_bytes(),
            r matches Err(kind) ==> kind == ErrorKind::InvalidData && old(writer)@.is_prefix_of(
                final(writer)@,
            ),
    {
        if self.dimension_names.len() > 0x7fff_ffff {
            return Err(ErrorKind::InvalidData);
        }
        let _ = crate::protocol::types::write_int(self.entity_id, writer);
        let _ = crate::protocol::types::write_bool(self.is_hardcore, writer);
        let _ = VarInt(self.dimension_names.len() as i32).write(writer);
        let ghost start = writer@;
        assert(start =~= old(writer)@ + (i32_bytes(self.entity_id) + bool_bytes(self.is_hardcore)
            + varint_bytes(self.dimension_names@.len() as int)));
        let mut i: usize = 0;
        assert(self.dimension_names@.take(0) =~= Seq::<String>::empty());
        while i < self.dimension_names.len()
            invariant
                i <= self.dimension_names@.len(),
                old(writer)@.is_prefix_of(writer@),
                old(writer)@.is_prefix_of(start),
                writer@ == start + names_bytes(self.dimension_names@.take(i as int)),
                forall|j: int|
                    0 <= j < i ==> fits_length_field((#[trigger] self.dimension_names@[j])@),
            decreases self.dimension_names@.len() - i,
        {
            let ghost before = writer@;
            match crate::protocol::types::write_text(
                self.dimension_names[i].as_str(),
                0x7fff_ffff,
                writer,
            ) {
                Ok(()) => {},
                Err(e) => {
                    return Err(e.kind());
                },
            }
            assert(self.dimension_names@.take(i + 1).drop_last() =~= self.dimension_names@.take(
                i as int,
            ));
            assert(writer@ =~= start + names_bytes(self.dimension_names@.take(i + 1)));
            i = i + 1;
        }
        assert(self.dimension_names@.take(i as int) =~= self.dimension_names@);
        assert(writer@ =~= old(writer)@ + self.head_bytes());
        Ok(())
    }

    /// Writes the fields from the player limit to the dimension name.
    fn write_middle(&self, writer: &mut Vec<u8>) -> (r: IoResult<()>)
        ensures
            r is Ok <==> self.middle_writable(),
            r is Ok ==> final(writer)@ == old(writer)@ + self.middle_bytes(),
            r matches Err(kind) ==> kind == ErrorKind::InvalidData && old(writer)@.is_prefix_of(
                final(writer)@,
            ),
    {
        let _ = self.max_players.write(writer);
        let _ = self.view_distance.write(writer);
        let _ = self.simulation_distance.write(writer);
        let _ = crate::protocol::types::write_bool(self.reduced_debug_info, writer);
        let ghost half = writer@;
        assert(half =~= old(writer)@ + (varint_bytes(self.max_players@) + varint_bytes(
            self.view_distance@,
        ) + varint_bytes(self.simulation_distance@) + bool_bytes(self.reduced_debug_info)));
        let _ = crate::protocol::types::write_bool(self.enable_respawn_screen, writer);
        let _ = crate::protocol::types::write_bool(self.do_limited_crafting, writer);
        match crate::protocol::types::write_text(self.dimension_type.as_str(), 0x7fff_ffff, writer) {
            Ok(()) => {},
            Err(e) => {
                return Err(e.kind());
            },
        }
        match crate::protocol::types::write_text(self.dimension_name.as_str(), 0x7fff_ffff, writer) {
            Ok(()) => {},
            Err(e) => {
                return Err(e.kind());
            },
        }
        assert(writer@ =~= half + (bool_bytes(self.enable_respawn_screen) + bool_bytes(
            self.do_limited_crafting,
        ) + string_bytes(self.dimension_type@) + string_bytes(self.dimension_name@)));
        assert(writer@ =~= old(writer)@ + self.middle_bytes());
        Ok(())
    }

    /// Writes the fields from the seed hash on.
    fn write_tail(&self, writer: &mut Vec<u8>) -> (r: IoResult<()>)
        ensures
            r is Ok <==> self.tail_writable(),
            r is Ok ==> final(writer)@ == old(writer)@ + self.tail_bytes(),
            r matches Err(kind) ==> kind == ErrorKind::InvalidData && old(writer)@.is_prefix_of(
                final(writer)@,
            ),
    {
        let _ = crate::protocol::types::write_long(self.hashed_seed, writer);
        let _ = crate::protocol::types::write_unsigned_byte(self.game_mode, writer);
        let _ = crate::protocol::types::write_byte(self.previous_game_mode, writer);
        let _ = crate::protocol::types::write_bool(self.is_debug, writer);
        let _ = crate::protocol::types::write_bool(self.is_flat, writer);
        let ghost half = writer@;
        assert(half =~= old(writer)@ + (i64_bytes(self.hashed_seed) + u8_bytes(self.game_mode)
            + i8_bytes(self.previous_game_mode) + bool_bytes(self.is_debug) + bool_bytes(
            self.is_flat,
        )));
        match &self.death_location {
            Some((dimension, position)) => {
                let _ = crate::protocol::types::write_bool(true, writer);
                match crate::protocol::types::write_text(dimension.as_str(), 0x7fff_ffff, writer) {
                    Ok(()) => {},
                    Err(e) => {
                        return Err(e.kind());
                    },
                }
                let _ = crate::protocol::types::write_long(*position, writer);
                assert(writer@ =~= half + (bool_bytes(true) + string_bytes(dimension@) + i64_bytes(
                    *position,
                )));
            },
            None => {
                let _ = crate::protocol::types::write_bool(false, writer);
            },
        }
        let _ = self.portal_cooldown.write(writer);
        assert(writer@ =~= old(writer)@ + self.tail_bytes());
        Ok(())
    }
}

impl View for JoinGame {
    type V = Seq<u8>;

    /// The bytes of the fields.
    open spec fn view(&self) -> Seq<u8> {
        self.head_bytes() + self.middle_bytes() + self.tail_bytes()
    }
}

impl Packet for JoinGame {
    open spec fn writable(&self) -> bool {
        self.head_writable() && self.middle_writable() && self.tail_writable()
    }

    open spec fn spec_packet_id() -> i32 {
        0x29
    }

    open spec fn parse_data(bytes: Seq<u8>) -> Parsed<Seq<u8>> {
        Err(Fault::Malformed)
    }

    open spec fn data_bytes(&self) -> Seq<u8> {
        self@
    }

    fn packet_id() -> (id: i32) {
        0x29
    }

    fn write_data(&self, writer: &mut Vec<u8>) -> (r: IoResult<()>) {
        self.write_head(writer)?;
        self.write_middle(writer)?;
        self.write_tail(writer)?;
        assert(writer@ =~= old(writer)@ + self.data_bytes());
        Ok(())
    }

    /// The server never reads this packet: reading is refused.
    fn read_data(reader: &mut Cursor) -> (r: IoResult<Self>) {
        Err(ErrorKind::InvalidData)
    }
}

} // verus!
