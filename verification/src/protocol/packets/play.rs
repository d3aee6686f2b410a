//! Play state: the packets of a running game session.

use vstd::prelude::*;
use vstd::slice::slice_to_vec;
use vstd::utf8::{encode_utf8, is_ascii_chars, is_ascii_chars_encode_utf8};

use crate::config::ServerConfig;
use crate::error::{Fault, Result};
use crate::protocol::cursor::Cursor;
use crate::protocol::list::{
    counted_encodable, counted_wire, lemma_counted_roundtrip, lemma_parsed_counted, list_wire,
    parse_counted, read_counted, views, write_counted,
};
use crate::protocol::packets::configuration::{
    lemma_optional_data_roundtrip, lemma_parsed_optional_data, optional_data_bytes, parse_optional_data, read_optional_data,
    write_optional_data,
};
use crate::protocol::packets::{ClientboundPacket, Packet, ServerboundPacket};
use crate::protocol::types::{
    lemma_parsed_position_fits, lemma_position_roundtrip, parse_position, position_bytes,
    protocol_error, read_bool, read_byte, read_int, read_long, read_sized, read_unsigned_byte,
    read_unsigned_long, wrap_to_i32, write_bool, write_byte, write_int, write_long, write_sized,
    write_unsigned_byte, write_unsigned_long, McString, Position, VarInt,
};
use crate::protocol::wire::{
    bool_bytes, byte_array_bytes, i32_bytes, i64_bytes, i8_bytes, lemma_be_bytes_len,
    lemma_byte_array_roundtrip, lemma_parse_byte_array_bound, lemma_varint_len,
    lemma_bool_roundtrip, lemma_i32_roundtrip, lemma_i64_roundtrip, lemma_i8_roundtrip,
    lemma_u64_roundtrip, lemma_u8_roundtrip, lemma_parse_string_bound, lemma_parse_varint_range,
    lemma_string_roundtrip, lemma_varint_roundtrip, parse_bool, parse_byte_array, parse_i32,
    parse_i64, parse_i8, parse_string, parse_u64, parse_u8, parse_varint, signed32,
    string_bytes, u64_bytes, u8_bytes, varint_bytes, Parsed,
};

verus! {

/// Keep alive (both directions; this is the clientbound id, the
/// serverbound one is 0x18).
#[derive(Debug, Clone)]
pub struct KeepAlivePacket {
    /// Keep alive id.
    pub keep_alive_id: i64,
}

impl KeepAlivePacket {
    /// The id of the packet when the client sends it.
    pub const SERVERBOUND_ID: i32 = 0x18;
}

impl View for KeepAlivePacket {
    type V = i64;

    open spec fn view(&self) -> i64 {
        self.keep_alive_id
    }
}

impl KeepAlivePacket {
    /// The packet id.
    pub const ID: i32 = 0x26;
}

impl Packet for KeepAlivePacket {
    open spec fn spec_id() -> i32 {
        0x26
    }

    fn id() -> (v: VarInt) {
        VarInt(0x26)
    }

    open spec fn wire(v: i64) -> Seq<u8> {
        i64_bytes(v)
    }

    open spec fn parse(bytes: Seq<u8>) -> Parsed<i64> {
        parse_i64(bytes)
    }

    open spec fn encodable(v: i64) -> bool {
        true
    }

    proof fn lemma_roundtrip(v: i64, tail: Seq<u8>) {
        lemma_i64_roundtrip(v, tail);
    }

    proof fn lemma_parsed_encodable(bytes: Seq<u8>) {
    }

    fn read(reader: &mut Cursor) -> (r: Result<Self>) {
        let keep_alive_id = read_long(reader)?;
        Ok(KeepAlivePacket { keep_alive_id })
    }

    fn write(&self, writer: &mut Vec<u8>) -> (r: Result<()>) {
        write_long(self.keep_alive_id, writer)
    }
}

impl ClientboundPacket for KeepAlivePacket {

}

impl ServerboundPacket for KeepAlivePacket {

}

/// Disconnect (clientbound).
#[derive(Debug, Clone)]
pub struct DisconnectPacket {
    /// Disconnect reason (JSON chat component).
    pub reason: McString,
}

impl View for DisconnectPacket {
    type V = Seq<char>;

    open spec fn view(&self) -> Seq<char> {
        self.reason@
    }
}

impl DisconnectPacket {
    /// The packet id.
    pub const ID: i32 = 0x1D;
}

impl Packet for DisconnectPacket {
    open spec fn spec_id() -> i32 {
        0x1D
    }

    fn id() -> (v: VarInt) {
        VarInt(0x1D)
    }

    open spec fn wire(v: Seq<char>) -> Seq<u8> {
        string_bytes(v)
    }

    open spec fn parse(bytes: Seq<u8>) -> Parsed<Seq<char>> {
        parse_string(bytes, 32767)
    }

    open spec fn encodable(v: Seq<char>) -> bool {
        encode_utf8(v).len() <= 32767
    }

    proof fn lemma_roundtrip(v: Seq<char>, tail: Seq<u8>) {
        lemma_string_roundtrip(v, 32767, tail);
    }

    proof fn lemma_parsed_encodable(bytes: Seq<u8>) {
        lemma_parse_string_bound(bytes, 32767);
    }

    fn read(reader: &mut Cursor) -> (r: Result<Self>) {
        let reason = McString::read(reader)?;
        Ok(DisconnectPacket { reason })
    }

    fn write(&self, writer: &mut Vec<u8>) -> (r: Result<()>) {
        self.reason.write(writer)
    }
}

impl ClientboundPacket for DisconnectPacket {

}

/// Chat message (serverbound).
#[derive(Debug, Clone)]
pub struct ChatMessagePacket {
    /// Message content.
    pub message: McString,
    /// Timestamp.
    pub timestamp: i64,
    /// Salt for message signing.
    pub salt: i64,
    /// Optional signature.
    pub signature: Option<Vec<u8>>,
    /// Message count.
    pub message_count: VarInt,
    /// Acknowledged messages.
    pub acknowledged: Vec<u8>,
}

/// The fields of a chat message, as mathematics.
pub struct ChatMessageFields {
    pub message: Seq<char>,
    pub timestamp: i64,
    pub salt: i64,
    pub signature: Option<Seq<u8>>,
    pub message_count: int,
    pub acknowledged: Seq<u8>,
}

impl View for ChatMessagePacket {
    type V = ChatMessageFields;

    open spec fn view(&self) -> ChatMessageFields {
        ChatMessageFields {
            message: self.message@,
            timestamp: self.timestamp,
            salt: self.salt,
            signature: match self.signature {
                Some(s) => Some(s@),
                None => None,
            },
            message_count: self.message_count@,
            acknowledged: self.acknowledged@,
        }
    }
}

impl ChatMessagePacket {
    /// The packet id.
    pub const ID: i32 = 0x06;
}

impl Packet for ChatMessagePacket {
    open spec fn spec_id() -> i32 {
        0x06
    }

    fn id() -> (v: VarInt) {
        VarInt(0x06)
    }

    open spec fn wire(v: ChatMessageFields) -> Seq<u8> {
        string_bytes(v.message) + i64_bytes(v.timestamp) + i64_bytes(v.salt)
            + optional_data_bytes(v.signature) + varint_bytes(v.message_count)
            + byte_array_bytes(v.acknowledged)
    }

    open spec fn parse(bytes: Seq<u8>) -> Parsed<ChatMessageFields> {
        match parse_string(bytes, 32767) {
            Err(e) => Err(e),
            Ok((message, b1)) => match parse_i64(b1) {
                Err(e) => Err(e),
                Ok((timestamp, b2)) => match parse_i64(b2) {
                    Err(e) => Err(e),
                    Ok((salt, b3)) => match parse_optional_data(b3) {
                        Err(e) => Err(e),
                        Ok((signature, b4)) => match parse_varint(b4) {
                            Err(e) => Err(e),
                            Ok((message_count, b5)) => match parse_byte_array(b5, 0x7fff_ffff) {
                                Err(e) => Err(e),
                                Ok((acknowledged, b6)) => Ok(
                                    (
                                        ChatMessageFields {
                                            message,
                                            timestamp,
                                            salt,
                                            signature,
                                            message_count,
                                            acknowledged,
                                        },
                                        b6,
                                    ),
                                ),
                            },
                        },
                    },
                },
            },
        }
    }

    open spec fn encodable(v: ChatMessageFields) -> bool {
        &&& encode_utf8(v.message).len() <= 32767
        &&& v.signature matches Some(s) ==> s.len() <= 0x7fff_ffff
        &&& -0x8000_0000 <= v.message_count < 0x8000_0000
        &&& v.acknowledged.len() <= 0x7fff_ffff
    }

    proof fn lemma_roundtrip(v: ChatMessageFields, tail: Seq<u8>) {
        let t5 = byte_array_bytes(v.acknowledged) + tail;
        let t4 = varint_bytes(v.message_count) + t5;
        let t3 = optional_data_bytes(v.signature) + t4;
        let t2 = i64_bytes(v.salt) + t3;
        let t1 = i64_bytes(v.timestamp) + t2;
        assert(Self::wire(v) + tail =~= string_bytes(v.message) + t1);
        lemma_string_roundtrip(v.message, 32767, t1);
        lemma_i64_roundtrip(v.timestamp, t2);
        lemma_i64_roundtrip(v.salt, t3);
        lemma_optional_data_roundtrip(v.signature, t4);
        lemma_varint_roundtrip(v.message_count, t5);
        lemma_byte_array_roundtrip(v.acknowledged, 0x7fff_ffff, tail);
    }

    proof fn lemma_parsed_encodable(bytes: Seq<u8>) {
        lemma_parse_string_bound(bytes, 32767);
        let b1 = parse_string(bytes, 32767)->Ok_0.1;
        let b2 = parse_i64(b1)->Ok_0.1;
        let b3 = parse_i64(b2)->Ok_0.1;
        lemma_parsed_optional_data(b3);
        let b4 = parse_optional_data(b3)->Ok_0.1;
        lemma_parse_varint_range(b4);
        lemma_parse_byte_array_bound(parse_varint(b4)->Ok_0.1, 0x7fff_ffff);
    }

    fn read(reader: &mut Cursor) -> (r: Result<Self>) {
        let message = McString::read(reader)?;
        let timestamp = read_long(reader)?;
        let salt = read_long(reader)?;
        let signature = read_optional_data(reader)?;
        let message_count = VarInt::read(reader)?;
        let acknowledged = slice_to_vec(read_sized(reader, 0x7fff_ffff)?);
        Ok(ChatMessagePacket { message, timestamp, salt, signature, message_count, acknowledged })
    }

    fn write(&self, writer: &mut Vec<u8>) -> (r: Result<()>) {
        self.message.write(writer)?;
        write_long(self.timestamp, writer)?;
        write_long(self.salt, writer)?;
        write_optional_data(&self.signature, writer)?;
        self.message_count.write(writer)?;
        write_sized(self.acknowledged.as_slice(), 0x7fff_ffff, writer)?;
        assert(writer@ =~= old(writer)@ + Self::wire(self@));
        Ok(())
    }
}

impl ServerboundPacket for ChatMessagePacket {

}

/// Player position (serverbound). Each coordinate is carried as the 64 bits
/// of an IEEE 754 double, which this codec moves without interpreting them.
#[derive(Debug, Clone)]
pub struct PlayerPositionPacket {
    /// Bits of the X coordinate.
    pub x: u64,
    /// Bits of the Y coordinate.
    pub y: u64,
    /// Bits of the Z coordinate.
    pub z: u64,
    /// Whether the player is on the ground.
    pub on_ground: bool,
}

/// The fields of a player position, as mathematics.
pub struct PlayerPositionFields {
    pub x: u64,
    pub y: u64,
    pub z: u64,
    pub on_ground: bool,
}

impl View for PlayerPositionPacket {
    type V = PlayerPositionFields;

    open spec fn view(&self) -> PlayerPositionFields {
        PlayerPositionFields { x: self.x, y: self.y, z: self.z, on_ground: self.on_ground }
    }
}

impl PlayerPositionPacket {
    /// The packet id.
    pub const ID: i32 = 0x1A;
}

impl Packet for PlayerPositionPacket {
    open spec fn spec_id() -> i32 {
        0x1A
    }

    fn id() -> (v: VarInt) {
        VarInt(0x1A)
    }

    open spec fn wire(v: PlayerPositionFields) -> Seq<u8> {
        u64_bytes(v.x) + u64_bytes(v.y) + u64_bytes(v.z) + bool_bytes(v.on_ground)
    }

    open spec fn parse(bytes: Seq<u8>) -> Parsed<PlayerPositionFields> {
        match parse_u64(bytes) {
            Err(e) => Err(e),
            Ok((x, b1)) => match parse_u64(b1) {
                Err(e) => Err(e),
                Ok((y, b2)) => match parse_u64(b2) {
                    Err(e) => Err(e),
                    Ok((z, b3)) => match parse_bool(b3) {
                        Err(e) => Err(e),
                        Ok((on_ground, b4)) => Ok((PlayerPositionFields { x, y, z, on_ground }, b4)),
                    },
                },
            },
        }
    }

    open spec fn encodable(v: PlayerPositionFields) -> bool {
        true
    }

    proof fn lemma_roundtrip(v: PlayerPositionFields, tail: Seq<u8>) {
        let t3 = bool_bytes(v.on_ground) + tail;
        let t2 = u64_bytes(v.z) + t3;
        let t1 = u64_bytes(v.y) + t2;
        assert(Self::wire(v) + tail =~= u64_bytes(v.x) + t1);
        lemma_u64_roundtrip(v.x, t1);
        lemma_u64_roundtrip(v.y, t2);
        lemma_u64_roundtrip(v.z, t3);
        lemma_bool_roundtrip(v.on_ground, tail);
    }

    proof fn lemma_parsed_encodable(bytes: Seq<u8>) {
    }

    fn read(reader: &mut Cursor) -> (r: Result<Self>) {
        let x = read_unsigned_long(reader)?;
        let y = read_unsigned_long(reader)?;
        let z = read_unsigned_long(reader)?;
        let on_ground = read_bool(reader)?;
        Ok(PlayerPositionPacket { x, y, z, on_ground })
    }

    fn write(&self, writer: &mut Vec<u8>) -> (r: Result<()>) {
        write_unsigned_long(self.x, writer)?;
        write_unsigned_long(self.y, writer)?;
        write_unsigned_long(self.z, writer)?;
        write_bool(self.on_ground, writer)?;
        assert(writer@ =~= old(writer)@ + Self::wire(self@));
        Ok(())
    }
}

impl ServerboundPacket for PlayerPositionPacket {

}

/// Block change (clientbound).
#[derive(Debug, Clone)]
pub struct BlockChangePacket {
    /// Block position.
    pub position: Position,
    /// New block state id.
    pub block_id: VarInt,
}

/// The fields of a block change, as mathematics.
pub struct BlockChangeFields {
    pub position: Position,
    pub block_id: int,
}

impl View for BlockChangePacket {
    type V = BlockChangeFields;

    open spec fn view(&self) -> BlockChangeFields {
        BlockChangeFields { position: self.position, block_id: self.block_id@ }
    }
}

impl BlockChangePacket {
    /// The packet id.
    pub const ID: i32 = 0x09;
}

impl Packet for BlockChangePacket {
    open spec fn spec_id() -> i32 {
        0x09
    }

    fn id() -> (v: VarInt) {
        VarInt(0x09)
    }

    open spec fn wire(v: BlockChangeFields) -> Seq<u8> {
        position_bytes(v.position) + varint_bytes(v.block_id)
    }

    open spec fn parse(bytes: Seq<u8>) -> Parsed<BlockChangeFields> {
        match parse_position(bytes) {
            Err(e) => Err(e),
            Ok((position, b1)) => match parse_varint(b1) {
                Err(e) => Err(e),
                Ok((block_id, b2)) => Ok((BlockChangeFields { position, block_id }, b2)),
            },
        }
    }

    open spec fn encodable(v: BlockChangeFields) -> bool {
        v.position.fits() && -0x8000_0000 <= v.block_id < 0x8000_0000
    }

    proof fn lemma_roundtrip(v: BlockChangeFields, tail: Seq<u8>) {
        let t1 = varint_bytes(v.block_id) + tail;
        assert(Self::wire(v) + tail =~= position_bytes(v.position) + t1);
        lemma_position_roundtrip(v.position, t1);
        lemma_varint_roundtrip(v.block_id, tail);
    }

    proof fn lemma_parsed_encodable(bytes: Seq<u8>) {
        lemma_parsed_position_fits(bytes);
        let b1 = parse_position(bytes)->Ok_0.1;
        lemma_parse_varint_range(b1);
    }

    fn read(reader: &mut Cursor) -> (r: Result<Self>) {
        let position = Position::read(reader)?;
        let block_id = VarInt::read(reader)?;
        Ok(BlockChangePacket { position, block_id })
    }

    fn write(&self, writer: &mut Vec<u8>) -> (r: Result<()>) {
        if !self.position.in_range() {
            return Err(protocol_error("block position out of range"));
        }
        self.position.write(writer)?;
        self.block_id.write(writer)?;
        assert(writer@ =~= old(writer)@ + Self::wire(self@));
        Ok(())
    }
}

impl ClientboundPacket for BlockChangePacket {

}

/// Login (play) (clientbound): the first packet of the play state, which
/// tells the client about the world it joins.
#[derive(Debug, Clone)]
pub struct LoginPlayPacket {
    /// The player's entity id.
    pub entity_id: i32,
    /// Whether hardcore mode is enabled.
    pub is_hardcore: bool,
    /// Identifiers of all dimensions on the server.
    pub dimension_names: Vec<McString>,
    /// Maximum players (ignored by current clients).
    pub max_players: VarInt,
    /// Render distance in chunks.
    pub view_distance: VarInt,
    /// Simulation distance in chunks.
    pub simulation_distance: VarInt,
    /// Whether the debug screen shows reduced information.
    pub reduced_debug_info: bool,
    /// Whether the respawn screen is shown on death.
    pub enable_respawn_screen: bool,
    /// Whether crafting is limited to unlocked recipes.
    pub do_limited_crafting: bool,
    /// Id of the dimension type in its registry.
    pub dimension_type: VarInt,
    /// Name of the dimension being spawned into.
    pub dimension_name: McString,
    /// First eight bytes of the hash of the world seed.
    pub hashed_seed: i64,
    /// Game mode: 0 survival, 1 creative, 2 adventure, 3 spectator.
    pub game_mode: u8,
    /// Previous game mode, or -1 when there is none.
    pub previous_game_mode: i8,
    /// Whether this is a debug world.
    pub is_debug: bool,
    /// Whether this is a flat world.
    pub is_flat: bool,
    /// Whether the player has a death location.
    pub has_death_location: bool,
    /// Death dimension name, present exactly when there is a death location.
    pub death_dimension_name: Option<McString>,
    /// Death position, present exactly when there is a death location.
    pub death_location: Option<Position>,
    /// Portal cooldown in ticks.
    pub portal_cooldown: VarInt,
    /// Sea level.
    pub sea_level: VarInt,
    /// Whether the server enforces secure chat.
    pub enforces_secure_chat: bool,
}

/// The leading fields of a login (play): who joins and how far they see.
pub struct JoinFields {
    pub entity_id: i32,
    pub is_hardcore: bool,
    pub dimension_names: Seq<Seq<char>>,
    pub max_players: int,
    pub view_distance: int,
    pub simulation_distance: int,
}

/// The rule fields of a login (play), and the dimension joined.
pub struct RuleFields {
    pub reduced_debug_info: bool,
    pub enable_respawn_screen: bool,
    pub do_limited_crafting: bool,
    pub dimension_type: int,
    pub dimension_name: Seq<char>,
}

/// The mode fields of a login (play): seed hash, game modes, world kind.
pub struct ModeFields {
    pub hashed_seed: i64,
    pub game_mode: u8,
    pub previous_game_mode: i8,
    pub is_debug: bool,
    pub is_flat: bool,
}

/// The trailing fields of a login (play): death location and the rest.
pub struct SpawnFields {
    pub has_death_location: bool,
    pub death_dimension_name: Option<Seq<char>>,
    pub death_location: Option<Position>,
    pub portal_cooldown: int,
    pub sea_level: int,
    pub enforces_secure_chat: bool,
}

/// The fields of a login (play), as mathematics.
pub struct LoginPlayFields {
    pub join: JoinFields,
    pub rules: RuleFields,
    pub mode: ModeFields,
    pub spawn: SpawnFields,
}

/// Bytes of the leading fields.
pub open spec fn join_wire(v: JoinFields) -> Seq<u8> {
    i32_bytes(v.entity_id) + bool_bytes(v.is_hardcore) + counted_wire::<McString>(
        v.dimension_names,
    ) + varint_bytes(v.max_players) + varint_bytes(v.view_distance) + varint_bytes(
        v.simulation_distance,
    )
}

/// Decoder of the leading fields.
pub open spec fn parse_join(bytes: Seq<u8>) -> Parsed<JoinFields> {
    match parse_i32(bytes) {
        Err(e) => Err(e),
        Ok((entity_id, b1)) => match parse_bool(b1) {
            Err(e) => Err(e),
            Ok((is_hardcore, b2)) => match parse_counted::<McString>(b2) {
                Err(e) => Err(e),
                Ok((dimension_names, b3)) => match parse_varint(b3) {
                    Err(e) => Err(e),
                    Ok((max_players, b4)) => match parse_varint(b4) {
                        Err(e) => Err(e),
                        Ok((view_distance, b5)) => match parse_varint(b5) {
                            Err(e) => Err(e),
                            Ok((simulation_distance, b6)) => Ok(
                                (
                                    JoinFields {
                                        entity_id,
                                        is_hardcore,
                                        dimension_names,
                                        max_players,
                                        view_distance,
                                        simulation_distance,
                                    },
                                    b6,
                                ),
                            ),
                        },
                    },
                },
            },
        },
    }
}

/// Whether the leading fields can be written.
pub open spec fn join_encodable(v: JoinFields) -> bool {
    &&& counted_encodable::<McString>(v.dimension_names)
    &&& -0x8000_0000 <= v.max_players < 0x8000_0000
    &&& -0x8000_0000 <= v.view_distance < 0x8000_0000
    &&& -0x8000_0000 <= v.simulation_distance < 0x8000_0000
}

/// The leading fields survive encoding followed by decoding.
pub proof fn lemma_join_roundtrip(v: JoinFields, tail: Seq<u8>)
    requires
        join_encodable(v),
    ensures
        parse_join(join_wire(v) + tail) == Ok::<(JoinFields, Seq<u8>), Fault>((v, tail)),
{
    let t5 = varint_bytes(v.simulation_distance) + tail;
    let t4 = varint_bytes(v.view_distance) + t5;
    let t3 = varint_bytes(v.max_players) + t4;
    let t2 = counted_wire::<McString>(v.dimension_names) + t3;
    let t1 = bool_bytes(v.is_hardcore) + t2;
    assert(join_wire(v) + tail =~= i32_bytes(v.entity_id) + t1);
    lemma_i32_roundtrip(v.entity_id, t1);
    lemma_bool_roundtrip(v.is_hardcore, t2);
    lemma_counted_roundtrip::<McString>(v.dimension_names, t3);
    lemma_varint_roundtrip(v.max_players, t4);
    lemma_varint_roundtrip(v.view_distance, t5);
    lemma_varint_roundtrip(v.simulation_distance, tail);
}

/// Whatever the decoder of the leading fields accepts can be written again.
pub proof fn lemma_parsed_join(bytes: Seq<u8>)
    requires
        parse_join(bytes) is Ok,
    ensures
        join_encodable(parse_join(bytes)->Ok_0.0),
{
    let b1 = parse_i32(bytes)->Ok_0.1;
    let b2 = parse_bool(b1)->Ok_0.1;
    lemma_parsed_counted::<McString>(b2);
    let b3 = parse_counted::<McString>(b2)->Ok_0.1;
    lemma_parse_varint_range(b3);
    let b4 = parse_varint(b3)->Ok_0.1;
    lemma_parse_varint_range(b4);
    let b5 = parse_varint(b4)->Ok_0.1;
    lemma_parse_varint_range(b5);
}

/// Bytes of the rule fields.
pub open spec fn rules_wire(v: RuleFields) -> Seq<u8> {
    bool_bytes(v.reduced_debug_info) + bool_bytes(v.enable_respawn_screen) + bool_bytes(
        v.do_limited_crafting,
    ) + varint_bytes(v.dimension_type) + string_bytes(v.dimension_name)
}

/// Decoder of the rule fields.
pub open spec fn parse_rules(bytes: Seq<u8>) -> Parsed<RuleFields> {
    match parse_bool(bytes) {
        Err(e) => Err(e),
        Ok((reduced_debug_info, b1)) => match parse_bool(b1) {
            Err(e) => Err(e),
            Ok((enable_respawn_screen, b2)) => match parse_bool(b2) {
                Err(e) => Err(e),
                Ok((do_limited_crafting, b3)) => match parse_varint(b3) {
                    Err(e) => Err(e),
                    Ok((dimension_type, b4)) => match parse_string(b4, 32767) {
                        Err(e) => Err(e),
                        Ok((dimension_name, b5)) => Ok(
                            (
                                RuleFields {
                                    reduced_debug_info,
                                    enable_respawn_screen,
                                    do_limited_crafting,
                                    dimension_type,
                                    dimension_name,
                                },
                                b5,
                            ),
                        ),
                    },
                },
            },
        },
    }
}

/// Whether the rule fields can be written.
pub open spec fn rules_encodable(v: RuleFields) -> bool {
    &&& -0x8000_0000 <= v.dimension_type < 0x8000_0000
    &&& encode_utf8(v.dimension_name).len() <= 32767
}

/// The rule fields survive encoding followed by decoding.
pub proof fn lemma_rules_roundtrip(v: RuleFields, tail: Seq<u8>)
    requires
        rules_encodable(v),
    ensures
        parse_rules(rules_wire(v) + tail) == Ok::<(RuleFields, Seq<u8>), Fault>((v, tail)),
{
    let t4 = string_bytes(v.dimension_name) + tail;
    let t3 = varint_bytes(v.dimension_type) + t4;
    let t2 = bool_bytes(v.do_limited_crafting) + t3;
    let t1 = bool_bytes(v.enable_respawn_screen) + t2;
    assert(rules_wire(v) + tail =~= bool_bytes(v.reduced_debug_info) + t1);
    lemma_bool_roundtrip(v.reduced_debug_info, t1);
    lemma_bool_roundtrip(v.enable_respawn_screen, t2);
    lemma_bool_roundtrip(v.do_limited_crafting, t3);
    lemma_varint_roundtrip(v.dimension_type, t4);
    lemma_string_roundtrip(v.dimension_name, 32767, tail);
}

/// Whatever the decoder of the rule fields accepts can be written again.
pub proof fn lemma_parsed_rules(bytes: Seq<u8>)
    requires
        parse_rules(bytes) is Ok,
    ensures
        rules_encodable(parse_rules(bytes)->Ok_0.0),
{
    let b1 = parse_bool(bytes)->Ok_0.1;
    let b2 = parse_bool(b1)->Ok_0.1;
    let b3 = parse_bool(b2)->Ok_0.1;
    lemma_parse_varint_range(b3);
    let b4 = parse_varint(b3)->Ok_0.1;
    lemma_parse_string_bound(b4, 32767);
}

/// Bytes of the mode fields.
pub open spec fn mode_wire(v: ModeFields) -> Seq<u8> {
    i64_bytes(v.hashed_seed) + u8_bytes(v.game_mode) + i8_bytes(v.previous_game_mode)
        + bool_bytes(v.is_debug) + bool_bytes(v.is_flat)
}

/// Decoder of the mode fields.
pub open spec fn parse_mode(bytes: Seq<u8>) -> Parsed<ModeFields> {
    match parse_i64(bytes) {
        Err(e) => Err(e),
        Ok((hashed_seed, b1)) => match parse_u8(b1) {
            Err(e) => Err(e),
            Ok((game_mode, b2)) => match parse_i8(b2) {
                Err(e) => Err(e),
                Ok((previous_game_mode, b3)) => match parse_bool(b3) {
                    Err(e) => Err(e),
                    Ok((is_debug, b4)) => match parse_bool(b4) {
                        Err(e) => Err(e),
                        Ok((is_flat, b5)) => Ok(
                            (
                                ModeFields {
                                    hashed_seed,
                                    game_mode,
                                    previous_game_mode,
                                    is_debug,
                                    is_flat,
                                },
                                b5,
                            ),
                        ),
                    },
                },
            },
        },
    }
}

/// The mode fields survive encoding followed by decoding.
pub proof fn lemma_mode_roundtrip(v: ModeFields, tail: Seq<u8>)
    ensures
        parse_mode(mode_wire(v) + tail) == Ok::<(ModeFields, Seq<u8>), Fault>((v, tail)),
{
    let t4 = bool_bytes(v.is_flat) + tail;
    let t3 = bool_bytes(v.is_debug) + t4;
    let t2 = i8_bytes(v.previous_game_mode) + t3;
    let t1 = u8_bytes(v.game_mode) + t2;
    assert(mode_wire(v) + tail =~= i64_bytes(v.hashed_seed) + t1);
    lemma_i64_roundtrip(v.hashed_seed, t1);
    lemma_u8_roundtrip(v.game_mode, t2);
    lemma_i8_roundtrip(v.previous_game_mode, t3);
    lemma_bool_roundtrip(v.is_debug, t4);
    lemma_bool_roundtrip(v.is_flat, tail);
}

/// Bytes of a death location: a presence flag, then dimension and position
/// when there is one.
pub open spec fn death_wire(name: Option<Seq<char>>, location: Option<Position>) -> Seq<u8> {
    match (name, location) {
        (Some(n), Some(p)) => bool_bytes(true) + string_bytes(n) + position_bytes(p),
        _ => bool_bytes(false),
    }
}

/// Bytes of the trailing fields.
pub open spec fn spawn_wire(v: SpawnFields) -> Seq<u8> {
    death_wire(v.death_dimension_name, v.death_location) + varint_bytes(v.portal_cooldown)
        + varint_bytes(v.sea_level) + bool_bytes(v.enforces_secure_chat)
}

/// Decoder of a death location.
pub open spec fn parse_death(bytes: Seq<u8>) -> Parsed<(Option<Seq<char>>, Option<Position>)> {
    match parse_bool(bytes) {
        Err(e) => Err(e),
        Ok((present, b1)) => if present {
            match parse_string(b1, 32767) {
                Err(e) => Err(e),
                Ok((name, b2)) => match parse_position(b2) {
                    Err(e) => Err(e),
                    Ok((location, b3)) => Ok(((Some(name), Some(location)), b3)),
                },
            }
        } else {
            Ok(((None, None), b1))
        },
    }
}

/// Decoder of the trailing fields.
pub open spec fn parse_spawn(bytes: Seq<u8>) -> Parsed<SpawnFields> {
    match parse_death(bytes) {
        Err(e) => Err(e),
        Ok((death, b1)) => match parse_varint(b1) {
            Err(e) => Err(e),
            Ok((portal_cooldown, b2)) => match parse_varint(b2) {
                Err(e) => Err(e),
                Ok((sea_level, b3)) => match parse_bool(b3) {
                    Err(e) => Err(e),
                    Ok((enforces_secure_chat, b4)) => Ok(
                        (
                            SpawnFields {
                                has_death_location: death.0 is Some,
                                death_dimension_name: death.0,
                                death_location: death.1,
                                portal_cooldown,
                                sea_level,
                                enforces_secure_chat,
                            },
                            b4,
                        ),
                    ),
                },
            },
        },
    }
}

/// Whether the trailing fields can be written: the death location is
/// present exactly when its flag says so, and fits.
pub open spec fn spawn_encodable(v: SpawnFields) -> bool {
    &&& v.has_death_location == (v.death_dimension_name is Some)
    &&& v.has_death_location == (v.death_location is Some)
    &&& v.death_dimension_name matches Some(n) ==> encode_utf8(n).len() <= 32767
    &&& v.death_location matches Some(p) ==> p.fits()
    &&& -0x8000_0000 <= v.portal_cooldown < 0x8000_0000
    &&& -0x8000_0000 <= v.sea_level < 0x8000_0000
}

/// The trailing fields survive encoding followed by decoding.
pub proof fn lemma_spawn_roundtrip(v: SpawnFields, tail: Seq<u8>)
    requires
        spawn_encodable(v),
    ensures
        parse_spawn(spawn_wire(v) + tail) == Ok::<(SpawnFields, Seq<u8>), Fault>((v, tail)),
{
    let t3 = bool_bytes(v.enforces_secure_chat) + tail;
    let t2 = varint_bytes(v.sea_level) + t3;
    let t1 = varint_bytes(v.portal_cooldown) + t2;
    let death = death_wire(v.death_dimension_name, v.death_location);
    assert(spawn_wire(v) + tail =~= death + t1);
    if v.has_death_location {
        let n = v.death_dimension_name->Some_0;
        let p = v.death_location->Some_0;
        let d2 = position_bytes(p) + t1;
        let d1 = string_bytes(n) + d2;
        assert(death + t1 =~= bool_bytes(true) + d1);
        lemma_bool_roundtrip(true, d1);
        lemma_string_roundtrip(n, 32767, d2);
        lemma_position_roundtrip(p, t1);
    } else {
        lemma_bool_roundtrip(false, t1);
    }
    lemma_varint_roundtrip(v.portal_cooldown, t2);
    lemma_varint_roundtrip(v.sea_level, t3);
    lemma_bool_roundtrip(v.enforces_secure_chat, tail);
}

/// Whatever the decoder of the trailing fields accepts can be written again.
pub proof fn lemma_parsed_spawn(bytes: Seq<u8>)
    requires
        parse_spawn(bytes) is Ok,
    ensures
        spawn_encodable(parse_spawn(bytes)->Ok_0.0),
{
    let present = parse_bool(bytes)->Ok_0.0;
    let b0 = parse_bool(bytes)->Ok_0.1;
    if present {
        lemma_parse_string_bound(b0, 32767);
        lemma_parsed_position_fits(parse_string(b0, 32767)->Ok_0.1);
    }
    let b1 = parse_death(bytes)->Ok_0.1;
    lemma_parse_varint_range(b1);
    let b2 = parse_varint(b1)->Ok_0.1;
    lemma_parse_varint_range(b2);
}

impl View for LoginPlayPacket {
    type V = LoginPlayFields;

    open spec fn view(&self) -> LoginPlayFields {
        LoginPlayFields {
            join: JoinFields {
                entity_id: self.entity_id,
                is_hardcore: self.is_hardcore,
                dimension_names: views(self.dimension_names@),
                max_players: self.max_players@,
                view_distance: self.view_distance@,
                simulation_distance: self.simulation_distance@,
            },
            rules: RuleFields {
                reduced_debug_info: self.reduced_debug_info,
                enable_respawn_screen: self.enable_respawn_screen,
                do_limited_crafting: self.do_limited_crafting,
                dimension_type: self.dimension_type@,
                dimension_name: self.dimension_name@,
            },
            mode: ModeFields {
                hashed_seed: self.hashed_seed,
                game_mode: self.game_mode,
                previous_game_mode: self.previous_game_mode,
                is_debug: self.is_debug,
                is_flat: self.is_flat,
            },
            spawn: SpawnFields {
                has_death_location: self.has_death_location,
                death_dimension_name: match self.death_dimension_name {
                    Some(n) => Some(n@),
                    None => None,
                },
                death_location: self.death_location,
                portal_cooldown: self.portal_cooldown@,
                sea_level: self.sea_level@,
                enforces_secure_chat: self.enforces_secure_chat,
            },
        }
    }
}

impl LoginPlayPacket {
    /// The packet id.
    pub const ID: i32 = 0x2B;
}

impl Packet for LoginPlayPacket {
    open spec fn spec_id() -> i32 {
        0x2B
    }

    fn id() -> (v: VarInt) {
        VarInt(0x2B)
    }

    open spec fn wire(v: LoginPlayFields) -> Seq<u8> {
        join_wire(v.join) + rules_wire(v.rules) + mode_wire(v.mode) + spawn_wire(v.spawn)
    }

    open spec fn parse(bytes: Seq<u8>) -> Parsed<LoginPlayFields> {
        match parse_join(bytes) {
            Err(e) => Err(e),
            Ok((join, b1)) => match parse_rules(b1) {
                Err(e) => Err(e),
                Ok((rules, b2)) => match parse_mode(b2) {
                    Err(e) => Err(e),
                    Ok((mode, b3)) => match parse_spawn(b3) {
                        Err(e) => Err(e),
                        Ok((spawn, b4)) => Ok((LoginPlayFields { join, rules, mode, spawn }, b4)),
                    },
                },
            },
        }
    }

    open spec fn encodable(v: LoginPlayFields) -> bool {
        join_encodable(v.join) && rules_encodable(v.rules) && spawn_encodable(v.spawn)
    }

    proof fn lemma_roundtrip(v: LoginPlayFields, tail: Seq<u8>) {
        let t3 = spawn_wire(v.spawn) + tail;
        let t2 = mode_wire(v.mode) + t3;
        let t1 = rules_wire(v.rules) + t2;
        assert(Self::wire(v) + tail =~= join_wire(v.join) + t1);
        lemma_join_roundtrip(v.join, t1);
        lemma_rules_roundtrip(v.rules, t2);
        lemma_mode_roundtrip(v.mode, t3);
        lemma_spawn_roundtrip(v.spawn, tail);
    }

    proof fn lemma_parsed_encodable(bytes: Seq<u8>) {
        lemma_parsed_join(bytes);
        let b1 = parse_join(bytes)->Ok_0.1;
        lemma_parsed_rules(b1);
        let b2 = parse_rules(b1)->Ok_0.1;
        let b3 = parse_mode(b2)->Ok_0.1;
        lemma_parsed_spawn(b3);
    }

    fn read(reader: &mut Cursor) -> (r: Result<Self>) {
        let entity_id = read_int(reader)?;
        let is_hardcore = read_bool(reader)?;
        let dimension_names = read_counted::<McString>(reader)?;
        let max_players = VarInt::read(reader)?;
        let view_distance = VarInt::read(reader)?;
        let simulation_distance = VarInt::read(reader)?;
        let ghost after_join = reader@;
        assert(parse_join(old(reader)@) is Ok && parse_join(old(reader)@)->Ok_0.1 == after_join);

        let reduced_debug_info = read_bool(reader)?;
        let enable_respawn_screen = read_bool(reader)?;
        let do_limited_crafting = read_bool(reader)?;
        let dimension_type = VarInt::read(reader)?;
        let dimension_name = McString::read(reader)?;
        let ghost after_rules = reader@;
        assert(parse_rules(after_join) is Ok && parse_rules(after_join)->Ok_0.1 == after_rules);
        let hashed_seed = read_long(reader)?;
        let game_mode = read_unsigned_byte(reader)?;
        let previous_game_mode = read_byte(reader)?;
        let is_debug = read_bool(reader)?;
        let is_flat = read_bool(reader)?;
        let ghost after_mode = reader@;
        assert(parse_mode(after_rules) is Ok && parse_mode(after_rules)->Ok_0.1 == after_mode);

        let has_death_location = read_bool(reader)?;
        let (death_dimension_name, death_location) = if has_death_location {
            let dimension = McString::read(reader)?;
            let position = Position::read(reader)?;
            (Some(dimension), Some(position))
        } else {
            (None, None)
        };
        let portal_cooldown = VarInt::read(reader)?;
        let sea_level = VarInt::read(reader)?;
        let enforces_secure_chat = read_bool(reader)?;

        Ok(
            LoginPlayPacket {
                entity_id,
                is_hardcore,
                dimension_names,
                max_players,
                view_distance,
                simulation_distance,
                reduced_debug_info,
                enable_respawn_screen,
                do_limited_crafting,
                dimension_type,
                dimension_name,
                hashed_seed,
                game_mode,
                previous_game_mode,
                is_debug,
                is_flat,
                has_death_location,
                death_dimension_name,
                death_location,
                portal_cooldown,
                sea_level,
                enforces_secure_chat,
            },
        )
    }

    fn write(&self, writer: &mut Vec<u8>) -> (r: Result<()>) {
        if !self.spawn_is_consistent() {
            return Err(protocol_error("death location does not match its flag"));
        }
        self.write_join(writer)?;
        let ghost after_join = writer@;
        self.write_rules(writer)?;
        let ghost after_rules = writer@;
        self.write_mode(writer)?;
        let ghost after_mode = writer@;
        self.write_spawn(writer)?;
        assert(writer@ =~= old(writer)@ + Self::wire(self@));
        Ok(())
    }
}

impl ClientboundPacket for LoginPlayPacket {

}

impl LoginPlayPacket {
    /// Whether the death location is present exactly when its flag says so,
    /// and fits the packed form.
    fn spawn_is_consistent(&self) -> (b: bool)
        ensures
            b == {
                &&& self.has_death_location == (self.death_dimension_name is Some)
                &&& self.has_death_location == (self.death_location is Some)
                &&& self.death_location matches Some(p) ==> p.fits()
            },
    {
        if self.has_death_location != self.death_dimension_name.is_some()
            || self.has_death_location != self.death_location.is_some() {
            return false;
        }
        match self.death_location {
            Some(p) => p.in_range(),
            None => true,
        }
    }

    /// Writes the leading fields.
    fn write_join(&self, writer: &mut Vec<u8>) -> (r: Result<()>)
        ensures
            r is Ok <==> join_encodable(self@.join),
            r is Ok ==> final(writer)@ == old(writer)@ + join_wire(self@.join),
            r matches Err(e) ==> e.fault() == Some(Fault::Malformed) && old(writer)@.is_prefix_of(
                final(writer)@,
            ),
    {
        write_int(self.entity_id, writer)?;
        write_bool(self.is_hardcore, writer)?;
        write_counted::<McString>(&self.dimension_names, writer)?;
        self.max_players.write(writer)?;
        self.view_distance.write(writer)?;
        self.simulation_distance.write(writer)?;
        assert(writer@ =~= old(writer)@ + join_wire(self@.join));
        Ok(())
    }

    /// Writes the rule fields.
    fn write_rules(&self, writer: &mut Vec<u8>) -> (r: Result<()>)
        ensures
            r is Ok <==> rules_encodable(self@.rules),
            r is Ok ==> final(writer)@ == old(writer)@ + rules_wire(self@.rules),
            r matches Err(e) ==> e.fault() == Some(Fault::Malformed) && old(writer)@.is_prefix_of(
                final(writer)@,
            ),
    {
        write_bool(self.reduced_debug_info, writer)?;
        write_bool(self.enable_respawn_screen, writer)?;
        write_bool(self.do_limited_crafting, writer)?;
        self.dimension_type.write(writer)?;
        self.dimension_name.write(writer)?;
        assert(writer@ =~= old(writer)@ + rules_wire(self@.rules));
        Ok(())
    }

    /// Writes the mode fields.
    fn write_mode(&self, writer: &mut Vec<u8>) -> (r: Result<()>)
        ensures
            r is Ok,
            final(writer)@ == old(writer)@ + mode_wire(self@.mode),
    {
        let _ = write_long(self.hashed_seed, writer);
        let _ = write_unsigned_byte(self.game_mode, writer);
        let _ = write_byte(self.previous_game_mode, writer);
        let _ = write_bool(self.is_debug, writer);
        let _ = write_bool(self.is_flat, writer);
        assert(writer@ =~= old(writer)@ + mode_wire(self@.mode));
        Ok(())
    }

    /// Writes the trailing fields of a packet whose death location matches
    /// its flag.
    fn write_spawn(&self, writer: &mut Vec<u8>) -> (r: Result<()>)
        requires
            self.has_death_location == (self.death_dimension_name is Some),
            self.has_death_location == (self.death_location is Some),
            self.death_location matches Some(p) ==> p.fits(),
        ensures
            r is Ok <==> spawn_encodable(self@.spawn),
            r is Ok ==> final(writer)@ == old(writer)@ + spawn_wire(self@.spawn),
            r matches Err(e) ==> e.fault() == Some(Fault::Malformed) && old(writer)@.is_prefix_of(
                final(writer)@,
            ),
    {
        write_bool(self.has_death_location, writer)?;
        if let Some(ref dimension) = self.death_dimension_name {
            dimension.write(writer)?;
        }
        if let Some(position) = self.death_location {
            position.write(writer)?;
        }
        let ghost after_death = writer@;
        assert(after_death =~= old(writer)@ + death_wire(
            self@.spawn.death_dimension_name,
            self@.spawn.death_location,
        ));
        self.portal_cooldown.write(writer)?;
        self.sea_level.write(writer)?;
        write_bool(self.enforces_secure_chat, writer)?;
        assert(writer@ =~= old(writer)@ + spawn_wire(self@.spawn));
        Ok(())
    }

    /// A login (play) packet with default values: entity 1, 20 players,
    /// distances of 10 chunks, seed hash 0, the overworld as the only
    /// dimension, survival mode.
    pub fn new() -> (p: Self)
        ensures
            p@ == overworld_join(1, 20, 10, 10, 0, false),
    {
        let mut dimension_names: Vec<McString> = Vec::new();
        dimension_names.push(McString::from("minecraft:overworld"));
        assert(views(dimension_names@) =~= seq!["minecraft:overworld"@]);
        Self {
            entity_id: 1,
            is_hardcore: false,
            dimension_names,
            max_players: VarInt(20),
            view_distance: VarInt(10),
            simulation_distance: VarInt(10),
            reduced_debug_info: false,
            enable_respawn_screen: true,
            do_limited_crafting: false,
            dimension_type: VarInt(0),
            dimension_name: McString::from("minecraft:overworld"),
            hashed_seed: 0,
            game_mode: 0,
            previous_game_mode: -1,
            is_debug: false,
            is_flat: false,
            has_death_location: false,
            death_dimension_name: None,
            death_location: None,
            portal_cooldown: VarInt(0),
            sea_level: VarInt(63),
            enforces_secure_chat: false,
        }
    }

    /// The login (play) packet for a player that joins a server with the
    /// given configuration: the configured player limit and distances, the
    /// overworld as the only dimension, survival mode.
    pub fn from_server_config(config: &ServerConfig, entity_id: i32) -> (p: Self)
        ensures
            p@ == join_for(*config, entity_id),
    {
        let mut dimension_names: Vec<McString> = Vec::new();
        dimension_names.push(McString::from("minecraft:overworld"));
        assert(views(dimension_names@) =~= seq!["minecraft:overworld"@]);
        Self {
            entity_id,
            is_hardcore: false,
            dimension_names,
            max_players: VarInt(wrap_to_i32(config.max_players)),
            view_distance: VarInt(config.view_distance as i32),
            simulation_distance: VarInt(config.simulation_distance as i32),
            reduced_debug_info: false,
            enable_respawn_screen: true,
            do_limited_crafting: false,
            dimension_type: VarInt(0),
            dimension_name: McString::from("minecraft:overworld"),
            hashed_seed: 12345,
            game_mode: 0,
            previous_game_mode: -1,
            is_debug: config.debug,
            is_flat: false,
            has_death_location: false,
            death_dimension_name: None,
            death_location: None,
            portal_cooldown: VarInt(0),
            sea_level: VarInt(63),
            enforces_secure_chat: false,
        }
    }
}

/// The fields that tell a client that it joins the overworld, the only
/// dimension, in survival mode with no previous mode and no death location,
/// at sea level 63.
pub open spec fn overworld_join(
    entity_id: i32,
    max_players: int,
    view_distance: int,
    simulation_distance: int,
    hashed_seed: i64,
    is_debug: bool,
) -> LoginPlayFields {
    LoginPlayFields {
        join: JoinFields {
            entity_id,
            is_hardcore: false,
            dimension_names: seq!["minecraft:overworld"@],
            max_players,
            view_distance,
            simulation_distance,
        },
        rules: RuleFields {
            reduced_debug_info: false,
            enable_respawn_screen: true,
            do_limited_crafting: false,
            dimension_type: 0,
            dimension_name: "minecraft:overworld"@,
        },
        mode: ModeFields {
            hashed_seed,
            game_mode: 0,
            previous_game_mode: -1i8,
            is_debug,
            is_flat: false,
        },
        spawn: SpawnFields {
            has_death_location: false,
            death_dimension_name: None,
            death_location: None,
            portal_cooldown: 0,
            sea_level: 63,
            enforces_secure_chat: false,
        },
    }
}

/// The fields of the login (play) packet for a player that joins a server
/// with the given configuration.
pub open spec fn join_for(config: ServerConfig, entity_id: i32) -> LoginPlayFields {
    overworld_join(
        entity_id,
        signed32(config.max_players as nat),
        config.view_distance as int,
        config.simulation_distance as int,
        12345,
        config.debug,
    )
}

/// The login (play) packet for a configuration can always be written, and
/// its fields take at most 81 bytes.
pub proof fn lemma_join_is_short(config: ServerConfig, entity_id: i32)
    ensures
        LoginPlayPacket::encodable(join_for(config, entity_id)),
        LoginPlayPacket::wire(join_for(config, entity_id)).len() <= 81,
{
    let v = join_for(config, entity_id);
    let name = "minecraft:overworld"@;
    reveal_strlit("minecraft:overworld");
    assert(is_ascii_chars(name));
    is_ascii_chars_encode_utf8(name);
    assert(encode_utf8(name).len() == 19);
    let names = v.join.dimension_names;
    assert(names.len() == 1 && names[0] == name);
    assert(names.drop_first().len() == 0);
    assert(list_wire::<McString>(names) == string_bytes(name) + list_wire::<McString>(
        names.drop_first(),
    ));
    assert(list_wire::<McString>(names.drop_first()) == Seq::<u8>::empty());
    assert(string_bytes(name).len() == 20) by {
        reveal(string_bytes);
        reveal(byte_array_bytes);
        reveal(varint_bytes);
        reveal_with_fuel(crate::protocol::wire::groups, 2);
    }
    assert(varint_bytes(1).len() == 1 && varint_bytes(0).len() == 1 && varint_bytes(63).len()
        == 1) by {
        reveal(varint_bytes);
        reveal_with_fuel(crate::protocol::wire::groups, 2);
    }
    lemma_varint_len(v.join.max_players);
    lemma_varint_len(v.join.view_distance);
    lemma_varint_len(v.join.simulation_distance);
    assert(i32_bytes(entity_id).len() == 4) by {
        reveal(i32_bytes);
        lemma_be_bytes_len(crate::protocol::wire::unsigned32(entity_id as int), 4);
    }
    assert(i64_bytes(12345).len() == 8) by {
        reveal(i64_bytes);
        lemma_be_bytes_len(crate::protocol::wire::unsigned64(12345), 8);
    }
    assert(u8_bytes(0).len() == 1) by {
        reveal(u8_bytes);
        lemma_be_bytes_len(0, 1);
    }
    assert(i8_bytes(-1i8).len() == 1) by {
        reveal(i8_bytes);
        lemma_be_bytes_len(0xff, 1);
    }
    assert(forall|b: bool| (#[trigger] bool_bytes(b)).len() == 1) by {
        reveal(bool_bytes);
    }
    assert(join_wire(v.join).len() <= 41);
    assert(rules_wire(v.rules).len() == 24);
    assert(mode_wire(v.mode).len() == 12);
    assert(spawn_wire(v.spawn).len() == 4);
}

} // verus!
