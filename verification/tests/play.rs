use obsidium::config::server::ServerConfig;
use obsidium::protocol::cursor::Cursor;
use obsidium::protocol::packets::play::{
    BlockChangePacket, ChatMessagePacket, DisconnectPacket, KeepAlivePacket, LoginPlayPacket,
    PlayerPositionPacket,
};
use obsidium::protocol::packets::Packet;
use obsidium::protocol::types::{Position, VarInt};

#[test]
fn test_login_play_packet_roundtrip() {
    let packet = LoginPlayPacket::new();

    let mut buffer = Vec::new();
    packet.write(&mut buffer).unwrap();

    let mut cursor = Cursor::new(&buffer);
    let decoded = LoginPlayPacket::read(&mut cursor).unwrap();

    assert_eq!(packet.entity_id, decoded.entity_id);
    assert_eq!(packet.view_distance.0, decoded.view_distance.0);
    assert_eq!(packet.simulation_distance.0, decoded.simulation_distance.0);
    assert_eq!(packet.reduced_debug_info, decoded.reduced_debug_info);
    assert_eq!(packet.enable_respawn_screen, decoded.enable_respawn_screen);
    assert_eq!(packet.do_limited_crafting, decoded.do_limited_crafting);
    assert_eq!(packet.dimension_name.0, decoded.dimension_name.0);
    assert_eq!(packet.hashed_seed, decoded.hashed_seed);
    assert_eq!(packet.game_mode, decoded.game_mode);
    assert_eq!(packet.previous_game_mode, decoded.previous_game_mode);
    assert_eq!(packet.is_debug, decoded.is_debug);
    assert_eq!(packet.is_flat, decoded.is_flat);
    assert_eq!(packet.has_death_location, decoded.has_death_location);
    assert_eq!(packet.portal_cooldown.0, decoded.portal_cooldown.0);
    assert_eq!(packet.enforces_secure_chat, decoded.enforces_secure_chat);
}

#[test]
fn test_login_play_packet_with_death_location() {
    let mut packet = LoginPlayPacket::new();
    packet.has_death_location = true;
    packet.death_dimension_name = Some("minecraft:the_nether".into());
    packet.death_location = Some(Position::new(100, 64, -200));

    let mut buffer = Vec::new();
    packet.write(&mut buffer).unwrap();

    let mut cursor = Cursor::new(&buffer);
    let decoded = LoginPlayPacket::read(&mut cursor).unwrap();

    assert!(decoded.has_death_location);
    assert!(decoded.death_dimension_name.is_some());
    assert!(decoded.death_location.is_some());

    let dimension = decoded.death_dimension_name.unwrap();
    let position = decoded.death_location.unwrap();

    assert_eq!(dimension.0, "minecraft:the_nether");
    assert_eq!(position.x, 100);
    assert_eq!(position.y, 64);
    assert_eq!(position.z, -200);
}

#[test]
fn test_login_play_packet_from_server_config() {
    let config = ServerConfig::new().with_debug(true);
    let packet = LoginPlayPacket::from_server_config(&config, 42);

    assert_eq!(packet.entity_id, 42);
    assert_eq!(packet.view_distance.0, config.view_distance as i32);
    assert_eq!(
        packet.simulation_distance.0,
        config.simulation_distance as i32
    );
    assert_eq!(packet.is_debug, config.debug);
    assert_eq!(packet.max_players.0, config.max_players as i32);
}

#[test]
fn login_play_has_the_documented_wire_form() {
    let packet = LoginPlayPacket::new();
    let mut buffer = Vec::new();
    packet.write(&mut buffer).unwrap();
    let name = b"minecraft:overworld";
    let mut expected = vec![0, 0, 0, 1, 0, 1, 19];
    expected.extend_from_slice(name);
    expected.extend_from_slice(&[20, 10, 10, 0, 1, 0, 0, 19]);
    expected.extend_from_slice(name);
    expected.extend_from_slice(&[0, 0, 0, 0, 0, 0, 0, 0, 0, 0xFF, 0, 0, 0, 0, 63, 0]);
    assert_eq!(buffer, expected);
    assert_eq!(LoginPlayPacket::ID, 0x2B);
    assert_eq!(LoginPlayPacket::id().0, 0x2B);
}

#[test]
fn login_play_with_inconsistent_death_location_is_refused() {
    let mut packet = LoginPlayPacket::new();
    packet.has_death_location = true;
    let mut buffer = Vec::new();
    assert!(packet.write(&mut buffer).is_err());
    let mut packet = LoginPlayPacket::new();
    packet.death_location = Some(Position::new(0, 0, 0));
    assert!(packet.write(&mut buffer).is_err());
    let mut packet = LoginPlayPacket::new();
    packet.has_death_location = true;
    packet.death_dimension_name = Some("d".into());
    packet.death_location = Some(Position::new(0, 2048, 0));
    assert!(packet.write(&mut buffer).is_err());
}

#[test]
fn truncated_login_play_is_a_short_read() {
    let packet = LoginPlayPacket::new();
    let mut buffer = Vec::new();
    packet.write(&mut buffer).unwrap();
    for cut in 0..buffer.len() {
        let mut cursor = Cursor::new(&buffer[..cut]);
        assert!(LoginPlayPacket::read(&mut cursor).is_err());
    }
}

#[test]
fn keep_alive_and_disconnect_roundtrip() {
    let packet = KeepAlivePacket { keep_alive_id: -2 };
    let mut buffer = Vec::new();
    packet.write(&mut buffer).unwrap();
    assert_eq!(buffer, vec![0xFF, 0xFF, 0xFF, 0xFF, 0xFF, 0xFF, 0xFF, 0xFE]);
    let decoded = KeepAlivePacket::read(&mut Cursor::new(&buffer)).unwrap();
    assert_eq!(decoded.keep_alive_id, -2);
    assert_eq!(KeepAlivePacket::ID, 0x26);
    assert_eq!(KeepAlivePacket::id().0, 0x26);
    assert_eq!(KeepAlivePacket::SERVERBOUND_ID, 0x18);

    let packet = DisconnectPacket { reason: "{\"text\":\"bye\"}".into() };
    let mut buffer = Vec::new();
    packet.write(&mut buffer).unwrap();
    let decoded = DisconnectPacket::read(&mut Cursor::new(&buffer)).unwrap();
    assert_eq!(decoded.reason.0, "{\"text\":\"bye\"}");
    assert_eq!(DisconnectPacket::ID, 0x1D);
    assert_eq!(DisconnectPacket::id().0, 0x1D);
}

#[test]
fn chat_message_roundtrip() {
    let packet = ChatMessagePacket {
        message: "hello".into(),
        timestamp: 1,
        salt: -1,
        signature: Some(vec![1, 2]),
        message_count: VarInt(3),
        acknowledged: vec![4, 5, 6],
    };
    let mut buffer = Vec::new();
    packet.write(&mut buffer).unwrap();
    let mut cursor = Cursor::new(&buffer);
    let decoded = ChatMessagePacket::read(&mut cursor).unwrap();
    assert_eq!(decoded.message.0, "hello");
    assert_eq!(decoded.timestamp, 1);
    assert_eq!(decoded.salt, -1);
    assert_eq!(decoded.signature, Some(vec![1, 2]));
    assert_eq!(decoded.message_count, VarInt(3));
    assert_eq!(decoded.acknowledged, vec![4, 5, 6]);
    assert_eq!(cursor.position(), buffer.len() as u64);
    assert_eq!(ChatMessagePacket::ID, 0x06);
    assert_eq!(ChatMessagePacket::id().0, 0x06);

    let unsigned = ChatMessagePacket { signature: None, ..packet };
    let mut buffer = Vec::new();
    unsigned.write(&mut buffer).unwrap();
    let decoded = ChatMessagePacket::read(&mut Cursor::new(&buffer)).unwrap();
    assert_eq!(decoded.signature, None);
}

#[test]
fn player_position_carries_the_bits_of_doubles() {
    let packet = PlayerPositionPacket {
        x: 1.5f64.to_bits(),
        y: (-64.0f64).to_bits(),
        z: 0.0f64.to_bits(),
        on_ground: true,
    };
    let mut buffer = Vec::new();
    packet.write(&mut buffer).unwrap();
    let mut expected = Vec::new();
    expected.extend_from_slice(&1.5f64.to_be_bytes());
    expected.extend_from_slice(&(-64.0f64).to_be_bytes());
    expected.extend_from_slice(&0.0f64.to_be_bytes());
    expected.push(1);
    assert_eq!(buffer, expected);
    let decoded = PlayerPositionPacket::read(&mut Cursor::new(&buffer)).unwrap();
    assert_eq!(f64::from_bits(decoded.x), 1.5);
    assert_eq!(f64::from_bits(decoded.y), -64.0);
    assert_eq!(f64::from_bits(decoded.z), 0.0);
    assert!(decoded.on_ground);
    assert_eq!(PlayerPositionPacket::ID, 0x1A);
    assert_eq!(PlayerPositionPacket::id().0, 0x1A);
}

#[test]
fn block_change_roundtrip() {
    let packet = BlockChangePacket { position: Position::new(1, -2, 3), block_id: VarInt(9) };
    let mut buffer = Vec::new();
    packet.write(&mut buffer).unwrap();
    let decoded = BlockChangePacket::read(&mut Cursor::new(&buffer)).unwrap();
    assert_eq!(decoded.position, Position::new(1, -2, 3));
    assert_eq!(decoded.block_id, VarInt(9));
    assert_eq!(BlockChangePacket::ID, 0x09);
    assert_eq!(BlockChangePacket::id().0, 0x09);
    let out_of_range =
        BlockChangePacket { position: Position::new(33554432, 0, 0), block_id: VarInt(9) };
    assert!(out_of_range.write(&mut buffer).is_err());
}
