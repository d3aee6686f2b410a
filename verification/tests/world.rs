use obsidium::game::entity::{EntityType, MobType, ProjectileType};
use obsidium::game::player::GameMode;
use obsidium::game::world::chunk::{
    Chunk, CHUNK_HEIGHT, CHUNK_MAX_Y, CHUNK_MIN_Y, CHUNK_SIZE, CHUNK_VOLUME,
};
use obsidium::game::world::registry::{ItemInfo, ItemRegistry};
use obsidium::game::world::ChunkPosition;
use obsidium::protocol::state::{ConnectionState, ProtocolState};

#[test]
fn new_chunks_hold_air() {
    let chunk = Chunk::new(ChunkPosition::new(3, -4));
    assert_eq!(chunk.position(), ChunkPosition::new(3, -4));
    assert!(!chunk.is_modified());
    assert!(chunk.is_empty());
    assert_eq!(chunk.count_blocks(), 0);
    assert_eq!(chunk.get_block(0, 0, 0), Some(0));
    assert_eq!(chunk.get_block(15, 383, 15), Some(0));
    assert_eq!(chunk.get_block(16, 0, 0), None);
    assert_eq!(chunk.get_block(0, 384, 0), None);
    assert_eq!(chunk.get_block(0, 0, 16), None);
    assert_eq!(chunk.get_height(0, 0), None);
    assert_eq!(chunk.get_height(16, 0), None);
    assert_eq!(chunk.blocks().len(), CHUNK_VOLUME);
    assert_eq!(CHUNK_SIZE * CHUNK_SIZE * CHUNK_HEIGHT, CHUNK_VOLUME);
    assert_eq!(CHUNK_MAX_Y - CHUNK_MIN_Y + 1, CHUNK_HEIGHT as i32);
}

#[test]
fn blocks_are_set_and_found_again() {
    let mut chunk = Chunk::new(ChunkPosition::new(0, 0));
    assert!(chunk.set_block(1, 2, 3, 9));
    assert!(chunk.is_modified());
    assert_eq!(chunk.get_block(1, 2, 3), Some(9));
    assert_eq!(chunk.get_block(3, 2, 1), Some(0));
    assert_eq!(chunk.blocks()[(2 * 16 + 3) * 16 + 1], 9);
    assert_eq!(chunk.count_blocks(), 1);
    assert!(!chunk.is_empty());
    assert_eq!(chunk.get_height(1, 3), Some(2));
    assert!(chunk.set_block(1, 300, 3, 1));
    assert_eq!(chunk.get_height(1, 3), Some(300));
    assert!(!chunk.set_block(16, 0, 0, 1));
    assert!(!chunk.set_block(0, 384, 0, 1));
    assert!(!chunk.set_block(0, 0, 16, 1));
    assert_eq!(chunk.count_blocks(), 2);
    chunk.mark_saved();
    assert!(!chunk.is_modified());
    assert!(chunk.set_block(1, 2, 3, 0));
    assert_eq!(chunk.count_blocks(), 1);
    assert!(Chunk::is_valid_position(15, 383, 15));
    assert!(!Chunk::is_valid_position(16, 0, 0));
    assert!(!Chunk::is_valid_position(0, 384, 0));
    assert!(!Chunk::is_valid_position(0, 0, 16));
}

#[test]
fn flat_chunks_have_bedrock_stone_dirt_and_grass() {
    let chunk = Chunk::generate_flat(ChunkPosition::new(1, 1));
    assert!(!chunk.is_modified());
    for (x, z) in [(0, 0), (15, 15), (7, 3)] {
        assert_eq!(chunk.get_block(x, 0, z), Some(7));
        assert_eq!(chunk.get_block(x, 1, z), Some(1));
        assert_eq!(chunk.get_block(x, 59, z), Some(1));
        assert_eq!(chunk.get_block(x, 60, z), Some(3));
        assert_eq!(chunk.get_block(x, 62, z), Some(3));
        assert_eq!(chunk.get_block(x, 63, z), Some(2));
        assert_eq!(chunk.get_block(x, 64, z), Some(0));
        assert_eq!(chunk.get_height(x, z), Some(63));
    }
    assert_eq!(chunk.count_blocks(), 64 * 256);
}

#[test]
fn chunk_positions_convert_to_world_coordinates() {
    assert_eq!(ChunkPosition::new(2, -3).world_x(), 32);
    assert_eq!(ChunkPosition::new(2, -3).world_z(), -48);
    assert_eq!(ChunkPosition::new(134217727, 0).world_x(), 2147483632);
    assert_eq!(ChunkPosition::new(134217728, 0).world_x(), i32::MIN);
    assert_eq!(ChunkPosition::new(i32::MIN, 0).world_x(), i32::MIN << 4);
    assert_eq!(ChunkPosition::new(-1, 0).world_x(), -16);
    assert_eq!(ChunkPosition::from_block_coords(0, 15), ChunkPosition::new(0, 0));
    assert_eq!(ChunkPosition::from_block_coords(16, -1), ChunkPosition::new(1, -1));
    assert_eq!(ChunkPosition::from_block_coords(-16, -17), ChunkPosition::new(-1, -2));
    assert_eq!(
        ChunkPosition::from_block_coords(i32::MIN, i32::MAX),
        ChunkPosition::new(i32::MIN >> 4, i32::MAX >> 4)
    );
}

#[test]
fn item_registry_holds_one_item_per_id() {
    let mut registry = ItemRegistry::new();
    assert_eq!(registry.item_count(), 3);
    assert_eq!(registry.get_item(276).unwrap().name, "minecraft:diamond_sword");
    assert_eq!(registry.get_item(276).unwrap().max_durability, Some(1561));
    assert_eq!(registry.get_item(1).unwrap().max_stack_size, 64);
    assert!(registry.get_item(2).is_none());
    assert_eq!(registry.get_item_id("minecraft:bread"), Some(364));
    assert_eq!(registry.get_item_id("minecraft:cake"), None);
    registry.register_item(ItemInfo {
        id: 364,
        name: "minecraft:cake".to_string(),
        max_stack_size: 1,
        damageable: false,
        max_durability: None,
    });
    assert_eq!(registry.item_count(), 3);
    assert_eq!(registry.get_item(364).unwrap().name, "minecraft:cake");
    assert_eq!(registry.get_item_id("minecraft:cake"), Some(364));
    assert_eq!(registry.get_item_id("minecraft:bread"), None);
    registry.register_item(ItemInfo {
        id: 400,
        name: "minecraft:stone".to_string(),
        max_stack_size: 1,
        damageable: false,
        max_durability: None,
    });
    assert_eq!(registry.item_count(), 4);
    assert_eq!(registry.get_item_id("minecraft:stone"), Some(400));
    assert_eq!(registry.all_items().len(), 4);
    assert_eq!(ItemRegistry::empty().item_count(), 0);
    assert_eq!(ItemRegistry::default().item_count(), 3);
}

#[test]
fn game_modes_have_wire_numbers() {
    assert_eq!(GameMode::Survival.id(), 0);
    assert_eq!(GameMode::Creative.id(), 1);
    assert_eq!(GameMode::Adventure.id(), 2);
    assert_eq!(GameMode::Spectator.id(), 3);
    assert_eq!(GameMode::from_id(2), Some(GameMode::Adventure));
    assert_eq!(GameMode::from_id(4), None);
    assert_ne!(EntityType::Mob(MobType::Cow), EntityType::Mob(MobType::Pig));
    assert_ne!(EntityType::Projectile(ProjectileType::Arrow), EntityType::Item);
}

#[test]
fn protocol_state_follows_the_rules_of_compression() {
    let mut state = ProtocolState::new();
    assert_eq!(state.state, ConnectionState::Handshaking);
    assert_eq!(ConnectionState::default(), ConnectionState::Handshaking);
    assert!(!state.compression_enabled);
    state.enable_compression(256);
    assert!(!state.compression_enabled);
    assert_eq!(state.compression_threshold, None);
    state.transition_to(ConnectionState::Status);
    state.enable_compression(256);
    assert!(!state.compression_enabled);
    state.transition_to(ConnectionState::Login);
    state.enable_compression(256);
    assert!(state.compression_enabled);
    assert_eq!(state.compression_threshold, Some(256));
    assert!(!state.should_compress(255));
    assert!(state.should_compress(256));
    state.disable_compression();
    assert!(!state.should_compress(256));
    assert_eq!(state.compression_threshold, None);
    state.set_protocol_version(770);
    assert_eq!(state.protocol_version, Some(770));
    assert!(!ConnectionState::Handshaking.allows_compression());
    assert!(!ConnectionState::Status.allows_compression());
    assert!(ConnectionState::Login.allows_compression());
    assert!(!ConnectionState::Configuration.allows_compression());
    assert!(ConnectionState::Play.allows_compression());
    assert_eq!(ConnectionState::Handshaking.as_str(), "handshaking");
    assert_eq!(ConnectionState::Status.as_str(), "status");
    assert_eq!(ConnectionState::Login.as_str(), "login");
    assert_eq!(ConnectionState::Configuration.as_str(), "configuration");
    assert_eq!(ConnectionState::Play.as_str(), "play");
    assert_eq!(ProtocolState::default().state, ConnectionState::Handshaking);
}
