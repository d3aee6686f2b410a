use obsidium::protocol::cursor::Cursor;
use obsidium::protocol::packets::configuration::{
    AcknowledgeFinishConfigurationPacket, FinishConfigurationPacket, RegistryDataPacket,
    RegistryEntry,
};
use obsidium::protocol::packets::Packet;

#[test]
fn test_registry_data_packet_empty() {
    let packet = RegistryDataPacket {
        registry_id: "minecraft:dimension_type".into(),
        entries: Vec::new(),
    };

    let mut buffer = Vec::new();
    packet.write(&mut buffer).unwrap();

    let mut cursor = Cursor::new(&buffer);
    let decoded = RegistryDataPacket::read(&mut cursor).unwrap();

    assert_eq!(packet.registry_id.0, decoded.registry_id.0);
    assert_eq!(packet.entries.len(), decoded.entries.len());
}

#[test]
fn test_finish_configuration_packet() {
    let packet = FinishConfigurationPacket;

    let mut buffer = Vec::new();
    packet.write(&mut buffer).unwrap();

    let mut cursor = Cursor::new(&buffer);
    let _decoded = FinishConfigurationPacket::read(&mut cursor).unwrap();

    // Should be empty packet
    assert_eq!(cursor.position(), 0);
}

#[test]
fn test_acknowledge_finish_configuration_packet() {
    let packet = AcknowledgeFinishConfigurationPacket;

    let mut buffer = Vec::new();
    packet.write(&mut buffer).unwrap();

    let mut cursor = Cursor::new(&buffer);
    let _decoded = AcknowledgeFinishConfigurationPacket::read(&mut cursor).unwrap();

    // Should be empty packet
    assert_eq!(cursor.position(), 0);
}

#[test]
fn registry_entries_travel_with_and_without_data() {
    let packet = RegistryDataPacket {
        registry_id: "r".into(),
        entries: vec![
            RegistryEntry { entry_id: "a".into(), has_data: true, data: Some(vec![1, 2, 3]) },
            RegistryEntry { entry_id: "b".into(), has_data: false, data: None },
        ],
    };
    let mut buffer = Vec::new();
    packet.write(&mut buffer).unwrap();
    assert_eq!(buffer, vec![1, b'r', 2, 1, b'a', 1, 3, 1, 2, 3, 1, b'b', 0]);
    let mut cursor = Cursor::new(&buffer);
    let decoded = RegistryDataPacket::read(&mut cursor).unwrap();
    assert_eq!(decoded.entries.len(), 2);
    assert_eq!(decoded.entries[0].entry_id.0, "a");
    assert!(decoded.entries[0].has_data);
    assert_eq!(decoded.entries[0].data, Some(vec![1, 2, 3]));
    assert_eq!(decoded.entries[1].entry_id.0, "b");
    assert!(!decoded.entries[1].has_data);
    assert_eq!(decoded.entries[1].data, None);
    assert_eq!(cursor.position(), buffer.len() as u64);
}

#[test]
fn registry_entry_with_mismatched_flag_is_refused() {
    let packet = RegistryDataPacket {
        registry_id: "r".into(),
        entries: vec![RegistryEntry { entry_id: "a".into(), has_data: true, data: None }],
    };
    let mut buffer = Vec::new();
    assert!(packet.write(&mut buffer).is_err());
}

#[test]
fn packet_ids_of_the_configuration_state() {
    assert_eq!(FinishConfigurationPacket::ID, 0x03);
    assert_eq!(AcknowledgeFinishConfigurationPacket::ID, 0x02);
    assert_eq!(RegistryDataPacket::ID, 0x07);
    assert_eq!(FinishConfigurationPacket::id().0, FinishConfigurationPacket::ID);
    assert_eq!(
        AcknowledgeFinishConfigurationPacket::id().0,
        AcknowledgeFinishConfigurationPacket::ID
    );
    assert_eq!(RegistryDataPacket::id().0, RegistryDataPacket::ID);
}
