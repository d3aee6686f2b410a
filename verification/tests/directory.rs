use obsidium::config::properties::ServerProperties;
use obsidium::game::directory::PlayerDirectory;
use obsidium::text_map::TextMap;

#[test]
fn directory_has_one_entry_per_address() {
    let mut directory: PlayerDirectory<String> = PlayerDirectory::new();
    assert_eq!(directory.player_count(), 0);
    directory.add_player("uuid-1", "Alex".to_string(), "127.0.0.1:1000");
    directory.add_player("uuid-2", "Steve".to_string(), "127.0.0.1:1001");
    assert_eq!(directory.player_count(), 2);
    assert_eq!(directory.get_player("uuid-1"), Some(&"Alex".to_string()));
    assert_eq!(directory.get_player_by_addr("127.0.0.1:1001"), Some(&"Steve".to_string()));
    assert_eq!(directory.get_player_by_addr("127.0.0.1:1002"), None);
    assert_eq!(directory.get_player("uuid-3"), None);
    assert_eq!(directory.get_all_players(), vec![&"Alex".to_string(), &"Steve".to_string()]);

    // A second player under the same address replaces the note of the first.
    directory.add_player("uuid-3", "Kai".to_string(), "127.0.0.1:1000");
    assert_eq!(directory.player_count(), 3);
    assert_eq!(directory.get_player_by_addr("127.0.0.1:1000"), Some(&"Kai".to_string()));
    assert_eq!(directory.remove_player("127.0.0.1:1000"), Some("Kai".to_string()));
    assert_eq!(directory.remove_player("127.0.0.1:1000"), None);
    assert_eq!(directory.player_count(), 2);
    assert_eq!(directory.get_player("uuid-1"), Some(&"Alex".to_string()));

    directory.update_player("uuid-2", "Steve2".to_string());
    assert_eq!(directory.get_player_by_addr("127.0.0.1:1001"), Some(&"Steve2".to_string()));
    assert_eq!(directory.remove_player("127.0.0.1:1001"), Some("Steve2".to_string()));
    assert_eq!(directory.player_count(), 1);
}

#[test]
fn closing_an_idle_connection_removes_its_player() {
    let mut directory: PlayerDirectory<u32> = PlayerDirectory::new();
    directory.add_player("00000000-0000-0000-0000-000000000001", 7, "10.0.0.1:50000");
    let mut connection = obsidium::network::connection::Connection::new(0);
    connection.touch(1_000);
    let timeout = 30_000;
    assert!(!connection.is_timed_out(31_000, timeout));
    assert!(connection.is_timed_out(31_001, timeout));
    assert_eq!(directory.remove_player("10.0.0.1:50000"), Some(7));
    assert_eq!(directory.player_count(), 0);
    assert_eq!(directory.get_player("00000000-0000-0000-0000-000000000001"), None);
}

#[test]
fn text_maps_store_one_value_per_key() {
    let mut map: TextMap<i32> = TextMap::new();
    assert_eq!(map.len(), 0);
    map.insert("a", 1);
    map.insert("b", 2);
    map.insert("a", 3);
    assert_eq!(map.len(), 2);
    assert_eq!(map.get("a"), Some(&3));
    assert_eq!(map.get("c"), None);
    assert!(map.contains_key("b"));
    assert_eq!(map.value_at(0), Some(&3));
    assert_eq!(map.value_at(1), Some(&2));
    assert_eq!(map.value_at(2), None);
    assert_eq!(map.key_at(1), Some(&"b".to_string()));
    assert_eq!(map.key_at(2), None);
    assert_eq!(map.remove("a"), Some(3));
    assert_eq!(map.remove("a"), None);
    assert_eq!(map.len(), 1);
    assert_eq!(map.value_at(0), Some(&2));
}

#[test]
fn remaining_property_setters_store_their_text() {
    let mut props = ServerProperties::new();
    props.set_gamemode("creative");
    assert_eq!(props.gamemode(), "creative");
    props.set_level_seed("12345");
    assert_eq!(props.level_seed(), Some(&"12345".to_string()));
    props.set_server_ip("127.0.0.1");
    assert_eq!(props.server_ip(), Some(&"127.0.0.1".to_string()));
    props.set_simulation_distance(5);
    assert_eq!(props.simulation_distance(), 5);
    props.set_network_compression_threshold(-1);
    assert_eq!(props.network_compression_threshold(), -1);
    assert_eq!(props.get_string("network-compression-threshold"), Some(&"-1".to_string()));
    props.set_max_players(4294967295);
    assert_eq!(props.get_string("max-players"), Some(&"4294967295".to_string()));
    assert_eq!(props.max_players(), 4294967295);
}
