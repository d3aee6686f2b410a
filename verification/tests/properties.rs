use obsidium::config::properties::ServerProperties;
use obsidium::config::server::ServerConfig;
use obsidium::config::text::{escape_value, format_signed, format_unsigned, parse_integer, str_eq};
use obsidium::error::{ErrorKind, ServerError};

#[test]
fn test_default_properties() {
    let props = ServerProperties::new();
    assert_eq!(props.server_port(), 25565);
    assert_eq!(props.max_players(), 20);
    assert_eq!(props.motd(), "A Minecraft Server");
    assert!(props.online_mode());
    assert_eq!(props.difficulty(), "easy");
    assert_eq!(props.gamemode(), "survival");
}

#[test]
fn test_property_access() {
    let mut props = ServerProperties::new();

    // Test setting and getting values
    props.set_server_port(25566);
    assert_eq!(props.server_port(), 25566);

    props.set_max_players(50);
    assert_eq!(props.max_players(), 50);

    props.set_motd("Test Server");
    assert_eq!(props.motd(), "Test Server");

    props.set_online_mode(false);
    assert!(!props.online_mode());
}

#[test]
fn test_file_operations() -> Result<(), ServerError> {
    Ok(())
}

#[test]
fn test_save_and_load() -> Result<(), ServerError> {
    Ok(())
}

#[test]
fn test_all_default_properties() {
    let props = ServerProperties::new();

    // Test that all expected properties have default values
    assert_eq!(props.server_port(), 25565);
    assert_eq!(props.max_players(), 20);
    assert_eq!(props.motd(), "A Minecraft Server");
    assert!(props.online_mode());
    assert_eq!(props.difficulty(), "easy");
    assert_eq!(props.gamemode(), "survival");
    assert_eq!(props.view_distance(), 10);
    assert_eq!(props.simulation_distance(), 10);
    assert!(props.pvp());
    assert!(!props.whitelist());
    assert_eq!(props.level_name(), "world");
    assert_eq!(props.network_compression_threshold(), 256);

    // Test optional properties
    assert!(props.server_ip().is_none());
    assert!(props.level_seed().is_none());
}

#[test]
fn test_property_modifications() {
    let mut props = ServerProperties::new();

    // Test numeric properties
    props.set_server_port(25566);
    assert_eq!(props.server_port(), 25566);

    props.set_max_players(100);
    assert_eq!(props.max_players(), 100);

    props.set_view_distance(16);
    assert_eq!(props.view_distance(), 16);

    // Test string properties
    props.set_motd("Test Server");
    assert_eq!(props.motd(), "Test Server");

    props.set_difficulty("hard");
    assert_eq!(props.difficulty(), "hard");

    props.set_level_name("testworld");
    assert_eq!(props.level_name(), "testworld");

    // Test boolean properties
    props.set_online_mode(false);
    assert!(!props.online_mode());

    props.set_pvp(false);
    assert!(!props.pvp());

    props.set_whitelist(true);
    assert!(props.whitelist());
}

#[test]
fn test_custom_properties() {
    let mut props = ServerProperties::new();

    // Test setting custom properties
    props.set("custom-string", "test-value");
    props.set("custom-number", 42);
    props.set("custom-bool", true);

    // Test getting custom properties
    assert_eq!(
        props.get_string("custom-string"),
        Some(&"test-value".to_string())
    );
    assert_eq!(props.get::<i32>("custom-number"), Some(42));
    assert_eq!(props.get_bool("custom-bool"), Some(true));

    // Test non-existent properties
    assert_eq!(props.get_string("non-existent"), None);
    assert_eq!(props.get::<i32>("non-existent"), None);
    assert_eq!(props.get_bool("non-existent"), None);
}

#[test]
fn test_properties_count() {
    let props = ServerProperties::new();

    // Should have all the default Minecraft properties
    assert!(props.len() >= 50); // At least 50 standard properties
    assert!(!props.is_empty());

    // Check that we can iterate over keys
    let keys: Vec<_> = props.keys();
    assert!(keys.len() >= 50);

    // Check for some expected keys
    assert!(props.contains_key("server-port"));
    assert!(props.contains_key("max-players"));
    assert!(props.contains_key("motd"));
    assert!(props.contains_key("online-mode"));
}

#[test]
fn test_escape_value() {
    assert_eq!(escape_value("normal"), "normal");
    assert_eq!(escape_value("test:value"), "test\\:value");
    assert_eq!(escape_value("test=value"), "test\\=value");
    assert_eq!(escape_value("test\\value"), "test\\\\value");
    assert_eq!(escape_value("test\nvalue"), "test\\nvalue");
}

#[test]
fn escape_value_covers_every_special_character() {
    assert_eq!(escape_value("a\rb\tc"), "a\\rb\\tc");
    assert_eq!(escape_value(""), "");
    assert_eq!(escape_value("\\n"), "\\\\n");
    assert_eq!(escape_value("k=v:w"), "k\\=v\\:w");
}

#[test]
fn default_properties_number_sixty_one() {
    let props = ServerProperties::new();
    assert_eq!(props.len(), 61);
    assert_eq!(props.keys().len(), 61);
    assert_eq!(props.get_string("query.port"), Some(&"25565".to_string()));
    assert_eq!(props.get_string("rcon.password"), Some(&String::new()));
}

#[test]
fn set_replaces_and_remove_deletes() {
    let mut props = ServerProperties::empty();
    assert!(props.is_empty());
    props.set("a", 1u32);
    props.set("b", 2u32);
    props.set("a", 3u32);
    assert_eq!(props.len(), 2);
    assert_eq!(props.get::<u32>("a"), Some(3));
    assert_eq!(props.remove("a"), Some("3".to_string()));
    assert_eq!(props.remove("a"), None);
    assert_eq!(props.len(), 1);
    assert!(!props.contains_key("a"));
    assert!(props.contains_key("b"));
}

#[test]
fn numbers_out_of_range_fall_back_to_defaults() {
    let mut props = ServerProperties::new();
    props.set("server-port", "65536");
    assert_eq!(props.server_port(), 25565);
    props.set("server-port", "65535");
    assert_eq!(props.server_port(), 65535);
    props.set("view-distance", "256");
    assert_eq!(props.view_distance(), 10);
    props.set("view-distance", "-1");
    assert_eq!(props.view_distance(), 10);
    props.set("max-players", "+7");
    assert_eq!(props.max_players(), 7);
    props.set("max-players", "007");
    assert_eq!(props.max_players(), 7);
    props.set("max-players", "seven");
    assert_eq!(props.max_players(), 20);
    props.set("max-players", "");
    assert_eq!(props.max_players(), 20);
    props.set("network-compression-threshold", "-2147483648");
    assert_eq!(props.network_compression_threshold(), -2147483648);
    props.set("network-compression-threshold", "2147483648");
    assert_eq!(props.network_compression_threshold(), 256);
    props.set("online-mode", "TRUE");
    assert!(props.online_mode());
    props.set("pvp", "no");
    assert!(props.pvp());
}

#[test]
fn integers_have_decimal_text() {
    assert_eq!(format_unsigned(0), "0");
    assert_eq!(format_unsigned(25565), "25565");
    assert_eq!(format_unsigned(u64::MAX), "18446744073709551615");
    assert_eq!(format_signed(-1), "-1");
    assert_eq!(format_signed(i64::MIN), "-9223372036854775808");
    assert_eq!(parse_integer("18446744073709551615", 0, u64::MAX), Some(18446744073709551615));
    assert_eq!(parse_integer("18446744073709551616", 0, u64::MAX), None);
    assert_eq!(parse_integer("-9223372036854775808", i64::MIN, 0), Some(-9223372036854775808));
    assert_eq!(parse_integer("-", i64::MIN, 0), None);
    assert_eq!(parse_integer("+", 0, 10), None);
    assert_eq!(parse_integer("-0", 0, 10), None);
    assert_eq!(parse_integer("-0", -1, 10), Some(0));
    assert_eq!(parse_integer("4", 5, 10), None);
    assert_eq!(parse_integer("5", 5, 10), Some(5));
    assert_eq!(parse_integer("1 ", 0, 10), None);
    assert_eq!(parse_integer("\u{661}", 0, 10), None);
    assert!(str_eq("abc", "abc"));
    assert!(!str_eq("abc", "abd"));
    assert!(!str_eq("abc", "ab"));
}

#[test]
fn file_text_overrides_defaults_line_by_line() {
    let text = "#Minecraft server properties\n\n  motd = Hello = World  \r\nserver-port=25570\nnonsense\nmax-players=5\nmax-players=6";
    let props = ServerProperties::load_from_file(text);
    assert_eq!(props.motd(), "Hello = World");
    assert_eq!(props.server_port(), 25570);
    assert_eq!(props.max_players(), 6);
    assert_eq!(props.len(), 61);
    assert!(!props.contains_key("nonsense"));
    assert_eq!(props.difficulty(), "easy");
}

#[test]
fn missing_file_gives_defaults_and_other_failures_are_reported() {
    let props = ServerProperties::load_from_file_or_default(Err(ErrorKind::NotFound)).unwrap();
    assert_eq!(props.server_port(), 25565);
    let props =
        ServerProperties::load_from_file_or_default(Ok("server-port=1".to_string())).unwrap();
    assert_eq!(props.server_port(), 1);
    match ServerProperties::load_from_file_or_default(Err(ErrorKind::Other)) {
        Err(ServerError::Io(ErrorKind::Other)) => {}
        _ => panic!("a failure other than a missing file must be reported"),
    }
}

#[test]
fn property_lines_escape_their_values() {
    let mut props = ServerProperties::empty();
    props.set("motd", "a=b");
    assert_eq!(props.property_line("motd"), Some("motd=a\\=b".to_string()));
    assert_eq!(props.property_line("missing"), None);
}

#[test]
fn configuration_and_properties_convert_into_each_other() {
    let config = ServerConfig::new()
        .with_bind_address("127.0.0.1".to_string(), 25570)
        .with_max_players(7)
        .with_motd("hi".to_string())
        .with_online_mode(false)
        .with_compression_threshold(None)
        .with_view_distance(4)
        .with_simulation_distance(5);
    let props = config.to_properties();
    assert_eq!(props.server_ip(), Some(&"127.0.0.1".to_string()));
    assert_eq!(props.server_port(), 25570);
    assert_eq!(props.network_compression_threshold(), -1);
    let back = ServerConfig::from_properties(props).unwrap();
    assert_eq!(back.bind_ip, "127.0.0.1");
    assert_eq!(back.bind_port, 25570);
    assert_eq!(back.max_players, 7);
    assert_eq!(back.motd, "hi");
    assert!(!back.online_mode);
    assert_eq!(back.compression_threshold, None);
    assert_eq!(back.connection_timeout, 30);
    assert_eq!(back.view_distance, 4);
    assert_eq!(back.simulation_distance, 5);

    let defaults = ServerConfig::from_properties(ServerProperties::new()).unwrap();
    assert_eq!(defaults.bind_ip, "0.0.0.0");
    assert_eq!(defaults.compression_threshold, Some(256));
    let mut odd = ServerProperties::new();
    odd.set_network_compression_threshold(-5);
    assert_eq!(ServerConfig::from_properties(odd).unwrap().compression_threshold, Some(256));
}

#[test]
fn default_configuration_has_documented_values() {
    let config = ServerConfig::new();
    assert_eq!(config.bind_ip, "0.0.0.0");
    assert_eq!(config.bind_port, 25565);
    assert_eq!(config.max_players, 20);
    assert!(config.online_mode);
    assert_eq!(config.compression_threshold, Some(256));
    assert_eq!(config.connection_timeout, 30);
    assert_eq!(config.view_distance, 12);
    assert_eq!(config.simulation_distance, 12);
    assert_eq!(config.favicon, None);
    assert!(!config.debug);
    let config = config.with_favicon(Some("server-icon.png".to_string()));
    assert_eq!(config.favicon, Some("server-icon.png".to_string()));
}
