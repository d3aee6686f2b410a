use obsidium::config::server::ServerConfig;
use obsidium::error::ServerError;
use obsidium::network::connection::Connection;
use obsidium::protocol::cursor::Cursor;
use obsidium::protocol::packets::configuration::{
    AcknowledgeFinishConfigurationPacket, FinishConfigurationPacket,
};
use obsidium::protocol::packets::handshaking::HandshakePacket;
use obsidium::protocol::packets::login::{
    LoginAcknowledgedPacket, LoginStartPacket, LoginSuccessPacket, SetCompressionPacket,
};
use obsidium::protocol::packets::play::LoginPlayPacket;
use obsidium::protocol::packets::status::{
    Description, PingRequestPacket, PingResponsePacket, StatusRequestPacket,
    StatusResponsePacket,
};
use obsidium::protocol::packets::Packet;
use obsidium::protocol::state::ConnectionState;
use obsidium::protocol::types::{McUuid, VarInt};
use obsidium::server::minecraft::{MinecraftServer, Reaction};

fn body_of<P: Packet>(packet: &P) -> Vec<u8> {
    let mut body = Vec::new();
    packet.write(&mut body).unwrap();
    body
}

fn handshake(next: i32) -> Vec<u8> {
    body_of(&HandshakePacket {
        protocol_version: VarInt(770),
        server_address: "localhost".into(),
        server_port: 25565,
        next_state: VarInt(next),
    })
}

fn status_json(server: &MinecraftServer) -> String {
    let status = server.status();
    let mut version = serde_json::Map::new();
    version.insert("name".to_string(), serde_json::Value::from(status.version.name.clone()));
    version.insert("protocol".to_string(), serde_json::Value::from(status.version.protocol));
    let mut players = serde_json::Map::new();
    players.insert("max".to_string(), serde_json::Value::from(status.players.max));
    players.insert("online".to_string(), serde_json::Value::from(status.players.online));
    let mut root = serde_json::Map::new();
    root.insert("version".to_string(), serde_json::Value::Object(version));
    root.insert("players".to_string(), serde_json::Value::Object(players));
    let description = match &status.description {
        Description::Text(text) => serde_json::Value::from(text.clone()),
        Description::Rich(json) => serde_json::from_str(json).unwrap(),
    };
    root.insert("description".to_string(), description);
    root.insert(
        "enforcesSecureChat".to_string(),
        serde_json::Value::from(status.enforces_secure_chat),
    );
    serde_json::Value::Object(root).to_string()
}

fn read_reply(connection: &mut Connection, out: &[u8], at: &mut usize) -> (VarInt, Vec<u8>) {
    let mut cursor = Cursor::new(&out[*at..]);
    let packet = connection.read_packet(&mut cursor).unwrap();
    *at += cursor.position() as usize;
    packet
}

#[test]
fn status_ping_flow() {
    let config = ServerConfig::new();
    let server = MinecraftServer::new(config.clone());
    let json = status_json(&server);
    let mut connection = Connection::new(0);
    let mut out = Vec::new();

    let reaction = MinecraftServer::handle_packet(
        &mut connection,
        VarInt(0),
        &handshake(1),
        &config,
        &json,
        &mut out,
    )
    .unwrap();
    assert!(matches!(reaction, Reaction::Continue));
    assert_eq!(connection.state(), ConnectionState::Status);
    assert_eq!(connection.protocol_version(), Some(770));
    assert!(out.is_empty());

    let reaction = MinecraftServer::handle_packet(
        &mut connection,
        VarInt(StatusRequestPacket::ID),
        &[],
        &config,
        &json,
        &mut out,
    )
    .unwrap();
    assert!(matches!(reaction, Reaction::Continue));
    let mut client = Connection::new(0);
    let mut at = 0;
    let (id, fields) = read_reply(&mut client, &out, &mut at);
    assert_eq!(id, VarInt(StatusResponsePacket::ID));
    let response = StatusResponsePacket::read(&mut Cursor::new(&fields)).unwrap();
    let document: serde_json::Value = serde_json::from_str(&response.json_response.0).unwrap();
    assert!(document.is_object());
    assert_eq!(document["version"]["protocol"], 770);
    assert_eq!(document["version"]["name"], "1.21.5");
    assert_eq!(document["players"]["max"], 20);
    assert_eq!(document["players"]["online"], 0);

    let ping = body_of(&PingRequestPacket { payload: 42 });
    let reaction = MinecraftServer::handle_packet(
        &mut connection,
        VarInt(PingRequestPacket::ID),
        &ping,
        &config,
        &json,
        &mut out,
    )
    .unwrap();
    assert!(matches!(reaction, Reaction::Close));
    let (id, fields) = read_reply(&mut client, &out, &mut at);
    assert_eq!(id, VarInt(PingResponsePacket::ID));
    assert_eq!(PingResponsePacket::read(&mut Cursor::new(&fields)).unwrap().payload, 42);
    assert_eq!(at, out.len());
    assert_eq!(connection.state(), ConnectionState::Status);
}

fn login(config: &ServerConfig, next: i32) -> (Connection, Connection, Vec<u8>) {
    let mut connection = Connection::new(0);
    let mut out = Vec::new();
    MinecraftServer::handle_packet(
        &mut connection,
        VarInt(0),
        &handshake(next),
        config,
        "{}",
        &mut out,
    )
    .unwrap();
    assert_eq!(connection.state(), ConnectionState::Login);

    let uuid = McUuid::from_bytes([0, 0, 0, 0, 0, 0, 0, 0, 0, 0, 0, 0, 0, 0, 0, 1]);
    let start = body_of(&LoginStartPacket { name: "Alex".into(), player_uuid: uuid });
    let reaction = MinecraftServer::handle_packet(
        &mut connection,
        VarInt(LoginStartPacket::ID),
        &start,
        config,
        "{}",
        &mut out,
    )
    .unwrap();
    match reaction {
        Reaction::Joined(player) => {
            assert_eq!(player.name.0, "Alex");
            assert_eq!(player.player_uuid, uuid);
        }
        _ => panic!("a login start makes the player join"),
    }
    assert_eq!(connection.state(), ConnectionState::Configuration);

    let mut client = Connection::new(0);
    client.set_state(ConnectionState::Login);
    let mut at = 0;
    if let Some(threshold) = config.compression_threshold {
        let (id, fields) = read_reply(&mut client, &out, &mut at);
        assert_eq!(id, VarInt(SetCompressionPacket::ID));
        let set = SetCompressionPacket::read(&mut Cursor::new(&fields)).unwrap();
        assert_eq!(set.threshold, VarInt(threshold as i32));
        client.enable_compression(threshold).unwrap();
    }
    let (id, fields) = read_reply(&mut client, &out, &mut at);
    assert_eq!(id, VarInt(LoginSuccessPacket::ID));
    let mut cursor = Cursor::new(&fields);
    let success = LoginSuccessPacket::read(&mut cursor).unwrap();
    assert_eq!(success.uuid, uuid);
    assert_eq!(success.username.0, "Alex");
    assert!(success.properties.is_empty());
    // No strict-error-handling byte follows the properties.
    assert_eq!(cursor.position(), fields.len() as u64);
    assert_eq!(at, out.len());
    (connection, client, out)
}

fn configure(config: &ServerConfig, connection: &mut Connection, client: &mut Connection) -> Vec<u8> {
    let mut out = Vec::new();
    let reaction = MinecraftServer::handle_packet(
        connection,
        VarInt(LoginAcknowledgedPacket::ID),
        &[],
        config,
        "{}",
        &mut out,
    )
    .unwrap();
    assert!(matches!(reaction, Reaction::Continue));
    assert_eq!(connection.state(), ConnectionState::Configuration);
    let mut at = 0;
    let (id, fields) = read_reply(client, &out, &mut at);
    assert_eq!(id, VarInt(FinishConfigurationPacket::ID));
    assert!(fields.is_empty());

    let reaction = MinecraftServer::handle_packet(
        connection,
        VarInt(AcknowledgeFinishConfigurationPacket::ID),
        &[],
        config,
        "{}",
        &mut out,
    )
    .unwrap();
    assert!(matches!(reaction, Reaction::Continue));
    assert_eq!(connection.state(), ConnectionState::Play);
    let (id, fields) = read_reply(client, &out, &mut at);
    assert_eq!(id, VarInt(LoginPlayPacket::ID));
    let play = LoginPlayPacket::read(&mut Cursor::new(&fields)).unwrap();
    assert_eq!(play.entity_id, 1);
    assert_eq!(play.max_players, VarInt(config.max_players as i32));
    assert_eq!(play.dimension_names.len(), 1);
    assert_eq!(play.dimension_names[0].0, "minecraft:overworld");
    assert_eq!(play.game_mode, 0);
    assert_eq!(play.previous_game_mode, -1);
    assert_eq!(at, out.len());
    out
}

#[test]
fn login_without_compression() {
    let config = ServerConfig::new().with_compression_threshold(None).with_max_players(33);
    let (mut connection, mut client, out) = login(&config, 2);
    // The first frame is the login success itself, in the plain framing.
    assert_eq!(out[1], LoginSuccessPacket::ID as u8);
    configure(&config, &mut connection, &mut client);
}

#[test]
fn login_with_compression() {
    let config = ServerConfig::new().with_compression_threshold(Some(256));
    let (mut connection, mut client, out) = login(&config, 2);
    // SetCompression travels in the plain framing: length, id, threshold.
    assert_eq!(&out[..4], &[3, 0x03, 0x80, 0x02]);
    // LoginSuccess is small: compressed framing with a zero data length.
    assert_eq!(out[5], 0);
    assert_eq!(out[6], LoginSuccessPacket::ID as u8);
    let sent = configure(&config, &mut connection, &mut client);
    // FinishConfiguration: length 2, data length 0, id 3.
    assert_eq!(&sent[..3], &[2, 0, 0x03]);
}

#[test]
fn large_packets_are_deflated_once_compression_is_on() {
    let config = ServerConfig::new().with_compression_threshold(Some(256));
    let (mut connection, mut client, _) = login(&config, 2);
    let mut out = Vec::new();
    let text = "x".repeat(1000);
    connection
        .write_packet(&StatusResponsePacket { json_response: text.as_str().into() }, &mut out)
        .unwrap();
    assert!(out.len() < 100);
    let mut cursor = Cursor::new(&out);
    let _length = VarInt::read(&mut cursor).unwrap();
    let data_length = VarInt::read(&mut cursor).unwrap();
    assert_eq!(data_length, VarInt(1003));
    let (id, fields) = client.read_packet(&mut Cursor::new(&out)).unwrap();
    assert_eq!(id, VarInt(StatusResponsePacket::ID));
    let decoded = StatusResponsePacket::read(&mut Cursor::new(&fields)).unwrap();
    assert_eq!(decoded.json_response.0, text);

    let mut out = Vec::new();
    let text = "x".repeat(252);
    connection
        .write_packet(&StatusResponsePacket { json_response: text.as_str().into() }, &mut out)
        .unwrap();
    // 1 + 2 + 252 = 255 bytes of payload stay literal.
    assert_eq!(&out[..3], &[0x80, 0x02, 0]);
    let mut out = Vec::new();
    let text = "x".repeat(253);
    connection
        .write_packet(&StatusResponsePacket { json_response: text.as_str().into() }, &mut out)
        .unwrap();
    // 256 bytes of payload reach the threshold.
    let mut cursor = Cursor::new(&out);
    let _length = VarInt::read(&mut cursor).unwrap();
    assert_eq!(VarInt::read(&mut cursor).unwrap(), VarInt(256));
}

#[test]
fn transfer_intent_is_treated_as_login() {
    let config = ServerConfig::new().with_compression_threshold(None);
    let (mut connection, mut client, _) = login(&config, 3);
    configure(&config, &mut connection, &mut client);
}

#[test]
fn idle_connections_time_out() {
    let config = ServerConfig::new().with_compression_threshold(None);
    let (mut connection, mut client, _) = login(&config, 2);
    configure(&config, &mut connection, &mut client);
    assert_eq!(connection.state(), ConnectionState::Play);
    let timeout = config.connection_timeout * 1000;
    connection.touch(5_000);
    assert!(!connection.is_timed_out(5_000, timeout));
    assert!(!connection.is_timed_out(5_000 + timeout, timeout));
    assert!(connection.is_timed_out(5_001 + timeout, timeout));
    assert_eq!(connection.idle_time(6_000), 1_000);
    assert_eq!(connection.idle_time(4_000), 0);
    assert_eq!(connection.uptime(6_000), 6_000);
    connection.touch(5_001 + timeout);
    assert!(!connection.is_timed_out(5_001 + timeout, timeout));
}

fn expect_protocol_fault<T>(r: Result<T, ServerError>) {
    match r {
        Err(ServerError::Protocol(_)) => {}
        Err(_) => panic!("expected a protocol fault, found another error"),
        Ok(_) => panic!("expected a protocol fault, found success"),
    }
}

#[test]
fn handshaking_accepts_only_the_handshake() {
    let config = ServerConfig::new();
    for id in [1, 2, 3, -1, 0x2B] {
        let mut connection = Connection::new(0);
        let mut out = Vec::new();
        expect_protocol_fault(MinecraftServer::handle_packet(
            &mut connection,
            VarInt(id),
            &handshake(1),
            &config,
            "{}",
            &mut out,
        ));
        assert_eq!(connection.state(), ConnectionState::Handshaking);
    }
    for next in [0, 4, -1, 770] {
        let mut connection = Connection::new(0);
        let mut out = Vec::new();
        expect_protocol_fault(MinecraftServer::handle_packet(
            &mut connection,
            VarInt(0),
            &handshake(next),
            &config,
            "{}",
            &mut out,
        ));
        assert_eq!(connection.state(), ConnectionState::Handshaking);
    }
    let mut connection = Connection::new(0);
    let mut out = Vec::new();
    let cut = handshake(1);
    match MinecraftServer::handle_packet(
        &mut connection,
        VarInt(0),
        &cut[..cut.len() - 1],
        &config,
        "{}",
        &mut out,
    ) {
        Err(ServerError::Io(_)) => {}
        _ => panic!("a handshake that ends early is a short read"),
    }
    let mut connection = Connection::new(0);
    MinecraftServer::handle_handshaking_packet(&mut connection, VarInt(0), &handshake(2))
        .unwrap();
    assert_eq!(connection.state(), ConnectionState::Login);
}

#[test]
fn compression_cannot_be_enabled_before_login() {
    for state in [ConnectionState::Handshaking, ConnectionState::Status] {
        let mut connection = Connection::new(0);
        connection.set_state(state);
        expect_protocol_fault(connection.enable_compression(256));
        let mut out = Vec::new();
        connection.write_packet(&PingResponsePacket { payload: 1 }, &mut out).unwrap();
        assert_eq!(out, vec![9, 1, 0, 0, 0, 0, 0, 0, 0, 1]);
    }
    // A login start in a state that does not allow compression is refused
    // before anything is sent.
    let config = ServerConfig::new().with_compression_threshold(Some(256));
    let mut connection = Connection::new(0);
    connection.set_state(ConnectionState::Status);
    let uuid = McUuid::from_bytes([7; 16]);
    let start = body_of(&LoginStartPacket { name: "Alex".into(), player_uuid: uuid });
    let mut out = Vec::new();
    expect_protocol_fault(MinecraftServer::handle_login_packet(
        &mut connection,
        VarInt(0),
        &start,
        &config,
        &mut out,
    ));
    assert!(out.is_empty());
    assert_eq!(connection.state(), ConnectionState::Status);
    for state in [ConnectionState::Login, ConnectionState::Play] {
        let mut connection = Connection::new(0);
        connection.set_state(state);
        connection.enable_compression(256).unwrap();
    }
    let mut connection = Connection::new(0);
    connection.set_state(ConnectionState::Configuration);
    expect_protocol_fault(connection.enable_compression(256));
}

#[test]
fn configuration_accepts_only_its_two_acknowledgements() {
    let config = ServerConfig::new().with_compression_threshold(None);
    for id in [0, 1, 4, 7, 0x2B, -1] {
        let (mut connection, _, _) = login(&config, 2);
        let mut out = Vec::new();
        expect_protocol_fault(MinecraftServer::handle_packet(
            &mut connection,
            VarInt(id),
            &[],
            &config,
            "{}",
            &mut out,
        ));
        assert_eq!(connection.state(), ConnectionState::Configuration);
        assert!(out.is_empty());
    }
}

#[test]
fn status_and_login_refuse_unexpected_packets() {
    let config = ServerConfig::new();
    let mut connection = Connection::new(0);
    connection.set_state(ConnectionState::Status);
    let mut out = Vec::new();
    expect_protocol_fault(MinecraftServer::handle_packet(
        &mut connection,
        VarInt(2),
        &[],
        &config,
        "{}",
        &mut out,
    ));
    match MinecraftServer::handle_packet(
        &mut connection,
        VarInt(1),
        &[0, 0, 0],
        &config,
        "{}",
        &mut out,
    ) {
        Err(ServerError::Io(_)) => {}
        _ => panic!("a ping without its payload is a short read"),
    }
    let mut connection = Connection::new(0);
    connection.set_state(ConnectionState::Login);
    expect_protocol_fault(MinecraftServer::handle_packet(
        &mut connection,
        VarInt(3),
        &[],
        &config,
        "{}",
        &mut out,
    ));
    assert!(out.is_empty());
}

#[test]
fn play_packets_change_nothing() {
    let config = ServerConfig::new();
    let mut connection = Connection::new(0);
    connection.set_state(ConnectionState::Play);
    let mut out = Vec::new();
    for id in [0, 0x18, 0x1A, 999] {
        let reaction = MinecraftServer::handle_packet(
            &mut connection,
            VarInt(id),
            &[1, 2, 3],
            &config,
            "{}",
            &mut out,
        )
        .unwrap();
        assert!(matches!(reaction, Reaction::Continue));
    }
    assert!(out.is_empty());
    assert_eq!(connection.state(), ConnectionState::Play);
}

#[test]
fn status_reports_the_configuration_and_the_player_count() {
    let config = ServerConfig::new().with_max_players(7).with_motd("hello".to_string());
    let mut server = MinecraftServer::new(config);
    assert_eq!(server.config().max_players, 7);
    assert_eq!(server.status().players.max, 7);
    assert_eq!(server.status().players.online, 0);
    assert!(server.status().players.sample.is_none());
    assert!(server.status().favicon.is_none());
    assert!(!server.status().enforces_secure_chat);
    match &server.status().description {
        Description::Text(text) => assert_eq!(text, "hello"),
        _ => panic!("the description is the MOTD as plain text"),
    }
    server.set_online(3);
    assert_eq!(server.status().players.online, 3);
    let document: serde_json::Value = serde_json::from_str(&status_json(&server)).unwrap();
    assert_eq!(document["players"]["online"], 3);
}
