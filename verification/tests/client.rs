use obsidium::client::ClientConnection;
use obsidium::config::server::ServerConfig;
use obsidium::error::ServerError;
use obsidium::network::codec::PacketCodec;
use obsidium::protocol::packets::handshaking::HandshakePacket;
use obsidium::protocol::packets::login::{LoginAcknowledgedPacket, LoginStartPacket};
use obsidium::protocol::packets::configuration::AcknowledgeFinishConfigurationPacket;
use obsidium::protocol::packets::status::{PingRequestPacket, StatusRequestPacket};
use obsidium::protocol::state::ConnectionState;
use obsidium::protocol::types::{McUuid, VarInt};
use obsidium::server::minecraft::Reaction;

fn handshake(next: i32) -> Vec<u8> {
    PacketCodec::encode(&HandshakePacket {
        protocol_version: VarInt(770),
        server_address: "localhost".into(),
        server_port: 25565,
        next_state: VarInt(next),
    })
    .unwrap()
}

#[test]
fn bytes_are_handled_frame_by_frame() {
    let config = ServerConfig::new();
    let mut session = ClientConnection::new(config, "{\"a\":1}".to_string(), 0);
    let mut wire = handshake(1);
    wire.extend_from_slice(&PacketCodec::encode(&StatusRequestPacket).unwrap());
    let ping = PacketCodec::encode(&PingRequestPacket { payload: 42 }).unwrap();
    // The ping arrives in two pieces.
    wire.extend_from_slice(&ping[..4]);
    let mut out = Vec::new();
    let (used, reaction) = session.process_data(&wire, &mut out);
    assert!(matches!(reaction, Ok(Reaction::Continue)));
    assert_eq!(used, wire.len() - 4);
    assert_eq!(session.state(), ConnectionState::Status);
    assert_eq!(out, vec![9, 0, 7, b'{', b'"', b'a', b'"', b':', b'1', b'}']);

    let mut rest = wire[used..].to_vec();
    rest.extend_from_slice(&ping[4..]);
    rest.extend_from_slice(&[1, 2, 3]);
    let mut out = Vec::new();
    let (used, reaction) = session.process_data(&rest, &mut out);
    assert!(matches!(reaction, Ok(Reaction::Close)));
    assert_eq!(used, ping.len());
    assert_eq!(out, vec![9, 1, 0, 0, 0, 0, 0, 0, 0, 42]);
}

#[test]
fn a_whole_login_in_one_read() {
    let config = ServerConfig::new().with_compression_threshold(None);
    let mut session = ClientConnection::new(config, "{}".to_string(), 0);
    let uuid = McUuid::from_bytes([9; 16]);
    let mut wire = handshake(2);
    let first = wire.len();
    wire.extend_from_slice(
        &PacketCodec::encode(&LoginStartPacket { name: "Alex".into(), player_uuid: uuid }).unwrap(),
    );
    let second = wire.len();
    wire.extend_from_slice(&PacketCodec::encode(&LoginAcknowledgedPacket).unwrap());
    wire.extend_from_slice(&PacketCodec::encode(&AcknowledgeFinishConfigurationPacket).unwrap());
    let mut out = Vec::new();
    // Handling stops after the login start, so that the player can be entered.
    let (used, reaction) = session.process_data(&wire, &mut out);
    assert!(first < used);
    assert_eq!(used, second);
    match reaction {
        Ok(Reaction::Joined(login)) => assert_eq!(login.name.0, "Alex"),
        _ => panic!("the login start makes the player join"),
    }
    assert_eq!(session.state(), ConnectionState::Configuration);
    let (used, reaction) = session.process_data(&wire[second..], &mut out);
    assert!(matches!(reaction, Ok(Reaction::Continue)));
    assert_eq!(used, wire.len() - second);
    assert_eq!(session.state(), ConnectionState::Play);
    assert_eq!(session.connection().state(), ConnectionState::Play);
}

#[test]
fn malformed_frames_end_the_session() {
    let config = ServerConfig::new();
    let mut session = ClientConnection::new(config, "{}".to_string(), 0);
    let mut out = Vec::new();
    let (used, reaction) = session.process_data(&[0x00], &mut out);
    assert_eq!(used, 0);
    match reaction {
        Err(ServerError::Protocol(_)) => {}
        _ => panic!("a frame of length zero is a protocol fault"),
    }
    // A frame whose packet is refused counts as used up.
    let (used, reaction) = session.process_data(&[1, 5], &mut out);
    assert_eq!(used, 2);
    assert!(reaction.is_err());
    assert_eq!(session.state(), ConnectionState::Handshaking);
    let (used, reaction) = session.process_data(&[], &mut out);
    assert_eq!(used, 0);
    assert!(matches!(reaction, Ok(Reaction::Continue)));
    session.set_status_json("{\"b\":2}".to_string());
    let mut body = Vec::new();
    VarInt(0).write(&mut body).unwrap();
    assert!(session.handle_packet(&body, &mut out).is_err());
    assert!(out.is_empty());
}
