use obsidium::error::{ErrorKind, ServerError};
use obsidium::protocol::cursor::Cursor;
use obsidium::protocol::list::{read_counted, read_list, write_counted, write_list};
use obsidium::protocol::packets::login::{
    LoginAcknowledgedPacket, LoginStartPacket, LoginSuccessPacket, Property,
    SetCompressionPacket,
};
use obsidium::protocol::packets::status::{
    PingRequestPacket, PingResponsePacket, StatusRequestPacket, StatusResponsePacket,
};
use obsidium::protocol::packets::handshaking::HandshakePacket;
use obsidium::protocol::packets::Packet;
use obsidium::protocol::types::{McString, McUuid, VarInt};

#[test]
fn packet_ids_are_those_of_the_protocol() {
    assert_eq!(HandshakePacket::ID, 0x00);
    assert_eq!(StatusRequestPacket::ID, 0x00);
    assert_eq!(StatusResponsePacket::ID, 0x00);
    assert_eq!(PingRequestPacket::ID, 0x01);
    assert_eq!(PingResponsePacket::ID, 0x01);
    assert_eq!(LoginStartPacket::ID, 0x00);
    assert_eq!(LoginSuccessPacket::ID, 0x02);
    assert_eq!(SetCompressionPacket::ID, 0x03);
    assert_eq!(LoginAcknowledgedPacket::ID, 0x03);
    assert_eq!(HandshakePacket::id().0, HandshakePacket::ID);
    assert_eq!(StatusRequestPacket::id().0, StatusRequestPacket::ID);
    assert_eq!(StatusResponsePacket::id().0, StatusResponsePacket::ID);
    assert_eq!(PingRequestPacket::id().0, PingRequestPacket::ID);
    assert_eq!(PingResponsePacket::id().0, PingResponsePacket::ID);
    assert_eq!(LoginStartPacket::id().0, LoginStartPacket::ID);
    assert_eq!(LoginSuccessPacket::id().0, LoginSuccessPacket::ID);
    assert_eq!(SetCompressionPacket::id().0, SetCompressionPacket::ID);
    assert_eq!(LoginAcknowledgedPacket::id().0, LoginAcknowledgedPacket::ID);
}

#[test]
fn status_packets_roundtrip() {
    let mut out = Vec::new();
    StatusRequestPacket.write(&mut out).unwrap();
    assert!(out.is_empty());
    assert!(StatusRequestPacket::read(&mut Cursor::new(&out)).is_ok());

    let packet = StatusResponsePacket { json_response: "{}".into() };
    packet.write(&mut out).unwrap();
    assert_eq!(out, vec![2, b'{', b'}']);
    assert_eq!(StatusResponsePacket::read(&mut Cursor::new(&out)).unwrap().json_response.0, "{}");

    let mut out = Vec::new();
    PingRequestPacket { payload: 42 }.write(&mut out).unwrap();
    assert_eq!(out, vec![0, 0, 0, 0, 0, 0, 0, 42]);
    assert_eq!(PingRequestPacket::read(&mut Cursor::new(&out)).unwrap().payload, 42);
    assert_eq!(PingResponsePacket::read(&mut Cursor::new(&out)).unwrap().payload, 42);
    let mut again = Vec::new();
    PingResponsePacket { payload: 42 }.write(&mut again).unwrap();
    assert_eq!(again, out);
    match PingRequestPacket::read(&mut Cursor::new(&out[..7])) {
        Err(ServerError::Io(ErrorKind::UnexpectedEof)) => {}
        _ => panic!("seven bytes are no ping"),
    }
}

#[test]
fn login_start_is_limited_to_sixteen_bytes_of_name() {
    let uuid = McUuid::from_bytes([3; 16]);
    let packet = LoginStartPacket { name: "Alex".into(), player_uuid: uuid };
    let mut out = Vec::new();
    packet.write(&mut out).unwrap();
    let mut expected = vec![4, b'A', b'l', b'e', b'x'];
    expected.extend_from_slice(&[3; 16]);
    assert_eq!(out, expected);
    let decoded = LoginStartPacket::read(&mut Cursor::new(&out)).unwrap();
    assert_eq!(decoded.name.0, "Alex");
    assert_eq!(decoded.player_uuid, uuid);

    let long = LoginStartPacket { name: "a".repeat(17).as_str().into(), player_uuid: uuid };
    let mut out = Vec::new();
    assert!(long.write(&mut out).is_err());
    let mut wire = vec![17];
    wire.extend_from_slice(&[b'a'; 17]);
    wire.extend_from_slice(&[3; 16]);
    match LoginStartPacket::read(&mut Cursor::new(&wire)) {
        Err(ServerError::Protocol(_)) => {}
        _ => panic!("a name of 17 bytes must be refused"),
    }
}

#[test]
fn login_success_carries_properties_and_nothing_after_them() {
    let uuid = McUuid::from_bytes([1; 16]);
    let packet = LoginSuccessPacket {
        uuid,
        username: "Alex".into(),
        properties: vec![
            Property { name: "textures".into(), value: "abc".into(), signature: Some("sig".into()) },
            Property { name: "plain".into(), value: "".into(), signature: None },
        ],
    };
    let mut out = Vec::new();
    packet.write(&mut out).unwrap();
    let mut expected = vec![1; 16];
    expected.extend_from_slice(&[4, b'A', b'l', b'e', b'x', 2]);
    expected.extend_from_slice(&[8]);
    expected.extend_from_slice(b"textures");
    expected.extend_from_slice(&[3, b'a', b'b', b'c', 1, 3, b's', b'i', b'g']);
    expected.extend_from_slice(&[5, b'p', b'l', b'a', b'i', b'n', 0, 0]);
    assert_eq!(out, expected);
    let mut cursor = Cursor::new(&out);
    let decoded = LoginSuccessPacket::read(&mut cursor).unwrap();
    assert_eq!(cursor.position(), out.len() as u64);
    assert_eq!(decoded.uuid, uuid);
    assert_eq!(decoded.username.0, "Alex");
    assert_eq!(decoded.properties.len(), 2);
    assert_eq!(decoded.properties[0].name.0, "textures");
    assert_eq!(decoded.properties[0].value.0, "abc");
    assert_eq!(decoded.properties[0].signature, Some(McString::from("sig")));
    assert_eq!(decoded.properties[1].signature, None);

    let mut wire = Vec::new();
    packet.properties[0].write(&mut wire).unwrap();
    let property = Property::read(&mut Cursor::new(&wire)).unwrap();
    assert_eq!(property.name.0, "textures");
}

#[test]
fn a_negative_count_announces_no_element() {
    let mut wire = vec![1; 16];
    wire.extend_from_slice(&[1, b'A', 0xFF, 0xFF, 0xFF, 0xFF, 0x0F]);
    let decoded = LoginSuccessPacket::read(&mut Cursor::new(&wire)).unwrap();
    assert!(decoded.properties.is_empty());
}

#[test]
fn set_compression_and_login_acknowledged_roundtrip() {
    let mut out = Vec::new();
    SetCompressionPacket { threshold: VarInt(256) }.write(&mut out).unwrap();
    assert_eq!(out, vec![0x80, 0x02]);
    assert_eq!(
        SetCompressionPacket::read(&mut Cursor::new(&out)).unwrap().threshold,
        VarInt(256)
    );
    let mut out = Vec::new();
    LoginAcknowledgedPacket.write(&mut out).unwrap();
    assert!(out.is_empty());
    assert!(LoginAcknowledgedPacket::read(&mut Cursor::new(&out)).is_ok());
}

#[test]
fn lists_are_read_and_written_element_by_element() {
    let names: Vec<McString> = vec!["a".into(), "bc".into()];
    let mut out = Vec::new();
    write_list(&names, &mut out).unwrap();
    assert_eq!(out, vec![1, b'a', 2, b'b', b'c']);
    assert_eq!(read_list::<McString>(&mut Cursor::new(&out), 2).unwrap(), names);
    assert!(read_list::<McString>(&mut Cursor::new(&out), 3).is_err());
    assert_eq!(read_list::<McString>(&mut Cursor::new(&out), 0).unwrap(), Vec::<McString>::new());
    let mut out = Vec::new();
    write_counted(&names, &mut out).unwrap();
    assert_eq!(out, vec![2, 1, b'a', 2, b'b', b'c']);
    assert_eq!(read_counted::<McString>(&mut Cursor::new(&out)).unwrap(), names);
    let bad: Vec<McString> = vec!["a".into(), "b".repeat(32768).as_str().into()];
    let mut out = Vec::new();
    assert!(write_list(&bad, &mut out).is_err());
    assert_eq!(out, vec![1, b'a']);
}
