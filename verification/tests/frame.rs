use obsidium::error::{ErrorKind, ServerError};
use obsidium::network::codec::PacketCodec;
use obsidium::network::connection::Connection;
use obsidium::network::frame::{read_frame, write_frame};
use obsidium::protocol::cursor::Cursor;
use obsidium::protocol::packets::handshaking::{HandshakePacket, NextState};
use obsidium::protocol::packets::status::{PingRequestPacket, StatusRequestPacket};
use obsidium::protocol::packets::{read_packet_length, write_packet_with_length, Packet};
use obsidium::protocol::types::VarInt;

fn handshake() -> HandshakePacket {
    HandshakePacket {
        protocol_version: VarInt(770),
        server_address: "localhost".into(),
        server_port: 25565,
        next_state: VarInt(1),
    }
}

#[test]
fn handshake_has_the_documented_frame() {
    let frame = PacketCodec::encode(&handshake()).unwrap();
    let mut expected = vec![16, 0x00, 0x82, 0x06, 9];
    expected.extend_from_slice(b"localhost");
    expected.extend_from_slice(&[0x63, 0xDD, 1]);
    assert_eq!(frame, expected);
    assert_eq!(PacketCodec::calculate_packet_size(&handshake()).unwrap(), frame.len());
    let decoded: HandshakePacket = PacketCodec::decode(&frame[1..]).unwrap();
    assert_eq!(decoded.protocol_version, VarInt(770));
    assert_eq!(decoded.server_address.0, "localhost");
    assert_eq!(decoded.server_port, 25565);
    assert_eq!(decoded.next_state, VarInt(1));
    assert_eq!(PacketCodec::get_packet_id(&frame[1..]).unwrap(), VarInt(0));
    let mut written = Vec::new();
    write_packet_with_length(&handshake(), &mut written).unwrap();
    assert_eq!(written, frame);
    assert_eq!(read_packet_length(&mut Cursor::new(&written)).unwrap(), VarInt(16));
}

#[test]
fn decode_refuses_another_packet_id() {
    let frame = PacketCodec::encode(&PingRequestPacket { payload: 1 }).unwrap();
    match PacketCodec::decode::<StatusRequestPacket>(&frame[1..]) {
        Err(ServerError::Protocol(_)) => {}
        _ => panic!("a ping is no status request"),
    }
    assert!(PacketCodec::decode::<PingRequestPacket>(&frame[1..]).is_ok());
    match PacketCodec::get_packet_id(&[]) {
        Err(ServerError::Io(ErrorKind::UnexpectedEof)) => {}
        _ => panic!("no bytes, no packet id"),
    }
}

#[test]
fn server_address_is_limited_to_255_bytes() {
    let mut packet = handshake();
    packet.server_address = "a".repeat(255).as_str().into();
    let frame = PacketCodec::encode(&packet).unwrap();
    assert!(PacketCodec::decode::<HandshakePacket>(&frame[2..]).is_ok());
    packet.server_address = "a".repeat(256).as_str().into();
    assert!(PacketCodec::encode(&packet).is_err());
    // A handshake on the wire that announces 256 bytes of address is
    // refused on the length field alone.
    let wire = [0x00, 0x82, 0x06, 0x80, 0x02];
    match PacketCodec::decode::<HandshakePacket>(&wire) {
        Err(ServerError::Protocol(_)) => {}
        _ => panic!("an address of 256 bytes must be refused"),
    }
}

#[test]
fn two_frames_in_a_row_are_read_in_order() {
    let mut wire = PacketCodec::encode(&handshake()).unwrap();
    let first_length = wire.len();
    wire.extend_from_slice(&PacketCodec::encode(&PingRequestPacket { payload: 42 }).unwrap());
    let mut connection = Connection::new(0);
    let mut cursor = Cursor::new(&wire);
    let (id, fields) = connection.read_packet(&mut cursor).unwrap();
    assert_eq!(id, VarInt(HandshakePacket::ID));
    assert_eq!(cursor.position(), first_length as u64);
    assert!(HandshakePacket::read(&mut Cursor::new(&fields)).is_ok());
    let (id, fields) = connection.read_packet(&mut cursor).unwrap();
    assert_eq!(id, VarInt(PingRequestPacket::ID));
    assert_eq!(PingRequestPacket::read(&mut Cursor::new(&fields)).unwrap().payload, 42);
    assert_eq!(cursor.position(), wire.len() as u64);
    match connection.read_packet(&mut cursor) {
        Err(ServerError::Io(ErrorKind::UnexpectedEof)) => {}
        _ => panic!("nothing is left to read"),
    }
}

#[test]
fn a_truncated_frame_is_never_read() {
    let wire = PacketCodec::encode(&handshake()).unwrap();
    for kept in 0..wire.len() {
        let mut connection = Connection::new(0);
        match connection.read_packet(&mut Cursor::new(&wire[..kept])) {
            Err(ServerError::Io(ErrorKind::UnexpectedEof)) => {}
            _ => panic!("a frame cut to {kept} bytes must be a short read"),
        }
    }
}

#[test]
fn frame_lengths_are_bounded() {
    let mut connection = Connection::new(0);
    // Zero length.
    match connection.read_packet(&mut Cursor::new(&[0x00])) {
        Err(ServerError::Protocol(_)) => {}
        _ => panic!("a frame of length zero must be refused"),
    }
    // Negative length.
    match connection.read_packet(&mut Cursor::new(&[0xFF, 0xFF, 0xFF, 0xFF, 0x0F])) {
        Err(ServerError::Protocol(_)) => {}
        _ => panic!("a negative length must be refused"),
    }
    // 2^21 is one more than the largest length.
    match connection.read_packet(&mut Cursor::new(&[0x80, 0x80, 0x80, 0x01])) {
        Err(ServerError::Protocol(_)) => {}
        _ => panic!("a length of 2^21 must be refused"),
    }
    // 2^21 - 1 is accepted as a length; the body is then missing.
    match connection.read_packet(&mut Cursor::new(&[0xFF, 0xFF, 0x7F])) {
        Err(ServerError::Io(ErrorKind::UnexpectedEof)) => {}
        _ => panic!("a length of 2^21 - 1 is fine, its body is missing"),
    }
    let mut body = vec![0x05];
    body.resize(2_097_151, 0);
    let mut wire = Vec::new();
    write_frame(&body, &mut wire).unwrap();
    assert_eq!(&wire[..3], &[0xFF, 0xFF, 0x7F]);
    assert_eq!(read_frame(&mut Cursor::new(&wire)).unwrap().len(), 2_097_151);
    // A length prefix of six bytes.
    match connection.read_packet(&mut Cursor::new(&[0x80, 0x80, 0x80, 0x80, 0x80, 0x01])) {
        Err(ServerError::Protocol(_)) => {}
        _ => panic!("a length of more than five bytes must be refused"),
    }
}

#[test]
fn next_state_is_status_or_login() {
    assert_eq!(NextState::try_from(VarInt(1)).unwrap(), NextState::Status);
    assert_eq!(NextState::try_from(VarInt(2)).unwrap(), NextState::Login);
    assert!(NextState::try_from(VarInt(0)).is_err());
    assert!(NextState::try_from(VarInt(3)).is_err());
    assert_eq!(VarInt::from(NextState::Status), VarInt(1));
    assert_eq!(VarInt::from(NextState::Login), VarInt(2));
}
