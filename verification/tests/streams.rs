use obsidium::client::ClientConnection;
use obsidium::config::server::ServerConfig;
use obsidium::error::ServerError;
use obsidium::network::codec::PacketCodec;
use obsidium::network::connection::Connection;
use obsidium::network::frame::{read_frame, write_frame};
use obsidium::protocol::compression::Compression;
use obsidium::protocol::cursor::Cursor;
use obsidium::protocol::packets::handshaking::HandshakePacket;
use obsidium::protocol::packets::login::LoginStartPacket;
use obsidium::protocol::state::ConnectionState;
use obsidium::protocol::types::{read_sized, McString, McUuid, VarInt, VarLong};
use obsidium::server::minecraft::Reaction;

/// Bytes that a deflater cannot make shorter.
fn noise(len: usize) -> Vec<u8> {
    let mut state: u64 = 0x2545_F491_4F6C_DD1D;
    let mut bytes = Vec::with_capacity(len);
    for _ in 0..len {
        state ^= state << 13;
        state ^= state >> 7;
        state ^= state << 17;
        bytes.push((state >> 32) as u8);
    }
    bytes
}

/// The zlib stream of `payload` from a compressor of the default level that
/// is given everything at once.
fn zlib_stream(payload: &[u8]) -> Vec<u8> {
    let mut compressor = flate2::Compress::new(flate2::Compression::default(), true);
    let mut stream = vec![0u8; payload.len() + payload.len() / 100 + 1024];
    let status = compressor
        .compress(payload, &mut stream, flate2::FlushCompress::Finish)
        .unwrap();
    assert_eq!(status, flate2::Status::StreamEnd);
    stream.truncate(compressor.total_out() as usize);
    stream
}

fn round_trip(compression: &mut Compression, id: i32, data: &[u8]) {
    let body = compression.compress_packet(VarInt(id), data).unwrap();
    let (got_id, got_data) = compression.decompress_packet(&body).unwrap();
    assert_eq!(got_id, VarInt(id));
    assert_eq!(got_data, data);
}

#[test]
fn a_deflated_body_is_the_length_and_the_stream_of_the_payload() {
    let mut compression = Compression::new(16);
    let data: Vec<u8> = (0..5000u32).map(|i| (i % 251) as u8).collect();
    let mut payload = vec![0x2B];
    payload.extend_from_slice(&data);
    let mut expected = Vec::new();
    VarInt(payload.len() as i32).write(&mut expected).unwrap();
    expected.extend_from_slice(&zlib_stream(&payload));
    let body = compression.compress_packet(VarInt(0x2B), &data).unwrap();
    assert_eq!(body, expected);
    // The stream does not depend on what was framed before.
    round_trip(&mut compression, 7, &noise(300));
    assert_eq!(compression.compress_packet(VarInt(0x2B), &data).unwrap(), expected);
}

#[test]
fn what_was_framed_is_opened_at_every_size() {
    let mut compression = Compression::new(256);
    for len in [254, 255, 256, 257, 1000, 32766, 32767, 32768, 32769, 65534, 65535, 65536, 70000] {
        let plain: Vec<u8> = (0..len as u32).map(|i| (i % 13) as u8).collect();
        round_trip(&mut compression, 1, &plain);
        round_trip(&mut compression, 300, &noise(len));
    }
}

#[test]
fn a_stream_longer_than_its_payload_is_still_framed() {
    // A megabyte of noise deflates to more than the megabyte.
    let mut compression = Compression::new(256);
    let data = noise(1_000_000);
    let body = compression.compress_packet(VarInt(5), &data).unwrap();
    assert!(body.len() > data.len() + 64);
    assert!(body.len() <= 2_097_151);
    let (id, fields) = compression.decompress_packet(&body).unwrap();
    assert_eq!(id, VarInt(5));
    assert_eq!(fields, data);
}

#[test]
fn a_body_above_the_frame_limit_is_refused() {
    let mut compression = Compression::new(256);
    let data = noise(2_200_000);
    match compression.compress_packet(VarInt(5), &data) {
        Err(ServerError::Protocol(_)) => {}
        _ => panic!("a deflated body above 2^21 - 1 bytes must be refused"),
    }
    // The codec is as good as new afterwards.
    round_trip(&mut compression, 1, &noise(1000));
}

#[test]
fn only_a_whole_stream_of_the_announced_length_is_opened() {
    let mut compression = Compression::new(16);
    let data: Vec<u8> = (0..400u32).map(|i| (i % 5) as u8).collect();
    let body = compression.compress_packet(VarInt(9), &data).unwrap();
    assert_eq!(&body[..2], &[0x91, 0x03]);

    // Bytes behind the end of the stream.
    let mut longer = body.clone();
    longer.push(0);
    assert!(compression.decompress_packet(&longer).is_err());

    // A stream that lost its last byte.
    assert!(compression.decompress_packet(&body[..body.len() - 1]).is_err());

    // A stream with a damaged check sum.
    let mut damaged = body.clone();
    let last = damaged.len() - 1;
    damaged[last] ^= 0xFF;
    assert!(compression.decompress_packet(&damaged).is_err());

    // No stream at all.
    assert!(compression.decompress_packet(&[0x91, 0x03, 1, 2, 3, 4]).is_err());

    // The stream holds one byte more, and one byte less, than announced.
    let mut more = vec![0x90, 0x03];
    more.extend_from_slice(&body[2..]);
    match compression.decompress_packet(&more) {
        Err(ServerError::Protocol(_)) => {}
        _ => panic!("401 bytes behind an announced length of 400"),
    }
    let mut less = vec![0x92, 0x03];
    less.extend_from_slice(&body[2..]);
    match compression.decompress_packet(&less) {
        Err(ServerError::Protocol(_)) => {}
        _ => panic!("401 bytes behind an announced length of 402"),
    }

    // The body itself is still opened.
    let (id, fields) = compression.decompress_packet(&body).unwrap();
    assert_eq!(id, VarInt(9));
    assert_eq!(fields, data);
}

#[test]
fn a_refused_varint_leaves_the_cursor_behind_its_last_group() {
    let bytes = [0x80, 0x80, 0x80, 0x80, 0x80, 0x01];
    let mut cursor = Cursor::new(&bytes);
    match VarInt::read(&mut cursor) {
        Err(ServerError::Protocol(_)) => {}
        _ => panic!("six groups must be refused"),
    }
    assert_eq!(cursor.position(), 5);

    // An input that ends early is read to its end.
    let bytes = [0x80, 0x80];
    let mut cursor = Cursor::new(&bytes);
    assert!(VarInt::read(&mut cursor).is_err());
    assert_eq!(cursor.position(), 2);

    let bytes = [0xFF; 12];
    let mut cursor = Cursor::new(&bytes);
    match VarLong::read(&mut cursor) {
        Err(ServerError::Protocol(_)) => {}
        _ => panic!("eleven groups must be refused"),
    }
    assert_eq!(cursor.position(), 10);
}

#[test]
fn a_refused_length_leaves_the_payload_unread() {
    // Five bytes announced, four allowed.
    let bytes = [5, b'h', b'e', b'l', b'l', b'o'];
    let mut cursor = Cursor::new(&bytes);
    match McString::read_with_max_length(&mut cursor, 4) {
        Err(ServerError::Protocol(_)) => {}
        _ => panic!("a string above its limit must be refused"),
    }
    assert_eq!(cursor.position(), 1);

    // A negative length.
    let bytes = [0xFF, 0xFF, 0xFF, 0xFF, 0x0F, 1, 2, 3];
    let mut cursor = Cursor::new(&bytes);
    assert!(read_sized(&mut cursor, 100).is_err());
    assert_eq!(cursor.position(), 5);

    // More announced than is there.
    let bytes = [5, b'h', b'e'];
    let mut cursor = Cursor::new(&bytes);
    assert!(McString::read(&mut cursor).is_err());
    assert_eq!(cursor.position(), 1);

    // Within the limit, the string is read and the cursor stands behind it.
    let bytes = [5, b'h', b'e', b'l', b'l', b'o', 9];
    let mut cursor = Cursor::new(&bytes);
    assert_eq!(McString::read_with_max_length(&mut cursor, 5).unwrap().0, "hello");
    assert_eq!(cursor.position(), 6);
}

#[test]
fn a_refused_frame_length_leaves_the_body_unread() {
    let mut connection = Connection::new(0);
    // 2^21 as a length, then bytes that are never looked at.
    let bytes = [0x80, 0x80, 0x80, 0x01, 7, 7, 7];
    let mut cursor = Cursor::new(&bytes);
    match connection.read_packet(&mut cursor) {
        Err(ServerError::Protocol(_)) => {}
        _ => panic!("a length of 2^21 must be refused"),
    }
    assert_eq!(cursor.position(), 4);

    let bytes = [0x00, 7, 7];
    let mut cursor = Cursor::new(&bytes);
    assert!(read_frame(&mut cursor).is_err());
    assert_eq!(cursor.position(), 1);

    // A frame that is not complete yet.
    let bytes = [3, 7, 7];
    let mut cursor = Cursor::new(&bytes);
    assert!(connection.read_packet(&mut cursor).is_err());
    assert_eq!(cursor.position(), 1);

    // A whole frame, and one byte of the next.
    let bytes = [2, 0x07, 9, 1];
    let mut cursor = Cursor::new(&bytes);
    let (id, fields) = connection.read_packet(&mut cursor).unwrap();
    assert_eq!((id, fields), (VarInt(7), vec![9]));
    assert_eq!(cursor.position(), 3);
}

#[test]
fn a_session_under_compression_opens_deflated_frames() {
    let config = ServerConfig::new().with_compression_threshold(Some(8));
    let mut session = ClientConnection::new(config, "{}".to_string(), 0);
    let mut wire = PacketCodec::encode(&HandshakePacket {
        protocol_version: VarInt(770),
        server_address: "localhost".into(),
        server_port: 25565,
        next_state: VarInt(2),
    })
    .unwrap();
    wire.extend_from_slice(
        &PacketCodec::encode(&LoginStartPacket {
            name: "Steve".into(),
            player_uuid: McUuid::from_bytes([7; 16]),
        })
        .unwrap(),
    );
    let mut out = Vec::new();
    let (used, reaction) = session.process_data(&wire, &mut out);
    assert_eq!(used, wire.len());
    assert!(matches!(reaction, Ok(Reaction::Joined(_))));
    assert_eq!(session.state(), ConnectionState::Configuration);

    // Set compression travels in the plain framing; the login success that
    // follows it is deflated, since its payload reaches the threshold.
    assert_eq!(&out[..3], &[2, 0x03, 8]);
    let mut reader = Compression::new(8);
    let mut cursor = Cursor::new(&out[3..]);
    let body = read_frame(&mut cursor).unwrap();
    assert_ne!(body[0], 0);
    let (id, fields) = reader.decompress_packet(body).unwrap();
    assert_eq!(id, VarInt(0x02));
    assert_eq!(&fields[..16], &[7; 16]);
    assert_eq!(&fields[16..22], &[5, b'S', b't', b'e', b'v', b'e']);

    // The acknowledgement arrives first as a literal body, then once more
    // deflated behind its length, although it is shorter than the
    // threshold: that one is refused and ends the handling.
    let mut writer = Compression::new(8);
    let mut wire = Vec::new();
    write_frame(&writer.compress_packet(VarInt(0x03), &[]).unwrap(), &mut wire).unwrap();
    let first = wire.len();
    let mut deflating = Compression::new(0);
    write_frame(&deflating.compress_packet(VarInt(0x02), &[]).unwrap(), &mut wire).unwrap();
    let mut out = Vec::new();
    let (used, reaction) = session.process_data(&wire, &mut out);
    assert_eq!(used, wire.len());
    match reaction {
        Err(ServerError::Protocol(_)) => {}
        _ => panic!("a deflated payload below the threshold must be refused"),
    }
    // The first of the two was answered with FinishConfiguration.
    assert_eq!(out, vec![2, 0, 0x03]);
    assert_eq!(session.state(), ConnectionState::Configuration);
    assert!(first < wire.len());
}

#[test]
fn an_answer_that_cannot_be_sent_is_a_fault() {
    let config = ServerConfig::new();
    let mut connection = Connection::new(0);
    connection.set_state(ConnectionState::Status);
    let document = "x".repeat(32768);
    let mut out = vec![1, 2, 3];
    match obsidium::server::minecraft::MinecraftServer::handle_packet(
        &mut connection,
        VarInt(0),
        &[],
        &config,
        &document,
        &mut out,
    ) {
        Err(ServerError::Protocol(_)) => {}
        _ => panic!("a status document above 32767 bytes cannot be sent"),
    }
    assert_eq!(out, vec![1, 2, 3]);
    assert_eq!(connection.state(), ConnectionState::Status);

    // One byte less, and the answer is sent.
    let document = "x".repeat(32767);
    let reaction = obsidium::server::minecraft::MinecraftServer::handle_packet(
        &mut connection,
        VarInt(0),
        &[],
        &config,
        &document,
        &mut out,
    );
    assert!(matches!(reaction, Ok(Reaction::Continue)));
    // Frame length 32771, packet id 0, string length 32767.
    assert_eq!(&out[3..10], &[0x83, 0x80, 0x02, 0x00, 0xFF, 0xFF, 0x01]);
    assert_eq!(out.len(), 3 + 3 + 1 + 3 + 32767);
}
