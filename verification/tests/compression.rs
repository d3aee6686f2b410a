use obsidium::error::ServerError;
use obsidium::protocol::compression::{
    check_announced_length, split_payload, unpack_inflated, unpack_literal, Compression,
};
use obsidium::protocol::types::VarInt;

#[test]
fn test_compression_uncompressed() {
    // Test small packet (uncompressed path)
    let mut compression = Compression::new(64);
    let packet_id = VarInt(0x42);
    let data = vec![0x01, 0x02, 0x03]; // Small data that won't be compressed

    let compressed = compression.compress_packet(packet_id, &data).unwrap();
    let (decoded_id, decoded_data) = compression.decompress_packet(&compressed).unwrap();

    assert_eq!(packet_id, decoded_id);
    assert_eq!(data, decoded_data);
}

#[test]
fn small_packets_are_framed_literally() {
    let mut compression = Compression::new(64);
    let body = compression.compress_packet(VarInt(0x42), &[1, 2, 3]).unwrap();
    assert_eq!(body, vec![0x00, 0x42, 1, 2, 3]);
}

#[test]
fn large_packets_are_deflated_and_inflate_back() {
    let mut compression = Compression::new(64);
    let data: Vec<u8> = (0..1000u32).map(|i| (i % 7) as u8).collect();
    let body = compression.compress_packet(VarInt(0x2B), &data).unwrap();
    // The body announces the payload length, 1001, as a VarInt.
    assert_eq!(&body[..2], &[0xE9, 0x07]);
    assert!(body.len() < 1001);
    // What follows is a zlib stream: it starts with the zlib header.
    assert_eq!(body[2] & 0x0F, 8);
    assert_eq!(((body[2] as u16) << 8 | body[3] as u16) % 31, 0);
    let mut inflater = flate2::Decompress::new(true);
    let mut inflated = vec![0u8; 2000];
    let status = inflater
        .decompress(&body[2..], &mut inflated, flate2::FlushDecompress::Finish)
        .unwrap();
    assert_eq!(status, flate2::Status::StreamEnd);
    assert_eq!(inflater.total_out(), 1001);
    assert_eq!(inflated[0], 0x2B);
    assert_eq!(&inflated[1..1001], &data[..]);

    let (id, fields) = compression.decompress_packet(&body).unwrap();
    assert_eq!(id, VarInt(0x2B));
    assert_eq!(fields, data);

    // The streams are reset between packets: a second round works too.
    let body = compression.compress_packet(VarInt(1), &data).unwrap();
    let (id, fields) = compression.decompress_packet(&body).unwrap();
    assert_eq!(id, VarInt(1));
    assert_eq!(fields, data);
}

#[test]
fn payload_at_the_threshold_is_deflated() {
    let mut compression = Compression::new(64);
    let data = vec![7u8; 63];
    let body = compression.compress_packet(VarInt(1), &data).unwrap();
    assert_eq!(body[0], 64);
    let shorter = compression.compress_packet(VarInt(1), &data[..62]).unwrap();
    assert_eq!(shorter[0], 0);
    assert_eq!(shorter.len(), 64);
}

#[test]
fn oversized_payloads_are_refused() {
    let mut compression = Compression::new(64);
    let data = vec![0u8; 8_388_608];
    match compression.compress_packet(VarInt(1), &data) {
        Err(ServerError::Protocol(_)) => {}
        _ => panic!("a payload above 2^23 bytes must be refused"),
    }
}

#[test]
fn compression_invariants_are_enforced_on_the_way_in() {
    let mut compression = Compression::new(4);
    // A literal body whose length reaches the threshold.
    match compression.decompress_packet(&[0x00, 0x01, 2, 3, 4]) {
        Err(ServerError::Protocol(_)) => {}
        _ => panic!("a literal body as long as the threshold must be refused"),
    }
    assert_eq!(
        compression.decompress_packet(&[0x00, 0x01, 2, 3]).unwrap(),
        (VarInt(1), vec![2, 3])
    );
    // An announced length below the threshold.
    match compression.decompress_packet(&[0x03, 1, 2, 3]) {
        Err(ServerError::Protocol(_)) => {}
        _ => panic!("a compressed body below the threshold must be refused"),
    }
    // A negative announced length.
    match compression.decompress_packet(&[0xFF, 0xFF, 0xFF, 0xFF, 0x0F, 1]) {
        Err(ServerError::Protocol(_)) => {}
        _ => panic!("a negative length must be refused"),
    }
    // An announced length above 2^23.
    match compression.decompress_packet(&[0x81, 0x80, 0x80, 0x04, 1]) {
        Err(ServerError::Protocol(_)) => {}
        _ => panic!("a length above 2^23 must be refused"),
    }
    // No length at all.
    match compression.decompress_packet(&[]) {
        Err(ServerError::Io(_)) => {}
        _ => panic!("an empty body is a short read"),
    }
    // Bytes that are no zlib stream.
    match compression.decompress_packet(&[0x08, 1, 2, 3, 4, 5, 6, 7, 8]) {
        Err(ServerError::Decompression) | Err(ServerError::Protocol(_)) => {}
        _ => panic!("garbage must not inflate"),
    }
}

#[test]
fn announced_length_must_match_inflated_length() {
    let mut compression = Compression::new(8);
    let data = vec![9u8; 100];
    let mut body = compression.compress_packet(VarInt(1), &data).unwrap();
    assert_eq!(body[0], 101);
    body[0] = 100;
    assert!(compression.decompress_packet(&body).is_err());
    body[0] = 102;
    assert!(compression.decompress_packet(&body).is_err());
    body[0] = 101;
    assert!(compression.decompress_packet(&body).is_ok());
    // A stream that lost its checksum is not complete.
    body.truncate(body.len() - 1);
    assert!(compression.decompress_packet(&body).is_err());
    // Bytes after the end of the stream are refused.
    let mut body = compression.compress_packet(VarInt(1), &data).unwrap();
    body.push(0);
    assert!(compression.decompress_packet(&body).is_err());
}

#[test]
fn threshold_can_be_changed() {
    let mut compression = Compression::new(64);
    assert_eq!(compression.threshold(), 64);
    compression.set_threshold(2);
    assert_eq!(compression.threshold(), 2);
    let body = compression.compress_packet(VarInt(1), &[1, 2, 3]).unwrap();
    assert_eq!(body[0], 4);
}

#[test]
fn payload_helpers_split_and_check() {
    assert_eq!(split_payload(&[0x80, 0x01, 5]).unwrap(), (VarInt(128), vec![5]));
    assert!(split_payload(&[0x80]).is_err());
    assert_eq!(unpack_literal(&[1, 2], 3).unwrap(), (VarInt(1), vec![2]));
    assert!(unpack_literal(&[1, 2, 3], 3).is_err());
    assert_eq!(unpack_inflated(&[1, 2], 2).unwrap(), (VarInt(1), vec![2]));
    assert!(unpack_inflated(&[1, 2], 3).is_err());
    assert_eq!(check_announced_length(8_388_608, 256).unwrap(), 8_388_608);
    assert!(check_announced_length(8_388_609, 256).is_err());
    assert!(check_announced_length(255, 256).is_err());
    assert_eq!(check_announced_length(256, 256).unwrap(), 256);
    assert!(check_announced_length(-1, 0).is_err());
    assert!(check_announced_length(0, 0).is_err());
}
