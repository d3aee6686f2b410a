use obsidium::error::ErrorKind;
use obsidium::protocol::cursor::Cursor;
use obsidium::protocol::varint::VarInt;

#[test]
fn test_varint_encoding() {
    let test_cases = vec![
        (0, vec![0x00]),
        (1, vec![0x01]),
        (127, vec![0x7f]),
        (128, vec![0x80, 0x01]),
        (255, vec![0xff, 0x01]),
        (25565, vec![0xdd, 0xc7, 0x01]),
    ];

    for (value, expected) in test_cases {
        let varint = VarInt(value);
        let encoded = varint.to_bytes();
        assert_eq!(encoded, expected, "Failed to encode {value}");

        let (decoded, size) = VarInt::from_bytes(&encoded).unwrap();
        assert_eq!(decoded.0, value, "Failed to decode {value}");
        assert_eq!(size, encoded.len(), "Size mismatch for {value}");
    }
}

#[test]
fn byte_level_varint_reports_io_error_classes() {
    assert_eq!(VarInt::from_bytes(&[]), Err(ErrorKind::UnexpectedEof));
    assert_eq!(VarInt::from_bytes(&[0x80, 0x80]), Err(ErrorKind::UnexpectedEof));
    assert_eq!(
        VarInt::from_bytes(&[0x80, 0x80, 0x80, 0x80, 0x80, 0x01]),
        Err(ErrorKind::InvalidData)
    );
    assert_eq!(VarInt::from_bytes(&[0x01, 0x02]), Ok((VarInt(1), 1)));
    assert_eq!(
        VarInt::from_bytes(&[0xFF, 0xFF, 0xFF, 0xFF, 0x0F, 0x02]),
        Ok((VarInt(-1), 5))
    );
    assert_eq!(VarInt(-1).size(), 5);
    assert_eq!(VarInt(0).size(), 1);
    assert_eq!(VarInt(128).size(), 2);
    assert_eq!(VarInt::from(300usize), VarInt(300));
    assert_eq!(VarInt::from(4294967295usize), VarInt(-1));
    assert_eq!(VarInt::from(7i32), VarInt(7));
    assert_eq!(i32::from(VarInt(7)), 7);
    let bytes = [0x05];
    let mut cursor = Cursor::new(&bytes);
    assert_eq!(VarInt::read(&mut cursor), Ok(VarInt(5)));
    assert_eq!(VarInt::read(&mut cursor), Err(ErrorKind::UnexpectedEof));
    let mut out = Vec::new();
    VarInt(25565).write(&mut out).unwrap();
    assert_eq!(out, vec![0xdd, 0xc7, 0x01]);
}
