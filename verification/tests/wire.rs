use obsidium::error::{ErrorKind, ServerError};
use obsidium::protocol::cursor::Cursor;
use obsidium::protocol::types::{
    read_bool, read_byte, read_sized, read_text, read_unsigned_byte, read_unsigned_long,
    read_uuid, write_all, write_bool, write_byte, write_sized, write_text, write_unsigned_byte,
    write_unsigned_long, write_uuid, ByteArray, Identifier, JsonTextComponent, McString, McUuid,
    Optional, Position, ServerAddress, ServerId, Username, VarInt, VarLong,
};

fn varint_bytes(value: i32) -> Vec<u8> {
    let mut out = Vec::new();
    VarInt(value).write(&mut out).unwrap();
    out
}

#[test]
fn varint_boundary_vectors() {
    assert_eq!(varint_bytes(0), vec![0x00]);
    assert_eq!(varint_bytes(1), vec![0x01]);
    assert_eq!(varint_bytes(127), vec![0x7F]);
    assert_eq!(varint_bytes(128), vec![0x80, 0x01]);
    assert_eq!(varint_bytes(255), vec![0xFF, 0x01]);
    assert_eq!(varint_bytes(25565), vec![0xDD, 0xC7, 0x01]);
    assert_eq!(varint_bytes(-1), vec![0xFF, 0xFF, 0xFF, 0xFF, 0x0F]);
    assert_eq!(varint_bytes(2147483647), vec![0xFF, 0xFF, 0xFF, 0xFF, 0x07]);
    assert_eq!(varint_bytes(-2147483648), vec![0x80, 0x80, 0x80, 0x80, 0x08]);
    for value in [0, 1, 127, 128, 255, 25565, -1, 2147483647, -2147483648] {
        assert_eq!(VarInt(value).len(), varint_bytes(value).len());
    }
    assert!(VarInt(0).is_empty());
    assert!(!VarInt(1).is_empty());
    assert_eq!(VarInt::MAX_SIZE, 5);
}

#[test]
fn varint_of_six_bytes_is_refused() {
    let wire = [0x80, 0x80, 0x80, 0x80, 0x80, 0x01];
    match VarInt::read(&mut Cursor::new(&wire)) {
        Err(ServerError::Protocol(_)) => {}
        _ => panic!("a fifth continuation byte must be refused"),
    }
    // Five continuation bytes are refused even if nothing follows them.
    match VarInt::read(&mut Cursor::new(&wire[..5])) {
        Err(ServerError::Protocol(_)) => {}
        _ => panic!("a fifth continuation byte must be refused"),
    }
    match VarInt::read(&mut Cursor::new(&wire[..4])) {
        Err(ServerError::Io(ErrorKind::UnexpectedEof)) => {}
        _ => panic!("four continuation bytes and nothing else are a short read"),
    }
    match VarInt::read(&mut Cursor::new(&[])) {
        Err(ServerError::Io(ErrorKind::UnexpectedEof)) => {}
        _ => panic!("no bytes are a short read"),
    }
}

#[test]
fn varint_decoder_drops_bits_above_the_32nd_and_accepts_padding() {
    let wire = [0xFF, 0xFF, 0xFF, 0xFF, 0x7F];
    assert_eq!(VarInt::read(&mut Cursor::new(&wire)).unwrap(), VarInt(-1));
    let wire = [0x80, 0x00];
    let mut cursor = Cursor::new(&wire);
    assert_eq!(VarInt::read(&mut cursor).unwrap(), VarInt(0));
    assert_eq!(cursor.position(), 2);
}

#[test]
fn varlong_boundary_vectors() {
    let cases: [(i64, Vec<u8>); 5] = [
        (0, vec![0x00]),
        (127, vec![0x7F]),
        (128, vec![0x80, 0x01]),
        (-1, vec![0xFF, 0xFF, 0xFF, 0xFF, 0xFF, 0xFF, 0xFF, 0xFF, 0xFF, 0x01]),
        (i64::MAX, vec![0xFF, 0xFF, 0xFF, 0xFF, 0xFF, 0xFF, 0xFF, 0xFF, 0x7F]),
    ];
    for (value, bytes) in cases {
        let mut out = Vec::new();
        VarLong(value).write(&mut out).unwrap();
        assert_eq!(out, bytes);
        assert_eq!(VarLong::read(&mut Cursor::new(&out)).unwrap(), VarLong(value));
    }
    let mut out = Vec::new();
    VarLong(i64::MIN).write(&mut out).unwrap();
    assert_eq!(out.len(), 10);
    assert_eq!(VarLong::read(&mut Cursor::new(&out)).unwrap(), VarLong(i64::MIN));
    let wire = [0x80; 11];
    match VarLong::read(&mut Cursor::new(&wire)) {
        Err(ServerError::Protocol(_)) => {}
        _ => panic!("a tenth continuation byte must be refused"),
    }
    assert_eq!(VarLong::MAX_SIZE, 10);
    assert_eq!(VarLong::from(5i64), VarLong(5));
    assert_eq!(i64::from(VarLong(5)), 5);
    assert_eq!(VarInt::from(5), VarInt(5));
    assert_eq!(i32::from(VarInt(5)), 5);
}

#[test]
fn position_packs_as_documented() {
    let position = Position::new(18357644, 831, -20882616);
    let mut out = Vec::new();
    position.write(&mut out).unwrap();
    assert_eq!(out, vec![0x46, 0x07, 0x63, 0x2C, 0x15, 0xB4, 0x83, 0x3F]);
    let packed: u64 = ((18357644u64 & 0x3FFFFFF) << 38)
        | (((-20882616i64 as u64) & 0x3FFFFFF) << 12)
        | (831u64 & 0xFFF);
    assert_eq!(out, packed.to_be_bytes().to_vec());
    assert_eq!(Position::read(&mut Cursor::new(&out)).unwrap(), position);

    for position in [
        Position::new(0, 0, 0),
        Position::new(-1, -1, -1),
        Position::new(33554431, 2047, 33554431),
        Position::new(-33554432, -2048, -33554432),
        Position::new(100, 64, -200),
    ] {
        assert!(position.in_range());
        let mut out = Vec::new();
        position.write(&mut out).unwrap();
        assert_eq!(out.len(), 8);
        assert_eq!(Position::read(&mut Cursor::new(&out)).unwrap(), position);
    }
    assert!(!Position::new(33554432, 0, 0).in_range());
    assert!(!Position::new(0, 2048, 0).in_range());
    assert!(!Position::new(0, 0, -33554433).in_range());
    // Coordinates out of range are reduced to their low bits.
    let mut out = Vec::new();
    Position::new(67108864 + 5, 4096 + 7, -67108864 + 9).write(&mut out).unwrap();
    assert_eq!(Position::read(&mut Cursor::new(&out)).unwrap(), Position::new(5, 7, 9));
    match Position::read(&mut Cursor::new(&[0; 7])) {
        Err(ServerError::Io(ErrorKind::UnexpectedEof)) => {}
        _ => panic!("seven bytes are no position"),
    }
}

#[test]
fn fixed_width_integers_are_big_endian() {
    let mut out = Vec::new();
    write_unsigned_byte(0xAB, &mut out).unwrap();
    write_byte(-1, &mut out).unwrap();
    write_unsigned_long(0x0102030405060708, &mut out).unwrap();
    write_bool(true, &mut out).unwrap();
    write_bool(false, &mut out).unwrap();
    assert_eq!(out, vec![0xAB, 0xFF, 1, 2, 3, 4, 5, 6, 7, 8, 1, 0]);
    let mut cursor = Cursor::new(&out);
    assert_eq!(read_unsigned_byte(&mut cursor).unwrap(), 0xAB);
    assert_eq!(read_byte(&mut cursor).unwrap(), -1);
    assert_eq!(read_unsigned_long(&mut cursor).unwrap(), 0x0102030405060708);
    assert!(read_bool(&mut cursor).unwrap());
    assert!(!read_bool(&mut cursor).unwrap());
    assert!(read_bool(&mut cursor).is_err());
    // Any non-zero byte is true.
    assert!(read_bool(&mut Cursor::new(&[2])).unwrap());
    assert!(read_bool(&mut Cursor::new(&[0xFF])).unwrap());
    assert_eq!(read_byte(&mut Cursor::new(&[0x80])).unwrap(), -128);
    assert_eq!(read_byte(&mut Cursor::new(&[0x7F])).unwrap(), 127);
    let mut out = Vec::new();
    write_all(&mut out, &[1, 2, 3]);
    write_all(&mut out, &[]);
    assert_eq!(out, vec![1, 2, 3]);
}

#[test]
fn strings_are_limited_and_must_be_utf8() {
    let mut out = Vec::new();
    McString::from("h\u{e9}").write(&mut out).unwrap();
    assert_eq!(out, vec![3, b'h', 0xC3, 0xA9]);
    assert_eq!(McString::MAX_LENGTH, 32767);

    let long = "a".repeat(32767);
    let mut out = Vec::new();
    McString::from(long.as_str()).write(&mut out).unwrap();
    assert_eq!(&out[..3], &[0xFF, 0xFF, 0x01]);
    assert_eq!(McString::read(&mut Cursor::new(&out)).unwrap().0, long);
    let too_long = "a".repeat(32768);
    let mut out = Vec::new();
    match McString::from(too_long.as_str()).write(&mut out) {
        Err(ServerError::Protocol(_)) => {}
        _ => panic!("a string of 32768 bytes must be refused"),
    }
    assert!(out.is_empty());
    assert!(McString::from("abc").validate_length(3).is_ok());
    assert!(McString::from("abc").validate_length(2).is_err());
    // The limit counts bytes, not characters.
    assert!(McString::from("\u{e9}").validate_length(1).is_err());

    // A length field above the limit is refused before the payload is read.
    match McString::read(&mut Cursor::new(&[0x80, 0x80, 0x02])) {
        Err(ServerError::Protocol(_)) => {}
        _ => panic!("a length of 32768 must be refused"),
    }
    match McString::read_with_max_length(&mut Cursor::new(&[4, b'a', b'b', b'c', b'd']), 3) {
        Err(ServerError::Protocol(_)) => {}
        _ => panic!("a length above the limit must be refused"),
    }
    assert_eq!(
        McString::read_with_max_length(&mut Cursor::new(&[3, b'a', b'b', b'c']), 3).unwrap().0,
        "abc"
    );
    match McString::read(&mut Cursor::new(&[0xFF, 0xFF, 0xFF, 0xFF, 0x0F])) {
        Err(ServerError::Protocol(_)) => {}
        _ => panic!("a negative length must be refused"),
    }
    match McString::read(&mut Cursor::new(&[2, 0xC3, 0x28])) {
        Err(ServerError::Protocol(_)) => {}
        _ => panic!("invalid UTF-8 must be refused"),
    }
    match McString::read(&mut Cursor::new(&[3, b'a'])) {
        Err(ServerError::Io(ErrorKind::UnexpectedEof)) => {}
        _ => panic!("a string that ends early is a short read"),
    }
    assert_eq!(String::from(McString::from("x".to_string())), "x");
    assert_eq!(read_text(&mut Cursor::new(&[1, b'z']), 1).unwrap(), "z");
    let mut out = Vec::new();
    write_text("z", 1, &mut out).unwrap();
    assert_eq!(out, vec![1, b'z']);
    assert!(write_text("zz", 1, &mut out).is_err());
}

#[test]
fn bounded_strings_enforce_their_limits() {
    let mut out = Vec::new();
    assert!(ServerAddress::from("a".repeat(255)).write(&mut out).is_ok());
    assert!(ServerAddress::from("a".repeat(256)).write(&mut out).is_err());
    assert!(Username::from("a".repeat(16)).write(&mut out).is_ok());
    assert!(Username::from("a".repeat(17)).write(&mut out).is_err());
    assert!(ServerId::from("a".repeat(20)).write(&mut out).is_ok());
    assert!(ServerId::from("a".repeat(21)).write(&mut out).is_err());
    assert_eq!(ServerAddress::MAX_LENGTH, 255);
    assert_eq!(Username::MAX_LENGTH, 16);
    assert_eq!(ServerId::MAX_LENGTH, 20);

    let mut wire = vec![17];
    wire.extend_from_slice(&[b'a'; 17]);
    assert!(Username::read(&mut Cursor::new(&wire)).is_err());
    assert!(ServerId::read(&mut Cursor::new(&wire)).is_ok());
    assert_eq!(ServerAddress::read(&mut Cursor::new(&wire)).unwrap(), ServerAddress::from("a".repeat(17).as_str()));
    wire[0] = 16;
    assert_eq!(Username::read(&mut Cursor::new(&wire)).unwrap().0, "a".repeat(16));
    let mut wire = vec![21];
    wire.extend_from_slice(&[b'a'; 21]);
    assert!(ServerId::read(&mut Cursor::new(&wire)).is_err());
    assert_eq!(ServerId::from("x"), ServerId("x".to_string()));
    assert_eq!(Username::from("x"), Username("x".to_string()));
}

#[test]
fn byte_arrays_are_length_prefixed() {
    let mut out = Vec::new();
    ByteArray::from(vec![9, 8]).write(&mut out).unwrap();
    assert_eq!(out, vec![2, 9, 8]);
    assert_eq!(Vec::<u8>::from(ByteArray(vec![1])), vec![1]);
    match ByteArray::read(&mut Cursor::new(&[0xFF, 0xFF, 0xFF, 0xFF, 0x0F])) {
        Err(ServerError::Protocol(_)) => {}
        _ => panic!("a negative length must be refused"),
    }
    match ByteArray::read(&mut Cursor::new(&[3, 1, 2])) {
        Err(ServerError::Io(ErrorKind::UnexpectedEof)) => {}
        _ => panic!("an array that ends early is a short read"),
    }
    match ByteArray::read_with_max_length(&mut Cursor::new(&[3, 1, 2, 3]), 2) {
        Err(ServerError::Protocol(_)) => {}
        _ => panic!("a length above the limit must be refused"),
    }
    assert_eq!(
        ByteArray::read_with_max_length(&mut Cursor::new(&[3, 1, 2, 3]), 3).unwrap().0,
        vec![1, 2, 3]
    );
    assert_eq!(read_sized(&mut Cursor::new(&[1, 7]), 1).unwrap(), &[7][..]);
    let mut out = Vec::new();
    write_sized(&[7], 1, &mut out).unwrap();
    assert_eq!(out, vec![1, 7]);
    assert!(write_sized(&[7, 8], 1, &mut out).is_err());
}

#[test]
fn uuids_are_sixteen_bytes() {
    let bytes = [1, 2, 3, 4, 5, 6, 7, 8, 9, 10, 11, 12, 13, 14, 15, 16];
    let uuid = McUuid::from_bytes(bytes);
    let mut out = Vec::new();
    write_uuid(&uuid, &mut out).unwrap();
    assert_eq!(out, bytes.to_vec());
    assert_eq!(read_uuid(&mut Cursor::new(&out)).unwrap(), uuid);
    match read_uuid(&mut Cursor::new(&out[..15])) {
        Err(ServerError::Io(ErrorKind::UnexpectedEof)) => {}
        _ => panic!("fifteen bytes are no UUID"),
    }
}

#[test]
fn json_text_components_are_validated() {
    assert_eq!(JsonTextComponent::text("Hello").0, "{\"text\":\"Hello\"}");
    assert_eq!(JsonTextComponent::text("a\"b").0, "{\"text\":\"a\\\"b\"}");
    assert_eq!(JsonTextComponent::from("x").0, "{\"text\":\"x\"}");
    assert_eq!(JsonTextComponent::from("x".to_string()).0, "{\"text\":\"x\"}");
    let mut out = Vec::new();
    McString::from("{not json").write(&mut out).unwrap();
    match JsonTextComponent::read(&mut Cursor::new(&out)) {
        Err(ServerError::Protocol(_)) => {}
        _ => panic!("text that is no JSON must be refused"),
    }
    let mut out = Vec::new();
    McString::from("[1, 2]").write(&mut out).unwrap();
    assert_eq!(JsonTextComponent::read(&mut Cursor::new(&out)).unwrap().0, "[1, 2]");
    assert!(JsonTextComponent::from_checked("{}".to_string(), true).is_ok());
    assert!(JsonTextComponent::from_checked("{}".to_string(), false).is_err());
}

#[test]
fn identifiers_split_at_colons() {
    let id = Identifier::from("minecraft:stone");
    assert_eq!(id.namespace(), "minecraft");
    assert_eq!(id.path(), "stone");
    let id = Identifier::from("stone");
    assert_eq!(id.namespace(), "minecraft");
    assert_eq!(id.path(), "stone");
    let id = Identifier::from("custom:a:b");
    assert_eq!(id.namespace(), "custom");
    assert_eq!(id.path(), "a");
    let id = Identifier::from(":x");
    assert_eq!(id.namespace(), "");
    assert_eq!(id.path(), "x");
    let id = Identifier::from("n\u{e9}:p\u{e4}");
    assert_eq!(id.namespace(), "n\u{e9}");
    assert_eq!(id.path(), "p\u{e4}");
    assert_eq!(Identifier::new("a", "b"), Identifier::from("a:b".to_string()));
}

#[test]
fn optionals_say_whether_they_hold_a_value() {
    assert!(Optional::some(1).is_present());
    assert!(!Optional::<i32>::none().is_present());
    assert_eq!(Optional::from(Some(2)).value, Some(2));
    assert_eq!(Option::<i32>::from(Optional::some(3)), Some(3));
}

#[test]
fn cursor_reads_front_to_back() {
    let data = [1, 2, 3, 4, 5];
    let mut cursor = Cursor::new(&data);
    assert_eq!(cursor.position(), 0);
    assert_eq!(cursor.remaining(), 5);
    assert_eq!(cursor.read_byte(), Some(1));
    assert_eq!(cursor.take(2), Some(&[2, 3][..]));
    assert_eq!(cursor.take(3), None);
    assert_eq!(cursor.position(), 3);
    assert_eq!(cursor.offset(), 3);
    assert_eq!(cursor.rest(), &[4, 5][..]);
    assert!(cursor.seek(5));
    assert_eq!(cursor.read_byte(), None);
    assert!(!cursor.seek(6));
    assert!(cursor.seek(0));
    assert_eq!(cursor.take(5), Some(&data[..]));
    assert_eq!(cursor.take(0), Some(&[][..]));
}
