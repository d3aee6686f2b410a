use obsidium::protocol::cursor::Cursor;
use obsidium::protocol::types::{
    read_int, read_long, read_unsigned_short, write_int, write_long, write_unsigned_short,
    ByteArray, Identifier, JsonTextComponent, McString, VarInt,
};

#[test]
fn test_varint_roundtrip() {
    let values = [0, 1, 127, 128, 255, 25565, -1, -2147483648, 2147483647];

    for &value in &values {
        let varint = VarInt(value);
        let mut buffer = Vec::new();
        varint.write(&mut buffer).unwrap();

        let mut cursor = Cursor::new(&buffer);
        let decoded = VarInt::read(&mut cursor).unwrap();

        assert_eq!(varint, decoded);
    }
}

#[test]
fn test_string_roundtrip() {
    let test_strings = ["", "Hello", "Hello, \u{4e16}\u{754c}!", "\u{1f680}"];

    for &s in &test_strings {
        let mc_string = McString::from(s);
        let mut buffer = Vec::new();
        mc_string.write(&mut buffer).unwrap();

        let mut cursor = Cursor::new(&buffer);
        let decoded = McString::read(&mut cursor).unwrap();

        assert_eq!(mc_string, decoded);
    }
}

#[test]
fn test_byte_array_roundtrip() {
    let test_data = vec![1, 2, 3, 4, 5, 255, 0];
    let byte_array = ByteArray::from(test_data.clone());

    let mut buffer = Vec::new();
    byte_array.write(&mut buffer).unwrap();

    let mut cursor = Cursor::new(&buffer);
    let decoded = ByteArray::read(&mut cursor).unwrap();

    assert_eq!(byte_array, decoded);
    assert_eq!(test_data, decoded.0);
}

#[test]
fn test_json_text_component() {
    let component = JsonTextComponent::text("Hello, world!");

    let mut buffer = Vec::new();
    component.write(&mut buffer).unwrap();

    let mut cursor = Cursor::new(&buffer);
    let decoded = JsonTextComponent::read(&mut cursor).unwrap();

    assert_eq!(component, decoded);
}

#[test]
fn test_identifier() {
    let identifier = Identifier::new("minecraft", "stone");

    let mut buffer = Vec::new();
    identifier.write(&mut buffer).unwrap();

    let mut cursor = Cursor::new(&buffer);
    let decoded = Identifier::read(&mut cursor).unwrap();

    assert_eq!(identifier, decoded);
    assert_eq!("minecraft", identifier.namespace());
    assert_eq!("stone", identifier.path());
}

#[test]
fn test_primitive_types() {
    // Test unsigned short
    let value = 12345u16;
    let mut buffer = Vec::new();
    write_unsigned_short(value, &mut buffer).unwrap();
    let mut cursor = Cursor::new(&buffer);
    let decoded = read_unsigned_short(&mut cursor).unwrap();
    assert_eq!(value, decoded);

    // Test long
    let value = 1234567890123456789i64;
    let mut buffer = Vec::new();
    write_long(value, &mut buffer).unwrap();
    let mut cursor = Cursor::new(&buffer);
    let decoded = read_long(&mut cursor).unwrap();
    assert_eq!(value, decoded);

    // Test int
    let value = -123456789i32;
    let mut buffer = Vec::new();
    write_int(value, &mut buffer).unwrap();
    let mut cursor = Cursor::new(&buffer);
    let decoded = read_int(&mut cursor).unwrap();
    assert_eq!(value, decoded);
}
