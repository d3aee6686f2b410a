//! Protocol data types and their symmetric readers and writers.

use vstd::prelude::*;
use vstd::slice::slice_to_vec;
use vstd::std_specs::convert::FromSpecImpl;
use vstd::std_specs::iter::IteratorSpec;
use vstd::string::{StrSliceExecFns, StringExecFns};
use vstd::utf8::{encode_utf8, encode_utf8_decode_utf8, valid_utf8};

use crate::error::{ErrorKind, Fault, Result, ServerError};
use crate::protocol::cursor::Cursor;
use crate::protocol::wire::{
    be_bytes, be_value, bool_bytes, byte_array_bytes, group_count, groups, i32_bytes, i64_bytes,
    i8_bytes, lemma_be_value_bound, lemma_group_count_bound, lemma_groups_len,
    lemma_pow128_monotonic, lemma_pow128_step, lemma_pow128_values, lemma_pow256_monotonic,
    lemma_pow256_values, lemma_varint_len, parse_be, parse_bool, parse_byte_array, parse_groups,
    parse_i32, parse_i64, parse_i8, parse_raw16, parse_string, parse_u16, parse_u64, parse_u8,
    parse_varint, parse_varlong, signed32, position_bits, position_fits, lemma_position_bits, lemma_be_roundtrip, position_x, position_y, position_z, pow128,
    pow256, string_bytes, u16_bytes, u64_bytes, u8_bytes, unsigned32, unsigned64, varint_bytes,
    groups_rest, sized_rest, varint_rest, varlong_bytes, varlong_rest, Parsed,
};

verus! {

/// Whether what a reader returned, and where it left the input, is what the
/// wire format prescribes for the bytes it was given.
pub open spec fn decodes<T: View>(r: Result<T>, after: Seq<u8>, expected: Parsed<T::V>) -> bool {
    match r {
        Ok(v) => expected == Ok::<(T::V, Seq<u8>), Fault>((v@, after)),
        Err(e) => expected is Err && e.fault() == Some(expected->Err_0),
    }
}

/// Whether a result is a failure that reports the given fault.
pub open spec fn refuses<T>(r: Result<T>, fault: Fault) -> bool {
    match r {
        Ok(_) => false,
        Err(e) => e.fault() == Some(fault),
    }
}

/// A protocol fault with the given reason.
pub fn protocol_error(reason: &str) -> (e: ServerError)
    ensures
        e matches ServerError::Protocol(s) && s@ == reason@,
        e.fault() == Some(Fault::Malformed),
{
    ServerError::Protocol(reason.to_string())
}

/// The fault of an input that ended too early.
pub fn eof_error() -> (e: ServerError)
    ensures
        e == ServerError::Io(ErrorKind::UnexpectedEof),
        e.fault() == Some(Fault::Truncated),
{
    ServerError::Io(ErrorKind::UnexpectedEof)
}

/// What the group decoder yields once `value` has been gathered from
/// earlier groups of total weight `weight`.
pub open spec fn lift_groups(p: Parsed<nat>, value: nat, weight: nat) -> Parsed<nat> {
    match p {
        Ok((high, rest)) => Ok(((value + weight * high) as nat, rest)),
        Err(e) => Err(e),
    }
}

/// A variable-length 32-bit integer.
#[derive(Debug, Clone, Copy, PartialEq, Eq, Structural)]
pub struct VarInt(pub i32);

impl View for VarInt {
    type V = int;

    open spec fn view(&self) -> int {
        self.0 as int
    }
}

/// Reads up to `max` seven-bit groups and returns the number they spell.
fn read_groups(reader: &mut Cursor, max: usize) -> (r: Result<u128>)
    requires
        1 <= max <= 10,
    ensures
        final(reader).follows(*old(reader)),
        final(reader)@ == groups_rest(old(reader)@, max as nat),
        match r {
            Ok(v) => parse_groups(old(reader)@, max as nat) == Ok::<(nat, Seq<u8>), Fault>(
                (v as nat, final(reader)@),
            ),
            Err(e) => parse_groups(old(reader)@, max as nat) is Err && e.fault() == Some(
                parse_groups(old(reader)@, max as nat)->Err_0,
            ),
        },
{
    let mut value: u128 = 0;
    let mut weight: u128 = 1;
    let mut count: usize = 0;
    proof {
        lemma_pow128_values();
        assert(pow128(0) == 1);
    }
    while count < max
        invariant
            1 <= max <= 10,
            count <= max,
            weight == pow128(count as nat),
            value < weight,
            weight <= pow128(10),
            pow128(10) == 0x40_0000_0000_0000_0000,
            reader.follows(*old(reader)),
            groups_rest(old(reader)@, max as nat) == groups_rest(reader@, (max - count) as nat),
            parse_groups(old(reader)@, max as nat) == lift_groups(
                parse_groups(reader@, (max - count) as nat),
                value as nat,
                weight as nat,
            ),
        decreases max - count,
    {
        let ghost before = reader@;
        let ghost left = (max - count) as nat;
        match reader.read_byte() {
            None => {
                return Err(eof_error());
            },
            Some(byte) => {
                if byte < 128 {
                    assert(weight * (byte as u128) <= 0x40_0000_0000_0000_0000 * 127) by (nonlinear_arith)
                        requires
                            weight <= 0x40_0000_0000_0000_0000,
                            byte <= 127,
                    ;
                    let total = value + weight * (byte as u128);
                    assert(total == value + weight * byte) by (nonlinear_arith)
                        requires
                            total == value + weight * (byte as u128),
                    ;
                    return Ok(total);
                }
                let low: u128 = (byte - 128) as u128;
                assert(weight * low <= weight * 127) by (nonlinear_arith)
                    requires
                        low <= 127,
                        weight >= 0,
                ;
                let ghost high_part = parse_groups(reader@, (left - 1) as nat);
                assert(parse_groups(before, left) == match high_part {
                    Ok((high, rest)) => Ok::<(nat, Seq<u8>), Fault>(
                        ((low + 128 * high) as nat, rest),
                    ),
                    Err(e) => Err(e),
                });
                let ghost old_value = value;
                let ghost old_weight = weight;
                value = value + weight * low;
                proof {
                    lemma_pow128_step(count as nat);
                    lemma_pow128_monotonic((count + 1) as nat, 10);
                }
                weight = weight * 128;
                count = count + 1;
                proof {
                    if high_part is Ok {
                        let high = high_part->Ok_0.0;
                        assert(old_value + old_weight * ((low + 128 * high) as nat) == value
                            + weight * high) by (nonlinear_arith)
                            requires
                                value == old_value + old_weight * low,
                                weight == old_weight * 128,
                        ;
                    }
                }
            },
        }
    }
    Err(protocol_error("variable-length integer too long"))
}

/// Appends the seven-bit groups of `value`.
fn write_groups(value: u128, writer: &mut Vec<u8>)
    ensures
        final(writer)@ == old(writer)@ + groups(value as nat),
{
    let mut rest = value;
    while rest >= 128
        invariant
            writer@ + groups(rest as nat) == old(writer)@ + groups(value as nat),
        decreases rest,
    {
        let ghost before = writer@;
        let byte = ((rest % 128) as u8) + 128;
        writer.push(byte);
        assert(before.push(byte) + groups((rest / 128) as nat) =~= before + groups(rest as nat));
        rest = rest / 128;
    }
    let ghost before = writer@;
    writer.push(rest as u8);
    assert(before.push(rest as u8) =~= before + groups(rest as nat));
}

/// Counts the seven-bit groups of `value`.
fn count_groups(value: u128) -> (n: usize)
    requires
        value < pow128(10),
    ensures
        n == group_count(value as nat),
        n == groups(value as nat).len(),
        1 <= n <= 10,
{
    let mut rest = value;
    let mut n: usize = 1;
    proof {
        lemma_group_count_bound(value as nat, 10);
    }
    while rest >= 128
        invariant
            n + group_count(rest as nat) == 1 + group_count(value as nat),
            1 <= n,
            group_count(value as nat) <= 10,
        decreases rest,
    {
        rest = rest / 128;
        n = n + 1;
    }
    proof {
        lemma_groups_len(value as nat);
    }
    n
}

impl VarInt {
    /// The maximum number of bytes a VarInt can occupy.
    pub const MAX_SIZE: usize = 5;

    /// The unsigned reading of the value's bit pattern.
    fn to_unsigned(&self) -> (u: u128)
        ensures
            u == unsigned32(self@),
    {
        if self.0 >= 0 {
            self.0 as u128
        } else {
            ((self.0 as i64) + 0x1_0000_0000) as u128
        }
    }

    /// Reads a VarInt: seven-bit groups, least significant first, at most
    /// five of them.
    pub fn read(reader: &mut Cursor) -> (r: Result<Self>)
        ensures
            final(reader).follows(*old(reader)),
            final(reader)@ == varint_rest(old(reader)@),
            decodes(r, final(reader)@, parse_varint(old(reader)@)),
    {
        proof {
            reveal(parse_varint);
            reveal(varint_rest);
        }
        let u = read_groups(reader, 5)?;
        let low = u % 0x1_0000_0000;
        let value = if low < 0x8000_0000 {
            low as i32
        } else {
            ((low as i64) - 0x1_0000_0000) as i32
        };
        Ok(VarInt(value))
    }

    /// Appends the encoding of the value to `writer`.
    pub fn write(&self, writer: &mut Vec<u8>) -> (r: Result<()>)
        ensures
            r is Ok,
            final(writer)@ == old(writer)@ + varint_bytes(self@),
    {
        proof {
            reveal(varint_bytes);
        }
        write_groups(self.to_unsigned(), writer);
        Ok(())
    }

    /// Number of bytes the value occupies when written.
    pub fn len(&self) -> (n: usize)
        ensures
            n == varint_bytes(self@).len(),
            1 <= n <= 5,
    {
        proof {
            reveal(varint_bytes);
        }
        proof {
            lemma_varint_len(self@);
            lemma_pow128_values();
        }
        count_groups(self.to_unsigned())
    }

    /// Whether the value is zero.
    pub fn is_empty(&self) -> (b: bool)
        ensures
            b == (self@ == 0),
    {
        self.0 == 0
    }
}

/// A variable-length 64-bit integer.
#[derive(Debug, Clone, Copy, PartialEq, Eq, Structural)]
pub struct VarLong(pub i64);

impl View for VarLong {
    type V = int;

    open spec fn view(&self) -> int {
        self.0 as int
    }
}

impl VarLong {
    /// The maximum number of bytes a VarLong can occupy.
    pub const MAX_SIZE: usize = 10;

    /// The unsigned reading of the value's bit pattern.
    fn to_unsigned(&self) -> (u: u128)
        ensures
            u == unsigned64(self@),
    {
        if self.0 >= 0 {
            self.0 as u128
        } else {
            ((self.0 as i128) + 0x1_0000_0000_0000_0000) as u128
        }
    }

    /// Reads a VarLong: seven-bit groups, least significant first, at most
    /// ten of them.
    pub fn read(reader: &mut Cursor) -> (r: Result<Self>)
        ensures
            final(reader).follows(*old(reader)),
            final(reader)@ == varlong_rest(old(reader)@),
            decodes(r, final(reader)@, parse_varlong(old(reader)@)),
    {
        proof {
            reveal(parse_varlong);
            reveal(varlong_rest);
        }
        let u = read_groups(reader, 10)?;
        let low = u % 0x1_0000_0000_0000_0000;
        let value = if low < 0x8000_0000_0000_0000 {
            low as i64
        } else {
            ((low as i128) - 0x1_0000_0000_0000_0000) as i64
        };
        Ok(VarLong(value))
    }

    /// Appends the encoding of the value to `writer`.
    pub fn write(&self, writer: &mut Vec<u8>) -> (r: Result<()>)
        ensures
            r is Ok,
            final(writer)@ == old(writer)@ + varlong_bytes(self@),
    {
        proof {
            reveal(varlong_bytes);
        }
        write_groups(self.to_unsigned(), writer);
        Ok(())
    }
}

/// Reads `width` bytes as a big-endian number.
fn read_be(reader: &mut Cursor, width: usize) -> (r: Result<u64>)
    requires
        width <= 8,
    ensures
        final(reader).follows(*old(reader)),
        match r {
            Ok(v) => parse_be(old(reader)@, width as nat) == Ok::<(nat, Seq<u8>), Fault>(
                (v as nat, final(reader)@),
            ),
            Err(e) => parse_be(old(reader)@, width as nat) == Err::<(nat, Seq<u8>), Fault>(
                Fault::Truncated,
            ) && e == ServerError::Io(ErrorKind::UnexpectedEof),
        },
{
    match reader.take(width) {
        None => Err(eof_error()),
        Some(bytes) => {
            let mut value: u128 = 0;
            let mut i: usize = 0;
            proof {
                lemma_pow256_values();
            }
            while i < width
                invariant
                    i <= width <= 8,
                    bytes@.len() == width,
                    value == be_value(bytes@.take(i as int)),
                    value < pow256(i as nat),
                    pow256(8) == 0x1_0000_0000_0000_0000,
                decreases width - i,
            {
                proof {
                    lemma_pow256_monotonic(i as nat, 8);
                    assert(bytes@.take(i + 1).drop_last() =~= bytes@.take(i as int));
                    lemma_be_value_bound(bytes@.take(i + 1));
                }
                value = value * 256 + (bytes[i] as u128);
                i = i + 1;
            }
            proof {
                lemma_pow256_monotonic(width as nat, 8);
                assert(bytes@.take(width as int) =~= bytes@);
            }
            Ok(value as u64)
        },
    }
}

/// Appends the `width` low-order bytes of `value`, most significant first.
fn write_be(value: u64, width: usize, writer: &mut Vec<u8>)
    ensures
        final(writer)@ == old(writer)@ + be_bytes(value as nat, width as nat),
    decreases width,
{
    if width > 0 {
        write_be(value / 256, width - 1, writer);
        let ghost before = writer@;
        writer.push((value % 256) as u8);
        assert(before.push((value % 256) as u8) =~= old(writer)@ + be_bytes(
            value as nat,
            width as nat,
        ));
    } else {
        assert(writer@ =~= old(writer)@ + be_bytes(value as nat, 0));
    }
}

/// The signed reading of the low 32 bits of an unsigned 32-bit number.
pub fn wrap_to_i32(value: u32) -> (r: i32)
    ensures
        r == signed32(value as nat),
{
    if value < 0x8000_0000 {
        value as i32
    } else {
        ((value as i64) - 0x1_0000_0000) as i32
    }
}

/// Reads a boolean: one byte, zero is false, anything else is true.
pub fn read_bool(reader: &mut Cursor) -> (r: Result<bool>)
    ensures
        final(reader).follows(*old(reader)),
        decodes(r, final(reader)@, parse_bool(old(reader)@)),
{
    proof {
        reveal(parse_bool);
    }
    match reader.read_byte() {
        None => Err(eof_error()),
        Some(byte) => Ok(byte != 0),
    }
}

/// Writes a boolean as one byte, 1 for true and 0 for false.
pub fn write_bool(value: bool, writer: &mut Vec<u8>) -> (r: Result<()>)
    ensures
        r is Ok,
        final(writer)@ == old(writer)@ + bool_bytes(value),
{
    proof {
        reveal(bool_bytes);
    }
    let byte: u8 = if value {
        1
    } else {
        0
    };
    writer.push(byte);
    assert(writer@ =~= old(writer)@ + bool_bytes(value));
    Ok(())
}

/// Reads an unsigned short, big-endian.
pub fn read_unsigned_short(reader: &mut Cursor) -> (r: Result<u16>)
    ensures
        final(reader).follows(*old(reader)),
        decodes(r, final(reader)@, parse_u16(old(reader)@)),
{
    proof {
        reveal(parse_u16);
    }
    proof {
        lemma_pow256_values();
        if old(reader)@.len() >= 2 {
            lemma_be_value_bound(old(reader)@.take(2));
        }
    }
    let v = read_be(reader, 2)?;
    Ok(v as u16)
}

/// Writes an unsigned short, big-endian.
pub fn write_unsigned_short(value: u16, writer: &mut Vec<u8>) -> (r: Result<()>)
    ensures
        r is Ok,
        final(writer)@ == old(writer)@ + u16_bytes(value),
{
    proof {
        reveal(u16_bytes);
    }
    write_be(value as u64, 2, writer);
    Ok(())
}

/// Reads an unsigned byte.
pub fn read_unsigned_byte(reader: &mut Cursor) -> (r: Result<u8>)
    ensures
        final(reader).follows(*old(reader)),
        decodes(r, final(reader)@, parse_u8(old(reader)@)),
{
    proof {
        reveal(parse_u8);
    }
    proof {
        lemma_pow256_values();
        if old(reader)@.len() >= 1 {
            lemma_be_value_bound(old(reader)@.take(1));
        }
    }
    let v = read_be(reader, 1)?;
    Ok(v as u8)
}

/// Writes an unsigned byte.
pub fn write_unsigned_byte(value: u8, writer: &mut Vec<u8>) -> (r: Result<()>)
    ensures
        r is Ok,
        final(writer)@ == old(writer)@ + u8_bytes(value),
{
    proof {
        reveal(u8_bytes);
    }
    write_be(value as u64, 1, writer);
    Ok(())
}

/// Reads a signed byte, two's complement.
pub fn read_byte(reader: &mut Cursor) -> (r: Result<i8>)
    ensures
        final(reader).follows(*old(reader)),
        decodes(r, final(reader)@, parse_i8(old(reader)@)),
{
    proof {
        reveal(parse_i8);
    }
    proof {
        lemma_pow256_values();
        if old(reader)@.len() >= 1 {
            lemma_be_value_bound(old(reader)@.take(1));
        }
    }
    let v = read_be(reader, 1)?;
    if v < 0x80 {
        Ok(v as i8)
    } else {
        Ok(((v as i64) - 0x100) as i8)
    }
}

/// Writes a signed byte, two's complement.
pub fn write_byte(value: i8, writer: &mut Vec<u8>) -> (r: Result<()>)
    ensures
        r is Ok,
        final(writer)@ == old(writer)@ + i8_bytes(value),
{
    proof {
        reveal(i8_bytes);
    }
    let u: u64 = if value >= 0 {
        value as u64
    } else {
        ((value as i64) + 0x100) as u64
    };
    write_be(u, 1, writer);
    Ok(())
}

/// Reads a long, big-endian two's complement.
pub fn read_long(reader: &mut Cursor) -> (r: Result<i64>)
    ensures
        final(reader).follows(*old(reader)),
        decodes(r, final(reader)@, parse_i64(old(reader)@)),
{
    proof {
        reveal(parse_i64);
    }
    let v = read_be(reader, 8)?;
    if v < 0x8000_0000_0000_0000 {
        Ok(v as i64)
    } else {
        Ok(((v as i128) - 0x1_0000_0000_0000_0000) as i64)
    }
}

/// Writes a long, big-endian two's complement.
pub fn write_long(value: i64, writer: &mut Vec<u8>) -> (r: Result<()>)
    ensures
        r is Ok,
        final(writer)@ == old(writer)@ + i64_bytes(value),
{
    proof {
        reveal(i64_bytes);
    }
    let u: u64 = if value >= 0 {
        value as u64
    } else {
        ((value as i128) + 0x1_0000_0000_0000_0000) as u64
    };
    write_be(u, 8, writer);
    Ok(())
}

/// Reads eight bytes as an unsigned big-endian number.
pub fn read_unsigned_long(reader: &mut Cursor) -> (r: Result<u64>)
    ensures
        final(reader).follows(*old(reader)),
        decodes(r, final(reader)@, parse_u64(old(reader)@)),
{
    proof {
        reveal(parse_u64);
    }
    let v = read_be(reader, 8)?;
    Ok(v)
}

/// Writes an unsigned 64-bit number, big-endian.
pub fn write_unsigned_long(value: u64, writer: &mut Vec<u8>) -> (r: Result<()>)
    ensures
        r is Ok,
        final(writer)@ == old(writer)@ + u64_bytes(value),
{
    proof {
        reveal(u64_bytes);
    }
    write_be(value, 8, writer);
    Ok(())
}

/// Reads an int, big-endian two's complement.
pub fn read_int(reader: &mut Cursor) -> (r: Result<i32>)
    ensures
        final(reader).follows(*old(reader)),
        decodes(r, final(reader)@, parse_i32(old(reader)@)),
{
    proof {
        reveal(parse_i32);
    }
    proof {
        lemma_pow256_values();
        if old(reader)@.len() >= 4 {
            lemma_be_value_bound(old(reader)@.take(4));
        }
    }
    let v = read_be(reader, 4)?;
    if v < 0x8000_0000 {
        Ok(v as i32)
    } else {
        Ok(((v as i64) - 0x1_0000_0000) as i32)
    }
}

/// Writes an int, big-endian two's complement.
pub fn write_int(value: i32, writer: &mut Vec<u8>) -> (r: Result<()>)
    ensures
        r is Ok,
        final(writer)@ == old(writer)@ + i32_bytes(value),
{
    proof {
        reveal(i32_bytes);
    }
    let u: u64 = if value >= 0 {
        value as u64
    } else {
        ((value as i64) + 0x1_0000_0000) as u64
    };
    write_be(u, 4, writer);
    Ok(())
}

/// Appends a copy of `bytes` to `writer`.
pub fn write_all(writer: &mut Vec<u8>, bytes: &[u8])
    ensures
        final(writer)@ == old(writer)@ + bytes@,
{
    let mut i: usize = 0;
    while i < bytes.len()
        invariant
            i <= bytes@.len(),
            writer@ == old(writer)@ + bytes@.take(i as int),
        decreases bytes@.len() - i,
    {
        let ghost before = writer@;
        writer.push(bytes[i]);
        assert(before.push(bytes@[i as int]) =~= old(writer)@ + bytes@.take(i + 1));
        i = i + 1;
    }
    assert(bytes@.take(bytes@.len() as int) =~= bytes@);
}

/// Reads a length prefix and that many bytes, refusing lengths that are
/// negative or above `max` before touching the payload.
pub fn read_sized<'a>(reader: &mut Cursor<'a>, max: usize) -> (r: Result<&'a [u8]>)
    ensures
        final(reader).follows(*old(reader)),
        final(reader)@ == sized_rest(old(reader)@, 0, max as int),
        match r {
            Ok(bytes) => parse_byte_array(old(reader)@, max as nat) == Ok::<
                (Seq<u8>, Seq<u8>),
                Fault,
            >((bytes@, final(reader)@)),
            Err(e) => parse_byte_array(old(reader)@, max as nat) is Err && e.fault() == Some(
                parse_byte_array(old(reader)@, max as nat)->Err_0,
            ),
        },
{
    proof {
        reveal(parse_byte_array);
    }
    let length = VarInt::read(reader)?;
    if length.0 < 0 {
        return Err(protocol_error("negative length"));
    }
    let length = length.0 as usize;
    if length > max {
        return Err(protocol_error("length above the limit"));
    }
    match reader.take(length) {
        None => Err(eof_error()),
        Some(bytes) => Ok(bytes),
    }
}

/// Writes a length prefix and the bytes, unless there are more than `max`
/// or more than a VarInt can announce.
pub fn write_sized(bytes: &[u8], max: usize, writer: &mut Vec<u8>) -> (r: Result<()>)
    ensures
        r is Ok <==> bytes@.len() <= max && bytes@.len() <= 0x7fff_ffff,
        r is Ok ==> final(writer)@ == old(writer)@ + byte_array_bytes(bytes@),
        r matches Err(e) ==> final(writer)@ == old(writer)@ && e.fault() == Some(Fault::Malformed),
{
    proof {
        reveal(byte_array_bytes);
    }
    if bytes.len() > max || bytes.len() > 0x7fff_ffff {
        return Err(protocol_error("payload above the limit"));
    }
    let _ = VarInt(bytes.len() as i32).write(writer);
    write_all(writer, bytes);
    assert(writer@ =~= old(writer)@ + byte_array_bytes(bytes@));
    Ok(())
}

/// `String::from_utf8` of std: the string whose UTF-8 form is `bytes`, or
/// nothing when `bytes` is not valid UTF-8.
#[verifier::external_body]
pub(crate) fn string_from_utf8(bytes: Vec<u8>) -> (r: Option<String>)
    ensures
        r is Some <==> valid_utf8(bytes@),
        r matches Some(s) ==> encode_utf8(s@) == bytes@,
{
    String::from_utf8(bytes).ok()
}

/// Reads a string of at most `max` UTF-8 bytes.
pub fn read_text(reader: &mut Cursor, max: usize) -> (r: Result<String>)
    ensures
        final(reader).follows(*old(reader)),
        final(reader)@ == sized_rest(old(reader)@, 0, max as int),
        match r {
            Ok(s) => parse_string(old(reader)@, max as nat) == Ok::<(Seq<char>, Seq<u8>), Fault>(
                (s@, final(reader)@),
            ),
            Err(e) => parse_string(old(reader)@, max as nat) is Err && e.fault() == Some(
                parse_string(old(reader)@, max as nat)->Err_0,
            ),
        },
{
    proof {
        reveal(parse_string);
    }
    let bytes = read_sized(reader, max)?;
    match string_from_utf8(slice_to_vec(bytes)) {
        None => Err(protocol_error("invalid UTF-8 in string")),
        Some(s) => {
            proof {
                encode_utf8_decode_utf8(s@);
            }
            Ok(s)
        },
    }
}

/// Writes a string of at most `max` UTF-8 bytes, and never more than a
/// VarInt can announce.
pub fn write_text(text: &str, max: usize, writer: &mut Vec<u8>) -> (r: Result<()>)
    ensures
        r is Ok <==> encode_utf8(text@).len() <= max && encode_utf8(text@).len() <= 0x7fff_ffff,
        r is Ok ==> final(writer)@ == old(writer)@ + string_bytes(text@),
        r matches Err(e) ==> final(writer)@ == old(writer)@ && e.fault() == Some(Fault::Malformed),
{
    proof {
        reveal(string_bytes);
    }
    write_sized(text.as_bytes(), max, writer)
}

/// A protocol string: UTF-8 with a VarInt length prefix.
#[derive(Debug, Clone, PartialEq, Eq)]
pub struct McString(pub String);

impl View for McString {
    type V = Seq<char>;

    open spec fn view(&self) -> Seq<char> {
        self.0@
    }
}

impl McString {
    /// Maximum string length in bytes.
    pub const MAX_LENGTH: usize = 32767;

    /// Whether the string can be written: its UTF-8 form has at most
    /// 32767 bytes.
    pub open spec fn encodable(&self) -> bool {
        encode_utf8(self@).len() <= 32767
    }

    /// Reads a string of at most 32767 bytes.
    pub fn read(reader: &mut Cursor) -> (r: Result<Self>)
        ensures
            final(reader).follows(*old(reader)),
            final(reader)@ == sized_rest(old(reader)@, 0, 32767),
            decodes(r, final(reader)@, parse_string(old(reader)@, 32767)),
    {
        proof {
            reveal(parse_string);
        }
        let s = read_text(reader, 32767)?;
        Ok(McString(s))
    }

    /// Reads a string of at most `max_length` bytes; a longer one is
    /// refused on its length field alone.
    pub fn read_with_max_length(reader: &mut Cursor, max_length: usize) -> (r: Result<Self>)
        ensures
            final(reader).follows(*old(reader)),
            final(reader)@ == sized_rest(old(reader)@, 0, max_length as int),
            decodes(r, final(reader)@, parse_string(old(reader)@, max_length as nat)),
    {
        proof {
            reveal(parse_string);
        }
        let s = read_text(reader, max_length)?;
        Ok(McString(s))
    }

    /// Writes the string, or fails when it is longer than 32767 bytes.
    pub fn write(&self, writer: &mut Vec<u8>) -> (r: Result<()>)
        ensures
            r is Ok <==> self.encodable(),
            r is Ok ==> final(writer)@ == old(writer)@ + string_bytes(self@),
            r matches Err(e) ==> final(writer)@ == old(writer)@ && e.fault() == Some(
                Fault::Malformed,
            ),
    {
        proof {
            reveal(string_bytes);
        }
        write_text(self.0.as_str(), 32767, writer)
    }

    /// Checks the byte length of the string against a maximum.
    pub fn validate_length(&self, max_length: usize) -> (r: Result<()>)
        ensures
            r is Ok <==> encode_utf8(self@).len() <= max_length,
            r matches Err(e) ==> e.fault() == Some(Fault::Malformed),
    {
        if self.0.as_str().as_bytes().len() > max_length {
            return Err(protocol_error("string too long"));
        }
        Ok(())
    }
}

/// A byte array with a VarInt length prefix.
#[derive(Debug, Clone, PartialEq, Eq)]
pub struct ByteArray(pub Vec<u8>);

impl View for ByteArray {
    type V = Seq<u8>;

    open spec fn view(&self) -> Seq<u8> {
        self.0@
    }
}

impl ByteArray {
    /// Reads a byte array of any length that a VarInt can announce.
    pub fn read(reader: &mut Cursor) -> (r: Result<Self>)
        ensures
            final(reader).follows(*old(reader)),
            final(reader)@ == sized_rest(old(reader)@, 0, 0x7fff_ffff),
            decodes(r, final(reader)@, parse_byte_array(old(reader)@, 0x7fff_ffff)),
    {
        proof {
            reveal(parse_byte_array);
        }
        let bytes = read_sized(reader, 0x7fff_ffff)?;
        Ok(ByteArray(slice_to_vec(bytes)))
    }

    /// Writes the array, or fails when its length does not fit a VarInt.
    pub fn write(&self, writer: &mut Vec<u8>) -> (r: Result<()>)
        ensures
            r is Ok <==> self@.len() <= 0x7fff_ffff,
            r is Ok ==> final(writer)@ == old(writer)@ + byte_array_bytes(self@),
            r matches Err(e) ==> final(writer)@ == old(writer)@ && e.fault() == Some(
                Fault::Malformed,
            ),
    {
        proof {
            reveal(byte_array_bytes);
        }
        write_sized(self.0.as_slice(), 0x7fff_ffff, writer)
    }

    /// Reads a byte array of at most `max_length` bytes.
    pub fn read_with_max_length(reader: &mut Cursor, max_length: usize) -> (r: Result<Self>)
        ensures
            final(reader).follows(*old(reader)),
            final(reader)@ == sized_rest(old(reader)@, 0, max_length as int),
            decodes(r, final(reader)@, parse_byte_array(old(reader)@, max_length as nat)),
    {
        proof {
            reveal(parse_byte_array);
        }
        let bytes = read_sized(reader, max_length)?;
        Ok(ByteArray(slice_to_vec(bytes)))
    }
}

impl From<i32> for VarInt {
    fn from(value: i32) -> (r: Self) {
        VarInt(value)
    }
}

impl FromSpecImpl<i32> for VarInt {
    open spec fn obeys_from_spec() -> bool {
        true
    }

    open spec fn from_spec(v: i32) -> Self {
        VarInt(v)
    }
}

impl From<VarInt> for i32 {
    fn from(varint: VarInt) -> (r: Self) {
        varint.0
    }
}

impl FromSpecImpl<VarInt> for i32 {
    open spec fn obeys_from_spec() -> bool {
        true
    }

    open spec fn from_spec(v: VarInt) -> Self {
        v.0
    }
}

impl From<i64> for VarLong {
    fn from(value: i64) -> (r: Self) {
        VarLong(value)
    }
}

impl FromSpecImpl<i64> for VarLong {
    open spec fn obeys_from_spec() -> bool {
        true
    }

    open spec fn from_spec(v: i64) -> Self {
        VarLong(v)
    }
}

impl From<VarLong> for i64 {
    fn from(varlong: VarLong) -> (r: Self) {
        varlong.0
    }
}

impl FromSpecImpl<VarLong> for i64 {
    open spec fn obeys_from_spec() -> bool {
        true
    }

    open spec fn from_spec(v: VarLong) -> Self {
        v.0
    }
}

impl From<String> for McString {
    fn from(value: String) -> (r: Self) {
        McString(value)
    }
}

impl FromSpecImpl<String> for McString {
    open spec fn obeys_from_spec() -> bool {
        true
    }

    open spec fn from_spec(v: String) -> Self {
        McString(v)
    }
}

impl<'a> From<&'a str> for McString {
    fn from(value: &'a str) -> (r: Self)
        ensures
            r@ == value@,
    {
        McString(value.to_string())
    }
}

impl<'a> FromSpecImpl<&'a str> for McString {
    open spec fn obeys_from_spec() -> bool {
        false
    }

    open spec fn from_spec(v: &'a str) -> Self {
        arbitrary()
    }
}

impl From<McString> for String {
    fn from(mc_string: McString) -> (r: Self) {
        mc_string.0
    }
}

impl FromSpecImpl<McString> for String {
    open spec fn obeys_from_spec() -> bool {
        true
    }

    open spec fn from_spec(v: McString) -> Self {
        v.0
    }
}

impl From<Vec<u8>> for ByteArray {
    fn from(bytes: Vec<u8>) -> (r: Self) {
        ByteArray(bytes)
    }
}

impl FromSpecImpl<Vec<u8>> for ByteArray {
    open spec fn obeys_from_spec() -> bool {
        true
    }

    open spec fn from_spec(v: Vec<u8>) -> Self {
        ByteArray(v)
    }
}

impl From<ByteArray> for Vec<u8> {
    fn from(array: ByteArray) -> (r: Self) {
        array.0
    }
}

impl FromSpecImpl<ByteArray> for Vec<u8> {
    open spec fn obeys_from_spec() -> bool {
        true
    }

    open spec fn from_spec(v: ByteArray) -> Self {
        v.0
    }
}

/// A block position: three coordinates packed into 64 bits on the wire.
#[derive(Debug, Clone, Copy, PartialEq, Eq, Structural)]
pub struct Position {
    /// X coordinate.
    pub x: i32,
    /// Y coordinate.
    pub y: i32,
    /// Z coordinate.
    pub z: i32,
}

impl View for Position {
    type V = Position;

    open spec fn view(&self) -> Position {
        *self
    }
}

/// The eight bytes of a position: x in the top 26 bits, then z in 26 bits,
/// then y in 12, big-endian.
#[verifier::opaque]
pub open spec fn position_bytes(p: Position) -> Seq<u8> {
    be_bytes(position_bits(p.x as int, p.y as int, p.z as int), 8)
}

/// Decoder of a position; each component is sign-extended.
#[verifier::opaque]
pub open spec fn parse_position(b: Seq<u8>) -> Parsed<Position> {
    match parse_be(b, 8) {
        Ok((bits, rest)) => Ok(
            (
                Position {
                    x: position_x(bits) as i32,
                    y: position_y(bits) as i32,
                    z: position_z(bits) as i32,
                },
                rest,
            ),
        ),
        Err(e) => Err(e),
    }
}

/// A position whose coordinates fit the packed form survives encoding
/// followed by decoding, whatever follows it.
pub proof fn lemma_position_roundtrip(p: Position, tail: Seq<u8>)
    requires
        p.fits(),
    ensures
        parse_position(position_bytes(p) + tail) == Ok::<(Position, Seq<u8>), Fault>((p, tail)),
{
    reveal(position_bytes);
    reveal(parse_position);
    lemma_position_bits(p.x as int, p.y as int, p.z as int);
    lemma_pow256_values();
    lemma_be_roundtrip(position_bits(p.x as int, p.y as int, p.z as int), 8, tail);
}

/// Whatever the position decoder returns fits the packed form.
pub proof fn lemma_parsed_position_fits(b: Seq<u8>)
    requires
        parse_position(b) is Ok,
    ensures
        parse_position(b)->Ok_0.0.fits(),
{
    reveal(parse_position);
    lemma_be_value_bound(b.take(8));
    lemma_pow256_values();
}

impl Position {
    /// Whether the coordinates fit the packed form: 26 signed bits for x
    /// and z, 12 for y.
    pub open spec fn fits(&self) -> bool {
        position_fits(self.x as int, self.y as int, self.z as int)
    }

    /// Whether the coordinates fit the packed form.
    pub fn in_range(&self) -> (b: bool)
        ensures
            b == self.fits(),
    {
        -0x200_0000 <= self.x && self.x < 0x200_0000 && -0x800 <= self.y && self.y < 0x800
            && -0x200_0000 <= self.z && self.z < 0x200_0000
    }

    /// Creates a position.
    pub fn new(x: i32, y: i32, z: i32) -> (p: Self)
        ensures
            p == (Position { x, y, z }),
    {
        Self { x, y, z }
    }

    /// Reads a packed position.
    pub fn read(reader: &mut Cursor) -> (r: Result<Self>)
        ensures
            final(reader).follows(*old(reader)),
            decodes(r, final(reader)@, parse_position(old(reader)@)),
    {
        proof {
            reveal(parse_position);
        }
        let bits = read_be(reader, 8)?;
        let xu = bits / 0x40_0000_0000;
        let zu = (bits / 0x1000) % 0x400_0000;
        let yu = bits % 0x1000;
        let x = if xu < 0x200_0000 {
            xu as i32
        } else {
            ((xu as i64) - 0x400_0000) as i32
        };
        let z = if zu < 0x200_0000 {
            zu as i32
        } else {
            ((zu as i64) - 0x400_0000) as i32
        };
        let y = if yu < 0x800 {
            yu as i32
        } else {
            ((yu as i64) - 0x1000) as i32
        };
        Ok(Position::new(x, y, z))
    }

    /// Writes the packed position; coordinates are reduced to their low
    /// 26, 12 and 26 bits.
    pub fn write(&self, writer: &mut Vec<u8>) -> (r: Result<()>)
        ensures
            r is Ok,
            final(writer)@ == old(writer)@ + position_bytes(*self),
    {
        proof {
            reveal(position_bytes);
        }
        let ux = (((self.x as i64) + 0x1_0000_0000) as u64) % 0x400_0000;
        let uz = (((self.z as i64) + 0x1_0000_0000) as u64) % 0x400_0000;
        let uy = (((self.y as i64) + 0x1_0000_0000) as u64) % 0x1000;
        assert(ux == (self.x as int) % 0x400_0000);
        assert(uz == (self.z as int) % 0x400_0000);
        assert(uy == (self.y as int) % 0x1000);
        let bits = ux * 0x40_0000_0000 + uz * 0x1000 + uy;
        write_be(bits, 8, writer);
        Ok(())
    }
}

#[verifier::external_type_specification]
#[verifier::external_body]
pub struct ExUuid(uuid::Uuid);

/// A 128-bit universally unique identifier.
pub type McUuid = uuid::Uuid;

/// The sixteen bytes that a UUID holds.
pub uninterp spec fn uuid_bytes(u: uuid::Uuid) -> Seq<u8>;

/// `Uuid::from_bytes` keeps the sixteen bytes it is given.
pub assume_specification[ uuid::Uuid::from_bytes ](bytes: uuid::Bytes) -> (u: uuid::Uuid)
    ensures
        uuid_bytes(u) == bytes@,
;

/// `Uuid::as_bytes` hands out the sixteen bytes that the UUID holds.
pub assume_specification<'a>[ uuid::Uuid::as_bytes ](u: &'a uuid::Uuid) -> (b: &'a uuid::Bytes)
    ensures
        b@ == uuid_bytes(*u),
        b@.len() == 16,
;

/// Cloning a UUID copies its sixteen bytes.
pub assume_specification[ <uuid::Uuid as Clone>::clone ](u: &uuid::Uuid) -> (c: uuid::Uuid)
    ensures
        uuid_bytes(c) == uuid_bytes(*u),
;

/// Reads a UUID: sixteen bytes.
pub fn read_uuid(reader: &mut Cursor) -> (r: Result<McUuid>)
    ensures
        final(reader).follows(*old(reader)),
        match r {
            Ok(u) => parse_raw16(old(reader)@) == Ok::<(Seq<u8>, Seq<u8>), Fault>(
                (uuid_bytes(u), final(reader)@),
            ),
            Err(e) => parse_raw16(old(reader)@) is Err && e.fault() == Some(
                parse_raw16(old(reader)@)->Err_0,
            ),
        },
{
    proof {
        reveal(parse_raw16);
    }
    match reader.take(16) {
        None => Err(eof_error()),
        Some(bytes) => {
            let mut raw = [0u8;16];
            let mut i: usize = 0;
            while i < 16
                invariant
                    i <= 16,
                    bytes@.len() == 16,
                    forall|j: int| 0 <= j < i ==> raw@[j] == bytes@[j],
                decreases 16 - i,
            {
                raw[i] = bytes[i];
                i = i + 1;
            }
            assert(raw@ =~= bytes@);
            Ok(uuid::Uuid::from_bytes(raw))
        },
    }
}

/// Writes a UUID: sixteen bytes.
pub fn write_uuid(uuid: &McUuid, writer: &mut Vec<u8>) -> (r: Result<()>)
    ensures
        r is Ok,
        final(writer)@ == old(writer)@ + uuid_bytes(*uuid),
        uuid_bytes(*uuid).len() == 16,
{
    let bytes = uuid.as_bytes();
    write_all(writer, bytes.as_slice());
    Ok(())
}

/// Whether a text is a JSON document, as `serde_json` judges it.
pub uninterp spec fn json_well_formed(text: Seq<char>) -> bool;

/// The JSON text of the object that has a single member, with the given
/// name and the given string as its value, as `serde_json::to_string`
/// prints it.
pub uninterp spec fn json_member_object(name: Seq<char>, value: Seq<char>) -> Seq<char>;

/// The JSON text of the object that has the single member `"text"` with
/// the given string as its value.
pub open spec fn json_text_object(text: Seq<char>) -> Seq<char> {
    json_member_object("text"@, text)
}

/// `serde_json::from_str` into a `Value`: whether the text parses as JSON.
#[verifier::external_body]
fn is_json(text: &str) -> (ok: bool)
    ensures
        ok == json_well_formed(text@),
{
    serde_json::from_str::<serde_json::Value>(text).is_ok()
}

/// `serde_json::to_string`, applied to the map with a single entry of the
/// given name. What it prints is a JSON document.
#[verifier::external_body]
fn print_member_object(name: &str, value: &str) -> (json: String)
    ensures
        json@ == json_member_object(name@, value@),
        json_well_formed(json@),
{
    let members = std::collections::BTreeMap::from([(name, value)]);
    serde_json::to_string(&members).unwrap_or_default()
}

/// A JSON text component: a protocol string that holds a JSON document.
#[derive(Debug, Clone, PartialEq, Eq)]
pub struct JsonTextComponent(pub String);

impl View for JsonTextComponent {
    type V = Seq<char>;

    open spec fn view(&self) -> Seq<char> {
        self.0@
    }
}

/// Decoder of a JSON text component: a string that must be well-formed JSON.
pub open spec fn parse_json_text(b: Seq<u8>) -> Parsed<Seq<char>> {
    match parse_string(b, 32767) {
        Err(e) => Err(e),
        Ok((text, rest)) => if json_well_formed(text) {
            Ok((text, rest))
        } else {
            Err(Fault::Malformed)
        },
    }
}

/// A JSON text component within the string limit survives encoding
/// followed by decoding, whatever follows it.
pub proof fn lemma_json_text_roundtrip(text: Seq<char>, tail: Seq<u8>)
    requires
        json_well_formed(text),
        encode_utf8(text).len() <= 32767,
    ensures
        parse_json_text(string_bytes(text) + tail) == Ok::<(Seq<char>, Seq<u8>), Fault>(
            (text, tail),
        ),
{
    crate::protocol::wire::lemma_string_roundtrip(text, 32767, tail);
}

impl JsonTextComponent {
    /// Accepts a text as a component when it was found to be JSON, and
    /// refuses it otherwise.
    pub fn from_checked(text: String, well_formed: bool) -> (r: Result<Self>)
        ensures
            r is Ok <==> well_formed,
            r matches Ok(c) ==> c.0 == text,
            r matches Err(e) ==> e.fault() == Some(Fault::Malformed),
    {
        if well_formed {
            Ok(JsonTextComponent(text))
        } else {
            Err(protocol_error("invalid JSON text component"))
        }
    }

    /// Reads a string and accepts it when it is a JSON document.
    pub fn read(reader: &mut Cursor) -> (r: Result<Self>)
        ensures
            final(reader).follows(*old(reader)),
            decodes(r, final(reader)@, parse_json_text(old(reader)@)),
    {
        let text = read_text(reader, 32767)?;
        let well_formed = is_json(text.as_str());
        Self::from_checked(text, well_formed)
    }

    /// Writes the component as a protocol string.
    pub fn write(&self, writer: &mut Vec<u8>) -> (r: Result<()>)
        ensures
            r is Ok <==> encode_utf8(self@).len() <= 32767,
            r is Ok ==> final(writer)@ == old(writer)@ + string_bytes(self@),
            r matches Err(e) ==> final(writer)@ == old(writer)@ && e.fault() == Some(
                Fault::Malformed,
            ),
    {
        proof {
            reveal(string_bytes);
        }
        write_text(self.0.as_str(), 32767, writer)
    }

    /// The component `{"text": text}`.
    pub fn text(text: &str) -> (c: Self)
        ensures
            c@ == json_text_object(text@),
            json_well_formed(c@),
    {
        JsonTextComponent(print_member_object("text", text))
    }
}

impl From<String> for JsonTextComponent {
    fn from(text: String) -> (r: Self)
        ensures
            r@ == json_text_object(text@),
    {
        JsonTextComponent::text(text.as_str())
    }
}

impl FromSpecImpl<String> for JsonTextComponent {
    open spec fn obeys_from_spec() -> bool {
        false
    }

    open spec fn from_spec(v: String) -> Self {
        arbitrary()
    }
}

impl<'a> From<&'a str> for JsonTextComponent {
    fn from(text: &'a str) -> (r: Self)
        ensures
            r@ == json_text_object(text@),
    {
        JsonTextComponent::text(text)
    }
}

impl<'a> FromSpecImpl<&'a str> for JsonTextComponent {
    open spec fn obeys_from_spec() -> bool {
        false
    }

    open spec fn from_spec(v: &'a str) -> Self {
        arbitrary()
    }
}

/// Index of the first `c` in `s` at or after `from`, or the length of `s`
/// when there is none.
pub open spec fn index_of_from(s: Seq<char>, c: char, from: int) -> int
    decreases s.len() - from,
{
    if from < 0 || from >= s.len() {
        s.len() as int
    } else if s[from] == c {
        from
    } else {
        index_of_from(s, c, from + 1)
    }
}

/// The namespace of an identifier: what stands before its first colon, or
/// `minecraft` when it has no colon.
pub open spec fn identifier_namespace(s: Seq<char>) -> Seq<char> {
    let colon = index_of_from(s, ':', 0);
    if colon == s.len() {
        "minecraft"@
    } else {
        s.subrange(0, colon)
    }
}

/// The path of an identifier: what stands between its first colon and the
/// next one (or the end), or all of it when it has no colon.
pub open spec fn identifier_path(s: Seq<char>) -> Seq<char> {
    let colon = index_of_from(s, ':', 0);
    if colon == s.len() {
        s
    } else {
        s.subrange(colon + 1, index_of_from(s, ':', colon + 1))
    }
}

/// The first `c` at or after `from` stands where no `c` stands before it.
pub proof fn lemma_index_of_from(s: Seq<char>, c: char, from: int, at: int)
    requires
        0 <= from <= at <= s.len(),
        forall|j: int| from <= j < at ==> s[j] != c,
        at == s.len() || s[at] == c,
    ensures
        index_of_from(s, c, from) == at,
    decreases at - from,
{
    if from < at {
        lemma_index_of_from(s, c, from + 1, at);
    }
}

/// Finds the first `c` at or after character `from`.
fn find_from(s: &str, c: char, from: usize) -> (i: usize)
    requires
        from <= s@.len(),
    ensures
        i == index_of_from(s@, c, from as int),
        from <= i <= s@.len(),
{
    let len = s.unicode_len();
    let mut chars = s.chars();
    let mut i: usize = 0;
    assert(s@.skip(0) =~= s@);
    loop
        invariant_except_break
            chars.remaining() == s@.skip(i as int),
        invariant
            i <= len,
            len == s@.len(),
            from <= len,
            forall|j: int| from <= j < i ==> s@[j] != c,
        ensures
            from <= i <= len,
            forall|j: int| from <= j < i ==> s@[j] != c,
            i == len || s@[i as int] == c,
        decreases len - i,
    {
        match chars.next() {
            None => {
                break;
            },
            Some(ch) => {
                assert(ch == s@[i as int]);
                assert(s@.skip(i as int).drop_first() =~= s@.skip(i + 1));
                if i >= from && ch == c {
                    break;
                }
                i = i + 1;
            },
        }
    }
    proof {
        lemma_index_of_from(s@, c, from as int, i as int);
    }
    i
}

/// An identifier: a namespaced string, `namespace:path`.
#[derive(Debug, Clone, PartialEq, Eq)]
pub struct Identifier(pub String);

impl View for Identifier {
    type V = Seq<char>;

    open spec fn view(&self) -> Seq<char> {
        self.0@
    }
}

impl Identifier {
    /// Reads an identifier as a protocol string.
    pub fn read(reader: &mut Cursor) -> (r: Result<Self>)
        ensures
            final(reader).follows(*old(reader)),
            decodes(r, final(reader)@, parse_string(old(reader)@, 32767)),
    {
        proof {
            reveal(parse_string);
        }
        let s = read_text(reader, 32767)?;
        Ok(Identifier(s))
    }

    /// Writes the identifier as a protocol string.
    pub fn write(&self, writer: &mut Vec<u8>) -> (r: Result<()>)
        ensures
            r is Ok <==> encode_utf8(self@).len() <= 32767,
            r is Ok ==> final(writer)@ == old(writer)@ + string_bytes(self@),
            r matches Err(e) ==> final(writer)@ == old(writer)@ && e.fault() == Some(
                Fault::Malformed,
            ),
    {
        proof {
            reveal(string_bytes);
        }
        write_text(self.0.as_str(), 32767, writer)
    }

    /// The identifier `namespace:path`.
    pub fn new(namespace: &str, path: &str) -> (id: Self)
        ensures
            id@ == namespace@ + seq![':'] + path@,
    {
        proof {
            reveal_strlit(":");
        }
        let joined = String::from_str(namespace).concat(":").concat(path);
        assert(joined@ =~= namespace@ + seq![':'] + path@);
        Identifier(joined)
    }

    /// The namespace part; `minecraft` when the identifier names none.
    pub fn namespace(&self) -> (part: &str)
        ensures
            part@ == identifier_namespace(self@),
    {
        let s = self.0.as_str();
        let colon = find_from(s, ':', 0);
        if colon == s.unicode_len() {
            "minecraft"
        } else {
            s.substring_char(0, colon)
        }
    }

    /// The path part.
    pub fn path(&self) -> (part: &str)
        ensures
            part@ == identifier_path(self@),
    {
        let s = self.0.as_str();
        let len = s.unicode_len();
        let colon = find_from(s, ':', 0);
        if colon == len {
            s
        } else {
            let next = find_from(s, ':', colon + 1);
            s.substring_char(colon + 1, next)
        }
    }
}

impl From<String> for Identifier {
    fn from(value: String) -> (r: Self) {
        Identifier(value)
    }
}

impl FromSpecImpl<String> for Identifier {
    open spec fn obeys_from_spec() -> bool {
        true
    }

    open spec fn from_spec(v: String) -> Self {
        Identifier(v)
    }
}

impl<'a> From<&'a str> for Identifier {
    fn from(value: &'a str) -> (r: Self)
        ensures
            r@ == value@,
    {
        Identifier(value.to_string())
    }
}

impl<'a> FromSpecImpl<&'a str> for Identifier {
    open spec fn obeys_from_spec() -> bool {
        false
    }

    open spec fn from_spec(v: &'a str) -> Self {
        arbitrary()
    }
}

/// A value that may or may not be present.
#[derive(Debug, Clone, PartialEq, Eq)]
pub struct Optional<T> {
    /// The optional value.
    pub value: Option<T>,
}

impl<T> Optional<T> {
    /// An optional that holds `value`.
    pub fn some(value: T) -> (o: Self)
        ensures
            o.value == Some(value),
    {
        Optional { value: Some(value) }
    }

    /// An optional that holds nothing.
    pub fn none() -> (o: Self)
        ensures
            o.value is None,
    {
        Optional { value: None }
    }

    /// Whether a value is present.
    pub fn is_present(&self) -> (b: bool)
        ensures
            b == self.value is Some,
    {
        self.value.is_some()
    }
}

impl<T> From<Option<T>> for Optional<T> {
    fn from(option: Option<T>) -> (r: Self) {
        Optional { value: option }
    }
}

impl<T> FromSpecImpl<Option<T>> for Optional<T> {
    open spec fn obeys_from_spec() -> bool {
        true
    }

    open spec fn from_spec(v: Option<T>) -> Self {
        Optional { value: v }
    }
}

impl<T> From<Optional<T>> for Option<T> {
    fn from(optional: Optional<T>) -> (r: Self) {
        optional.value
    }
}

impl<T> FromSpecImpl<Optional<T>> for Option<T> {
    open spec fn obeys_from_spec() -> bool {
        true
    }

    open spec fn from_spec(v: Optional<T>) -> Self {
        v.value
    }
}

/// A server address: a string of at most 255 bytes.
#[derive(Debug, Clone, PartialEq, Eq)]
pub struct ServerAddress(pub String);

impl View for ServerAddress {
    type V = Seq<char>;

    open spec fn view(&self) -> Seq<char> {
        self.0@
    }
}

impl ServerAddress {
    /// Maximum length of a server address, in bytes.
    pub const MAX_LENGTH: usize = 255;

    /// Reads a server address.
    pub fn read(reader: &mut Cursor) -> (r: Result<Self>)
        ensures
            final(reader).follows(*old(reader)),
            decodes(r, final(reader)@, parse_string(old(reader)@, 255)),
    {
        proof {
            reveal(parse_string);
        }
        let s = read_text(reader, 255)?;
        Ok(ServerAddress(s))
    }

    /// Writes the address, or fails when it is longer than 255 bytes.
    pub fn write(&self, writer: &mut Vec<u8>) -> (r: Result<()>)
        ensures
            r is Ok <==> encode_utf8(self@).len() <= 255,
            r is Ok ==> final(writer)@ == old(writer)@ + string_bytes(self@),
            r matches Err(e) ==> final(writer)@ == old(writer)@ && e.fault() == Some(
                Fault::Malformed,
            ),
    {
        proof {
            reveal(string_bytes);
        }
        write_text(self.0.as_str(), 255, writer)
    }
}

impl From<String> for ServerAddress {
    fn from(value: String) -> (r: Self) {
        ServerAddress(value)
    }
}

impl FromSpecImpl<String> for ServerAddress {
    open spec fn obeys_from_spec() -> bool {
        true
    }

    open spec fn from_spec(v: String) -> Self {
        ServerAddress(v)
    }
}

impl<'a> From<&'a str> for ServerAddress {
    fn from(value: &'a str) -> (r: Self)
        ensures
            r@ == value@,
    {
        ServerAddress(value.to_string())
    }
}

impl<'a> FromSpecImpl<&'a str> for ServerAddress {
    open spec fn obeys_from_spec() -> bool {
        false
    }

    open spec fn from_spec(v: &'a str) -> Self {
        arbitrary()
    }
}

/// A username: a string of at most 16 bytes.
#[derive(Debug, Clone, PartialEq, Eq)]
pub struct Username(pub String);

impl View for Username {
    type V = Seq<char>;

    open spec fn view(&self) -> Seq<char> {
        self.0@
    }
}

impl Username {
    /// Maximum length of a username, in bytes.
    pub const MAX_LENGTH: usize = 16;

    /// Reads a username.
    pub fn read(reader: &mut Cursor) -> (r: Result<Self>)
        ensures
            final(reader).follows(*old(reader)),
            decodes(r, final(reader)@, parse_string(old(reader)@, 16)),
    {
        proof {
            reveal(parse_string);
        }
        let s = read_text(reader, 16)?;
        Ok(Username(s))
    }

    /// Writes the username, or fails when it is longer than 16 bytes.
    pub fn write(&self, writer: &mut Vec<u8>) -> (r: Result<()>)
        ensures
            r is Ok <==> encode_utf8(self@).len() <= 16,
            r is Ok ==> final(writer)@ == old(writer)@ + string_bytes(self@),
            r matches Err(e) ==> final(writer)@ == old(writer)@ && e.fault() == Some(
                Fault::Malformed,
            ),
    {
        proof {
            reveal(string_bytes);
        }
        write_text(self.0.as_str(), 16, writer)
    }
}

impl From<String> for Username {
    fn from(value: String) -> (r: Self) {
        Username(value)
    }
}

impl FromSpecImpl<String> for Username {
    open spec fn obeys_from_spec() -> bool {
        true
    }

    open spec fn from_spec(v: String) -> Self {
        Username(v)
    }
}

impl<'a> From<&'a str> for Username {
    fn from(value: &'a str) -> (r: Self)
        ensures
            r@ == value@,
    {
        Username(value.to_string())
    }
}

impl<'a> FromSpecImpl<&'a str> for Username {
    open spec fn obeys_from_spec() -> bool {
        false
    }

    open spec fn from_spec(v: &'a str) -> Self {
        arbitrary()
    }
}

/// A server id: a string of at most 20 bytes.
#[derive(Debug, Clone, PartialEq, Eq)]
pub struct ServerId(pub String);

impl View for ServerId {
    type V = Seq<char>;

    open spec fn view(&self) -> Seq<char> {
        self.0@
    }
}

impl ServerId {
    /// Maximum length of a server id, in bytes.
    pub const MAX_LENGTH: usize = 20;

    /// Reads a server id.
    pub fn read(reader: &mut Cursor) -> (r: Result<Self>)
        ensures
            final(reader).follows(*old(reader)),
            decodes(r, final(reader)@, parse_string(old(reader)@, 20)),
    {
        proof {
            reveal(parse_string);
        }
        let s = read_text(reader, 20)?;
        Ok(ServerId(s))
    }

    /// Writes the server id, or fails when it is longer than 20 bytes.
    pub fn write(&self, writer: &mut Vec<u8>) -> (r: Result<()>)
        ensures
            r is Ok <==> encode_utf8(self@).len() <= 20,
            r is Ok ==> final(writer)@ == old(writer)@ + string_bytes(self@),
            r matches Err(e) ==> final(writer)@ == old(writer)@ && e.fault() == Some(
                Fault::Malformed,
            ),
    {
        proof {
            reveal(string_bytes);
        }
        write_text(self.0.as_str(), 20, writer)
    }
}

impl From<String> for ServerId {
    fn from(value: String) -> (r: Self) {
        ServerId(value)
    }
}

impl FromSpecImpl<String> for ServerId {
    open spec fn obeys_from_spec() -> bool {
        true
    }

    open spec fn from_spec(v: String) -> Self {
        ServerId(v)
    }
}

impl<'a> From<&'a str> for ServerId {
    fn from(value: &'a str) -> (r: Self)
        ensures
            r@ == value@,
    {
        ServerId(value.to_string())
    }
}

impl<'a> FromSpecImpl<&'a str> for ServerId {
    open spec fn obeys_from_spec() -> bool {
        false
    }

    open spec fn from_spec(v: &'a str) -> Self {
        arbitrary()
    }
}

} // verus!
