//! The wire format of the protocol primitives, as mathematics.
//!
//! Every encoder of the crate is specified by a function from a value to the
//! bytes it must emit, and every decoder by a function from the bytes on the
//! wire to either a value together with the bytes that follow it, or a fault.

use vstd::prelude::*;
use vstd::utf8::{
    decode_utf8, decode_utf8_encode_utf8, encode_utf8, encode_utf8_decode_utf8,
    encode_utf8_valid_utf8, valid_utf8,
};

use crate::error::Fault;

verus! {

/// What a decoder makes of a byte sequence: a value and the bytes after it,
/// or the reason why no value can be read.
pub type Parsed<T> = Result<(T, Seq<u8>), Fault>;

/// 2^32.
pub open spec fn two32() -> int {
    0x1_0000_0000
}

/// 2^64.
pub open spec fn two64() -> int {
    0x1_0000_0000_0000_0000
}

/// The bit pattern of a signed 32-bit value, read as an unsigned number.
pub open spec fn unsigned32(x: int) -> nat {
    if x >= 0 {
        x as nat
    } else {
        (x + two32()) as nat
    }
}

/// The signed 32-bit value whose bit pattern is the low 32 bits of `u`.
pub open spec fn signed32(u: nat) -> int {
    let low = u as int % two32();
    if low < 0x8000_0000 {
        low
    } else {
        low - two32()
    }
}

/// The bit pattern of a signed 64-bit value, read as an unsigned number.
pub open spec fn unsigned64(x: int) -> nat {
    if x >= 0 {
        x as nat
    } else {
        (x + two64()) as nat
    }
}

/// The signed 64-bit value whose bit pattern is the low 64 bits of `u`.
pub open spec fn signed64(u: nat) -> int {
    let low = u as int % two64();
    if low < 0x8000_0000_0000_0000 {
        low
    } else {
        low - two64()
    }
}

/// Little-endian groups of seven bits; every byte but the last has its top
/// bit set.
pub open spec fn groups(v: nat) -> Seq<u8>
    decreases v,
{
    if v < 128 {
        seq![v as u8]
    } else {
        seq![(v % 128 + 128) as u8] + groups(v / 128)
    }
}

/// Number of seven-bit groups that `v` occupies.
pub open spec fn group_count(v: nat) -> nat
    decreases v,
{
    if v < 128 {
        1
    } else {
        1 + group_count(v / 128)
    }
}

/// 128^k.
pub open spec fn pow128(k: nat) -> nat
    decreases k,
{
    if k == 0 {
        1
    } else {
        128 * pow128((k - 1) as nat)
    }
}

/// Reads seven-bit groups until one without the continuation bit, giving up
/// once `max` groups carried it.
pub open spec fn parse_groups(b: Seq<u8>, max: nat) -> Parsed<nat>
    decreases max,
{
    if max == 0 {
        Err(Fault::Malformed)
    } else if b.len() == 0 {
        Err(Fault::Truncated)
    } else if b[0] < 128 {
        Ok((b[0] as nat, b.skip(1)))
    } else {
        match parse_groups(b.skip(1), (max - 1) as nat) {
            Ok((high, rest)) => Ok((((b[0] - 128) + 128 * high) as nat, rest)),
            Err(e) => Err(e),
        }
    }
}

/// What the group decoder leaves unread, whether it yields a number or
/// not: it stops behind the first group without the continuation bit,
/// behind `max` groups that carried it, or at the end of the input.
pub open spec fn groups_rest(b: Seq<u8>, max: nat) -> Seq<u8>
    decreases max,
{
    if max == 0 || b.len() == 0 {
        b
    } else if b[0] < 128 {
        b.skip(1)
    } else {
        groups_rest(b.skip(1), (max - 1) as nat)
    }
}

/// What reading a 32-bit variable-length integer leaves unread, whether
/// one is read or not: a refusal for length comes behind the fifth byte.
#[verifier::opaque]
pub open spec fn varint_rest(b: Seq<u8>) -> Seq<u8> {
    groups_rest(b, 5)
}

/// What reading a 64-bit variable-length integer leaves unread, whether
/// one is read or not: a refusal for length comes behind the tenth byte.
#[verifier::opaque]
pub open spec fn varlong_rest(b: Seq<u8>) -> Seq<u8> {
    groups_rest(b, 10)
}

/// What reading a length prefix and that many bytes leaves unread, whether
/// they are read or not: a length that is refused, or that announces more
/// than is there, leaves all that follows the length field.
pub open spec fn sized_rest(b: Seq<u8>, min: int, max: int) -> Seq<u8> {
    match parse_varint(b) {
        Err(_) => varint_rest(b),
        Ok((len, rest)) => if len < min || len > max || rest.len() < len {
            rest
        } else {
            rest.skip(len)
        },
    }
}

/// Bytes of a 32-bit variable-length integer.
#[verifier::opaque]
pub open spec fn varint_bytes(x: int) -> Seq<u8> {
    groups(unsigned32(x))
}

/// Decoder of a 32-bit variable-length integer: at most five bytes, bits
/// above the 32nd are dropped.
#[verifier::opaque]
pub open spec fn parse_varint(b: Seq<u8>) -> Parsed<int> {
    match parse_groups(b, 5) {
        Ok((u, rest)) => Ok((signed32(u), rest)),
        Err(e) => Err(e),
    }
}

/// Bytes of a 64-bit variable-length integer.
#[verifier::opaque]
pub open spec fn varlong_bytes(x: int) -> Seq<u8> {
    groups(unsigned64(x))
}

/// Decoder of a 64-bit variable-length integer: at most ten bytes, bits
/// above the 64th are dropped.
#[verifier::opaque]
pub open spec fn parse_varlong(b: Seq<u8>) -> Parsed<int> {
    match parse_groups(b, 10) {
        Ok((u, rest)) => Ok((signed64(u), rest)),
        Err(e) => Err(e),
    }
}

/// `groups(v)` is `group_count(v)` bytes long, and never empty.
pub proof fn lemma_groups_len(v: nat)
    ensures
        groups(v).len() == group_count(v),
        group_count(v) >= 1,
    decreases v,
{
    if v >= 128 {
        lemma_groups_len(v / 128);
    }
}

/// A value below 128^k needs at most k groups.
pub proof fn lemma_group_count_bound(v: nat, k: nat)
    requires
        k >= 1,
        v < pow128(k),
    ensures
        group_count(v) <= k,
    decreases k,
{
    if v >= 128 {
        assert(pow128(1) == 128) by {
            assert(pow128(0) == 1);
        }
        assert(k >= 2);
        assert(v / 128 < pow128((k - 1) as nat)) by {
            assert(pow128(k) == 128 * pow128((k - 1) as nat));
        }
        lemma_group_count_bound(v / 128, (k - 1) as nat);
    }
}

/// Decoding the groups of `v`, whatever follows them, gives `v` and what
/// follows, as long as the decoder allows that many groups.
pub proof fn lemma_parse_groups_roundtrip(v: nat, tail: Seq<u8>, max: nat)
    requires
        group_count(v) <= max,
    ensures
        parse_groups(groups(v) + tail, max) == Ok::<(nat, Seq<u8>), Fault>((v, tail)),
    decreases v,
{
    let b = groups(v) + tail;
    if v < 128 {
        assert(b[0] == v as u8);
        assert(b.skip(1) =~= tail);
    } else {
        let first = (v % 128 + 128) as u8;
        assert(b[0] == first);
        assert(b.skip(1) =~= groups(v / 128) + tail);
        lemma_parse_groups_roundtrip(v / 128, tail, (max - 1) as nat);
    }
}

/// 128^(k+1) is 128 times 128^k.
pub proof fn lemma_pow128_step(k: nat)
    ensures
        pow128(k + 1) == 128 * pow128(k),
        pow128(k) >= 1,
    decreases k,
{
    if k > 0 {
        lemma_pow128_step((k - 1) as nat);
    }
}

/// Powers of 128 grow with the exponent.
pub proof fn lemma_pow128_monotonic(j: nat, k: nat)
    requires
        j <= k,
    ensures
        pow128(j) <= pow128(k),
    decreases k,
{
    if j < k {
        lemma_pow128_monotonic(j, (k - 1) as nat);
        lemma_pow128_step((k - 1) as nat);
    }
}

/// 128^5 and 128^10, spelled out.
pub proof fn lemma_pow128_values()
    ensures
        pow128(5) == 0x8_0000_0000,
        pow128(10) == 0x40_0000_0000_0000_0000,
{
    reveal_with_fuel(pow128, 11);
}

/// A 32-bit variable-length integer never takes more than five bytes.
pub proof fn lemma_varint_len(x: int)
    requires
        -0x8000_0000 <= x < 0x8000_0000,
    ensures
        1 <= varint_bytes(x).len() <= 5,
        varint_bytes(x).len() == group_count(unsigned32(x)),
{
    reveal(varint_bytes);
    lemma_pow128_values();
    lemma_group_count_bound(unsigned32(x), 5);
    lemma_groups_len(unsigned32(x));
}

/// A 64-bit variable-length integer never takes more than ten bytes.
pub proof fn lemma_varlong_len(x: int)
    requires
        -0x8000_0000_0000_0000 <= x < 0x8000_0000_0000_0000,
    ensures
        1 <= varlong_bytes(x).len() <= 10,
{
    reveal(varlong_bytes);
    lemma_pow128_values();
    lemma_group_count_bound(unsigned64(x), 10);
    lemma_groups_len(unsigned64(x));
}

/// Every 32-bit value survives encoding followed by decoding, and the
/// decoder stops exactly where the encoding ends.
pub proof fn lemma_varint_roundtrip(x: int, tail: Seq<u8>)
    requires
        -0x8000_0000 <= x < 0x8000_0000,
    ensures
        parse_varint(varint_bytes(x) + tail) == Ok::<(int, Seq<u8>), Fault>((x, tail)),
{
    reveal(varint_bytes);
    reveal(parse_varint);
    lemma_varint_len(x);
    lemma_parse_groups_roundtrip(unsigned32(x), tail, 5);
}

/// Every 64-bit value survives encoding followed by decoding, and the
/// decoder stops exactly where the encoding ends.
pub proof fn lemma_varlong_roundtrip(x: int, tail: Seq<u8>)
    requires
        -0x8000_0000_0000_0000 <= x < 0x8000_0000_0000_0000,
    ensures
        parse_varlong(varlong_bytes(x) + tail) == Ok::<(int, Seq<u8>), Fault>((x, tail)),
{
    reveal(varlong_bytes);
    reveal(parse_varlong);
    lemma_varlong_len(x);
    lemma_groups_len(unsigned64(x));
    lemma_pow128_values();
    lemma_group_count_bound(unsigned64(x), 10);
    lemma_parse_groups_roundtrip(unsigned64(x), tail, 10);
}

/// What a successful group decoder consumed is a prefix of its input, and at
/// most `max` bytes of it.
pub proof fn lemma_parse_groups_prefix(b: Seq<u8>, max: nat)
    requires
        parse_groups(b, max) is Ok,
    ensures
        ({
            let rest = parse_groups(b, max)->Ok_0.1;
            &&& rest.len() < b.len()
            &&& b.len() - rest.len() <= max
            &&& rest == b.skip(b.len() - rest.len())
            &&& parse_groups(b, max)->Ok_0.0 < pow128((b.len() - rest.len()) as nat)
        }),
    decreases max,
{
    if b[0] >= 128 {
        lemma_parse_groups_prefix(b.skip(1), (max - 1) as nat);
        let rest = parse_groups(b, max)->Ok_0.1;
        assert(rest =~= b.skip(b.len() - rest.len()));
        let k = (b.len() - rest.len()) as nat;
        assert(pow128(k) == 128 * pow128((k - 1) as nat));
    } else {
        assert(pow128(1) == 128) by {
            assert(pow128(0) == 1);
        }
    }
}

/// 256^k.
pub open spec fn pow256(k: nat) -> nat
    decreases k,
{
    if k == 0 {
        1
    } else {
        256 * pow256((k - 1) as nat)
    }
}

/// The number that a byte sequence spells, most significant byte first.
pub open spec fn be_value(s: Seq<u8>) -> nat
    decreases s.len(),
{
    if s.len() == 0 {
        0
    } else {
        256 * be_value(s.drop_last()) + s.last() as nat
    }
}

/// The `width` low-order bytes of `v`, most significant byte first.
pub open spec fn be_bytes(v: nat, width: nat) -> Seq<u8>
    decreases width,
{
    if width == 0 {
        Seq::empty()
    } else {
        be_bytes(v / 256, (width - 1) as nat).push((v % 256) as u8)
    }
}

/// A number written in `width` bytes takes `width` bytes.
pub proof fn lemma_be_bytes_len(v: nat, width: nat)
    ensures
        be_bytes(v, width).len() == width,
    decreases width,
{
    if width > 0 {
        lemma_be_bytes_len(v / 256, (width - 1) as nat);
    }
}

/// Decoder of a fixed-width big-endian number.
pub open spec fn parse_be(b: Seq<u8>, width: nat) -> Parsed<nat> {
    if b.len() < width {
        Err(Fault::Truncated)
    } else {
        Ok((be_value(b.take(width as int)), b.skip(width as int)))
    }
}

/// Small powers of 256, spelled out.
pub proof fn lemma_pow256_values()
    ensures
        pow256(0) == 1,
        pow256(1) == 0x100,
        pow256(2) == 0x1_0000,
        pow256(4) == 0x1_0000_0000,
        pow256(8) == 0x1_0000_0000_0000_0000,
{
    reveal_with_fuel(pow256, 9);
}

/// A number spelled with k bytes is below 256^k.
pub proof fn lemma_be_value_bound(s: Seq<u8>)
    ensures
        be_value(s) < pow256(s.len()),
    decreases s.len(),
{
    if s.len() > 0 {
        lemma_be_value_bound(s.drop_last());
    }
}

/// `be_bytes` has the width asked for, and spells `v` when `v` fits.
pub proof fn lemma_be_bytes(v: nat, width: nat)
    ensures
        be_bytes(v, width).len() == width,
        v < pow256(width) ==> be_value(be_bytes(v, width)) == v,
    decreases width,
{
    if width > 0 {
        lemma_be_bytes(v / 256, (width - 1) as nat);
        let s = be_bytes(v, width);
        assert(s.drop_last() =~= be_bytes(v / 256, (width - 1) as nat));
    }
}

/// Every number that fits in `width` bytes survives encoding followed by
/// decoding, whatever follows it.
pub proof fn lemma_be_roundtrip(v: nat, width: nat, tail: Seq<u8>)
    requires
        v < pow256(width),
    ensures
        parse_be(be_bytes(v, width) + tail, width) == Ok::<(nat, Seq<u8>), Fault>((v, tail)),
{
    lemma_be_bytes(v, width);
    let b = be_bytes(v, width) + tail;
    assert(b.take(width as int) =~= be_bytes(v, width));
    assert(b.skip(width as int) =~= tail);
}

/// Bytes of an unsigned byte.
#[verifier::opaque]
pub open spec fn u8_bytes(v: u8) -> Seq<u8> {
    be_bytes(v as nat, 1)
}

/// Decoder of an unsigned byte.
#[verifier::opaque]
pub open spec fn parse_u8(b: Seq<u8>) -> Parsed<u8> {
    match parse_be(b, 1) {
        Ok((v, rest)) => Ok((v as u8, rest)),
        Err(e) => Err(e),
    }
}

/// Bytes of a signed byte: its two's-complement pattern.
#[verifier::opaque]
pub open spec fn i8_bytes(v: i8) -> Seq<u8> {
    be_bytes(
        if v >= 0 {
            v as nat
        } else {
            (v + 0x100) as nat
        },
        1,
    )
}

/// Decoder of a signed byte.
#[verifier::opaque]
pub open spec fn parse_i8(b: Seq<u8>) -> Parsed<i8> {
    match parse_be(b, 1) {
        Ok((v, rest)) => Ok(
            (
                if v < 0x80 {
                    v as i8
                } else {
                    (v - 0x100) as i8
                },
                rest,
            ),
        ),
        Err(e) => Err(e),
    }
}

/// Bytes of an unsigned 16-bit number, big-endian.
#[verifier::opaque]
pub open spec fn u16_bytes(v: u16) -> Seq<u8> {
    be_bytes(v as nat, 2)
}

/// Decoder of an unsigned 16-bit number.
#[verifier::opaque]
pub open spec fn parse_u16(b: Seq<u8>) -> Parsed<u16> {
    match parse_be(b, 2) {
        Ok((v, rest)) => Ok((v as u16, rest)),
        Err(e) => Err(e),
    }
}

/// Bytes of a signed 32-bit number, big-endian two's complement.
#[verifier::opaque]
pub open spec fn i32_bytes(v: i32) -> Seq<u8> {
    be_bytes(unsigned32(v as int), 4)
}

/// Decoder of a signed 32-bit number.
#[verifier::opaque]
pub open spec fn parse_i32(b: Seq<u8>) -> Parsed<i32> {
    match parse_be(b, 4) {
        Ok((v, rest)) => Ok((signed32(v) as i32, rest)),
        Err(e) => Err(e),
    }
}

/// Bytes of a signed 64-bit number, big-endian two's complement.
#[verifier::opaque]
pub open spec fn i64_bytes(v: i64) -> Seq<u8> {
    be_bytes(unsigned64(v as int), 8)
}

/// Decoder of a signed 64-bit number.
#[verifier::opaque]
pub open spec fn parse_i64(b: Seq<u8>) -> Parsed<i64> {
    match parse_be(b, 8) {
        Ok((v, rest)) => Ok((signed64(v) as i64, rest)),
        Err(e) => Err(e),
    }
}

/// Bytes of an unsigned 64-bit number, big-endian.
#[verifier::opaque]
pub open spec fn u64_bytes(v: u64) -> Seq<u8> {
    be_bytes(v as nat, 8)
}

/// Decoder of an unsigned 64-bit number.
#[verifier::opaque]
pub open spec fn parse_u64(b: Seq<u8>) -> Parsed<u64> {
    match parse_be(b, 8) {
        Ok((v, rest)) => Ok((v as u64, rest)),
        Err(e) => Err(e),
    }
}

/// The single byte of a boolean: the encoder emits 1 for true.
#[verifier::opaque]
pub open spec fn bool_bytes(v: bool) -> Seq<u8> {
    seq![if v {
        1u8
    } else {
        0u8
    }]
}

/// Decoder of a boolean: zero is false, anything else is true.
#[verifier::opaque]
pub open spec fn parse_bool(b: Seq<u8>) -> Parsed<bool> {
    if b.len() < 1 {
        Err(Fault::Truncated)
    } else {
        Ok((b[0] != 0, b.skip(1)))
    }
}

/// A boolean survives encoding followed by decoding, whatever follows it.
pub proof fn lemma_bool_roundtrip(v: bool, tail: Seq<u8>)
    ensures
        parse_bool(bool_bytes(v) + tail) == Ok::<(bool, Seq<u8>), Fault>((v, tail)),
{
    reveal(bool_bytes);
    reveal(parse_bool);
    assert((bool_bytes(v) + tail).skip(1) =~= tail);
}

/// An unsigned byte survives encoding followed by decoding.
pub proof fn lemma_u8_roundtrip(v: u8, tail: Seq<u8>)
    ensures
        parse_u8(u8_bytes(v) + tail) == Ok::<(u8, Seq<u8>), Fault>((v, tail)),
{
    reveal(u8_bytes);
    reveal(parse_u8);
    lemma_pow256_values();
    lemma_be_roundtrip(v as nat, 1, tail);
}

/// A signed byte survives encoding followed by decoding.
pub proof fn lemma_i8_roundtrip(v: i8, tail: Seq<u8>)
    ensures
        parse_i8(i8_bytes(v) + tail) == Ok::<(i8, Seq<u8>), Fault>((v, tail)),
{
    reveal(i8_bytes);
    reveal(parse_i8);
    lemma_pow256_values();
    let u = if v >= 0 {
        v as nat
    } else {
        (v + 0x100) as nat
    };
    lemma_be_roundtrip(u, 1, tail);
}

/// An unsigned short survives encoding followed by decoding.
pub proof fn lemma_u16_roundtrip(v: u16, tail: Seq<u8>)
    ensures
        parse_u16(u16_bytes(v) + tail) == Ok::<(u16, Seq<u8>), Fault>((v, tail)),
{
    reveal(u16_bytes);
    reveal(parse_u16);
    lemma_pow256_values();
    lemma_be_roundtrip(v as nat, 2, tail);
}

/// An int survives encoding followed by decoding.
pub proof fn lemma_i32_roundtrip(v: i32, tail: Seq<u8>)
    ensures
        parse_i32(i32_bytes(v) + tail) == Ok::<(i32, Seq<u8>), Fault>((v, tail)),
{
    reveal(i32_bytes);
    reveal(parse_i32);
    lemma_pow256_values();
    lemma_be_roundtrip(unsigned32(v as int), 4, tail);
}

/// A long survives encoding followed by decoding.
pub proof fn lemma_i64_roundtrip(v: i64, tail: Seq<u8>)
    ensures
        parse_i64(i64_bytes(v) + tail) == Ok::<(i64, Seq<u8>), Fault>((v, tail)),
{
    reveal(i64_bytes);
    reveal(parse_i64);
    lemma_pow256_values();
    lemma_be_roundtrip(unsigned64(v as int), 8, tail);
}

/// An unsigned 64-bit number survives encoding followed by decoding.
pub proof fn lemma_u64_roundtrip(v: u64, tail: Seq<u8>)
    ensures
        parse_u64(u64_bytes(v) + tail) == Ok::<(u64, Seq<u8>), Fault>((v, tail)),
{
    reveal(u64_bytes);
    reveal(parse_u64);
    lemma_pow256_values();
    lemma_be_roundtrip(v as nat, 8, tail);
}

/// Powers of 256 grow with the exponent.
pub proof fn lemma_pow256_monotonic(j: nat, k: nat)
    requires
        j <= k,
    ensures
        pow256(j) <= pow256(k),
    decreases k,
{
    if j < k {
        lemma_pow256_monotonic(j, (k - 1) as nat);
    }
}

/// Bytes of a byte array: its length as a variable-length integer, then the
/// bytes themselves.
#[verifier::opaque]
pub open spec fn byte_array_bytes(data: Seq<u8>) -> Seq<u8> {
    varint_bytes(data.len() as int) + data
}

/// Decoder of a byte array of at most `max` bytes.
#[verifier::opaque]
pub open spec fn parse_byte_array(b: Seq<u8>, max: nat) -> Parsed<Seq<u8>> {
    match parse_varint(b) {
        Err(e) => Err(e),
        Ok((len, rest)) => if len < 0 || len > max {
            Err(Fault::Malformed)
        } else if rest.len() < len {
            Err(Fault::Truncated)
        } else {
            Ok((rest.take(len), rest.skip(len)))
        },
    }
}

/// Bytes of a string: the length of its UTF-8 form as a variable-length
/// integer, then the UTF-8 bytes.
#[verifier::opaque]
pub open spec fn string_bytes(s: Seq<char>) -> Seq<u8> {
    byte_array_bytes(encode_utf8(s))
}

/// Decoder of a string whose UTF-8 form has at most `max` bytes.
#[verifier::opaque]
pub open spec fn parse_string(b: Seq<u8>, max: nat) -> Parsed<Seq<char>> {
    match parse_byte_array(b, max) {
        Err(e) => Err(e),
        Ok((utf, rest)) => if valid_utf8(utf) {
            Ok((decode_utf8(utf), rest))
        } else {
            Err(Fault::Malformed)
        },
    }
}

/// A byte array within the limit survives encoding followed by decoding,
/// whatever follows it.
pub proof fn lemma_byte_array_roundtrip(data: Seq<u8>, max: nat, tail: Seq<u8>)
    requires
        data.len() <= max,
        data.len() <= 0x7fff_ffff,
    ensures
        parse_byte_array(byte_array_bytes(data) + tail, max) == Ok::<(Seq<u8>, Seq<u8>), Fault>(
            (data, tail),
        ),
{
    reveal(varint_bytes);
    reveal(byte_array_bytes);
    reveal(parse_byte_array);
    let len = data.len() as int;
    lemma_varint_roundtrip(len, data + tail);
    assert(byte_array_bytes(data) + tail =~= varint_bytes(len) + (data + tail));
    assert((data + tail).take(len) =~= data);
    assert((data + tail).skip(len) =~= tail);
}

/// A string within the limit survives encoding followed by decoding,
/// whatever follows it.
pub proof fn lemma_string_roundtrip(s: Seq<char>, max: nat, tail: Seq<u8>)
    requires
        encode_utf8(s).len() <= max,
        encode_utf8(s).len() <= 0x7fff_ffff,
    ensures
        parse_string(string_bytes(s) + tail, max) == Ok::<(Seq<char>, Seq<u8>), Fault>((s, tail)),
{
    reveal(string_bytes);
    reveal(parse_string);
    lemma_byte_array_roundtrip(encode_utf8(s), max, tail);
    encode_utf8_valid_utf8(s);
    encode_utf8_decode_utf8(s);
}

/// What a successful byte-array decoder returns respects the limit.
pub proof fn lemma_parse_byte_array_bound(b: Seq<u8>, max: nat)
    requires
        parse_byte_array(b, max) is Ok,
    ensures
        parse_byte_array(b, max)->Ok_0.0.len() <= max,
        parse_byte_array(b, max)->Ok_0.0.len() <= 0x7fff_ffff,
{
    reveal(parse_byte_array);
    lemma_parse_varint_range(b);
}

/// 16 raw bytes.
#[verifier::opaque]
pub open spec fn parse_raw16(b: Seq<u8>) -> Parsed<Seq<u8>> {
    if b.len() < 16 {
        Err(Fault::Truncated)
    } else {
        Ok((b.take(16), b.skip(16)))
    }
}

/// What the decoder of sixteen raw bytes returns is sixteen bytes long.
pub proof fn lemma_parsed_raw16(b: Seq<u8>)
    requires
        parse_raw16(b) is Ok,
    ensures
        parse_raw16(b)->Ok_0.0.len() == 16,
{
    reveal(parse_raw16);
}

/// Sixteen raw bytes survive being written and read back.
pub proof fn lemma_raw16_roundtrip(data: Seq<u8>, tail: Seq<u8>)
    requires
        data.len() == 16,
    ensures
        parse_raw16(data + tail) == Ok::<(Seq<u8>, Seq<u8>), Fault>((data, tail)),
{
    reveal(parse_raw16);
    assert((data + tail).take(16) =~= data);
    assert((data + tail).skip(16) =~= tail);
}

/// The value of the low `modulus` residue read as a signed number.
pub open spec fn wrap_signed(u: int, modulus: int) -> int {
    if 2 * u < modulus {
        u
    } else {
        u - modulus
    }
}

/// The 64 bits of a block position: 26 bits of x, 26 bits of z, 12 bits
/// of y, from the most significant end.
pub open spec fn position_bits(x: int, y: int, z: int) -> nat {
    ((x % 0x400_0000) * 0x40_0000_0000 + (z % 0x400_0000) * 0x1000 + (y % 0x1000)) as nat
}

/// The x component packed in `bits`.
pub open spec fn position_x(bits: nat) -> int {
    wrap_signed(bits as int / 0x40_0000_0000, 0x400_0000)
}

/// The y component packed in `bits`.
pub open spec fn position_y(bits: nat) -> int {
    wrap_signed(bits as int % 0x1000, 0x1000)
}

/// The z component packed in `bits`.
pub open spec fn position_z(bits: nat) -> int {
    wrap_signed((bits as int / 0x1000) % 0x400_0000, 0x400_0000)
}

/// Whether a coordinate triple fits the packed form: 26 signed bits for x
/// and z, 12 for y.
pub open spec fn position_fits(x: int, y: int, z: int) -> bool {
    &&& -0x200_0000 <= x < 0x200_0000
    &&& -0x800 <= y < 0x800
    &&& -0x200_0000 <= z < 0x200_0000
}

/// Quotient and remainder of `q * m + r` by `m`, for a remainder in range.
proof fn lemma_split(q: int, r: int, m: int)
    requires
        m > 0,
        0 <= r < m,
    ensures
        (q * m + r) % m == r,
        (q * m + r) / m == q,
{
    vstd::arithmetic::div_mod::lemma_fundamental_div_mod_converse(q * m + r, m, q, r);
}

/// The residue of a signed number in a half-open range around zero.
proof fn lemma_residue(x: int, m: int)
    requires
        m > 0,
        -m <= 2 * x < m,
    ensures
        0 <= x % m < m,
        wrap_signed(x % m, m) == x,
{
    if x >= 0 {
        lemma_split(0, x, m);
    } else {
        lemma_split(-1, x + m, m);
        assert(-1 * m + (x + m) == x);
    }
}

/// Packing a triple that fits and unpacking it recovers the triple.
pub proof fn lemma_position_bits(x: int, y: int, z: int)
    requires
        position_fits(x, y, z),
    ensures
        position_bits(x, y, z) < 0x1_0000_0000_0000_0000,
        position_x(position_bits(x, y, z)) == x,
        position_y(position_bits(x, y, z)) == y,
        position_z(position_bits(x, y, z)) == z,
{
    let ux = x % 0x400_0000;
    let uy = y % 0x1000;
    let uz = z % 0x400_0000;
    lemma_residue(x, 0x400_0000);
    lemma_residue(y, 0x1000);
    lemma_residue(z, 0x400_0000);
    let high = ux * 0x400_0000 + uz;
    let bits = high * 0x1000 + uy;
    assert(bits == ux * 0x40_0000_0000 + uz * 0x1000 + uy);
    assert(position_bits(x, y, z) == bits);
    lemma_split(high, uy, 0x1000);
    lemma_split(ux, uz, 0x400_0000);
    lemma_split(ux, uz * 0x1000 + uy, 0x40_0000_0000);
    assert(ux * 0x40_0000_0000 + (uz * 0x1000 + uy) == bits);
}

/// What a successful string decoder returns has a UTF-8 form within the
/// limit, so it can be written again.
pub proof fn lemma_parse_string_bound(b: Seq<u8>, max: nat)
    requires
        parse_string(b, max) is Ok,
    ensures
        encode_utf8(parse_string(b, max)->Ok_0.0).len() <= max,
        encode_utf8(parse_string(b, max)->Ok_0.0).len() <= 0x7fff_ffff,
{
    reveal(parse_string);
    lemma_parse_byte_array_bound(b, max);
    let utf = parse_byte_array(b, max)->Ok_0.0;
    decode_utf8_encode_utf8(utf);
}

/// What a variable-length integer decoder returns is a 32-bit value.
pub proof fn lemma_parse_varint_range(b: Seq<u8>)
    requires
        parse_varint(b) is Ok,
    ensures
        -0x8000_0000 <= parse_varint(b)->Ok_0.0 < 0x8000_0000,
{
    reveal(parse_varint);
}

/// What a successful VarInt decoder left is its input without between one
/// and five leading bytes.
pub proof fn lemma_parse_varint_prefix(b: Seq<u8>)
    requires
        parse_varint(b) is Ok,
    ensures
        ({
            let rest = parse_varint(b)->Ok_0.1;
            &&& 1 <= b.len() - rest.len() <= 5
            &&& rest == b.skip(b.len() - rest.len())
        }),
{
    reveal(parse_varint);
    lemma_parse_groups_prefix(b, 5);
}

/// A VarInt decoder reports malformed bytes only after five bytes that all
/// carry the continuation bit.
pub proof fn lemma_parse_varint_fault(b: Seq<u8>)
    requires
        parse_varint(b) is Err,
    ensures
        parse_varint(b)->Err_0 == Fault::Malformed ==> b.len() >= 5,
        parse_varint(b)->Err_0 == Fault::Truncated ==> b.len() < 5,
{
    reveal(parse_varint);
    lemma_parse_groups_fault(b, 5);
}

/// A group decoder that may read `max` groups reports malformed bytes only
/// after that many bytes, and a short input only before.
pub proof fn lemma_parse_groups_fault(b: Seq<u8>, max: nat)
    requires
        parse_groups(b, max) is Err,
    ensures
        parse_groups(b, max)->Err_0 == Fault::Malformed ==> b.len() >= max,
        parse_groups(b, max)->Err_0 == Fault::Truncated ==> b.len() < max,
    decreases max,
{
    if max > 0 && b.len() > 0 && b[0] >= 128 {
        lemma_parse_groups_fault(b.skip(1), (max - 1) as nat);
    }
}

/// Whether the groups at the start of `b` that a decoder reads spell their
/// number in the shortest way: no group of zeros at the end, unless it is
/// the only group.
pub open spec fn shortest_groups(b: Seq<u8>, max: nat) -> bool
    decreases max,
{
    if max == 0 || b.len() == 0 {
        false
    } else if b[0] < 128 {
        true
    } else {
        let rest = b.skip(1);
        rest.len() > 0 && rest[0] != 0 && shortest_groups(rest, (max - 1) as nat)
    }
}

/// Groups that spell a number in the shortest way are the groups that the
/// encoder writes for it.
pub proof fn lemma_shortest_groups(b: Seq<u8>, max: nat)
    requires
        parse_groups(b, max) is Ok,
        shortest_groups(b, max),
    ensures
        groups(parse_groups(b, max)->Ok_0.0) + parse_groups(b, max)->Ok_0.1 == b,
        b[0] != 0 ==> parse_groups(b, max)->Ok_0.0 > 0,
    decreases max,
{
    let value = parse_groups(b, max)->Ok_0.0;
    let rest = parse_groups(b, max)->Ok_0.1;
    if b[0] < 128 {
        assert(groups(value) + rest =~= b);
    } else {
        let tail = b.skip(1);
        lemma_shortest_groups(tail, (max - 1) as nat);
        let high = parse_groups(tail, (max - 1) as nat)->Ok_0.0;
        assert(high > 0);
        assert(value == (b[0] - 128) + 128 * high);
        assert(value >= 128);
        assert(value % 128 == b[0] - 128 && value / 128 == high) by {
            lemma_split(high as int, (b[0] - 128) as int, 128);
        }
        assert(groups(value) =~= seq![b[0]] + groups(high));
        assert(groups(value) + rest =~= seq![b[0]] + (groups(high) + rest));
        assert(seq![b[0]] + tail =~= b);
    }
}

/// A VarInt on the wire that spells its number in the shortest way, within
/// 32 bits, is what the encoder writes for that number: encoding the
/// decoded value gives back the bytes that were read.
pub proof fn lemma_varint_canonical(b: Seq<u8>)
    requires
        parse_varint(b) is Ok,
        shortest_groups(b, 5),
        parse_groups(b, 5)->Ok_0.0 < two32(),
    ensures
        varint_bytes(parse_varint(b)->Ok_0.0) + parse_varint(b)->Ok_0.1 == b,
{
    reveal(parse_varint);
    reveal(varint_bytes);
    lemma_shortest_groups(b, 5);
    let u = parse_groups(b, 5)->Ok_0.0;
    assert(unsigned32(signed32(u)) == u);
}

/// A VarLong on the wire that spells its number in the shortest way,
/// within 64 bits, is what the encoder writes for that number.
pub proof fn lemma_varlong_canonical(b: Seq<u8>)
    requires
        parse_varlong(b) is Ok,
        shortest_groups(b, 10),
        parse_groups(b, 10)->Ok_0.0 < two64(),
    ensures
        varlong_bytes(parse_varlong(b)->Ok_0.0) + parse_varlong(b)->Ok_0.1 == b,
{
    reveal(parse_varlong);
    reveal(varlong_bytes);
    lemma_shortest_groups(b, 10);
    let u = parse_groups(b, 10)->Ok_0.0;
    assert(unsigned64(signed64(u)) == u);
}

/// What the encoder writes for a number spells it in the shortest way.
pub proof fn lemma_groups_are_shortest(v: nat, tail: Seq<u8>, max: nat)
    requires
        group_count(v) <= max,
    ensures
        shortest_groups(groups(v) + tail, max),
        v > 0 ==> (groups(v) + tail)[0] != 0,
    decreases v,
{
    let b = groups(v) + tail;
    lemma_groups_len(v);
    if v >= 128 {
        assert(b[0] == (v % 128 + 128) as u8);
        assert(b.skip(1) =~= groups(v / 128) + tail);
        lemma_groups_are_shortest(v / 128, tail, (max - 1) as nat);
        lemma_groups_len(v / 128);
    } else {
        assert(b[0] == v as u8);
    }
}

} // verus!
