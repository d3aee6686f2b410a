//! Text forms of property values: comparison of strings, decimal numbers
//! and booleans.

use vstd::prelude::*;
use vstd::std_specs::iter::IteratorSpec;
use vstd::string::StringExecFns;
use vstd::utf8::{encode_utf8, encode_utf8_decode_utf8};

verus! {

/// Whether two strings hold the same characters.
pub fn str_eq(a: &str, b: &str) -> (same: bool)
    ensures
        same == (a@ == b@),
{
    let x = a.as_bytes();
    let y = b.as_bytes();
    proof {
        encode_utf8_decode_utf8(a@);
        encode_utf8_decode_utf8(b@);
    }
    if x.len() != y.len() {
        return false;
    }
    let mut i: usize = 0;
    while i < x.len()
        invariant
            i <= x@.len(),
            x@.len() == y@.len(),
            x@ == encode_utf8(a@),
            y@ == encode_utf8(b@),
            forall|j: int| 0 <= j < i ==> x@[j] == y@[j],
        decreases x@.len() - i,
    {
        if x[i] != y[i] {
            return false;
        }
        i = i + 1;
    }
    assert(x@ =~= y@);
    true
}

/// The character of a decimal digit.
pub open spec fn digit_char(d: nat) -> char {
    if d == 0 {
        '0'
    } else if d == 1 {
        '1'
    } else if d == 2 {
        '2'
    } else if d == 3 {
        '3'
    } else if d == 4 {
        '4'
    } else if d == 5 {
        '5'
    } else if d == 6 {
        '6'
    } else if d == 7 {
        '7'
    } else if d == 8 {
        '8'
    } else {
        '9'
    }
}

/// The decimal form of a number, without sign or leading zeros.
pub open spec fn decimal(n: nat) -> Seq<char>
    decreases n,
{
    if n < 10 {
        seq![digit_char(n)]
    } else {
        decimal(n / 10).push(digit_char(n % 10))
    }
}

/// The decimal form of a number that may be negative.
pub open spec fn signed_decimal(n: int) -> Seq<char> {
    if n < 0 {
        seq!['-'] + decimal((-n) as nat)
    } else {
        decimal(n as nat)
    }
}

/// Whether every byte is an ASCII decimal digit.
pub open spec fn all_digits(s: Seq<u8>) -> bool {
    forall|i: int| 0 <= i < s.len() ==> 48 <= #[trigger] s[i] <= 57
}

/// The number that a sequence of ASCII digits spells.
pub open spec fn digits_value(s: Seq<u8>) -> nat
    decreases s.len(),
{
    if s.len() == 0 {
        0
    } else {
        (10 * digits_value(s.drop_last()) + (s.last() - 48)) as nat
    }
}

/// The number that a text, given by its bytes, spells: an optional sign,
/// which may be a minus only if `signed`, then at least one ASCII digit and
/// nothing else. Leading zeros are allowed.
pub open spec fn parse_number(s: Seq<u8>, signed: bool) -> Option<int> {
    let negative = signed && s.len() > 0 && s[0] == 45;
    let digits = if s.len() > 0 && (s[0] == 43 || negative) {
        s.skip(1)
    } else {
        s
    };
    if digits.len() == 0 || !all_digits(digits) {
        None
    } else if negative {
        Some(-(digits_value(digits) as int))
    } else {
        Some(digits_value(digits) as int)
    }
}

/// The number that a text spells, if it spells one within the given range.
pub open spec fn parse_in_range(s: Seq<u8>, min: int, max: int) -> Option<int> {
    match parse_number(s, min < 0) {
        Some(n) => if min <= n <= max {
            Some(n)
        } else {
            None
        },
        None => None,
    }
}

/// The number that a text spells, if it spells one within the given range.
pub open spec fn number_of(text: Seq<char>, min: int, max: int) -> Option<int> {
    parse_in_range(encode_utf8(text), min, max)
}

/// The bytes of the decimal form of a number.
pub open spec fn decimal_bytes(n: nat) -> Seq<u8>
    decreases n,
{
    if n < 10 {
        seq![(48 + n) as u8]
    } else {
        decimal_bytes(n / 10).push((48 + n % 10) as u8)
    }
}

/// The decimal form of a number is ASCII, and its bytes are the decimal
/// bytes.
pub proof fn lemma_decimal_bytes(n: nat)
    ensures
        vstd::utf8::is_ascii_chars(decimal(n)),
        encode_utf8(decimal(n)) == decimal_bytes(n),
        decimal(n).len() == decimal_bytes(n).len(),
    decreases n,
{
    assert('0' as u8 == 48 && '1' as u8 == 49 && '2' as u8 == 50 && '3' as u8 == 51 && '4' as u8
        == 52);
    assert('5' as u8 == 53 && '6' as u8 == 54 && '7' as u8 == 55 && '8' as u8 == 56 && '9' as u8
        == 57);
    if n >= 10 {
        lemma_decimal_bytes(n / 10);
        vstd::utf8::is_ascii_chars_encode_utf8(decimal(n / 10));
    }
    let s = decimal(n);
    assert(vstd::utf8::is_ascii_chars(s)) by {
        assert forall|i: int| 0 <= i < s.len() implies '\0' <= #[trigger] s[i] <= '\u{7f}' by {
            if n >= 10 && i < s.len() - 1 {
                assert(s[i] == decimal(n / 10)[i]);
            }
        }
    }
    vstd::utf8::is_ascii_chars_encode_utf8(s);
    assert(encode_utf8(s) =~= decimal_bytes(n)) by {
        assert forall|i: int| 0 <= i < s.len() implies encode_utf8(s)[i] == decimal_bytes(n)[i] by {
            if n >= 10 && i < s.len() - 1 {
                assert(s[i] == decimal(n / 10)[i]);
                assert(encode_utf8(decimal(n / 10))[i] == decimal(n / 10)[i] as u8);
            }
        }
    }
}

/// The decimal bytes of a number are digits and spell the number.
pub proof fn lemma_decimal(n: nat)
    ensures
        decimal_bytes(n).len() >= 1,
        all_digits(decimal_bytes(n)),
        digits_value(decimal_bytes(n)) == n,
    decreases n,
{
    if n < 10 {
        let s = decimal_bytes(n);
        assert(s.drop_last() =~= Seq::<u8>::empty());
        assert(digits_value(s.drop_last()) == 0);
    } else {
        lemma_decimal(n / 10);
        let s = decimal_bytes(n);
        assert(s.drop_last() =~= decimal_bytes(n / 10));
    }
}

/// Reading the decimal form of a number gives the number back.
pub proof fn lemma_number_roundtrip(n: int, min: int, max: int)
    requires
        min <= n <= max,
    ensures
        number_of(signed_decimal(n), min, max) == Some(n),
{
    assert('-' as u8 == 45);
    if n < 0 {
        let m = (-n) as nat;
        lemma_decimal(m);
        lemma_decimal_bytes(m);
        let s = signed_decimal(n);
        assert(vstd::utf8::is_ascii_chars(s)) by {
            assert forall|i: int| 0 <= i < s.len() implies '\0' <= #[trigger] s[i] <= '\u{7f}' by {
                if i > 0 {
                    assert(s[i] == decimal(m)[i - 1]);
                }
            }
        }
        vstd::utf8::is_ascii_chars_encode_utf8(s);
        vstd::utf8::is_ascii_chars_encode_utf8(decimal(m));
        let b = encode_utf8(s);
        assert(b[0] == 45);
        assert(b.skip(1) =~= decimal_bytes(m)) by {
            assert forall|i: int| 0 <= i < decimal_bytes(m).len() implies b.skip(1)[i]
                == decimal_bytes(m)[i] by {
                assert(s[i + 1] == decimal(m)[i]);
            }
        }
    } else {
        lemma_decimal(n as nat);
        lemma_decimal_bytes(n as nat);
        let b = decimal_bytes(n as nat);
        assert(48 <= b[0] <= 57);
    }
}

/// A number that more digits are appended to does not get smaller.
pub proof fn lemma_digits_grow(s: Seq<u8>, k: int)
    requires
        0 <= k <= s.len(),
        all_digits(s),
    ensures
        digits_value(s.take(k)) <= digits_value(s),
    decreases s.len() - k,
{
    if k < s.len() {
        lemma_digits_grow(s, k + 1);
        assert(s.take(k + 1).drop_last() =~= s.take(k));
        assert(s.take(k + 1).last() == s[k]);
    } else {
        assert(s.take(k) =~= s);
    }
}

/// The one-character string of a decimal digit.
fn digit_str(d: u8) -> (s: &'static str)
    requires
        d < 10,
    ensures
        s@ == seq![digit_char(d as nat)],
{
    proof {
        reveal_strlit("0");
        reveal_strlit("1");
        reveal_strlit("2");
        reveal_strlit("3");
        reveal_strlit("4");
        reveal_strlit("5");
        reveal_strlit("6");
        reveal_strlit("7");
        reveal_strlit("8");
        reveal_strlit("9");
    }
    let s = match d {
        0 => "0",
        1 => "1",
        2 => "2",
        3 => "3",
        4 => "4",
        5 => "5",
        6 => "6",
        7 => "7",
        8 => "8",
        _ => "9",
    };
    assert(s@ =~= seq![digit_char(d as nat)]);
    s
}

/// Appends the decimal form of `n`.
fn push_decimal(n: u64, text: &mut String)
    ensures
        final(text)@ == old(text)@ + decimal(n as nat),
    decreases n,
{
    if n >= 10 {
        push_decimal(n / 10, text);
    }
    let ghost before = text@;
    text.append(digit_str((n % 10) as u8));
    assert(text@ =~= old(text)@ + decimal(n as nat));
}

/// The decimal form of an unsigned number.
pub fn format_unsigned(n: u64) -> (text: String)
    ensures
        text@ == signed_decimal(n as int),
{
    let mut text = String::new();
    push_decimal(n, &mut text);
    assert(text@ =~= decimal(n as nat));
    text
}

/// The decimal form of a signed number.
pub fn format_signed(n: i64) -> (text: String)
    ensures
        text@ == signed_decimal(n as int),
{
    if n >= 0 {
        format_unsigned(n as u64)
    } else {
        proof {
            reveal_strlit("-");
        }
        let mut text = String::from_str("-");
        let magnitude: u64 = ((-(n as i128)) as u64);
        push_decimal(magnitude, &mut text);
        assert(text@ =~= seq!['-'] + decimal((-n) as nat));
        text
    }
}

/// The number that the digits spell, if they are digits and the number is
/// at most `limit`.
fn parse_digits(digits: &[u8], limit: u64) -> (r: Option<u64>)
    ensures
        match r {
            Some(v) => all_digits(digits@) && digits_value(digits@) == v && v <= limit,
            None => !all_digits(digits@) || digits_value(digits@) > limit,
        },
{
    let mut value: u64 = 0;
    let mut i: usize = 0;
    assert(digits@.take(0) =~= Seq::<u8>::empty());
    while i < digits.len()
        invariant
            i <= digits@.len(),
            forall|j: int| 0 <= j < i ==> 48 <= #[trigger] digits@[j] <= 57,
            value == digits_value(digits@.take(i as int)),
            value <= limit,
        decreases digits@.len() - i,
    {
        let b = digits[i];
        if b < 48 || b > 57 {
            return None;
        }
        proof {
            assert(digits@.take(i + 1).drop_last() =~= digits@.take(i as int));
            assert(digits@.take(i + 1).last() == b);
        }
        let next = (value as u128) * 10 + ((b - 48) as u128);
        if next > limit as u128 {
            proof {
                if all_digits(digits@) {
                    lemma_digits_grow(digits@, i + 1);
                }
            }
            return None;
        }
        value = next as u64;
        i = i + 1;
    }
    assert(digits@.take(i as int) =~= digits@);
    Some(value)
}

/// The number that a text spells, if it spells one between `min` and
/// `max`.
pub fn parse_integer(text: &str, min: i64, max: u64) -> (r: Option<i128>)
    ensures
        match r {
            Some(n) => number_of(text@, min as int, max as int) == Some(n as int),
            None => number_of(text@, min as int, max as int) is None,
        },
{
    let bytes = text.as_bytes();
    let signed = min < 0;
    let mut start: usize = 0;
    let mut negative = false;
    if bytes.len() > 0 {
        if bytes[0] == 45 && signed {
            negative = true;
            start = 1;
        } else if bytes[0] == 43 {
            start = 1;
        }
    }
    let digits = vstd::slice::slice_subrange(bytes, start, bytes.len());
    assert(digits@ =~= bytes@.skip(start as int));
    assert(start == 0 ==> digits@ =~= bytes@);
    if digits.len() == 0 {
        return None;
    }
    let limit: u64 = if negative {
        (-(min as i128)) as u64
    } else {
        max
    };
    match parse_digits(digits, limit) {
        None => None,
        Some(value) => if negative {
            Some(-(value as i128))
        } else if (value as i128) < (min as i128) {
            None
        } else {
            Some(value as i128)
        },
    }
}

/// `String::push` of std: appends one character.
#[verifier::external_body]
fn push_char(text: &mut String, c: char)
    ensures
        final(text)@ == old(text)@.push(c),
{
    text.push(c);
}

/// What a character becomes in the value of a written property: a
/// backslash, a line feed, a carriage return, a tab, a colon and an equals
/// sign are written behind a backslash, the three control characters as
/// the letters n, r and t.
pub open spec fn escaped_char(c: char) -> Seq<char> {
    if c == '\\' {
        seq!['\\', '\\']
    } else if c == '\n' {
        seq!['\\', 'n']
    } else if c == '\r' {
        seq!['\\', 'r']
    } else if c == '\t' {
        seq!['\\', 't']
    } else if c == ':' {
        seq!['\\', ':']
    } else if c == '=' {
        seq!['\\', '=']
    } else {
        seq![c]
    }
}

/// A text with each of its characters escaped.
pub open spec fn escaped(s: Seq<char>) -> Seq<char>
    decreases s.len(),
{
    if s.len() == 0 {
        Seq::empty()
    } else {
        escaped(s.drop_last()) + escaped_char(s.last())
    }
}

/// Appends the escaped form of one character.
fn push_escaped(text: &mut String, c: char)
    ensures
        final(text)@ == old(text)@ + escaped_char(c),
{
    let ghost before = text@;
    if c == '\\' {
        push_char(text, '\\');
        push_char(text, '\\');
    } else if c == '\n' {
        push_char(text, '\\');
        push_char(text, 'n');
    } else if c == '\r' {
        push_char(text, '\\');
        push_char(text, 'r');
    } else if c == '\t' {
        push_char(text, '\\');
        push_char(text, 't');
    } else if c == ':' {
        push_char(text, '\\');
        push_char(text, ':');
    } else if c == '=' {
        push_char(text, '\\');
        push_char(text, '=');
    } else {
        push_char(text, c);
    }
    assert(text@ =~= before + escaped_char(c));
}

/// Escapes the special characters of a property value.
pub fn escape_value(value: &str) -> (text: String)
    ensures
        text@ == escaped(value@),
{
    let mut text = String::new();
    let mut chars = value.chars();
    let ghost mut done: int = 0;
    assert(value@.take(0) =~= Seq::<char>::empty());
    assert(value@.skip(0) =~= value@);
    loop
        invariant
            0 <= done <= value@.len(),
            chars.remaining() == value@.skip(done),
            text@ == escaped(value@.take(done)),
        ensures
            text@ == escaped(value@),
        decreases value@.len() - done,
    {
        let ghost before = chars;
        match chars.next() {
            None => {
                assert(value@.take(done) =~= value@);
                break;
            },
            Some(c) => {
                proof {
                    assert(c == value@[done]);
                    assert(value@.take(done + 1).drop_last() =~= value@.take(done));
                    assert(value@.skip(done).drop_first() =~= value@.skip(done + 1));
                }
                push_escaped(&mut text, c);
                proof {
                    done = done + 1;
                }
            },
        }
    }
    text
}

} // verus!
