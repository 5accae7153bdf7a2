//! Text comparison and rendering.

use vstd::prelude::*;
use vstd::string::StringSliceAdditionalSpecFns;
use vstd::utf8::{encode_utf8, valid_utf8};

use crate::domain::bytes::bytes_equal;

verus! {

/// Whether two texts hold the same characters.
pub fn texts_equal(left: &str, right: &str) -> (equal: bool)
    ensures
        equal == (left@ == right@),
{
    let equal = bytes_equal(left.as_bytes(), right.as_bytes());
    proof {
        vstd::utf8::encode_utf8_decode_utf8(left@);
        vstd::utf8::encode_utf8_decode_utf8(right@);
    }
    equal
}

/// The character of a digit.
pub open spec fn digit(value: nat) -> char {
    ((48 + value % 10) as u8) as char
}

/// A number in decimal digits, without leading zeros.
pub open spec fn decimal_digits(value: nat) -> Seq<char>
    decreases value,
{
    if value < 10 {
        seq![digit(value)]
    } else {
        decimal_digits(value / 10).push(digit(value))
    }
}

fn digit_text(value: u64) -> (text: &'static str)
    ensures
        text@ == seq![digit(value as nat)],
{
    proof {
        reveal_strlit("0");
        reveal_strlit("1");
        reveal_strlit("2");
        reveal_strlit("3");
        reveal_strlit("4");
        reveal_strlit("5");
        reveal_strlit("6");
        reveal_strlit("7");
        reveal_strlit("8");
        reveal_strlit("9");
    }
    let text = match value % 10 {
        0 => "0",
        1 => "1",
        2 => "2",
        3 => "3",
        4 => "4",
        5 => "5",
        6 => "6",
        7 => "7",
        8 => "8",
        _ => "9",
    };
    proof {
        assert(text@ =~= seq![digit(value as nat)]);
    }
    text
}

/// Calls `std::str::from_utf8`, which accepts bytes if and only if they are valid UTF-8 and then
/// gives the text that they encode.
#[verifier::external_body]
pub(crate) fn utf8_text(bytes: &[u8]) -> (text: Option<String>)
    ensures
        text is Some == valid_utf8(bytes@),
        text matches Some(found) ==> encode_utf8(found@) == bytes@,
{
    match std::str::from_utf8(bytes) {
        Ok(text) => Some(text.to_owned()),
        Err(_) => None,
    }
}

/// The character of a hexadecimal digit.
pub open spec fn hex_character(value: nat) -> char {
    if value % 16 < 10 {
        digit(value % 16)
    } else {
        (87 + value % 16) as char
    }
}

/// Bytes spelled in hexadecimal, two lower-case characters for each.
pub open spec fn hex_text(bytes: Seq<u8>) -> Seq<char>
    decreases bytes.len(),
{
    if bytes.len() == 0 {
        Seq::empty()
    } else {
        hex_text(bytes.drop_last()) + seq![
            hex_character((bytes.last() / 16) as nat),
            hex_character((bytes.last() % 16) as nat),
        ]
    }
}

fn hex_digit_text(value: u8) -> (text: &'static str)
    requires
        value < 16,
    ensures
        text@ == seq![hex_character(value as nat)],
{
    if value < 10 {
        return digit_text(value as u64);
    }
    proof {
        reveal_strlit("a");
        reveal_strlit("b");
        reveal_strlit("c");
        reveal_strlit("d");
        reveal_strlit("e");
        reveal_strlit("f");
    }
    let text = match value {
        10 => "a",
        11 => "b",
        12 => "c",
        13 => "d",
        14 => "e",
        _ => "f",
    };
    proof {
        assert(text@ =~= seq![hex_character(value as nat)]);
    }
    text
}

/// Spells bytes in lower-case hexadecimal.
pub fn encode_hex(bytes: &[u8]) -> (text: String)
    ensures
        text@ == hex_text(bytes@),
{
    let mut text = String::new();
    let mut index: usize = 0;
    proof {
        assert(bytes@.take(0) =~= Seq::<u8>::empty());
        assert(text@ =~= Seq::<char>::empty());
    }
    while index < bytes.len()
        invariant
            index <= bytes@.len(),
            text@ == hex_text(bytes@.take(index as int)),
        decreases bytes@.len() - index,
    {
        let byte: u8 = bytes[index];
        text.append(hex_digit_text(byte / 16));
        text.append(hex_digit_text(byte % 16));
        proof {
            let next = bytes@.take(index + 1);
            assert(next.drop_last() =~= bytes@.take(index as int));
            assert(next.last() == byte);
            assert(text@ =~= hex_text(next));
        }
        index += 1;
    }
    proof {
        assert(bytes@.take(index as int) =~= bytes@);
    }
    text
}

/// Renders a number in decimal digits.
pub fn decimal(value: u64) -> (text: String)
    ensures
        text@ == decimal_digits(value as nat),
    decreases value,
{
    if value < 10 {
        String::from_str(digit_text(value))
    } else {
        let mut text = decimal(value / 10);
        text.append(digit_text(value));
        proof {
            assert(text@ =~= decimal_digits(value as nat));
        }
        text
    }
}

/// The value of a hexadecimal digit.
pub open spec fn hex_digit(byte: u8) -> Option<u8> {
    if 48 <= byte <= 57 {
        Some((byte - 48) as u8)
    } else if 97 <= byte <= 102 {
        Some((byte - 87) as u8)
    } else if 65 <= byte <= 70 {
        Some((byte - 55) as u8)
    } else {
        None
    }
}

/// The byte that two characters spell in hexadecimal; a plus sign may stand in the first place.
pub open spec fn hex_pair(first: u8, second: u8) -> Option<u8> {
    match (hex_digit(first), hex_digit(second)) {
        (Some(high), Some(low)) => Some((16 * high + low) as u8),
        (None, Some(low)) => if first == 43 {
            Some(low)
        } else {
            None
        },
        _ => None,
    }
}

/// The bytes that pairs of characters spell in hexadecimal.
pub open spec fn hex_bytes(text: Seq<u8>) -> Option<Seq<u8>>
    decreases text.len(),
{
    if text.len() == 0 {
        Some(Seq::empty())
    } else if text.len() == 1 {
        None
    } else {
        let rest = text.subrange(0, text.len() - 2);
        match (hex_bytes(rest), hex_pair(text[text.len() - 2], text[text.len() - 1])) {
            (Some(bytes), Some(byte)) => Some(bytes.push(byte)),
            _ => None,
        }
    }
}

fn digit_value(byte: u8) -> (value: Option<u8>)
    ensures
        value == hex_digit(byte),
{
    if byte >= 48 && byte <= 57 {
        Some(byte - 48)
    } else if byte >= 97 && byte <= 102 {
        Some(byte - 87)
    } else if byte >= 65 && byte <= 70 {
        Some(byte - 55)
    } else {
        None
    }
}

fn pair_value(first: u8, second: u8) -> (value: Option<u8>)
    ensures
        value == hex_pair(first, second),
{
    match (digit_value(first), digit_value(second)) {
        (Some(high), Some(low)) => Some(16 * high + low),
        (None, Some(low)) => if first == 43 {
            Some(low)
        } else {
            None
        },
        _ => None,
    }
}

/// Decodes text in which every two characters spell one byte in hexadecimal.
pub fn decode_hex(text: &str) -> (bytes: Option<Vec<u8>>)
    ensures
        match bytes {
            Some(found) => hex_bytes(text.spec_bytes()) == Some(found@),
            None => hex_bytes(text.spec_bytes()) is None,
        },
{
    let source = text.as_bytes();
    let mut bytes: Vec<u8> = Vec::new();
    let mut index: usize = 0;
    let ghost whole = source@;
    proof {
        assert(whole.subrange(0, 0) =~= Seq::<u8>::empty());
    }
    while source.len() - index > 1
        invariant
            index <= source@.len(),
            index % 2 == 0,
            whole == text.spec_bytes(),
            source@ == whole,
            hex_bytes(whole.subrange(0, index as int)) == Some(bytes@),
        decreases source@.len() - index,
    {
        let ghost longer = whole.subrange(0, index + 2);
        proof {
            assert(longer.subrange(0, longer.len() - 2) =~= whole.subrange(0, index as int));
        }
        match pair_value(source[index], source[index + 1]) {
            Some(byte) => {
                bytes.push(byte);
            },
            None => {
                proof {
                    lemma_hex_fails(whole, index + 2);
                }
                return None;
            },
        }
        index = index + 2;
    }
    if index < source.len() {
        proof {
            lemma_hex_is_even(whole);
            lemma_hex_is_even(whole.subrange(0, index as int));
        }
        return None;
    }
    proof {
        assert(whole.subrange(0, index as int) =~= whole);
    }
    Some(bytes)
}

/// Text that spells bytes has an even number of characters.
proof fn lemma_hex_is_even(text: Seq<u8>)
    ensures
        hex_bytes(text) matches Some(bytes) ==> text.len() == 2 * bytes.len(),
    decreases text.len(),
{
    if text.len() >= 2 {
        lemma_hex_is_even(text.subrange(0, text.len() - 2));
    }
}

/// Text that begins with what spells nothing spells nothing.
proof fn lemma_hex_fails(text: Seq<u8>, prefix: int)
    requires
        0 <= prefix <= text.len(),
        prefix % 2 == 0,
        hex_bytes(text.subrange(0, prefix)) is None,
    ensures
        hex_bytes(text) is None,
    decreases text.len(),
{
    if prefix == text.len() {
        assert(text.subrange(0, prefix) =~= text);
    } else if text.len() >= 2 && prefix <= text.len() - 2 {
        let rest = text.subrange(0, text.len() - 2);
        assert(rest.subrange(0, prefix) =~= text.subrange(0, prefix));
        lemma_hex_fails(rest, prefix);
    } else {
        lemma_hex_is_even(text);
    }
}

/// The number that decimal digits spell.
pub open spec fn digits_value(digits: Seq<u8>) -> Option<nat>
    decreases digits.len(),
{
    if digits.len() == 0 {
        Some(0)
    } else {
        let last = digits.last();
        match digits_value(digits.drop_last()) {
            Some(value) => if 48 <= last <= 57 {
                Some((10 * value + (last - 48)) as nat)
            } else {
                None
            },
            None => None,
        }
    }
}

/// The number that a decimal text spells: at least one digit, with or without a plus sign.
pub open spec fn decimal_value(text: Seq<u8>) -> Option<nat> {
    let digits = if text.len() > 1 && text[0] == 43 {
        text.subrange(1, text.len() as int)
    } else {
        text
    };
    if digits.len() == 0 {
        None
    } else {
        digits_value(digits)
    }
}

/// Parses a decimal number that is at most `limit`.
pub fn parse_decimal(text: &str, limit: u64) -> (value: Option<u64>)
    ensures
        value == bounded_decimal(text.spec_bytes(), limit),
{
    parse_decimal_bytes(text.as_bytes(), limit)
}

/// The number that a decimal text spells, if it is at most `limit`.
pub open spec fn bounded_decimal(text: Seq<u8>, limit: u64) -> Option<u64> {
    match decimal_value(text) {
        Some(number) => if number <= limit {
            Some(number as u64)
        } else {
            None
        },
        None => None,
    }
}

/// Parses the bytes of a decimal number that is at most `limit`.
pub fn parse_decimal_bytes(source: &[u8], limit: u64) -> (value: Option<u64>)
    ensures
        value == bounded_decimal(source@, limit),
{
    let start: usize = if source.len() > 1 && source[0] == 43 {
        1
    } else {
        0
    };
    let ghost digits = source@.subrange(start as int, source@.len() as int);
    proof {
        assert(start == 0 ==> digits =~= source@);
    }
    if source.len() == start {
        return None;
    }
    let mut value: u64 = 0;
    let mut index: usize = start;
    proof {
        assert(digits.subrange(0, 0) =~= Seq::<u8>::empty());
    }
    while index < source.len()
        invariant
            start <= index <= source@.len(),
            decimal_value(source@) == digits_value(digits),
            digits == source@.subrange(start as int, source@.len() as int),
            digits_value(digits.subrange(0, index - start)) == Some(value as nat),
        decreases source@.len() - index,
    {
        let byte: u8 = source[index];
        let ghost longer = digits.subrange(0, index - start + 1);
        proof {
            assert(longer.drop_last() =~= digits.subrange(0, index - start));
            assert(longer.last() == byte);
        }
        if byte < 48 || byte > 57 {
            proof {
                lemma_digits_fail(digits, index - start + 1);
            }
            return None;
        }
        let digit: u64 = (byte - 48) as u64;
        if value > (u64::MAX - digit) / 10 {
            proof {
                lemma_digits_grow(digits, index - start + 1);
            }
            return None;
        }
        value = value * 10 + digit;
        index = index + 1;
    }
    proof {
        assert(digits.subrange(0, index - start) =~= digits);
    }
    if value <= limit {
        Some(value)
    } else {
        None
    }
}

proof fn lemma_digits_fail(digits: Seq<u8>, prefix: int)
    requires
        0 <= prefix <= digits.len(),
        digits_value(digits.subrange(0, prefix)) is None,
    ensures
        digits_value(digits) is None,
    decreases digits.len(),
{
    if prefix == digits.len() {
        assert(digits.subrange(0, prefix) =~= digits);
    } else {
        assert(digits.drop_last().subrange(0, prefix) =~= digits.subrange(0, prefix));
        lemma_digits_fail(digits.drop_last(), prefix);
    }
}

proof fn lemma_digits_grow(digits: Seq<u8>, prefix: int)
    requires
        0 <= prefix <= digits.len(),
        digits_value(digits.subrange(0, prefix)) matches Some(value) && value > u64::MAX,
    ensures
        digits_value(digits) matches Some(value) ==> value > u64::MAX,
    decreases digits.len(),
{
    if prefix == digits.len() {
        assert(digits.subrange(0, prefix) =~= digits);
    } else {
        assert(digits.drop_last().subrange(0, prefix) =~= digits.subrange(0, prefix));
        lemma_digits_grow(digits.drop_last(), prefix);
    }
}

/// Whether every character is an ASCII character other than NUL.
pub open spec fn plain(text: Seq<char>) -> bool {
    forall|index: int| 0 <= index < text.len() ==> '\u{1}' <= #[trigger] text[index] <= '\u{7f}'
}

/// Two plain texts, one behind the other, are plain.
pub proof fn lemma_plain_append(left: Seq<char>, right: Seq<char>)
    requires
        plain(left),
        plain(right),
    ensures
        plain(left + right),
{
    let whole = left + right;
    assert forall|index: int| 0 <= index < whole.len() implies '\u{1}' <= #[trigger] whole[index]
        <= '\u{7f}' by {
        if index < left.len() {
            assert(whole[index] == left[index]);
        } else {
            assert(whole[index] == right[index - left.len()]);
        }
    }
}

/// A power of ten.
pub open spec fn power_of_ten(exponent: nat) -> nat
    decreases exponent,
{
    if exponent == 0 {
        1
    } else {
        10 * power_of_ten((exponent - 1) as nat)
    }
}

/// Decimal digits are plain, and a number below a power of ten has no more digits than the power.
pub proof fn lemma_decimal_digits(value: nat, count: nat)
    requires
        count >= 1,
        value < power_of_ten(count),
    ensures
        plain(decimal_digits(value)),
        1 <= decimal_digits(value).len() <= count,
    decreases value,
{
    if value >= 10 {
        assert(power_of_ten(count) == 10 * power_of_ten((count - 1) as nat));
        if count == 1 {
            assert(power_of_ten(0) == 1);
        }
        lemma_decimal_digits(value / 10, (count - 1) as nat);
        lemma_plain_append(decimal_digits(value / 10), seq![digit(value)]);
        assert(decimal_digits(value) =~= decimal_digits(value / 10) + seq![digit(value)]);
    }
}

/// Hexadecimal text is plain and has two characters for each byte.
pub proof fn lemma_hex_text(bytes: Seq<u8>)
    ensures
        plain(hex_text(bytes)),
        hex_text(bytes).len() == 2 * bytes.len(),
    decreases bytes.len(),
{
    if bytes.len() > 0 {
        lemma_hex_text(bytes.drop_last());
        lemma_plain_append(
            hex_text(bytes.drop_last()),
            seq![
                hex_character((bytes.last() / 16) as nat),
                hex_character((bytes.last() % 16) as nat),
            ],
        );
    }
}

/// The bytes of plain text are its characters, one for one.
pub proof fn lemma_plain_bytes(text: Seq<char>)
    requires
        plain(text),
    ensures
        valid_utf8(encode_utf8(text)),
        encode_utf8(text).len() == text.len(),
        forall|index: int|
            0 <= index < text.len() ==> #[trigger] encode_utf8(text)[index] == text[index] as u8,
        !encode_utf8(text).contains(0u8),
{
    vstd::utf8::encode_utf8_valid_utf8(text);
    assert(vstd::utf8::is_ascii_chars(text));
    vstd::utf8::is_ascii_chars_encode_utf8(text);
    assert forall|index: int| 0 <= index < text.len() implies #[trigger] encode_utf8(text)[index]
        != 0 by {
        assert('\u{1}' <= text[index] <= '\u{7f}');
    }
}

/// The bytes of two texts, one behind the other, are the bytes of the one behind those of the
/// other.
pub proof fn lemma_encode_append(left: Seq<char>, right: Seq<char>)
    ensures
        encode_utf8(left + right) == encode_utf8(left) + encode_utf8(right),
    decreases left.len(),
{
    if left.len() == 0 {
        assert(left + right =~= right);
        assert(encode_utf8(left) =~= Seq::<u8>::empty());
        assert(encode_utf8(left) + encode_utf8(right) =~= encode_utf8(right));
    } else {
        let whole = left + right;
        assert(whole.drop_first() =~= left.drop_first() + right);
        lemma_encode_append(left.drop_first(), right);
        assert(whole[0] == left[0]);
        assert(encode_utf8(whole) =~= encode_utf8(left) + encode_utf8(right));
    }
}

/// A hexadecimal character spells its digit.
proof fn lemma_hex_character(value: nat)
    requires
        value < 16,
    ensures
        hex_digit(hex_character(value) as u8) == Some(value as u8),
{
}

/// Two hexadecimal characters spell the byte that they were rendered from.
proof fn lemma_hex_pair(byte: u8)
    ensures
        hex_pair(
            hex_character((byte / 16) as nat) as u8,
            hex_character((byte % 16) as nat) as u8,
        ) == Some(byte),
{
    lemma_hex_character((byte / 16) as nat);
    lemma_hex_character((byte % 16) as nat);
    assert(byte == 16 * (byte / 16) + byte % 16);
}

/// Decoding the hexadecimal text of bytes gives the bytes back.
pub proof fn law_hex_round_trip(bytes: Seq<u8>)
    ensures
        hex_bytes(encode_utf8(hex_text(bytes))) == Some(bytes),
    decreases bytes.len(),
{
    let text = hex_text(bytes);
    let wire = encode_utf8(text);
    lemma_hex_text(bytes);
    lemma_plain_bytes(text);
    if bytes.len() == 0 {
        assert(wire.len() == 0);
    } else {
        let rest = hex_text(bytes.drop_last());
        lemma_hex_text(bytes.drop_last());
        lemma_plain_bytes(rest);
        law_hex_round_trip(bytes.drop_last());
        assert(wire.subrange(0, wire.len() - 2) =~= encode_utf8(rest)) by {
            assert forall|index: int| 0 <= index < rest.len() implies #[trigger] wire[index]
                == encode_utf8(rest)[index] by {
                assert(text[index] == rest[index]);
            }
        }
        let last = bytes.last();
        lemma_hex_pair(last);
        assert(text[text.len() - 2] == hex_character((last / 16) as nat));
        assert(text[text.len() - 1] == hex_character((last % 16) as nat));
        assert(hex_pair(wire[wire.len() - 2], wire[wire.len() - 1]) == Some(last));
        assert(bytes.drop_last().push(last) =~= bytes);
    }
}

/// Digits alone spell the number that they were rendered from.
proof fn lemma_digits_of(value: nat)
    ensures
        plain(decimal_digits(value)),
        decimal_digits(value).len() > 0,
        48 <= encode_utf8(decimal_digits(value))[0] <= 57,
        digits_value(encode_utf8(decimal_digits(value))) == Some(value),
    decreases value,
{
    let text = decimal_digits(value);
    let wire = encode_utf8(text);
    if value < 10 {
        lemma_plain_bytes(text);
        assert(wire.drop_last() =~= Seq::<u8>::empty());
        assert(digits_value(wire.drop_last()) == Some(0nat));
    } else {
        let rest = decimal_digits(value / 10);
        lemma_digits_of(value / 10);
        lemma_plain_append(rest, seq![digit(value)]);
        assert(text =~= rest + seq![digit(value)]);
        lemma_plain_bytes(text);
        lemma_plain_bytes(rest);
        assert(wire.drop_last() =~= encode_utf8(rest)) by {
            assert forall|index: int| 0 <= index < rest.len() implies #[trigger] wire[index]
                == encode_utf8(rest)[index] by {
                assert(text[index] == rest[index]);
            }
        }
        assert(wire[0] == encode_utf8(rest)[0]) by {
            assert(text[0] == rest[0]);
        }
        assert(text.last() == digit(value));
    }
}

/// Parsing the decimal digits of a number gives the number back.
pub proof fn law_decimal_round_trip(value: nat)
    ensures
        decimal_value(encode_utf8(decimal_digits(value))) == Some(value),
{
    lemma_digits_of(value);
    lemma_plain_bytes(decimal_digits(value));
}

/// A number is read exactly where its text spells one within the limit, and a larger limit reads it
/// as well.
pub proof fn law_limits_bound_what_is_read(text: Seq<u8>, limit: u64, larger: u64)
    requires
        limit <= larger,
    ensures
        bounded_decimal(text, limit) matches Some(value) ==> value <= limit && decimal_value(text)
            == Some(value as nat) && bounded_decimal(text, larger) == Some(value),
        decimal_value(text) matches Some(number) ==> (number <= limit <==> bounded_decimal(
            text,
            limit,
        ) is Some),
        decimal_value(text) is None ==> bounded_decimal(text, limit) is None,
{
}

} // verus!
