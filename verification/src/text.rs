//! The characters that the grammar tells apart, and hexadecimal bytes.

use vstd::prelude::*;

verus! {

/// Calls `nom::is_hex_digit`, which tells whether a byte is an ASCII
/// hexadecimal digit: one of `0` to `9`, `A` to `F` or `a` to `f`.
#[verifier::external_body]
fn is_ascii_hex_byte(byte: u8) -> (digit: bool)
    ensures
        digit == ((0x30 <= byte && byte <= 0x39) || (0x41 <= byte && byte <= 0x46) || (0x61
            <= byte && byte <= 0x66)),
{
    nom::is_hex_digit(byte)
}

/// Whether `c` separates the words of a line: a space, a tab, a carriage
/// return or a line feed.
pub open spec fn is_blank(c: char) -> bool {
    c == ' ' || c == '\t' || c == '\r' || c == '\n'
}

/// Whether `c` is a hexadecimal digit.
pub open spec fn is_hex_char(c: char) -> bool {
    ('0' <= c && c <= '9') || ('A' <= c && c <= 'F') || ('a' <= c && c <= 'f')
}

/// The number that the hexadecimal digit `c` stands for.
pub open spec fn hex_digit_value(c: char) -> int
    recommends
        is_hex_char(c),
{
    if '0' <= c && c <= '9' {
        c as int - '0' as int
    } else if 'A' <= c && c <= 'F' {
        c as int - 'A' as int + 10
    } else {
        c as int - 'a' as int + 10
    }
}

/// The number that a run of hexadecimal digits stands for, the first digit
/// counting most.
pub open spec fn hex_value(digits: Seq<char>) -> int
    decreases digits.len(),
{
    if digits.len() == 0 {
        0
    } else {
        hex_value(digits.drop_last()) * 16 + hex_digit_value(digits.last())
    }
}

/// Whether every character of `digits` is a hexadecimal digit.
pub open spec fn all_hex(digits: Seq<char>) -> bool {
    forall|i: int| 0 <= i < digits.len() ==> is_hex_char(#[trigger] digits[i])
}

/// Why a text is not a hexadecimal byte.
#[derive(Debug, Clone, Copy, PartialEq, Eq, Structural)]
pub enum HexError {
    /// The text is empty.
    Empty,
    /// The text holds a character that is not a hexadecimal digit.
    InvalidDigit,
    /// The text holds more than two digits.
    TooLong,
}

/// What `from_hex` makes of a text.
pub open spec fn spec_from_hex(text: Seq<char>) -> Result<u8, HexError> {
    if text.len() == 0 {
        Err(HexError::Empty)
    } else if !all_hex(text) {
        Err(HexError::InvalidDigit)
    } else if text.len() > 2 {
        Err(HexError::TooLong)
    } else {
        Ok(hex_value(text) as u8)
    }
}

/// Whether `c` separates the words of a line.
pub fn is_blank_char(c: char) -> (blank: bool)
    ensures
        blank == is_blank(c),
{
    c == ' ' || c == '\t' || c == '\r' || c == '\n'
}

/// Whether `c` is a hexadecimal digit.
pub fn is_hex_digit(c: char) -> (digit: bool)
    ensures
        digit == is_hex_char(c),
{
    let code: u32 = c as u32;
    code < 0x80 && is_ascii_hex_byte(code as u8)
}

/// The number that the character `c` stands for as a hexadecimal digit, if
/// it is one.
pub fn hex_digit(c: char) -> (value: Option<u8>)
    ensures
        value == if is_hex_char(c) {
            Some(hex_digit_value(c) as u8)
        } else {
            None
        },
        value matches Some(digit) ==> digit <= 15,
{
    if !is_hex_digit(c) {
        return None;
    }
    let code: u32 = c as u32;
    if code <= 0x39 {
        Some((code - 0x30) as u8)
    } else if code <= 0x46 {
        Some((code - 0x41 + 10) as u8)
    } else {
        Some((code - 0x61 + 10) as u8)
    }
}

/// One or two hexadecimal digits stand for less than 256.
pub proof fn lemma_hex_value_fits(digits: Seq<char>)
    requires
        all_hex(digits),
        digits.len() <= 2,
    ensures
        0 <= hex_value(digits) < 256,
        digits.len() == 1 ==> hex_value(digits) == hex_digit_value(digits[0]),
        digits.len() == 2 ==> hex_value(digits) == hex_digit_value(digits[0]) * 16
            + hex_digit_value(digits[1]),
{
    reveal_with_fuel(hex_value, 3);
    if digits.len() == 2 {
        assert(digits.drop_last().last() == digits[0]);
    }
}

/// Reads a text of one or two hexadecimal digits as a byte. A single digit
/// stands for its own value: `"3"` is `0x03`.
pub fn from_hex(input: &str) -> (result: Result<u8, HexError>)
    ensures
        result == spec_from_hex(input@),
{
    broadcast use vstd::string::group_string_axioms;

    let mut value: u8 = 0;
    let mut digits: u8 = 0;
    for c in it: input.chars()
        invariant
            it.seq() == input@,
            all_hex(input@.take(it.index())),
            digits <= 3,
            digits < 3 ==> digits == it.index(),
            digits == 3 ==> it.index() > 2,
            digits < 3 ==> value == hex_value(input@.take(it.index())),
    {
        let ghost before = input@.take(it.index());
        let ghost after = input@.take(it.index() + 1);
        assert(after.drop_last() == before);
        assert(after.last() == c);
        let digit = match hex_digit(c) {
            Some(digit) => digit,
            None => {
                assert(!is_hex_char(input@[it.index()]));
                return Err(HexError::InvalidDigit);
            },
        };
        if digits < 2 {
            proof {
                lemma_hex_value_fits(before);
                lemma_hex_value_fits(after);
            }
            value = value * 16 + digit;
        }
        if digits < 3 {
            digits = digits + 1;
        }
    }
    assert(input@.take(input@.len() as int) == input@);
    if digits == 0 {
        Err(HexError::Empty)
    } else if digits > 2 {
        Err(HexError::TooLong)
    } else {
        Ok(value)
    }
}

} // verus!
