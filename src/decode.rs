use vstd::prelude::*;
use vstd::string::StringSliceAdditionalSpecFns;
use crate::color::{Color, DecodeError};
use crate::hex::{all_hex, digit_value, hex_char_to_int, hex_value, is_hex_digit, parse_hex};

verus! {

/// Length of a color command: two hexadecimal digits per channel.
pub const COMMAND_LEN: usize = 6;

/// The channel value spelled by the two digits of `s` at `start`.
pub open spec fn pair_value(s: Seq<u8>, start: int) -> u8 {
    hex_value(s.subrange(start, start + 2)) as u8
}

/// What a command decodes to: the length is checked first, then the digits;
/// red, green and blue are read from the pairs at 0, 2 and 4.
pub open spec fn decode_spec(s: Seq<u8>) -> Result<Color, DecodeError> {
    if s.len() != COMMAND_LEN {
        Err(DecodeError::WrongLength)
    } else if !all_hex(s) {
        Err(DecodeError::InvalidDigit)
    } else {
        Ok(Color { r: pair_value(s, 0), g: pair_value(s, 2), b: pair_value(s, 4) })
    }
}

/// The value of the two digits at `start` of `bytes`.
fn decode_pair(bytes: &[u8], start: usize) -> (r: u8)
    requires
        start + 2 <= bytes@.len(),
        all_hex(bytes@.subrange(start as int, start + 2)),
    ensures
        r == pair_value(bytes@, start as int),
{
    let pair = [bytes[start], bytes[start + 1]];
    assert(pair@ =~= bytes@.subrange(start as int, start + 2));
    match parse_hex(&pair) {
        Some(v) => v,
        None => 0,
    }
}

/// Decodes a six-byte command such as `1A2b3C` into a color.
pub fn decode(bytes: &[u8]) -> (r: Result<Color, DecodeError>)
    ensures
        r == decode_spec(bytes@),
{
    if bytes.len() != COMMAND_LEN {
        return Err(DecodeError::WrongLength);
    }
    let mut i: usize = 0;
    while i < COMMAND_LEN
        invariant
            bytes@.len() == COMMAND_LEN,
            i <= COMMAND_LEN,
            forall|j: int| 0 <= j < i ==> #[trigger] is_hex_digit(bytes@[j]),
        decreases COMMAND_LEN - i,
    {
        if hex_char_to_int(bytes[i]).is_none() {
            return Err(DecodeError::InvalidDigit);
        }
        i = i + 1;
    }
    Ok(Color { r: decode_pair(bytes, 0), g: decode_pair(bytes, 2), b: decode_pair(bytes, 4) })
}

/// Decodes a six-digit command given as text into its red, green and blue
/// bytes; fails exactly as `decode` does on the text's bytes.
pub fn decode_hex(s: &str) -> (r: Result<[u8; 3], DecodeError>)
    ensures
        match decode_spec(s.spec_bytes()) {
            Ok(c) => r == Ok::<[u8; 3], DecodeError>([c.r, c.g, c.b]),
            Err(e) => r == Err::<[u8; 3], DecodeError>(e),
        },
{
    match decode(s.as_bytes()) {
        Ok(c) => Ok([c.r, c.g, c.b]),
        Err(e) => Err(e),
    }
}

/// The lower-case form of an ASCII letter; any other byte is kept.
pub open spec fn ascii_lower(c: u8) -> u8 {
    if 0x41 <= c <= 0x5a {
        (c + 0x20) as u8
    } else {
        c
    }
}

/// The value of a digit pair, digit by digit.
pub proof fn lemma_pair_digits(s: Seq<u8>, start: int)
    requires
        0 <= start,
        start + 2 <= s.len(),
    ensures
        hex_value(s.subrange(start, start + 2)) == digit_value(s[start]) * 16 + digit_value(
            s[start + 1],
        ),
{
    let p = s.subrange(start, start + 2);
    assert(p.drop_last().drop_last() =~= Seq::<u8>::empty());
    assert(hex_value(p.drop_last().drop_last()) == 0);
    assert(p.drop_last().last() == s[start]);
    assert(hex_value(p.drop_last()) == digit_value(s[start]));
}

/// Any input whose length is not six is refused for its length, whatever it holds.
pub proof fn lemma_wrong_length(s: Seq<u8>)
    requires
        s.len() != COMMAND_LEN,
    ensures
        decode_spec(s) == Err::<Color, DecodeError>(DecodeError::WrongLength),
{
}

/// A six-byte input with a byte that is no hexadecimal digit is refused for that digit.
pub proof fn lemma_invalid_digit(s: Seq<u8>, i: int)
    requires
        s.len() == COMMAND_LEN,
        0 <= i < s.len(),
        !is_hex_digit(s[i]),
    ensures
        decode_spec(s) == Err::<Color, DecodeError>(DecodeError::InvalidDigit),
{
}

/// Six hexadecimal digits always decode, and the case of the letters does
/// not matter: an input that differs from them only in case decodes to the
/// same color.
pub proof fn lemma_case_insensitive(s: Seq<u8>, t: Seq<u8>)
    requires
        s.len() == COMMAND_LEN,
        t.len() == COMMAND_LEN,
        all_hex(s),
        forall|i: int| 0 <= i < COMMAND_LEN ==> ascii_lower(#[trigger] s[i]) == ascii_lower(t[i]),
    ensures
        decode_spec(s) is Ok,
        decode_spec(t) == decode_spec(s),
{
    assert forall|i: int| 0 <= i < COMMAND_LEN implies is_hex_digit(#[trigger] t[i])
        && digit_value(t[i]) == digit_value(s[i]) by {
        assert(is_hex_digit(s[i]));
        assert(ascii_lower(s[i]) == ascii_lower(t[i]));
    }
    assert(all_hex(t));
    lemma_pair_digits(s, 0);
    lemma_pair_digits(s, 2);
    lemma_pair_digits(s, 4);
    lemma_pair_digits(t, 0);
    lemma_pair_digits(t, 2);
    lemma_pair_digits(t, 4);
}

} // verus!
