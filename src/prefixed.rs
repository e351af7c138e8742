use vstd::prelude::*;
use crate::color::{Color, DecodeError};
use crate::decode::{decode_spec, lemma_pair_digits, pair_value, COMMAND_LEN};
use crate::hex::{digit_value, hex_char_to_int, is_hex_digit};

verus! {

/// Relies on strtoint::strtoint::<u8>: a string of `0x` and then two
/// hexadecimal digits of either case parses to the byte that they spell.
#[verifier::external_body]
fn strtoint_u8(text: &[u8]) -> (r: Option<u8>)
    ensures
        text@.len() == 4 && text@[0] == 0x30 && text@[1] == 0x78 && is_hex_digit(text@[2])
            && is_hex_digit(text@[3]) ==> r == Some(
            (digit_value(text@[2]) * 16 + digit_value(text@[3])) as u8,
        ),
{
    match core::str::from_utf8(text) {
        Ok(s) => strtoint::strtoint::<u8>(s).ok(),
        Err(_) => None,
    }
}

/// The channel value of the two digits at `start`, read as a `0x` literal.
fn literal_pair(buf: &[u8; 7], start: usize) -> (r: u8)
    requires
        start + 2 <= COMMAND_LEN,
        is_hex_digit(buf@[start as int]),
        is_hex_digit(buf@[start + 1]),
    ensures
        r == pair_value(buf@.subrange(0, COMMAND_LEN as int), start as int),
{
    let text = [0x30u8, 0x78u8, buf[start], buf[start + 1]];
    let ghost s = buf@.subrange(0, COMMAND_LEN as int);
    proof {
        lemma_pair_digits(s, start as int);
    }
    let slice = text.as_slice();
    assert(slice@ == text@);
    match strtoint_u8(slice) {
        Some(v) => v,
        None => 0,
    }
}

/// Decodes the first six bytes of a seven-byte read buffer, channel by
/// channel as `0x` literals.
pub fn input_to_rgb8(buf: [u8; 7]) -> (r: Result<Color, DecodeError>)
    ensures
        r == decode_spec(buf@.subrange(0, COMMAND_LEN as int)),
{
    let ghost s = buf@.subrange(0, COMMAND_LEN as int);
    let mut i: usize = 0;
    while i < COMMAND_LEN
        invariant
            i <= COMMAND_LEN,
            s == buf@.subrange(0, COMMAND_LEN as int),
            forall|j: int| 0 <= j < i ==> #[trigger] is_hex_digit(buf@[j]),
        decreases COMMAND_LEN - i,
    {
        if hex_char_to_int(buf[i]).is_none() {
            assert(!is_hex_digit(s[i as int]));
            return Err(DecodeError::InvalidDigit);
        }
        i = i + 1;
    }
    assert(forall|j: int| 0 <= j < COMMAND_LEN ==> #[trigger] s[j] == buf@[j]);
    Ok(
        Color {
            r: literal_pair(&buf, 0),
            g: literal_pair(&buf, 2),
            b: literal_pair(&buf, 4),
        },
    )
}

} // verus!
