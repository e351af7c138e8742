use vstd::prelude::*;

verus! {

/// `c` is one of `0-9`, `a-f`, `A-F`.
pub open spec fn is_hex_digit(c: u8) -> bool {
    (0x30 <= c <= 0x39) || (0x61 <= c <= 0x66) || (0x41 <= c <= 0x46)
}

/// The value of a hexadecimal digit, upper and lower case alike.
pub open spec fn digit_value(c: u8) -> nat {
    if 0x30 <= c <= 0x39 {
        (c - 0x30) as nat
    } else if 0x61 <= c <= 0x66 {
        (c - 0x61 + 10) as nat
    } else {
        (c - 0x41 + 10) as nat
    }
}

/// Every byte of `s` is a hexadecimal digit.
pub open spec fn all_hex(s: Seq<u8>) -> bool {
    forall|i: int| 0 <= i < s.len() ==> #[trigger] is_hex_digit(s[i])
}

/// The number that the digits of `s` spell, most significant digit first.
pub open spec fn hex_value(s: Seq<u8>) -> nat
    decreases s.len(),
{
    if s.len() == 0 {
        0
    } else {
        hex_value(s.drop_last()) * 16 + digit_value(s.last())
    }
}

/// The value of one hexadecimal digit, or `None` for any other byte.
pub fn hex_char_to_int(c: u8) -> (r: Option<u8>)
    ensures
        is_hex_digit(c) ==> r == Some(digit_value(c) as u8),
        !is_hex_digit(c) ==> r is None,
{
    if 0x30 <= c && c <= 0x39 {
        Some(c - 0x30)
    } else if 0x61 <= c && c <= 0x66 {
        Some(c - 0x61 + 10)
    } else if 0x41 <= c && c <= 0x46 {
        Some(c - 0x41 + 10)
    } else {
        None
    }
}

/// The byte that at most two hexadecimal digits spell, most significant
/// digit first; `None` where a byte is no hexadecimal digit or where there
/// are more than two bytes.
pub fn parse_hex(hex: &[u8]) -> (r: Option<u8>)
    ensures
        hex@.len() <= 2 && all_hex(hex@) ==> r == Some(hex_value(hex@) as u8) && hex_value(hex@)
            < 256,
        !(hex@.len() <= 2 && all_hex(hex@)) ==> r is None,
{
    if hex.len() > 2 {
        return None;
    }
    let mut result: u8 = 0;
    let mut i: usize = 0;
    while i < hex.len()
        invariant
            i <= hex@.len() <= 2,
            all_hex(hex@.subrange(0, i as int)),
            result as nat == hex_value(hex@.subrange(0, i as int)),
            i == 0 ==> result == 0,
            i == 1 ==> result < 16,
        decreases hex@.len() - i,
    {
        let value = match hex_char_to_int(hex[i]) {
            Some(v) => v,
            None => {
                assert(!all_hex(hex@));
                return None;
            },
        };
        let ghost prev = hex@.subrange(0, i as int);
        result = result * 16 + value;
        i = i + 1;
        assert(hex@.subrange(0, i as int).drop_last() =~= prev);
    }
    assert(hex@.subrange(0, i as int) =~= hex@);
    Some(result)
}

} // verus!
