use serial_rgb::color::{Color, DecodeError};
use serial_rgb::decode::{decode, decode_hex};
use serial_rgb::hex::{hex_char_to_int, parse_hex};
use serial_rgb::prefixed::input_to_rgb8;

#[test]
fn red_command() {
    assert_eq!(decode(b"ff0000"), Ok(Color { r: 255, g: 0, b: 0 }));
}

#[test]
fn green_command() {
    assert_eq!(decode(b"00ff00"), Ok(Color { r: 0, g: 255, b: 0 }));
}

#[test]
fn blue_command() {
    assert_eq!(decode(b"0000ff"), Ok(Color { r: 0, g: 0, b: 255 }));
}

#[test]
fn invalid_digit_command() {
    assert_eq!(decode(b"zz0000"), Err(DecodeError::InvalidDigit));
    assert_eq!(decode(b"00000g"), Err(DecodeError::InvalidDigit));
    assert_eq!(decode(b"12 456"), Err(DecodeError::InvalidDigit));
}

#[test]
fn short_command() {
    assert_eq!(decode(b"ff00"), Err(DecodeError::WrongLength));
}

#[test]
fn wrong_lengths() {
    assert_eq!(decode(b""), Err(DecodeError::WrongLength));
    assert_eq!(decode(b"ff00001"), Err(DecodeError::WrongLength));
    assert_eq!(decode(b"ff0000\n"), Err(DecodeError::WrongLength));
    assert_eq!(decode(b"zz"), Err(DecodeError::WrongLength));
    assert_eq!(decode(&[0u8; 64]), Err(DecodeError::WrongLength));
}

#[test]
fn case_does_not_matter() {
    let a = decode(b"1a2B3c");
    let b = decode(b"1A2b3C");
    assert_eq!(a, b);
    assert_eq!(a, Ok(Color { r: 0x1a, g: 0x2b, b: 0x3c }));
}

#[test]
fn pairs_read_most_significant_first() {
    assert_eq!(decode(b"1A0000"), Ok(Color { r: 26, g: 0, b: 0 }));
    assert_eq!(decode(b"abcdef"), Ok(Color { r: 0xab, g: 0xcd, b: 0xef }));
    assert_eq!(decode(b"FFFFFF"), Ok(Color { r: 255, g: 255, b: 255 }));
}

#[test]
fn single_digits() {
    assert_eq!(hex_char_to_int(b'0'), Some(0));
    assert_eq!(hex_char_to_int(b'9'), Some(9));
    assert_eq!(hex_char_to_int(b'a'), Some(10));
    assert_eq!(hex_char_to_int(b'F'), Some(15));
    assert_eq!(hex_char_to_int(b'g'), None);
    assert_eq!(hex_char_to_int(b'/'), None);
}

#[test]
fn digit_pairs() {
    assert_eq!(parse_hex(b"1A"), Some(26));
    assert_eq!(parse_hex(b"ff"), Some(255));
    assert_eq!(parse_hex(b"7"), Some(7));
    assert_eq!(parse_hex(b""), Some(0));
    assert_eq!(parse_hex(b"x1"), None);
    assert_eq!(parse_hex(b"123"), None);
}

#[test]
fn hex_string_to_bytes() {
    assert_eq!(decode_hex("ff8000"), Ok([255, 128, 0]));
    assert_eq!(decode_hex("1a2B3c"), Ok([0x1a, 0x2b, 0x3c]));
}

#[test]
fn hex_string_errors() {
    assert_eq!(decode_hex("ff00"), Err(DecodeError::WrongLength));
    assert_eq!(decode_hex("abc"), Err(DecodeError::WrongLength));
    assert_eq!(decode_hex(""), Err(DecodeError::WrongLength));
    assert_eq!(decode_hex("ff00001"), Err(DecodeError::WrongLength));
    assert_eq!(decode_hex("zz0000"), Err(DecodeError::InvalidDigit));
    assert_eq!(decode_hex("+f0000"), Err(DecodeError::InvalidDigit));
    assert_eq!(decode_hex("ff00é"), Err(DecodeError::InvalidDigit));
}

#[test]
fn read_buffer_as_literals() {
    assert_eq!(input_to_rgb8(*b"1A2b3C\0"), Ok(Color { r: 26, g: 43, b: 60 }));
    assert_eq!(input_to_rgb8(*b"ff0000\n"), Ok(Color { r: 255, g: 0, b: 0 }));
    assert_eq!(input_to_rgb8(*b"0x1200\0"), Err(DecodeError::InvalidDigit));
}

#[test]
fn both_decoders_agree() {
    let inputs: [&[u8; 6]; 5] = [b"000000", b"7f80fe", b"C0ffEe", b"12345g", b"-12345"];
    for input in inputs {
        let mut buf = [0u8; 7];
        buf[..6].copy_from_slice(input);
        assert_eq!(input_to_rgb8(buf), decode(input));
    }
}
