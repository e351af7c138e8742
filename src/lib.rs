//! Decoding of six-digit hexadecimal color commands and encoding of colors
//! into the timed pulse frames of a single-wire addressable RGB LED.

pub mod color;
pub mod hex;
pub mod decode;
pub mod prefixed;
pub mod waveform;
pub mod driver;
pub mod command;
