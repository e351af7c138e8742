use serial_rgb::color::{Color, DecodeError};
use serial_rgb::command::{step, Action, Event, LoopState};
use serial_rgb::driver::{Line, RESET_NS};
use serial_rgb::waveform::{decode_symbols, encode_frame, symbol_for, Symbol};

fn bits_of(symbols: &[Symbol]) -> Vec<bool> {
    symbols.iter().map(|s| s.high_ns > s.low_ns).collect()
}

#[test]
fn symbol_timings() {
    assert_eq!(symbol_for(false), Symbol { high_ns: 400, low_ns: 850 });
    assert_eq!(symbol_for(true), Symbol { high_ns: 850, low_ns: 400 });
}

#[test]
fn frame_is_msb_first_red_green_blue() {
    let frame = encode_frame(&[Color { r: 0x80, g: 0x01, b: 0xa5 }]);
    assert_eq!(frame.len(), 24);
    let mut expected = vec![true, false, false, false, false, false, false, false];
    expected.extend([false, false, false, false, false, false, false, true]);
    expected.extend([true, false, true, false, false, true, false, true]);
    assert_eq!(bits_of(&frame), expected);
}

#[test]
fn command_digits_reach_the_line_in_order() {
    let c = serial_rgb::decode::decode(b"1A2b3C").unwrap();
    let frame = encode_frame(&[c]);
    let mut expected = Vec::new();
    for digit in [0x1u8, 0xa, 0x2, 0xb, 0x3, 0xc] {
        for t in 0..4 {
            expected.push((digit >> (3 - t)) & 1 == 1);
        }
    }
    assert_eq!(bits_of(&frame), expected);
    assert_eq!(decode_symbols(&frame), Some(c));
}

#[test]
fn empty_frame() {
    assert!(encode_frame(&[]).is_empty());
}

#[test]
fn round_trip_single() {
    for c in [
        Color { r: 255, g: 0, b: 0 },
        Color { r: 0, g: 255, b: 0 },
        Color { r: 0, g: 0, b: 255 },
        Color { r: 0x12, g: 0x34, b: 0x56 },
    ] {
        let frame = encode_frame(&[c]);
        assert_eq!(decode_symbols(&frame), Some(c));
    }
}

#[test]
fn round_trip_sequence() {
    let colors = [Color { r: 1, g: 2, b: 3 }, Color { r: 254, g: 128, b: 7 }];
    let frame = encode_frame(&colors);
    assert_eq!(frame.len(), 48);
    assert_eq!(decode_symbols(&frame[0..24]), Some(colors[0]));
    assert_eq!(decode_symbols(&frame[24..48]), Some(colors[1]));
}

#[test]
fn capture_of_wrong_size() {
    let frame = encode_frame(&[Color { r: 1, g: 2, b: 3 }]);
    assert_eq!(decode_symbols(&frame[0..23]), None);
    assert_eq!(decode_symbols(&[]), None);
}

#[test]
fn capture_with_jitter() {
    let mut frame = encode_frame(&[Color { r: 0xf0, g: 0x0f, b: 0x55 }]);
    for s in frame.iter_mut() {
        s.high_ns += 100;
        s.low_ns -= 50;
    }
    assert_eq!(decode_symbols(&frame), Some(Color { r: 0xf0, g: 0x0f, b: 0x55 }));
}

#[test]
fn first_render_starts_at_once() {
    let mut line = Line::new();
    let slot = line.schedule(1000, 1);
    assert_eq!(slot.start_ns, 1000);
    assert_eq!(slot.end_ns, 1000 + 30_000);
    assert_eq!(slot.latched_ns, 1000 + 30_000 + RESET_NS);
    assert_eq!(line.last_end_ns, Some(31_000));
}

#[test]
fn consecutive_renders_wait_for_reset() {
    let mut line = Line::new();
    let first = line.schedule(0, 1);
    let second = line.schedule(first.end_ns + 10, 1);
    assert_eq!(second.start_ns, first.end_ns + RESET_NS);
    assert!(second.start_ns >= first.latched_ns);
    assert_eq!(second.end_ns, second.start_ns + 30_000);
}

#[test]
fn late_render_does_not_wait() {
    let mut line = Line::new();
    let first = line.schedule(0, 1);
    let second = line.schedule(first.latched_ns + 5, 2);
    assert_eq!(second.start_ns, first.latched_ns + 5);
    assert_eq!(second.end_ns, second.start_ns + 60_000);
}

#[test]
fn loop_renders_valid_command() {
    let r = step(LoopState::WaitingForInput, &Event::Received(b"ff0000".to_vec()));
    assert_eq!(r, (LoopState::Processing, Action::Render(Color { r: 255, g: 0, b: 0 })));
    assert_eq!(step(LoopState::Processing, &Event::Rendered), (LoopState::WaitingForInput, Action::ReadNext));
}

#[test]
fn loop_diagnoses_bad_digit() {
    let r = step(LoopState::WaitingForInput, &Event::Received(b"zz0000".to_vec()));
    assert_eq!(r, (LoopState::Processing, Action::Diagnose(DecodeError::InvalidDigit)));
    assert_eq!(
        step(LoopState::Processing, &Event::DiagnosticDone),
        (LoopState::WaitingForInput, Action::ReadNext)
    );
}

#[test]
fn loop_diagnoses_short_read() {
    let r = step(LoopState::WaitingForInput, &Event::Received(b"ff00".to_vec()));
    assert_eq!(r, (LoopState::Processing, Action::Diagnose(DecodeError::WrongLength)));
}

#[test]
fn loop_ignores_empty_read() {
    let r = step(LoopState::WaitingForInput, &Event::Received(Vec::new()));
    assert_eq!(r, (LoopState::WaitingForInput, Action::ReadNext));
}

#[test]
fn loop_survives_failures() {
    assert_eq!(
        step(LoopState::Processing, &Event::RenderFailed),
        (LoopState::WaitingForInput, Action::ReportRenderFailure)
    );
    assert_eq!(
        step(LoopState::Processing, &Event::TransportLost),
        (LoopState::WaitingForInput, Action::AwaitConnection)
    );
    assert_eq!(
        step(LoopState::WaitingForInput, &Event::TransportLost),
        (LoopState::WaitingForInput, Action::AwaitConnection)
    );
}
