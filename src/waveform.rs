use vstd::prelude::*;
use vstd::arithmetic::power2::{lemma2_to64, lemma_pow2_unfold, pow2};
use crate::color::Color;
use crate::decode::{decode_spec, lemma_pair_digits, COMMAND_LEN};
use crate::hex::{all_hex, digit_value, is_hex_digit};

verus! {

/// High phase of a `0` symbol, in nanoseconds.
pub const T0H_NS: u32 = 400;

/// Low phase of a `0` symbol, in nanoseconds.
pub const T0L_NS: u32 = 850;

/// High phase of a `1` symbol, in nanoseconds.
pub const T1H_NS: u32 = 850;

/// Low phase of a `1` symbol, in nanoseconds.
pub const T1L_NS: u32 = 400;

/// Bits per color: eight for each of red, green and blue.
pub const BITS_PER_COLOR: usize = 24;

/// One bit on the line: the line is held high, then low.
#[derive(Clone, Copy, Debug, PartialEq, Eq, Structural)]
pub struct Symbol {
    pub high_ns: u32,
    pub low_ns: u32,
}

/// The symbol that carries `bit`: a long high phase for a `1`, a short one for a `0`.
pub open spec fn symbol_of(bit: bool) -> Symbol {
    if bit {
        Symbol { high_ns: T1H_NS, low_ns: T1L_NS }
    } else {
        Symbol { high_ns: T0H_NS, low_ns: T0L_NS }
    }
}

/// The bit that a captured symbol carries: `1` where the line stayed high longer than low.
pub open spec fn bit_of(s: Symbol) -> bool {
    s.high_ns > s.low_ns
}

/// The low `n` bits of `v`, most significant first.
pub open spec fn bits_msb(v: nat, n: nat) -> Seq<bool>
    decreases n,
{
    if n == 0 {
        Seq::empty()
    } else {
        bits_msb(v / 2, (n - 1) as nat).push(v % 2 == 1)
    }
}

/// The number that `bits` spell, most significant first.
pub open spec fn bits_value(bits: Seq<bool>) -> nat
    decreases bits.len(),
{
    if bits.len() == 0 {
        0
    } else {
        bits_value(bits.drop_last()) * 2 + if bits.last() { 1nat } else { 0nat }
    }
}

/// The 24 bits of a color: red, green, blue, each most significant bit first.
/// This is the order of the frame as this library builds and reads it;
/// WS2812 parts take green first on the wire, and a transmitter for them
/// sends the same three bytes in green, red, blue order.
pub open spec fn color_bits(c: Color) -> Seq<bool> {
    bits_msb(c.r as nat, 8) + bits_msb(c.g as nat, 8) + bits_msb(c.b as nat, 8)
}

/// The bits of a sequence of colors, one after the other.
pub open spec fn frame_bits(colors: Seq<Color>) -> Seq<bool>
    decreases colors.len(),
{
    if colors.len() == 0 {
        Seq::empty()
    } else {
        frame_bits(colors.drop_last()) + color_bits(colors.last())
    }
}

/// The symbols that carry `bits`.
pub open spec fn symbols_of(bits: Seq<bool>) -> Seq<Symbol> {
    bits.map_values(|b: bool| symbol_of(b))
}

/// The bits that captured symbols carry.
pub open spec fn bits_of(symbols: Seq<Symbol>) -> Seq<bool> {
    symbols.map_values(|s: Symbol| bit_of(s))
}

/// The color read back from 24 captured symbols.
pub open spec fn read_color(symbols: Seq<Symbol>) -> Color {
    Color {
        r: bits_value(bits_of(symbols.subrange(0, 8))) as u8,
        g: bits_value(bits_of(symbols.subrange(8, 16))) as u8,
        b: bits_value(bits_of(symbols.subrange(16, 24))) as u8,
    }
}

proof fn lemma_bits_msb_len(v: nat, n: nat)
    ensures
        bits_msb(v, n).len() == n,
    decreases n,
{
    if n > 0 {
        lemma_bits_msb_len(v / 2, (n - 1) as nat);
    }
}

/// Reading back the low `n` bits of a number below `2^n` gives the number.
proof fn lemma_bits_value_msb(v: nat, n: nat)
    requires
        v < pow2(n),
    ensures
        bits_value(bits_msb(v, n)) == v,
    decreases n,
{
    if n == 0 {
        lemma2_to64();
    } else {
        lemma_pow2_unfold(n);
        let h = v / 2;
        assert(h < pow2((n - 1) as nat));
        lemma_bits_value_msb(h, (n - 1) as nat);
        let s = bits_msb(v, n);
        assert(s.drop_last() =~= bits_msb(h, (n - 1) as nat));
    }
}

/// The symbol for one bit.
pub fn symbol_for(bit: bool) -> (s: Symbol)
    ensures
        s == symbol_of(bit),
{
    if bit {
        Symbol { high_ns: T1H_NS, low_ns: T1L_NS }
    } else {
        Symbol { high_ns: T0H_NS, low_ns: T0L_NS }
    }
}

/// Appends the symbols of the eight bits of `v`, most significant first.
fn push_channel(out: &mut Vec<Symbol>, v: u8)
    ensures
        final(out)@ == old(out)@ + symbols_of(bits_msb(v as nat, 8)),
{
    let mut bits = [false; 8];
    let mut x: u8 = v;
    let mut k: usize = 8;
    while k > 0
        invariant
            k <= 8,
            bits_msb(v as nat, 8) =~= bits_msb(x as nat, k as nat) + bits@.subrange(k as int, 8),
        decreases k,
    {
        let ghost before = bits@;
        let ghost x0 = x as nat;
        k = k - 1;
        bits[k] = x % 2 == 1;
        x = x / 2;
        assert(bits_msb(x0, (k + 1) as nat) == bits_msb(x as nat, k as nat).push(x0 % 2 == 1));
        assert(bits@.subrange(k as int, 8) =~= seq![x0 % 2 == 1] + before.subrange(k + 1, 8));
    }
    assert(bits@ =~= bits_msb(v as nat, 8));
    let ghost start = out@;
    let mut i: usize = 0;
    while i < 8
        invariant
            i <= 8,
            bits@ == bits_msb(v as nat, 8),
            out@ =~= start + symbols_of(bits@.subrange(0, i as int)),
        decreases 8 - i,
    {
        out.push(symbol_for(bits[i]));
        i = i + 1;
        assert(symbols_of(bits@.subrange(0, i as int)) =~= symbols_of(
            bits@.subrange(0, i - 1),
        ).push(symbol_of(bits@[i - 1])));
    }
    assert(bits@.subrange(0, 8) =~= bits@);
}

/// The symbols that carry `colors` to the line, 24 per color, in order,
/// each color red, green, blue (see `color_bits`).
pub fn encode_frame(colors: &[Color]) -> (out: Vec<Symbol>)
    ensures
        out@ == symbols_of(frame_bits(colors@)),
{
    let mut out: Vec<Symbol> = Vec::new();
    let mut i: usize = 0;
    while i < colors.len()
        invariant
            i <= colors@.len(),
            out@ =~= symbols_of(frame_bits(colors@.subrange(0, i as int))),
        decreases colors@.len() - i,
    {
        let c = colors[i];
        push_channel(&mut out, c.r);
        push_channel(&mut out, c.g);
        push_channel(&mut out, c.b);
        i = i + 1;
        let ghost done = colors@.subrange(0, i as int);
        assert(done.drop_last() =~= colors@.subrange(0, i - 1));
        assert(symbols_of(frame_bits(done)) =~= symbols_of(frame_bits(done.drop_last()))
            + symbols_of(bits_msb(c.r as nat, 8)) + symbols_of(bits_msb(c.g as nat, 8))
            + symbols_of(bits_msb(c.b as nat, 8)));
    }
    assert(colors@.subrange(0, colors@.len() as int) =~= colors@);
    out
}

/// Each bit survives being sent as a symbol and read back.
proof fn lemma_bits_of_symbols(bits: Seq<bool>)
    ensures
        bits_of(symbols_of(bits)) == bits,
{
    assert(bits_of(symbols_of(bits)) =~= bits);
}

/// The 24 bits of the color at `k` sit at `24 * k` in the bits of a sequence.
proof fn lemma_frame_window(colors: Seq<Color>, k: int)
    requires
        0 <= k < colors.len(),
    ensures
        frame_bits(colors).len() == 24 * colors.len(),
        frame_bits(colors).subrange(24 * k, 24 * k + 24) == color_bits(colors[k]),
    decreases colors.len(),
{
    let c = colors.last();
    lemma_bits_msb_len(c.r as nat, 8);
    lemma_bits_msb_len(c.g as nat, 8);
    lemma_bits_msb_len(c.b as nat, 8);
    let front = colors.drop_last();
    if k < colors.len() - 1 {
        lemma_frame_window(front, k);
        assert(frame_bits(colors).subrange(24 * k, 24 * k + 24) =~= frame_bits(front).subrange(
            24 * k,
            24 * k + 24,
        ));
    } else {
        if front.len() > 0 {
            lemma_frame_window(front, 0);
        }
        assert(frame_bits(colors).subrange(24 * k, 24 * k + 24) =~= color_bits(c));
    }
}

/// Sending a sequence of colors and reading the line back window by window
/// gives each color again: the 24 symbols at `24 * k` carry the color at `k`,
/// red, green and blue, most significant bit first.
pub proof fn lemma_round_trip(colors: Seq<Color>, k: int)
    requires
        0 <= k < colors.len(),
    ensures
        symbols_of(frame_bits(colors)).len() == 24 * colors.len(),
        read_color(symbols_of(frame_bits(colors)).subrange(24 * k, 24 * k + 24)) == colors[k],
{
    lemma_frame_window(colors, k);
    let c = colors[k];
    let window = symbols_of(frame_bits(colors)).subrange(24 * k, 24 * k + 24);
    assert(window =~= symbols_of(color_bits(c)));
    lemma_bits_msb_len(c.r as nat, 8);
    lemma_bits_msb_len(c.g as nat, 8);
    lemma_bits_msb_len(c.b as nat, 8);
    assert(window.subrange(0, 8) =~= symbols_of(bits_msb(c.r as nat, 8)));
    assert(window.subrange(8, 16) =~= symbols_of(bits_msb(c.g as nat, 8)));
    assert(window.subrange(16, 24) =~= symbols_of(bits_msb(c.b as nat, 8)));
    lemma_bits_of_symbols(bits_msb(c.r as nat, 8));
    lemma_bits_of_symbols(bits_msb(c.g as nat, 8));
    lemma_bits_of_symbols(bits_msb(c.b as nat, 8));
    lemma2_to64();
    lemma_bits_value_msb(c.r as nat, 8);
    lemma_bits_value_msb(c.g as nat, 8);
    lemma_bits_value_msb(c.b as nat, 8);
}

/// The bits of `a * 2^k + b`, for `b` below `2^k`, are those of `a`
/// followed by the `k` bits of `b`.
proof fn lemma_bits_split(a: nat, b: nat, n: nat, k: nat)
    requires
        b < pow2(k),
    ensures
        bits_msb(a * pow2(k) + b, n + k) == bits_msb(a, n) + bits_msb(b, k),
    decreases k,
{
    if k == 0 {
        lemma2_to64();
        assert(pow2(k) == 1);
        assert(a * pow2(k) == a) by (nonlinear_arith)
            requires
                pow2(k) == 1,
        ;
        assert(bits_msb(a, n) + bits_msb(b, k) =~= bits_msb(a, n));
    } else {
        lemma_pow2_unfold(k);
        let p = pow2((k - 1) as nat);
        assert(a * pow2(k) == 2 * (a * p)) by (nonlinear_arith)
            requires
                pow2(k) == 2 * p,
        ;
        let v = a * pow2(k) + b;
        assert(v / 2 == a * p + b / 2);
        assert(v % 2 == b % 2);
        lemma_bits_split(a, b / 2, n, (k - 1) as nat);
        assert(((n + k) - 1) as nat == n + (k - 1) as nat);
        assert(bits_msb(v, n + k) == bits_msb(v / 2, (n + (k - 1)) as nat).push(v % 2 == 1));
        assert(bits_msb(b, k) == bits_msb(b / 2, (k - 1) as nat).push(b % 2 == 1));
        assert(bits_msb(v, n + k) =~= bits_msb(a, n) + bits_msb(b, k));
    }
}

/// The eight bits of the channel spelled by the digit pair at `start`.
proof fn lemma_pair_bits(s: Seq<u8>, start: int)
    requires
        0 <= start,
        start + 2 <= s.len(),
        is_hex_digit(s[start]),
        is_hex_digit(s[start + 1]),
    ensures
        bits_msb((crate::decode::pair_value(s, start)) as nat, 8) == bits_msb(
            digit_value(s[start]),
            4,
        ) + bits_msb(digit_value(s[start + 1]), 4),
{
    lemma_pair_digits(s, start);
    lemma2_to64();
    lemma_bits_split(digit_value(s[start]), digit_value(s[start + 1]), 4, 4);
}

/// A valid command reaches the line digit by digit: the 24 bits sent for it
/// are the four bits of each of its six hexadecimal digits, in the order of
/// the command and most significant first, and reading those symbols back
/// gives the decoded color again.
pub proof fn lemma_command_on_line(s: Seq<u8>)
    requires
        s.len() == COMMAND_LEN,
        all_hex(s),
    ensures
        decode_spec(s) is Ok,
        frame_bits(seq![decode_spec(s)->Ok_0]) == bits_msb(digit_value(s[0]), 4) + bits_msb(
            digit_value(s[1]),
            4,
        ) + bits_msb(digit_value(s[2]), 4) + bits_msb(digit_value(s[3]), 4) + bits_msb(
            digit_value(s[4]),
            4,
        ) + bits_msb(digit_value(s[5]), 4),
        read_color(symbols_of(frame_bits(seq![decode_spec(s)->Ok_0]))) == decode_spec(s)->Ok_0,
{
    assert(is_hex_digit(s[0]) && is_hex_digit(s[1]) && is_hex_digit(s[2]));
    assert(is_hex_digit(s[3]) && is_hex_digit(s[4]) && is_hex_digit(s[5]));
    let c = decode_spec(s)->Ok_0;
    let colors = seq![c];
    assert(colors.drop_last() =~= Seq::<Color>::empty());
    assert(colors.last() == c);
    assert(frame_bits(colors.drop_last()) == Seq::<bool>::empty());
    assert(frame_bits(colors) =~= color_bits(c));
    lemma_pair_bits(s, 0);
    lemma_pair_bits(s, 2);
    lemma_pair_bits(s, 4);
    assert(frame_bits(colors) =~= bits_msb(digit_value(s[0]), 4) + bits_msb(digit_value(s[1]), 4)
        + bits_msb(digit_value(s[2]), 4) + bits_msb(digit_value(s[3]), 4) + bits_msb(
        digit_value(s[4]),
        4,
    ) + bits_msb(digit_value(s[5]), 4));
    lemma_round_trip(colors, 0);
    assert(symbols_of(frame_bits(colors)).subrange(0, 24) =~= symbols_of(frame_bits(colors)));
}

/// The byte carried by the eight symbols at `start`.
fn read_channel(symbols: &[Symbol], start: usize) -> (r: u8)
    requires
        start + 8 <= symbols@.len(),
    ensures
        r == bits_value(bits_of(symbols@.subrange(start as int, start + 8))) as u8,
{
    let n = symbols.len();
    let mut acc: u32 = 0;
    let mut k: usize = 0;
    proof {
        lemma2_to64();
    }
    while k < 8
        invariant
            k <= 8,
            n == symbols@.len(),
            start + 8 <= n,
            acc as nat == bits_value(bits_of(symbols@.subrange(start as int, start + k))),
            acc < pow2(k as nat),
        decreases 8 - k,
    {
        let ghost prev = bits_of(symbols@.subrange(start as int, start + k));
        let s = symbols[start + k];
        let bit: u32 = if s.high_ns > s.low_ns {
            1
        } else {
            0
        };
        proof {
            lemma2_to64();
            lemma_pow2_unfold((k + 1) as nat);
        }
        acc = acc * 2 + bit;
        k = k + 1;
        assert(bits_of(symbols@.subrange(start as int, start + k)).drop_last() =~= prev);
    }
    proof {
        lemma2_to64();
    }
    acc as u8
}

/// Reads a color back from the 24 symbols captured for it; `None` for any
/// other count of symbols.
pub fn decode_symbols(symbols: &[Symbol]) -> (r: Option<Color>)
    ensures
        symbols@.len() == BITS_PER_COLOR ==> r == Some(read_color(symbols@)),
        symbols@.len() != BITS_PER_COLOR ==> r is None,
{
    if symbols.len() != BITS_PER_COLOR {
        return None;
    }
    Some(
        Color {
            r: read_channel(symbols, 0),
            g: read_channel(symbols, 8),
            b: read_channel(symbols, 16),
        },
    )
}

} // verus!
