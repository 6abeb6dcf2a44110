//! A finished pixel: from brightness to channel values, and from channel
//! values to text.
//!
//! A channel value is the brightness of the channel, held between zero and a
//! ceiling just below one, multiplied by 256 and rounded down. The brightness
//! is a single-precision number and comes in as its bits.

use vstd::prelude::*;
use vstd::string::*;
use vstd::arithmetic::div_mod::{lemma_basic_div, lemma_div_multiples_vanish_quotient};
use vstd::arithmetic::power2::{lemma2_to64, lemma_pow2_adds, lemma_pow2_pos, pow2};
use vstd::bits::lemma_u32_shr_is_div;
use crate::bits::{exponent, fraction, is_below, is_negative, is_number, magnitude, spec_size};
use crate::text::{push_decimal, spec_decimal};

verus! {

/// A finished pixel: red, green and blue, each from 0 to 255.
#[derive(Clone, Copy, Debug, PartialEq, Eq, Structural)]
pub struct Rgb {
    pub r: u8,
    pub g: u8,
    pub b: u8,
}

/// The bits of the largest brightness that a channel is scaled from: the
/// single-precision number nearest to 999 thousandths.
pub const CHANNEL_CEILING: u32 = 0x3f7f_be77;

/// The bits of the brightness that is scaled: the brightness itself, held at
/// zero from below and at the ceiling from above.
pub open spec fn spec_clamp(bits: u32) -> u32 {
    if is_negative(bits) {
        0
    } else if bits > CHANNEL_CEILING {
        CHANNEL_CEILING
    } else {
        bits
    }
}

/// The channel value of a brightness, given by its bits: the brightness is
/// held between zero and the ceiling, multiplied by 256 and rounded down. The
/// size of a number counts units of 2 to the power of -149, so 256 times the
/// number is its size over 2 to the power of 141. NaN gives 0.
pub open spec fn spec_quantize(bits: u32) -> int {
    if is_number(bits) {
        (spec_size(spec_clamp(bits)) / pow2(141)) as int
    } else {
        0
    }
}

/// The channel value as the bits give it: nothing below the exponent of one
/// 256th, else the leading bits of the fraction with its leading one.
proof fn lemma_quantize_by_fields(bits: u32)
    requires
        bits <= CHANNEL_CEILING,
    ensures
        spec_size(bits) / pow2(141) == if exponent(bits) < 119 {
            0
        } else {
            (0x80_0000 + fraction(bits)) / (pow2((142 - exponent(bits)) as nat) as int)
        },
        119 <= exponent(bits) ==> exponent(bits) <= 126 && (0x80_0000 + fraction(bits)) / (pow2(
            (142 - exponent(bits)) as nat,
        ) as int) <= 255,
        0 <= spec_size(bits) / pow2(141) <= 255,
{
    let e = exponent(bits);
    let m = 0x80_0000 + fraction(bits);
    lemma2_to64();
    lemma_pow2_pos(141);
    if e == 0 {
        lemma_pow2_adds(23, 118);
        lemma_pow2_pos(118);
        assert(pow2(23) <= pow2(141)) by (nonlinear_arith)
            requires
                pow2(141) == pow2(23) * pow2(118),
                pow2(118) > 0,
                pow2(23) > 0,
        ;
        lemma_basic_div(spec_size(bits) as int, pow2(141) as int);
    } else if e < 119 {
        let low = (e - 1) as nat;
        let rest = (118 - e) as nat;
        lemma_pow2_adds(24, low);
        lemma_pow2_adds((24 + low) as nat, rest);
        lemma_pow2_pos(low);
        lemma_pow2_pos(rest);
        assert(m * pow2(low) < pow2(141)) by (nonlinear_arith)
            requires
                0 <= m < pow2(24),
                pow2(141) == (pow2(24) * pow2(low)) * pow2(rest),
                pow2(low) > 0,
                pow2(rest) > 0,
        ;
        lemma_basic_div(spec_size(bits) as int, pow2(141) as int);
    } else {
        let low = (e - 1) as nat;
        let k = (142 - e) as nat;
        lemma_pow2_adds(low, k);
        lemma_pow2_pos(low);
        lemma_pow2_pos(k);
        lemma_div_multiples_vanish_quotient(pow2(low) as int, m, pow2(k) as int);
        assert(m * pow2(low) == pow2(low) * m) by (nonlinear_arith);
        lemma_pow2_adds(16, (k - 16) as nat);
        lemma_pow2_pos((k - 16) as nat);
        assert(0 <= m / (pow2(k) as int) <= 255) by (nonlinear_arith)
            requires
                0 <= m < 0x100_0000,
                pow2(k) == 0x1_0000 * pow2((k - 16) as nat),
                pow2((k - 16) as nat) > 0,
        ;
    }
}

/// The three channels of a pixel in decimal, red first, with one space between
/// two of them.
pub open spec fn spec_color_text(color: Rgb) -> Seq<char> {
    spec_decimal(color.r as nat) + seq![' '] + spec_decimal(color.g as nat) + seq![' ']
        + spec_decimal(color.b as nat)
}

/// The line of a pixel in an image: its three channels and a line feed.
pub open spec fn spec_format_color(color: Rgb) -> Seq<char> {
    spec_color_text(color) + seq!['\n']
}

/// The channel value of a brightness, given by its bits: from 0 for black to
/// 255 for the brightest. A brightness below zero counts as zero and one above
/// the ceiling as the ceiling, so that the value never leaves that range.
pub fn quantize(bits: u32) -> (channel: u8)
    ensures
        channel == spec_quantize(bits),
{
    if bits > 0x7f80_0000 {
        proof {
            if is_number(bits) {
                lemma_quantize_by_fields(0);
            }
        }
        return 0;
    }
    let held = if bits > CHANNEL_CEILING {
        CHANNEL_CEILING
    } else {
        bits
    };
    proof {
        lemma_quantize_by_fields(held);
    }
    let e = held / 0x80_0000;
    if e < 119 {
        return 0;
    }
    let m = 0x80_0000 + held % 0x80_0000;
    let k = 142 - e;
    proof {
        lemma_u32_shr_is_div(m, k);
    }
    (m >> k) as u8
}

impl Rgb {
    /// The pixel of the three brightnesses with the given bits, red first.
    pub fn from_bits(red: u32, green: u32, blue: u32) -> (color: Rgb)
        ensures
            color.r == spec_quantize(red),
            color.g == spec_quantize(green),
            color.b == spec_quantize(blue),
    {
        Rgb { r: quantize(red), g: quantize(green), b: quantize(blue) }
    }
}

/// Appends the three channels of `color` to `out`.
pub fn push_color(out: &mut String, color: &Rgb)
    ensures
        final(out)@ == old(out)@ + spec_color_text(*color),
{
    proof {
        reveal_strlit(" ");
    }
    push_decimal(out, color.r as u64);
    out.append(" ");
    push_decimal(out, color.g as u64);
    out.append(" ");
    push_decimal(out, color.b as u64);
}

/// The three channels of `color` as text, such as `255 0 64`.
pub fn color_text(color: &Rgb) -> (text: String)
    ensures
        text@ == spec_color_text(*color),
{
    let mut text = String::new();
    push_color(&mut text, color);
    text
}

/// The line of `color` in an image: its three channels and a line feed.
pub fn format_color(color: &Rgb) -> (line: String)
    ensures
        line@ == spec_format_color(*color),
{
    proof {
        reveal_strlit("\n");
    }
    let mut line = String::new();
    push_color(&mut line, color);
    line.append("\n");
    line
}

/// A channel value lies between 0 and 255, whatever the brightness.
pub proof fn lemma_quantize_in_range(bits: u32)
    ensures
        0 <= spec_quantize(bits) <= 255,
{
    if is_number(bits) {
        lemma_quantize_by_fields(spec_clamp(bits));
    }
}

/// The ends of the scale: a brightness of zero, with either sign, gives the
/// channel value 0, a brightness of one gives 255, and so does every number
/// above one, infinity included.
pub proof fn lemma_quantize_ends(bits: u32)
    ensures
        spec_quantize(0) == 0,
        spec_quantize(0x8000_0000) == 0,
        spec_quantize(0x3f80_0000) == 255,
        0x3f80_0000 <= bits <= 0x7f80_0000 ==> spec_quantize(bits) == 255,
{
    lemma2_to64();
    lemma_quantize_by_fields(0);
    lemma_quantize_by_fields(CHANNEL_CEILING);
    assert(0xff_be77int / 0x1_0000 == 255);
}

/// A brightness below zero gives the channel value 0.
pub proof fn lemma_quantize_below_zero(bits: u32)
    requires
        is_negative(bits),
    ensures
        spec_quantize(bits) == 0,
{
    lemma_quantize_by_fields(0);
}

/// The channel value grows with the brightness: of two numbers the smaller
/// never gets the larger channel value.
pub proof fn lemma_quantize_grows(darker: u32, brighter: u32)
    requires
        is_number(darker),
        is_number(brighter),
        is_below(darker, brighter),
    ensures
        spec_quantize(darker) <= spec_quantize(brighter),
{
    let a = spec_clamp(darker);
    let b = spec_clamp(brighter);
    lemma2_to64();
    lemma_quantize_by_fields(a);
    lemma_quantize_by_fields(b);
    let ea = exponent(a);
    let eb = exponent(b);
    let ma = 0x80_0000 + fraction(a);
    let mb = 0x80_0000 + fraction(b);
    if 119 <= ea {
        let ka = (142 - ea) as nat;
        let kb = (142 - eb) as nat;
        lemma_pow2_pos(ka);
        lemma_pow2_pos(kb);
        if ea == eb {
            assert(ma / (pow2(ka) as int) <= mb / (pow2(ka) as int)) by (nonlinear_arith)
                requires
                    0 <= ma <= mb,
                    pow2(ka) > 0,
            ;
        } else {
            lemma_pow2_adds(kb, (ka - kb) as nat);
            lemma_pow2_adds(1, (ka - kb - 1) as nat);
            lemma_pow2_pos((ka - kb - 1) as nat);
            assert(ma / (pow2(ka) as int) <= mb / (pow2(kb) as int)) by (nonlinear_arith)
                requires
                    0x80_0000 <= ma < 0x100_0000,
                    0x80_0000 <= mb < 0x100_0000,
                    pow2(ka) == pow2(kb) * pow2((ka - kb) as nat),
                    pow2((ka - kb) as nat) == 2 * pow2((ka - kb - 1) as nat),
                    pow2((ka - kb - 1) as nat) > 0,
                    pow2(kb) > 0,
            ;
        }
    }
}

} // verus!
