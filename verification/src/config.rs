//! The settings of a run, read from the words of a command line.
//!
//! The words are the program's name, the width of the image in pixels, the
//! number of samples per pixel, the largest depth of a light path and the name
//! of the file to write. The three numbers are written in decimal. The height
//! of the image follows from its width: an image is three wide for every two
//! high.

use vstd::prelude::*;
use vstd::string::*;
use crate::text::{digit_char, push_decimal, spec_decimal};

verus! {

/// The smallest width of an image, in pixels.
pub const MIN_WIDTH: u32 = 100;

/// The settings of a run.
#[derive(Clone, Debug, PartialEq, Eq)]
pub struct ImageArgs {
    /// The width of the image in pixels, at least [`MIN_WIDTH`].
    pub width: u32,
    /// The height of the image in pixels: the height that goes with the
    /// width, see [`image_height`].
    pub height: u32,
    /// The number of samples per pixel, at least 1.
    pub samples: u32,
    /// The largest depth of a light path, at least 1.
    pub max_depth: u32,
    /// The name of the file to write, without its extension.
    pub filename: String,
}

/// Why a command line gives no settings.
#[derive(Clone, Debug, PartialEq, Eq)]
pub enum ArgsError {
    /// The command line asks for the usage text.
    Help,
    /// Fewer than four words follow the program's name; `received` is their
    /// number.
    TooFewArguments { received: usize },
    /// One of the three numbers is not a decimal number that fits in 32 bits;
    /// `text` is the word as it was given.
    NotAnInteger { text: String },
    /// The width is below [`MIN_WIDTH`].
    WidthTooSmall,
    /// The number of samples is zero.
    NoSamples,
    /// The largest depth is zero.
    NoDepth,
}

/// Whether `c` is one of the ten decimal digits.
pub open spec fn is_digit(c: char) -> bool {
    '0' <= c <= '9'
}

/// The number that the digit `c` stands for.
pub open spec fn digit_value(c: char) -> int {
    c as int - '0' as int
}

/// Whether `text` is made of decimal digits only.
pub open spec fn all_digits(text: Seq<char>) -> bool {
    forall|i: int| 0 <= i < text.len() ==> is_digit(#[trigger] text[i])
}

/// The number that a run of decimal digits stands for; 0 for the empty run.
pub open spec fn digits_value(text: Seq<char>) -> nat
    decreases text.len(),
{
    if text.len() == 0 {
        0
    } else {
        (digits_value(text.drop_last()) * 10 + digit_value(text.last())) as nat
    }
}

/// The digits of a number word: the word without its plus sign, if it starts
/// with one.
pub open spec fn unsigned_part(text: Seq<char>) -> Seq<char> {
    if text.len() > 0 && text[0] == '+' {
        text.drop_first()
    } else {
        text
    }
}

/// The number that `text` stands for: `text` is one or more decimal digits,
/// a plus sign may stand before them, and their value fits in 32 bits.
/// Otherwise `None`.
pub open spec fn spec_parse_u32(text: Seq<char>) -> Option<u32> {
    let digits = unsigned_part(text);
    if digits.len() > 0 && all_digits(digits) && digits_value(digits) <= u32::MAX {
        Some(digits_value(digits) as u32)
    } else {
        None
    }
}

/// The step between neighbouring single-precision numbers at the size of the
/// whole number `n`: 1 below 2 to the power of 24, where every whole number is
/// such a number, and doubled with each doubling of `n` from there on.
pub open spec fn spec_step(n: nat) -> nat {
    if n < 0x100_0000 {
        1
    } else if n < 0x200_0000 {
        2
    } else if n < 0x400_0000 {
        4
    } else if n < 0x800_0000 {
        8
    } else if n < 0x1000_0000 {
        16
    } else if n < 0x2000_0000 {
        32
    } else if n < 0x4000_0000 {
        64
    } else if n < 0x8000_0000 {
        128
    } else if n < 0x1_0000_0000 {
        256
    } else {
        512
    }
}

/// The whole number nearest to `n` over `d`; of two that are equally near,
/// the even one.
pub open spec fn spec_round_half_even(n: nat, d: nat) -> nat {
    let quotient = n / d;
    let rest = n % d;
    if 2 * rest < d {
        quotient
    } else if 2 * rest > d {
        quotient + 1
    } else if quotient % 2 == 0 {
        quotient
    } else {
        quotient + 1
    }
}

/// The single-precision number nearest to the whole number `n`: `n` rounded
/// to a multiple of the step at its size.
pub open spec fn spec_nearest_single(n: nat) -> nat {
    spec_round_half_even(n, spec_step(n)) * spec_step(n)
}

/// The height of an image three wide for every two high, as single-precision
/// arithmetic gives it: the width is taken as the nearest single-precision
/// number, divided by one and a half with the quotient rounded to the nearest
/// single-precision number, and what stands behind the point is dropped.
///
/// A quotient below 2 to the power of 23 is rounded by less than it lacks to
/// the next whole number, so there the height is two thirds of the width,
/// rounded down. From there on the quotient is rounded to a multiple of the
/// step at its size.
pub open spec fn spec_height(width: u32) -> nat {
    let single = spec_nearest_single(width as nat);
    let floor = 2 * single / 3;
    if floor < 0x80_0000 {
        floor
    } else {
        spec_round_half_even(2 * single, 3 * spec_step(floor)) * spec_step(floor)
    }
}

/// The word that asks for the usage text.
pub open spec fn help_word() -> Seq<char> {
    seq!['h', 'e', 'l', 'p']
}

/// What the words of a command line give: the settings, or the reason why
/// there are none. The number of words is checked first, then the three
/// numbers are read in order, then their sizes are checked in order.
pub open spec fn spec_parse_args(args: Seq<String>) -> Result<ImageArgs, ArgsError> {
    if args.len() < 5 {
        if args.len() > 1 && args[1]@ == help_word() {
            Err(ArgsError::Help)
        } else {
            Err(ArgsError::TooFewArguments { received: (args.len() - 1) as usize })
        }
    } else {
        match (spec_parse_u32(args[1]@), spec_parse_u32(args[2]@), spec_parse_u32(args[3]@)) {
            (None, _, _) => Err(ArgsError::NotAnInteger { text: args[1] }),
            (Some(_), None, _) => Err(ArgsError::NotAnInteger { text: args[2] }),
            (Some(_), Some(_), None) => Err(ArgsError::NotAnInteger { text: args[3] }),
            (Some(width), Some(samples), Some(max_depth)) => if width < MIN_WIDTH {
                Err(ArgsError::WidthTooSmall)
            } else if samples < 1 {
                Err(ArgsError::NoSamples)
            } else if max_depth < 1 {
                Err(ArgsError::NoDepth)
            } else {
                Ok(
                    ImageArgs {
                        width,
                        height: spec_height(width) as u32,
                        samples,
                        max_depth,
                        filename: args[4],
                    },
                )
            },
        }
    }
}

/// A run of digits is worth at least as much as any run it starts with.
proof fn lemma_value_grows(text: Seq<char>, k: int)
    requires
        all_digits(text),
        0 <= k <= text.len(),
    ensures
        digits_value(text.take(k)) <= digits_value(text),
    decreases text.len() - k,
{
    if k < text.len() {
        assert(text.take(k + 1).drop_last() =~= text.take(k));
        lemma_value_grows(text, k + 1);
    } else {
        assert(text.take(k) =~= text);
    }
}

/// Reads a number word: one or more decimal digits, with or without a plus
/// sign before them, whose value fits in 32 bits.
pub fn parse_u32(text: &str) -> (number: Option<u32>)
    ensures
        number == spec_parse_u32(text@),
{
    if !text.is_ascii() {
        proof {
            let i = choose|i: int| 0 <= i < text@.len() && !('\0' <= #[trigger] text@[i] <= '\u{7f}');
            let digits = unsigned_part(text@);
            if text@[0] == '+' {
                assert(digits[i - 1] == text@[i]);
            }
        }
        return None;
    }
    let n = text.unicode_len();
    let mut k: usize = 0;
    if n > 0 && text.get_ascii(0) == 43 {
        k = 1;
    }
    let start = k;
    let ghost digits = unsigned_part(text@);
    if k == n {
        return None;
    }
    let mut value: u64 = 0;
    while k < n
        invariant
            start <= k <= n,
            n == text@.len(),
            text.is_ascii(),
            digits == text@.subrange(start as int, n as int),
            digits == unsigned_part(text@),
            all_digits(digits.take(k - start)),
            value == digits_value(digits.take(k - start)),
            value <= u32::MAX,
        decreases n - k,
    {
        let byte = text.get_ascii(k);
        if byte < 48 || byte > 57 {
            assert(!is_digit(digits[k - start]));
            return None;
        }
        let ghost longer = digits.take(k - start + 1);
        assert(longer.drop_last() =~= digits.take(k - start));
        value = value * 10 + (byte - 48) as u64;
        if value > 0xffff_ffff {
            proof {
                if all_digits(digits) {
                    lemma_value_grows(digits, k - start + 1);
                }
            }
            return None;
        }
        k += 1;
    }
    assert(digits.take(k - start) =~= digits);
    Some(value as u32)
}

/// The step between neighbouring single-precision numbers at the size of `n`.
fn step_of(n: u64) -> (step: u64)
    ensures
        step == spec_step(n as nat),
        1 <= step <= 512,
{
    if n < 0x100_0000 {
        1
    } else if n < 0x200_0000 {
        2
    } else if n < 0x400_0000 {
        4
    } else if n < 0x800_0000 {
        8
    } else if n < 0x1000_0000 {
        16
    } else if n < 0x2000_0000 {
        32
    } else if n < 0x4000_0000 {
        64
    } else if n < 0x8000_0000 {
        128
    } else if n < 0x1_0000_0000 {
        256
    } else {
        512
    }
}

/// The whole number nearest to `n` over `d`; of two that are equally near,
/// the even one.
fn round_half_even(n: u64, d: u64) -> (rounded: u64)
    requires
        0 < d <= 0x1000,
        n <= 0x4_0000_0000,
    ensures
        rounded == spec_round_half_even(n as nat, d as nat),
        rounded * d <= n + d,
        n <= rounded * d + d,
{
    let quotient = n / d;
    let rest = n % d;
    assert(n == quotient * d + rest && (quotient + 1) * d == quotient * d + d) by (nonlinear_arith)
        requires
            quotient == n / d,
            rest == n % d,
            d > 0,
    ;
    if 2 * rest < d {
        quotient
    } else if 2 * rest > d {
        quotient + 1
    } else if quotient % 2 == 0 {
        quotient
    } else {
        quotient + 1
    }
}

/// The height that goes with a width, for an image three wide for every two
/// high: the width over one and a half, in single-precision arithmetic, without
/// what stands behind the point. Up to a width of some twelve million that is
/// two thirds of the width, rounded down.
pub fn image_height(width: u32) -> (height: u32)
    ensures
        height == spec_height(width),
        width < 12_582_912 ==> height == 2 * width / 3,
        height <= width,
{
    proof {
        lemma_height_follows_width(width);
    }
    let n = width as u64;
    let step = step_of(n);
    let rounded = round_half_even(n, step);
    assert(rounded * step <= 0x1_0000_0200) by (nonlinear_arith)
        requires
            rounded * step <= n + step,
            n < 0x1_0000_0000,
            step <= 512,
    ;
    let single = rounded * step;
    assert(width < 0x100_0000 ==> single == n) by (nonlinear_arith)
        requires
            width < 0x100_0000 ==> step == 1,
            rounded * step <= n + step,
            n <= rounded * step + step,
            single == rounded * step,
            rounded == spec_round_half_even(n as nat, step as nat),
    ;
    let floor = 2 * single / 3;
    if floor < 0x80_0000 {
        return floor as u32;
    }
    let unit = step_of(floor);
    let quotient = round_half_even(2 * single, 3 * unit);
    assert(quotient * unit <= 0xffff_ffff) by (nonlinear_arith)
        requires
            quotient * (3 * unit) <= 2 * single + 3 * unit,
            single <= 0x1_0000_0200,
            1 <= unit <= 256,
    ;
    (quotient * unit) as u32
}

/// Whether `word` asks for the usage text.
fn is_help(word: &String) -> (asked: bool)
    ensures
        asked == (word@ == help_word()),
{
    proof {
        reveal_strlit("help");
    }
    let help = String::from_str("help");
    assert(help@ =~= help_word());
    *word == help
}

/// Reads the settings of a run from the words of a command line, the
/// program's name first. Words after the fifth are not looked at.
pub fn parse_args(args: &Vec<String>) -> (parsed: Result<ImageArgs, ArgsError>)
    requires
        args.len() >= 1,
    ensures
        parsed == spec_parse_args(args@),
        parsed matches Ok(settings) ==> settings.width >= MIN_WIDTH && settings.samples >= 1
            && settings.max_depth >= 1 && settings.filename == args@[4] && settings.height
            == spec_height(settings.width),
{
    if args.len() < 5 {
        if args.len() > 1 && is_help(&args[1]) {
            return Err(ArgsError::Help);
        }
        return Err(ArgsError::TooFewArguments { received: args.len() - 1 });
    }
    let width = match parse_u32(args[1].as_str()) {
        Some(number) => number,
        None => {
            return Err(ArgsError::NotAnInteger { text: args[1].clone() });
        },
    };
    let samples = match parse_u32(args[2].as_str()) {
        Some(number) => number,
        None => {
            return Err(ArgsError::NotAnInteger { text: args[2].clone() });
        },
    };
    let max_depth = match parse_u32(args[3].as_str()) {
        Some(number) => number,
        None => {
            return Err(ArgsError::NotAnInteger { text: args[3].clone() });
        },
    };
    if width < MIN_WIDTH {
        return Err(ArgsError::WidthTooSmall);
    }
    if samples < 1 {
        return Err(ArgsError::NoSamples);
    }
    if max_depth < 1 {
        return Err(ArgsError::NoDepth);
    }
    Ok(
        ImageArgs {
            width,
            height: image_height(width),
            samples,
            max_depth,
            filename: args[4].clone(),
        },
    )
}

/// The line that tells how the program is called.
pub fn usage() -> (line: String)
    ensures
        line@ == "expected usage: rust_ray_trace <image width> <samples> <maximum depth> <filename>"@,
{
    String::from_str(
        "expected usage: rust_ray_trace <image width> <samples> <maximum depth> <filename>",
    )
}

impl ArgsError {
    /// The status with which the program ends: 0 where the usage text was
    /// asked for, 1 for a command line that is wrong.
    pub open spec fn spec_exit_code(&self) -> i32 {
        if self is Help {
            0
        } else {
            1
        }
    }

    /// The complaint about a wrong command line; `None` where the usage text
    /// was asked for, which is no fault.
    pub open spec fn spec_message(&self) -> Option<Seq<char>> {
        match self {
            ArgsError::Help => None,
            ArgsError::TooFewArguments { received } => Some(
                "Error parsing arguments: Expected 4 arguments, received "@ + spec_decimal(
                    *received as nat,
                ),
            ),
            ArgsError::NotAnInteger { text } => Some(
                "Error parsing arguments: Expected a positive integer, received \""@ + text@
                    + "\""@,
            ),
            ArgsError::WidthTooSmall => Some(
                "Error parsing arguments: image width should be at least 100 pixels"@,
            ),
            ArgsError::NoSamples => Some(
                "Error parsing arguments: samples should be at least 1"@,
            ),
            ArgsError::NoDepth => Some(
                "Error parsing arguments: maximum depth should be at least 1"@,
            ),
        }
    }

    /// The status with which the program ends.
    #[verifier::when_used_as_spec(spec_exit_code)]
    pub fn exit_code(&self) -> (code: i32)
        ensures
            code == self.spec_exit_code(),
    {
        match self {
            ArgsError::Help => 0,
            _ => 1,
        }
    }

    /// The complaint about a wrong command line, without a line feed.
    pub fn message(&self) -> (line: Option<String>)
        ensures
            match line {
                Some(text) => self.spec_message() == Some(text@),
                None => self.spec_message() is None,
            },
    {
        match self {
            ArgsError::Help => None,
            ArgsError::TooFewArguments { received } => {
                let mut text = String::from_str(
                    "Error parsing arguments: Expected 4 arguments, received ",
                );
                push_decimal(&mut text, *received as u64);
                Some(text)
            },
            ArgsError::NotAnInteger { text: word } => {
                let mut text = String::from_str(
                    "Error parsing arguments: Expected a positive integer, received \"",
                );
                text.append(word.as_str());
                text.append("\"");
                Some(text)
            },
            ArgsError::WidthTooSmall => Some(
                String::from_str(
                    "Error parsing arguments: image width should be at least 100 pixels",
                ),
            ),
            ArgsError::NoSamples => Some(
                String::from_str("Error parsing arguments: samples should be at least 1"),
            ),
            ArgsError::NoDepth => Some(
                String::from_str("Error parsing arguments: maximum depth should be at least 1"),
            ),
        }
    }
}

/// The decimal notation of a number is made of digits that are worth the
/// number.
pub proof fn lemma_decimal_digits(n: nat)
    ensures
        spec_decimal(n).len() > 0,
        all_digits(spec_decimal(n)),
        digits_value(spec_decimal(n)) == n,
    decreases n,
{
    if n < 10 {
        assert(digits_value(spec_decimal(n).drop_last()) == 0);
    } else {
        lemma_decimal_digits(n / 10);
        assert(spec_decimal(n).drop_last() =~= spec_decimal(n / 10));
    }
}

/// Reading gives back what writing wrote: the decimal notation of a number
/// that fits in 32 bits is read as that number.
pub proof fn lemma_parse_reads_decimal(n: u32)
    ensures
        spec_parse_u32(spec_decimal(n as nat)) == Some(n),
{
    lemma_decimal_digits(n as nat);
}

/// Up to a width of 12,582,911 the height is two thirds of the width, rounded
/// down: three times the height is then at most twice the width, and the
/// height is at most the width.
pub proof fn lemma_height_is_two_thirds(width: u32)
    requires
        width < 12_582_912,
    ensures
        spec_height(width) == 2 * width / 3,
        3 * spec_height(width) <= 2 * width,
        spec_height(width) <= width,
{
}

/// Rounding moves a quotient by less than one: the rounded quotient times the
/// divisor lies within one divisor of the number divided.
proof fn lemma_rounding_is_near(n: nat, d: nat)
    requires
        d > 0,
    ensures
        spec_round_half_even(n, d) * d <= n + d,
        n <= spec_round_half_even(n, d) * d + d,
{
    let quotient = n / d;
    let rest = n % d;
    assert(n == quotient * d + rest && (quotient + 1) * d == quotient * d + d && 0 <= rest < d)
        by (nonlinear_arith)
        requires
            quotient == n / d,
            rest == n % d,
            d > 0,
    ;
}

/// Whatever the width, the height is at most the width, and three times the
/// height differs from twice the width by less than a thousandth of the width
/// plus three.
pub proof fn lemma_height_follows_width(width: u32)
    ensures
        spec_height(width) <= width,
        2 * width - 3 - width / 1000 < 3 * spec_height(width) < 2 * width + 3 + width / 1000,
{
    if width < 12_582_912 {
        lemma_height_is_two_thirds(width);
    } else {
        let n = width as nat;
        let step = spec_step(n);
        let single = spec_nearest_single(n);
        lemma_rounding_is_near(n, step);
        let floor = 2 * single / 3;
        let unit = spec_step(floor);
        lemma_rounding_is_near(2 * single, 3 * unit);
        let quotient = spec_round_half_even(2 * single, 3 * unit);
        assert(quotient * (3 * unit) == 3 * (quotient * unit)) by (nonlinear_arith);
    }
}

/// The smallest image is 100 wide and 66 high.
pub proof fn lemma_smallest_image()
    ensures
        spec_height(MIN_WIDTH) == 66,
{
    lemma_height_is_two_thirds(MIN_WIDTH);
}

} // verus!
