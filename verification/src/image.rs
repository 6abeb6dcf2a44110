//! The finished image as text: a header, then one line per pixel.
//!
//! Rows are counted from the bottom of the picture and written from the top:
//! the first line after the header is the pixel of row `height - 1`, column 0.
//! Within a row the columns run from left to right.

use vstd::prelude::*;
use vstd::string::*;
use crate::color::{push_color, spec_format_color, Rgb};
use crate::text::{push_decimal, spec_decimal};

verus! {

/// The place of a pixel in the picture: its row, counted from the bottom, and
/// its column, counted from the left.
#[derive(Clone, Copy, Debug, PartialEq, Eq, Structural)]
pub struct Pixel {
    pub row: u32,
    pub column: u32,
}

/// Whether `pixel` lies in a picture of the given size.
pub open spec fn in_frame(pixel: Pixel, width: u32, height: u32) -> bool {
    pixel.row < height && pixel.column < width
}

/// The place in the written order, from 0, of the pixel at `row` and `column`.
pub open spec fn spec_position(pixel: Pixel, width: u32, height: u32) -> int {
    (height - 1 - pixel.row) * width + pixel.column
}

/// The pixel that is written at place `index`.
pub open spec fn spec_pixel_at(index: int, width: u32, height: u32) -> Pixel {
    Pixel { row: (height - 1 - index / (width as int)) as u32, column: (index % (width as int)) as u32 }
}

/// The header of an image of the given size, with 255 as the largest channel
/// value.
pub open spec fn spec_header(width: u32, height: u32) -> Seq<char> {
    seq!['P', '3', '\n'] + spec_decimal(width as nat) + seq![' '] + spec_decimal(height as nat)
        + seq!['\n', '2', '5', '5', '\n']
}

/// The lines of the given pixels, one after the other.
pub open spec fn spec_lines(pixels: Seq<Rgb>) -> Seq<char>
    decreases pixels.len(),
{
    if pixels.len() == 0 {
        Seq::empty()
    } else {
        spec_lines(pixels.drop_last()) + spec_format_color(pixels.last())
    }
}

/// The place in the written order of `pixel`, or `None` where the pixel lies
/// outside the picture.
pub fn position_of(pixel: Pixel, width: u32, height: u32) -> (place: Option<u64>)
    ensures
        place is Some <==> in_frame(pixel, width, height),
        place matches Some(index) ==> index == spec_position(pixel, width, height) && index
            < width * height,
{
    if pixel.row < height && pixel.column < width {
        let down: u64 = (height - 1 - pixel.row) as u64;
        assert(down * width + pixel.column < width * height && width * height
            <= 0xffff_ffff * 0xffff_ffff) by (nonlinear_arith)
            requires
                0 <= down < height <= 0xffff_ffff,
                0 <= pixel.column < width <= 0xffff_ffff,
        ;
        Some(down * (width as u64) + (pixel.column as u64))
    } else {
        None
    }
}

/// The pixel that is written at place `index`, or `None` where the picture has
/// no such place.
pub fn pixel_at(index: u64, width: u32, height: u32) -> (found: Option<Pixel>)
    ensures
        found is Some <==> index < width * height,
        found matches Some(pixel) ==> pixel == spec_pixel_at(index as int, width, height)
            && in_frame(pixel, width, height) && spec_position(pixel, width, height) == index,
{
    if width == 0 {
        return None;
    }
    let down: u64 = index / (width as u64);
    let column: u64 = index % (width as u64);
    assert(index == down * width + column) by (nonlinear_arith)
        requires
            down == index / (width as u64),
            column == index % (width as u64),
            width > 0,
    ;
    assert(down < height <==> index < width * height) by (nonlinear_arith)
        requires
            index == down * width + column,
            0 <= column < width,
            0 <= down,
            0 <= height,
    ;
    if down < height as u64 {
        let pixel = Pixel { row: height - 1 - (down as u32), column: column as u32 };
        assert((height - 1 - pixel.row) * width + pixel.column == index) by (nonlinear_arith)
            requires
                height - 1 - pixel.row == down,
                pixel.column == column,
                index == down * width + column,
        ;
        Some(pixel)
    } else {
        None
    }
}

/// The header of an image of the given size.
pub fn ppm_header(width: u32, height: u32) -> (header: String)
    ensures
        header@ == spec_header(width, height),
{
    proof {
        reveal_strlit("P3\n");
        reveal_strlit(" ");
        reveal_strlit("\n255\n");
    }
    let mut header = String::from_str("P3\n");
    push_decimal(&mut header, width as u64);
    header.append(" ");
    push_decimal(&mut header, height as u64);
    header.append("\n255\n");
    header
}

/// Appends the lines of `pixels` to `out`, in the order of the vector.
pub fn push_lines(out: &mut String, pixels: &Vec<Rgb>)
    ensures
        final(out)@ == old(out)@ + spec_lines(pixels@),
{
    proof {
        reveal_strlit("\n");
    }
    let mut k: usize = 0;
    while k < pixels.len()
        invariant
            k <= pixels.len(),
            "\n"@ =~= seq!['\n'],
            out@ == old(out)@ + spec_lines(pixels@.take(k as int)),
        decreases pixels.len() - k,
    {
        push_color(out, &pixels[k]);
        out.append("\n");
        assert(pixels@.take(k + 1).drop_last() =~= pixels@.take(k as int));
        k += 1;
    }
    assert(pixels@.take(k as int) =~= pixels@);
}

/// The whole image as text: the header of the given size, then the line of
/// each pixel in the order of the vector.
pub fn image_text(width: u32, height: u32, pixels: &Vec<Rgb>) -> (text: String)
    ensures
        text@ == spec_header(width, height) + spec_lines(pixels@),
{
    let mut text = ppm_header(width, height);
    push_lines(&mut text, pixels);
    text
}

/// The written order runs through the rows from the top one down and through
/// each row from left to right: of two pixels of the picture, the one in the
/// higher row is written first, and in one row the one further left.
pub proof fn lemma_scan_order(one: Pixel, other: Pixel, width: u32, height: u32)
    requires
        in_frame(one, width, height),
        in_frame(other, width, height),
    ensures
        spec_position(one, width, height) < spec_position(other, width, height) <==> (one.row
            > other.row || (one.row == other.row && one.column < other.column)),
{
    let a = height - 1 - one.row;
    let b = height - 1 - other.row;
    assert(a < b ==> a * width + one.column < b * width + other.column) by (nonlinear_arith)
        requires
            0 <= one.column < width,
            0 <= other.column < width,
    ;
    assert(b < a ==> b * width + other.column < a * width + one.column) by (nonlinear_arith)
        requires
            0 <= one.column < width,
            0 <= other.column < width,
    ;
}

/// Every pixel of the picture has one place in the written order, and every
/// place from 0 up to the number of pixels holds one pixel of the picture.
pub proof fn lemma_places_and_pixels(pixel: Pixel, index: int, width: u32, height: u32)
    ensures
        in_frame(pixel, width, height) ==> 0 <= spec_position(pixel, width, height) < width
            * height && spec_pixel_at(spec_position(pixel, width, height), width, height)
            == pixel,
        0 <= index < width * height ==> in_frame(spec_pixel_at(index, width, height), width, height)
            && spec_position(spec_pixel_at(index, width, height), width, height) == index,
{
    if in_frame(pixel, width, height) {
        let down = height - 1 - pixel.row;
        let place = spec_position(pixel, width, height);
        assert(0 <= place < width * height && place / (width as int) == down && place % (
        width as int) == pixel.column) by (nonlinear_arith)
            requires
                place == down * width + pixel.column,
                0 <= down < height,
                0 <= pixel.column < width,
        ;
    }
    if 0 <= index < width * height {
        assert(width > 0) by (nonlinear_arith)
            requires
                0 <= index < width * height,
                0 <= width,
        ;
        let down = index / (width as int);
        let column = index % (width as int);
        assert(index == down * width + column && 0 <= column < width && 0 <= down < height)
            by (nonlinear_arith)
            requires
                down == index / (width as int),
                column == index % (width as int),
                0 <= index < width * height,
                width > 0,
        ;
    }
}

/// The lines of a sequence of pixels are the lines of its first part followed
/// by the lines of the rest: an image put together row by row reads the same
/// as one put together at once.
pub proof fn lemma_lines_of_parts(first: Seq<Rgb>, rest: Seq<Rgb>)
    ensures
        spec_lines(first + rest) == spec_lines(first) + spec_lines(rest),
    decreases rest.len(),
{
    if rest.len() > 0 {
        assert((first + rest).drop_last() =~= first + rest.drop_last());
        lemma_lines_of_parts(first, rest.drop_last());
    }
}

} // verus!
