//! Pictures of the movie decoders as colour values.
//!
//! A picture comes as brightness for every pixel and two colour differences for
//! every block of two by two pixels. The conversion follows the arithmetic of
//! single-precision numbers, which is carried out here on integers that count
//! steps of `1 / UNIT`.

use vstd::prelude::*;

use crate::movie::FvpMovieDecodeError;

verus! {

/// The number one.
pub const UNIT: i64 = 0x200_0000;

/// The single-precision number nearest to 1.164.
pub const LUMA: i64 = 39_057_360;

/// The single-precision number nearest to 1.596.
pub const RED_CR: i64 = 53_552_872;

/// The single-precision number nearest to 0.392.
pub const GREEN_CB: i64 = 13_153_337;

/// The single-precision number nearest to 0.813.
pub const GREEN_CR: i64 = 27_279_754;

/// The single-precision number nearest to 2.017.
pub const BLUE_CB: i64 = 67_679_288;

/// A picture: brightness and colour differences.
#[derive(Debug)]
pub struct YuvFrame {
    pub width: u32,
    pub height: u32,
    pub y: Vec<u8>,
    pub cb: Vec<u8>,
    pub cr: Vec<u8>,
}

/// A colour value: the nearest whole number, a half going up, cut to one byte.
pub open spec fn colour_byte(n: int) -> u8 {
    let whole = (n + UNIT / 2) / (UNIT as int);
    if n < 0 {
        0
    } else if whole > 255 {
        255
    } else {
        whole as u8
    }
}

/// The product of a factor and a small number, in single precision.
pub open spec fn product(factor: i64, value: int) -> int {
    crate::float::single(factor * value)
}

pub open spec fn red_of(y: u8, cr: u8) -> u8 {
    colour_byte(crate::float::single(product(LUMA, y - 16) + product(RED_CR, cr - 128)))
}

pub open spec fn green_of(y: u8, cb: u8, cr: u8) -> u8 {
    colour_byte(
        crate::float::single(
            crate::float::single(product(LUMA, y - 16) - product(GREEN_CB, cb - 128))
                - product(GREEN_CR, cr - 128),
        ),
    )
}

pub open spec fn blue_of(y: u8, cb: u8) -> u8 {
    colour_byte(crate::float::single(product(LUMA, y - 16) + product(BLUE_CB, cb - 128)))
}

fn scaled(factor: i64, value: i64) -> (r: i64)
    requires
        0 < factor <= 67_679_288,
        -256 < value < 256,
    ensures
        r == product(factor, value as int),
        -0x8_0000_0000 < r < 0x8_0000_0000,
{
    assert(-67_679_288 * 256 < factor * value < 67_679_288 * 256) by (nonlinear_arith)
        requires
            0 < factor <= 67_679_288,
            -256 < value < 256,
    ;
    crate::float::to_single(factor * value)
}

fn to_byte(n: i64) -> (r: u8)
    requires
        -0x100_0000_0000 < n < 0x100_0000_0000,
    ensures
        r == colour_byte(n as int),
{
    if n < 0 {
        return 0;
    }
    let whole: i64 = (n + UNIT / 2) / UNIT;
    if whole > 255 {
        255
    } else {
        whole as u8
    }
}

/// The red, green and blue values of a pixel.
pub fn pixel(y: u8, cb: u8, cr: u8) -> (r: (u8, u8, u8))
    ensures
        r == (red_of(y, cr), green_of(y, cb, cr), blue_of(y, cb)),
{
    let luma: i64 = scaled(LUMA, y as i64 - 16);
    let red: i64 = crate::float::to_single(luma + scaled(RED_CR, cr as i64 - 128));
    let part: i64 = crate::float::to_single(luma - scaled(GREEN_CB, cb as i64 - 128));
    let green: i64 = crate::float::to_single(part - scaled(GREEN_CR, cr as i64 - 128));
    let blue: i64 = crate::float::to_single(luma + scaled(BLUE_CB, cb as i64 - 128));
    (to_byte(red), to_byte(green), to_byte(blue))
}

/// Half of a side, rounded up.
pub open spec fn half(n: u32) -> int {
    (n + 1) / 2
}

/// The place of the colour differences of pixel `p`.
pub open spec fn chroma_place(width: u32, p: int) -> int {
    (p / width as int) / 2 * half(width) + (p % width as int) / 2
}

/// What is wrong with a picture, if anything is.
pub open spec fn picture_fault(frame: YuvFrame) -> Option<FvpMovieDecodeError> {
    let pixels = frame.width * frame.height;
    let chroma = half(frame.width) * half(frame.height);
    if pixels > usize::MAX || chroma > usize::MAX {
        Some(FvpMovieDecodeError::Budget)
    } else if frame.y@.len() < pixels || frame.cb@.len() < chroma || frame.cr@.len() < chroma {
        Some(FvpMovieDecodeError::Decode)
    } else if 4 * pixels > usize::MAX {
        Some(FvpMovieDecodeError::Budget)
    } else {
        None
    }
}

/// Whether `rgba` holds pixel `p` of a picture.
pub open spec fn holds_pixel(rgba: Seq<u8>, frame: YuvFrame, p: int) -> bool {
    let c = chroma_place(frame.width, p);
    &&& rgba[4 * p] == red_of(frame.y@[p], frame.cr@[c])
    &&& rgba[4 * p + 1] == green_of(frame.y@[p], frame.cb@[c], frame.cr@[c])
    &&& rgba[4 * p + 2] == blue_of(frame.y@[p], frame.cb@[c])
    &&& rgba[4 * p + 3] == 255
}

/// The colour differences of every pixel lie in the picture.
pub proof fn lemma_chroma_place(width: u32, height: u32, p: int)
    requires
        0 <= p < width * height,
    ensures
        0 <= chroma_place(width, p) < half(width) * half(height),
        0 <= p / (width as int) < height,
        0 <= p % (width as int) < width,
{
    let w = width as int;
    let row = p / w;
    let col = p % w;
    assert(0 <= row < height && 0 <= col < w) by (nonlinear_arith)
        requires
            0 <= p < w * height,
            w > 0,
            row == p / w,
            col == p % w,
    ;
    let r2 = row / 2;
    let c2 = col / 2;
    let hw = half(width);
    let hh = half(height);
    assert(0 <= r2 < hh && 0 <= c2 < hw);
    assert(0 <= r2 * hw + c2 < hw * hh) by (nonlinear_arith)
        requires
            0 <= r2 < hh,
            0 <= c2 < hw,
    ;
}

/// A picture as rows of red, green, blue and opacity values.
pub fn yuv420_to_rgba(frame: &YuvFrame) -> (r: Result<Vec<u8>, FvpMovieDecodeError>)
    ensures
        match picture_fault(*frame) {
            Some(e) => r is Err && r->Err_0 == e,
            None => {
                &&& r is Ok
                &&& r->Ok_0@.len() == 4 * (frame.width * frame.height)
                &&& forall|p: int|
                    0 <= p < frame.width * frame.height ==> #[trigger] holds_pixel(
                        r->Ok_0@,
                        *frame,
                        p,
                    )
            },
        },
{
    let width: usize = frame.width as usize;
    let height: usize = frame.height as usize;
    let expected_y: usize = match width.checked_mul(height) {
        Some(v) => v,
        None => return Err(FvpMovieDecodeError::Budget),
    };
    let chroma_width: usize = width / 2 + width % 2;
    let chroma_height: usize = height / 2 + height % 2;
    assert(chroma_width == half(frame.width) && chroma_height == half(frame.height));
    let expected_chroma: usize = match chroma_width.checked_mul(chroma_height) {
        Some(v) => v,
        None => return Err(FvpMovieDecodeError::Budget),
    };
    if frame.y.len() < expected_y || frame.cb.len() < expected_chroma || frame.cr.len()
        < expected_chroma {
        return Err(FvpMovieDecodeError::Decode);
    }
    match expected_y.checked_mul(4) {
        Some(_) => {},
        None => return Err(FvpMovieDecodeError::Budget),
    }
    let mut rgba: Vec<u8> = Vec::new();
    let mut p: usize = 0;
    while p < expected_y
        invariant
            p <= expected_y,
            width == frame.width,
            chroma_width == half(frame.width),
            chroma_height == half(frame.height),
            expected_y == frame.width * frame.height,
            expected_chroma == half(frame.width) * half(frame.height),
            expected_y <= frame.y@.len(),
            expected_chroma <= frame.cb@.len(),
            expected_chroma <= frame.cr@.len(),
            4 * expected_y <= usize::MAX,
            rgba@.len() == 4 * p,
            forall|q: int| 0 <= q < p ==> #[trigger] holds_pixel(rgba@, *frame, q),
        decreases expected_y - p,
    {
        proof {
            lemma_chroma_place(frame.width, frame.height, p as int);
            let r2 = (p as int / width as int) / 2;
            assert(0 <= r2 * chroma_width) by (nonlinear_arith)
                requires
                    0 <= r2,
                    0 <= chroma_width,
            ;
        }
        let c: usize = p / width / 2 * chroma_width + p % width / 2;
        assert(c == chroma_place(frame.width, p as int));
        let (red, green, blue) = pixel(frame.y[p], frame.cb[c], frame.cr[c]);
        let ghost before = rgba@;
        rgba.push(red);
        rgba.push(green);
        rgba.push(blue);
        rgba.push(255);
        proof {
            assert forall|q: int| 0 <= q < p + 1 implies #[trigger] holds_pixel(
                rgba@,
                *frame,
                q,
            ) by {
                if q < p {
                    assert(holds_pixel(before, *frame, q));
                }
            }
        }
        p = p + 1;
    }
    Ok(rgba)
}

// ----------------------------------------------------------------------- laws

/// Every pixel has its own brightness and the colour differences of its square of two by
/// two pixels: the pixel in row `row` and column `column` takes them from row
/// `row / 2` and column `column / 2` of pictures half as wide and half as high, rounded
/// up. The rows follow each other, four values to a pixel.
pub proof fn law_squares_share_their_colour(rgba: Seq<u8>, frame: YuvFrame, row: int, column: int)
    requires
        0 <= row < frame.height,
        0 <= column < frame.width,
        forall|p: int|
            0 <= p < frame.width * frame.height ==> #[trigger] holds_pixel(rgba, frame, p),
    ensures
        ({
            let place = row * frame.width + column;
            let chroma = row / 2 * ((frame.width + 1) / 2) + column / 2;
            &&& rgba[4 * place] == red_of(frame.y@[place], frame.cr@[chroma])
            &&& rgba[4 * place + 1] == green_of(
                frame.y@[place],
                frame.cb@[chroma],
                frame.cr@[chroma],
            )
            &&& rgba[4 * place + 2] == blue_of(frame.y@[place], frame.cb@[chroma])
            &&& rgba[4 * place + 3] == 255
        }),
{
    let w = frame.width as int;
    let place = row * w + column;
    assert(0 <= place < w * frame.height) by (nonlinear_arith)
        requires
            0 <= row < frame.height,
            0 <= column < w,
            place == row * w + column,
    ;
    vstd::arithmetic::div_mod::lemma_fundamental_div_mod_converse(place, w, row, column);
    assert(holds_pixel(rgba, frame, place));
}

/// Single precision moves a number of this size by little.
proof fn lemma_single_near(n: int)
    requires
        -0x8_0000_0000 < n < 0x8_0000_0000,
    ensures
        n - 1024 <= crate::float::single(n) <= n + 1024,
{
    // The nearest number is no farther than this multiple of 2048.
    let m = n / 2048;
    vstd::arithmetic::power2::lemma2_to64();
    vstd::arithmetic::power2::lemma_pow2_adds(11, 0);
    assert(vstd::arithmetic::power2::pow2(11) == 2048);
    crate::float::law_single_is_the_nearest(n, m, 11);
    crate::float::law_single_is_the_nearest(n, m + 1, 11);
}

/// How far a product in single precision lies from the product itself, a thousandfold.
proof fn lemma_product_near(factor: i64, thousandth: int, value: int)
    requires
        0 < factor <= 67_679_288,
        -2000 <= 1000 * factor - thousandth * UNIT <= 2000,
        -256 < value < 256,
    ensures
        -0x8_0000_0000 < product(factor, value) < 0x8_0000_0000,
        -1_600_000 <= 1000 * product(factor, value) - thousandth * value * UNIT <= 1_600_000,
{
    assert(-67_679_288 * 256 < factor * value < 67_679_288 * 256) by (nonlinear_arith)
        requires
            0 < factor <= 67_679_288,
            -256 < value < 256,
    ;
    lemma_single_near(factor * value);
    let off = 1000 * factor - thousandth * UNIT;
    assert(-512_000 <= off * value <= 512_000) by (nonlinear_arith)
        requires
            -2000 <= off <= 2000,
            -256 < value < 256,
    ;
    assert(off * value == 1000 * (factor * value) - thousandth * value * UNIT) by (nonlinear_arith)
        requires
            off == 1000 * factor - thousandth * UNIT,
    ;
}

/// A colour value that lies within a thousandth of `exact` thousandths.
pub open spec fn shows_colour(value: u8, exact: int) -> bool {
    &&& exact < 499 ==> value == 0
    &&& exact > 254_501 ==> value == 255
    &&& 0 <= exact <= 255_000 ==> exact - 501 <= 1000 * value <= exact + 501
}

proof fn lemma_byte_near(n: int, exact: int)
    requires
        -20_000_000 <= 1000 * n - exact * UNIT <= 20_000_000,
    ensures
        shows_colour(colour_byte(n), exact),
{
    let whole = (n + UNIT / 2) / (UNIT as int);
    assert(UNIT * whole <= n + UNIT / 2 < UNIT * whole + UNIT);
}

/// The colours are those of the broadcast formulas, each within a thousandth: red is
/// 1.164 of the brightness above 16 and 1.596 of the second difference from 128, green
/// loses 0.392 of the first and 0.813 of the second, blue gains 2.017 of the first; what
/// lies outside a byte is cut, and a half goes up.
pub proof fn law_colours_follow_the_formulas(y: u8, cb: u8, cr: u8)
    ensures
        shows_colour(red_of(y, cr), 1164 * (y - 16) + 1596 * (cr - 128)),
        shows_colour(
            green_of(y, cb, cr),
            1164 * (y - 16) - 392 * (cb - 128) - 813 * (cr - 128),
        ),
        shows_colour(blue_of(y, cb), 1164 * (y - 16) + 2017 * (cb - 128)),
{
    lemma_product_near(LUMA, 1164, y - 16);
    lemma_product_near(RED_CR, 1596, cr - 128);
    lemma_product_near(GREEN_CB, 392, cb - 128);
    lemma_product_near(GREEN_CR, 813, cr - 128);
    lemma_product_near(BLUE_CB, 2017, cb - 128);
    let luma = product(LUMA, y - 16);
    lemma_sum_bounds(y, cb, cr);
    let red = luma + product(RED_CR, cr - 128);
    let part = luma - product(GREEN_CB, cb - 128);
    let green = crate::float::single(part) - product(GREEN_CR, cr - 128);
    let blue = luma + product(BLUE_CB, cb - 128);
    lemma_single_near(red);
    lemma_single_near(part);
    lemma_single_near(green);
    lemma_single_near(blue);
    lemma_byte_near(crate::float::single(red), 1164 * (y - 16) + 1596 * (cr - 128));
    lemma_byte_near(
        crate::float::single(green),
        1164 * (y - 16) - 392 * (cb - 128) - 813 * (cr - 128),
    );
    lemma_byte_near(crate::float::single(blue), 1164 * (y - 16) + 2017 * (cb - 128));
}

/// The sums lie where single precision moves a number by little.
proof fn lemma_sum_bounds(y: u8, cb: u8, cr: u8)
    ensures
        -10_000_000_000 < product(LUMA, y - 16) < 10_000_000_000,
        -7_000_000_000 < product(RED_CR, cr - 128) < 7_000_000_000,
        -7_000_000_000 < product(GREEN_CB, cb - 128) < 7_000_000_000,
        -7_000_000_000 < product(GREEN_CR, cr - 128) < 7_000_000_000,
        -9_000_000_000 < product(BLUE_CB, cb - 128) < 9_000_000_000,
{
    lemma_single_near(LUMA * (y - 16));
    lemma_single_near(RED_CR * (cr - 128));
    lemma_single_near(GREEN_CB * (cb - 128));
    lemma_single_near(GREEN_CR * (cr - 128));
    lemma_single_near(BLUE_CB * (cb - 128));
}

/// A picture is accepted if and only if it has a brightness for each pixel, both colour
/// differences for each square of two by two pixels, begun ones too, and its pixels can be
/// addressed.
pub proof fn law_pictures_have_all_their_planes(frame: YuvFrame)
    ensures
        ({
            let pixels = frame.width as int * frame.height as int;
            let squares = ((frame.width + 1) / 2) * ((frame.height + 1) / 2);
            let complete = frame.y@.len() >= pixels && frame.cb@.len() >= squares && frame.cr@.len()
                >= squares;
            &&& pixels * 4 <= usize::MAX && squares <= usize::MAX ==> {
                &&& complete ==> picture_fault(frame) is None
                &&& !complete ==> picture_fault(frame) == Some(FvpMovieDecodeError::Decode)
            }
            &&& picture_fault(frame) is None ==> complete && 4 * pixels <= usize::MAX
        }),
{
    let w = frame.width as int;
    let h = frame.height as int;
    assert(half(frame.width) == (w + 1) / 2 && half(frame.height) == (h + 1) / 2);
    assert(w * h * 4 == 4 * (w * h)) by (nonlinear_arith);
    assert(0 <= w * h) by (nonlinear_arith)
        requires
            0 <= w,
            0 <= h,
    ;
}

}
