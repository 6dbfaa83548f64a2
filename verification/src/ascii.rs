//! Conversion of colour frames to text art.
//!
//! The transform has three stages: each colour sample is reduced to a
//! luminance byte, the luminance grid is resampled to the target size with
//! bilinear interpolation, and every resampled byte is quantized onto a fixed
//! ten-character ramp, lightest first. Rows of the result are joined by a
//! newline, with nothing after the last row.

use vstd::prelude::*;
use vstd::arithmetic::div_mod::{
    lemma_div_is_ordered, lemma_fundamental_div_mod, lemma_fundamental_div_mod_converse,
};
use crate::error::AppError;
use crate::frame::RawFrame;

verus! {

/// The character ramp, ordered from lightest to darkest.
pub open spec fn ramp() -> Seq<char> {
    seq![' ', '.', ':', '-', '=', '+', '*', '#', '%', '@']
}

/// Index into [`ramp`] chosen for a luminance value: `v * 9 / 255`,
/// so that `0` lands on the first entry and `255` on the last.
pub open spec fn quantize_index(v: int) -> int {
    v * 9 / 255
}

/// Luminance of one blue, green, red sample, on the standard broadcast
/// weighting, computed in 14-bit fixed point: the weights are
/// `4899/16384` for red, `9617/16384` for green and `1868/16384` for blue,
/// rounded to the nearest integer.
pub open spec fn luma_spec(b: u8, g: u8, r: u8) -> int {
    (1868 * (b as int) + 9617 * (g as int) + 4899 * (r as int) + 8192) / 16384
}

/// The quantized luminance stays inside the ramp.
pub proof fn lemma_quantize_in_range(v: int)
    requires
        0 <= v <= 255,
    ensures
        0 <= quantize_index(v) <= 9,
{
    lemma_div_is_ordered(v * 9, 2295int, 255);
}

/// The luminance of any sample is a byte.
pub proof fn lemma_luma_in_range(b: u8, g: u8, r: u8)
    ensures
        0 <= luma_spec(b, g, r) <= 255,
{
}

/// Quantization maps the darkest and lightest inputs onto the ends of the
/// ramp, and never moves down the ramp as the input grows.
pub proof fn lemma_quantize_endpoints()
    ensures
        quantize_index(0) == 0,
        quantize_index(255) == 9,
        ramp()[0] == ' ',
        ramp()[9] == '@',
{
}

/// Quantization is monotonically non-decreasing over the byte range.
pub proof fn lemma_quantize_monotone(a: int, b: int)
    requires
        0 <= a <= b <= 255,
    ensures
        quantize_index(a) <= quantize_index(b),
{
    lemma_div_is_ordered(a * 9, b * 9, 255);
}

/// Maps a luminance byte to its ramp character: `0` gives the lightest
/// character, `255` the darkest.
pub fn get_ascii_char(value: u8) -> (c: char)
    ensures
        c == ramp()[quantize_index(value as int)],
{
    let index: usize = (value as usize) * 9 / 255;
    proof {
        lemma_quantize_in_range(value as int);
    }
    match index {
        0 => ' ',
        1 => '.',
        2 => ':',
        3 => '-',
        4 => '=',
        5 => '+',
        6 => '*',
        7 => '#',
        8 => '%',
        _ => '@',
    }
}

/// Luminance of one sample, as executable code.
fn luma(b: u8, g: u8, r: u8) -> (v: u8)
    ensures
        v as int == luma_spec(b, g, r),
{
    let sum: u32 = 1868 * (b as u32) + 9617 * (g as u32) + 4899 * (r as u32) + 8192;
    (sum / 16384) as u8
}

/// Source coordinate sampled for destination index `i` out of `n`, over a
/// source extent of `m` pixels, in fixed point with 8 fraction bits.
///
/// The sample point is `(i + 0.5) * m / n - 0.5` source pixels, clamped at
/// the left edge; its integer part picks the lower of the two source pixels
/// blended, its fraction part their mix.
pub open spec fn src_coord_fp(i: int, n: int, m: int) -> int {
    let centered = (2 * i + 1) * m * 128 / n;
    if centered >= 128 {
        centered - 128
    } else {
        0
    }
}

/// The fixed-point coordinate stays inside the source extent: its integer
/// part is a valid source index.
pub proof fn lemma_src_coord_bounds(i: int, n: int, m: int)
    requires
        0 <= i < n,
        1 <= m,
    ensures
        0 <= src_coord_fp(i, n, m),
        src_coord_fp(i, n, m) <= 256 * m - 129,
        0 <= src_coord_fp(i, n, m) / 256 <= m - 1,
        0 <= src_coord_fp(i, n, m) % 256 < 256,
{
    let a = (2 * i + 1) * m * 128;
    let centered = a / n;
    assert(0 <= a && a <= 256 * m * n - 128 * m) by (nonlinear_arith)
        requires
            0 <= i < n,
            1 <= m,
            a == (2 * i + 1) * m * 128,
    ;
    lemma_fundamental_div_mod(a, n);
    assert(n * centered <= 256 * m * n - 128 * m);
    assert(centered <= 256 * m - 1) by (nonlinear_arith)
        requires
            n * centered <= 256 * m * n - 128 * m,
            1 <= m,
            1 <= n,
    ;
    let c = src_coord_fp(i, n, m);
    assert(c <= 256 * m - 129);
    lemma_div_is_ordered(c, 256 * m - 129, 256);
    lemma_fundamental_div_mod_converse(256 * m - 129, 256, m - 1, 127);
}

/// Bilinear mix of four luminance samples, in fixed point with 8 fraction
/// bits per axis: `fx` weighs the right pair against the left, `fy` the
/// lower pair against the upper, and the sum is rounded to the nearest
/// integer.
pub open spec fn blend_spec(p00: u8, p10: u8, p01: u8, p11: u8, fx: int, fy: int) -> int {
    ((p00 as int) * (256 - fx) * (256 - fy) + (p10 as int) * fx * (256 - fy) + (p01 as int) * (256
        - fx) * fy + (p11 as int) * fx * fy + 32768) / 65536
}

/// The four blend weights always sum to one (in fixed point), so the blend
/// of four bytes is a byte.
pub proof fn lemma_blend_in_range(p00: u8, p10: u8, p01: u8, p11: u8, fx: int, fy: int)
    requires
        0 <= fx < 256,
        0 <= fy < 256,
    ensures
        0 <= blend_spec(p00, p10, p01, p11, fx, fy) <= 255,
{
    let num = (p00 as int) * (256 - fx) * (256 - fy) + (p10 as int) * fx * (256 - fy) + (p01 as int)
        * (256 - fx) * fy + (p11 as int) * fx * fy + 32768;
    assert(0 <= num && num <= 255 * 65536 + 32768) by (nonlinear_arith)
        requires
            0 <= fx < 256,
            0 <= fy < 256,
            0 <= p00 as int <= 255,
            0 <= p10 as int <= 255,
            0 <= p01 as int <= 255,
            0 <= p11 as int <= 255,
            num == (p00 as int) * (256 - fx) * (256 - fy) + (p10 as int) * fx * (256 - fy) + (
            p01 as int) * (256 - fx) * fy + (p11 as int) * fx * fy + 32768,
    ;
    lemma_div_is_ordered(num, 16744448int, 65536);
}

/// Blending four equal samples returns that sample unchanged.
pub proof fn lemma_blend_uniform(v: u8, fx: int, fy: int)
    requires
        0 <= fx < 256,
        0 <= fy < 256,
    ensures
        blend_spec(v, v, v, v, fx, fy) == v as int,
{
    let num = (v as int) * (256 - fx) * (256 - fy) + (v as int) * fx * (256 - fy) + (v as int) * (
    256 - fx) * fy + (v as int) * fx * fy + 32768;
    assert(num == 65536 * (v as int) + 32768) by (nonlinear_arith)
        requires
            num == (v as int) * (256 - fx) * (256 - fy) + (v as int) * fx * (256 - fy) + (v as int)
                * (256 - fx) * fy + (v as int) * fx * fy + 32768,
    ;
    lemma_fundamental_div_mod_converse(num, 65536, v as int, 32768);
}

/// Bilinear mix of four luminance samples, as executable code.
fn blend(p00: u8, p10: u8, p01: u8, p11: u8, fx: u32, fy: u32) -> (v: u8)
    requires
        fx < 256,
        fy < 256,
    ensures
        v as int == blend_spec(p00, p10, p01, p11, fx as int, fy as int),
{
    let wx1: u32 = 256 - fx;
    let wy1: u32 = 256 - fy;
    proof {
        lemma_blend_in_range(p00, p10, p01, p11, fx as int, fy as int);
        assert(forall|p: int, a: int, b: int|
            0 <= p <= 255 && 0 <= a <= 256 && 0 <= b <= 256 ==> #[trigger] (p * a * b) <= 16711680
                && 0 <= p * a * b && p * a <= 65280) by (nonlinear_arith);
        assert((p00 as int) * (wx1 as int) * (wy1 as int) == (p00 as int) * (256 - fx as int) * (256
            - fy as int));
        assert((p10 as int) * (fx as int) * (wy1 as int) == (p10 as int) * (fx as int) * (256
            - fy as int));
        assert((p01 as int) * (wx1 as int) * (fy as int) == (p01 as int) * (256 - fx as int) * (
        fy as int));
    }
    let num: u32 = (p00 as u32) * wx1 * wy1 + (p10 as u32) * fx * wy1 + (p01 as u32) * wx1 * fy + (
    p11 as u32) * fx * fy + 32768;
    (num / 65536) as u8
}

/// Luminance of the source pixel at column `x`, row `y`.
pub open spec fn gray_at(f: RawFrame, x: int, y: int) -> u8 {
    luma_spec(f.blue_at(x, y), f.green_at(x, y), f.red_at(x, y)) as u8
}

/// The resampled luminance of the target pixel at column `tx`, row `ty`,
/// for a target grid of `out_w` by `out_h`: the bilinear blend of the four
/// source pixels around the sample point.
pub open spec fn pixel_value(f: RawFrame, out_w: int, out_h: int, tx: int, ty: int) -> int {
    let cx = src_coord_fp(tx, out_w, f.width as int);
    let cy = src_coord_fp(ty, out_h, f.height as int);
    let x0 = cx / 256;
    let fx = cx % 256;
    let y0 = cy / 256;
    let fy = cy % 256;
    let x1 = if x0 + 1 <= f.width - 1 {
        x0 + 1
    } else {
        f.width - 1
    };
    let y1 = if y0 + 1 <= f.height - 1 {
        y0 + 1
    } else {
        f.height - 1
    };
    blend_spec(gray_at(f, x0, y0), gray_at(f, x1, y0), gray_at(f, x0, y1), gray_at(f, x1, y1), fx, fy)
}

/// The ramp character of the target pixel at column `tx`, row `ty`.
pub open spec fn char_at(f: RawFrame, out_w: int, out_h: int, tx: int, ty: int) -> char {
    ramp()[quantize_index(pixel_value(f, out_w, out_h, tx, ty))]
}

/// Character at position `i` of the flattened text frame: rows of `out_w`
/// ramp characters, a newline after each row but the last.
pub open spec fn grid_char(f: RawFrame, out_w: int, out_h: int, i: int) -> char {
    if i % (out_w + 1) == out_w {
        '\n'
    } else {
        char_at(f, out_w, out_h, i % (out_w + 1), i / (out_w + 1))
    }
}

/// The whole text frame for a target grid of `out_w` by `out_h`:
/// `out_h` rows of `out_w` characters joined by newlines, nothing after the
/// last row.
pub open spec fn text_of(f: RawFrame, out_w: int, out_h: int) -> Seq<char> {
    Seq::new((out_h * (out_w + 1) - 1) as nat, |i: int| grid_char(f, out_w, out_h, i))
}

/// Largest width or height of the target text grid. No terminal offers more
/// character cells per side; the bound keeps the text buffer addressable.
pub const MAX_TARGET_DIM: i32 = 10000;

/// Whether a requested target size can be rendered.
pub open spec fn target_ok(width: int, height: int) -> bool {
    1 <= width <= MAX_TARGET_DIM && 1 <= height <= MAX_TARGET_DIM
}

/// Whether a transform of `f` to a `width` by `height` text grid succeeds:
/// the frame must be well formed and non-empty and the target size drawable.
pub open spec fn transform_ok(f: RawFrame, width: int, height: int) -> bool {
    f.wf() && !f.is_empty_spec() && target_ok(width, height)
}

/// Relies on String's FromIterator implementation: collecting characters
/// yields a string of exactly those characters.
#[verifier::external_body]
fn chars_to_string(v: Vec<char>) -> (r: String)
    ensures
        r@ == v@,
{
    v.into_iter().collect()
}

/// Source coordinate for destination index `i`, as executable code.
fn src_coord(i: usize, n: usize, m: usize) -> (c: u64)
    requires
        i < n,
        n <= 10000,
        1 <= m <= 65535,
    ensures
        c as int == src_coord_fp(i as int, n as int, m as int),
{
    proof {
        lemma_src_coord_bounds(i as int, n as int, m as int);
        assert((2 * (i as int) + 1) * (m as int) * 128 <= 19999 * 65535 * 128) by (nonlinear_arith)
            requires
                i < 10000,
                m <= 65535,
        ;
    }
    let a: u64 = (2 * (i as u64) + 1) * (m as u64) * 128;
    let centered: u64 = a / (n as u64);
    if centered >= 128 {
        centered - 128
    } else {
        0
    }
}

/// Luminance of the source pixel at column `x`, row `y`, as executable code.
fn luma_at(f: &RawFrame, x: usize, y: usize) -> (v: u8)
    requires
        f.wf(),
        x < f.width,
        y < f.height,
    ensures
        v == gray_at(*f, x as int, y as int),
{
    let n: usize = f.data.len();
    proof {
        assert((y as int) * (f.width as int) + (x as int) < (f.width as int) * (f.height as int)
            && 3 * ((y as int) * (f.width as int) + (x as int)) + 2 < 3 * (f.width as int) * (
        f.height as int)) by (nonlinear_arith)
            requires
                x < f.width,
                y < f.height,
        ;
        assert(3 * ((y as int) * (f.width as int) + (x as int)) + 2 < n as int);
    }
    let idx: usize = 3 * (y * f.width + x);
    luma(f.data[idx], f.data[idx + 1], f.data[idx + 2])
}

/// One target pixel rendered to its ramp character, as executable code.
fn render_pixel(f: &RawFrame, out_w: usize, out_h: usize, tx: usize, ty: usize) -> (c: char)
    requires
        f.wf(),
        1 <= f.width,
        1 <= f.height,
        1 <= out_w <= 10000,
        1 <= out_h <= 10000,
        tx < out_w,
        ty < out_h,
    ensures
        c == char_at(*f, out_w as int, out_h as int, tx as int, ty as int),
{
    proof {
        lemma_src_coord_bounds(tx as int, out_w as int, f.width as int);
        lemma_src_coord_bounds(ty as int, out_h as int, f.height as int);
    }
    let cx: u64 = src_coord(tx, out_w, f.width);
    let cy: u64 = src_coord(ty, out_h, f.height);
    let x0: usize = (cx / 256) as usize;
    let fx: u32 = (cx % 256) as u32;
    let y0: usize = (cy / 256) as usize;
    let fy: u32 = (cy % 256) as u32;
    let x1: usize = if x0 + 1 < f.width {
        x0 + 1
    } else {
        f.width - 1
    };
    let y1: usize = if y0 + 1 < f.height {
        y0 + 1
    } else {
        f.height - 1
    };
    let p00 = luma_at(f, x0, y0);
    let p10 = luma_at(f, x1, y0);
    let p01 = luma_at(f, x0, y1);
    let p11 = luma_at(f, x1, y1);
    let v = blend(p00, p10, p01, p11, fx, fy);
    get_ascii_char(v)
}

/// Transforms a colour frame into its text-art form: `height` rows of
/// `width` ramp characters, rows joined by newlines, darkest characters for
/// the brightest pixels.
///
/// Fails with a transform error when the frame is malformed or empty or the
/// target size is not drawable; nothing is retried here.
pub fn process_frame(frame: &RawFrame, width: i32, height: i32) -> (r: Result<String, AppError>)
    ensures
        match r {
            Ok(s) => transform_ok(*frame, width as int, height as int) && s@ == text_of(
                *frame,
                width as int,
                height as int,
            ),
            Err(e) => !transform_ok(*frame, width as int, height as int) && e is Transform,
        },
{
    if width < 1 || height < 1 || width > MAX_TARGET_DIM || height > MAX_TARGET_DIM {
        return Err(AppError::Transform(String::from_str("target size is not drawable")));
    }
    if frame.width > crate::frame::MAX_SOURCE_DIM || frame.height > crate::frame::MAX_SOURCE_DIM {
        return Err(AppError::Transform(String::from_str("frame is larger than a device delivers")));
    }
    proof {
        assert(3 * (frame.width as int) * (frame.height as int) <= 3 * 65535 * 65535)
            by (nonlinear_arith)
            requires
                frame.width <= 65535,
                frame.height <= 65535,
        ;
    }
    if (frame.data.len() as u64) != 3 * (frame.width as u64) * (frame.height as u64) {
        return Err(AppError::Transform(String::from_str("frame buffer does not match its size")));
    }
    if frame.width == 0 || frame.height == 0 {
        return Err(AppError::Transform(String::from_str("frame is empty")));
    }
    let w: usize = width as usize;
    let h: usize = height as usize;
    let ghost text = text_of(*frame, width as int, height as int);
    let mut out: Vec<char> = Vec::new();
    let mut ty: usize = 0;
    proof {
        assert((h as int) * ((w as int) + 1) <= 10000 * 10001) by (nonlinear_arith)
            requires
                h <= 10000,
                w <= 10000,
        ;
        assert(1 * 2 <= (h as int) * ((w as int) + 1)) by (nonlinear_arith)
            requires
                1 <= h,
                1 <= w,
        ;
    }
    while ty < h
        invariant
            transform_ok(*frame, w as int, h as int),
            w == width as int,
            h == height as int,
            text == text_of(*frame, w as int, h as int),
            ty <= h,
            out@.len() == ty * (w + 1),
            (h as int) * ((w as int) + 1) <= 10000 * 10001,
            forall|i: int| 0 <= i < out@.len() ==> out@[i] == grid_char(*frame, w as int, h as int, i),
        decreases h - ty,
    {
        proof {
            assert((ty as int) * ((w as int) + 1) + ((w as int) + 1) <= (h as int) * ((w as int)
                + 1) && ((ty as int) + 1) * ((w as int) + 1) == (ty as int) * ((w as int) + 1) + ((
            w as int) + 1)) by (nonlinear_arith)
                requires
                    ty < h,
            ;
        }
        let mut tx: usize = 0;
        while tx < w
            invariant
                transform_ok(*frame, w as int, h as int),
                text == text_of(*frame, w as int, h as int),
                ty < h,
                tx <= w,
                (h as int) * ((w as int) + 1) <= 10000 * 10001,
                (ty as int) * ((w as int) + 1) + ((w as int) + 1) <= (h as int) * ((w as int) + 1),
                out@.len() == ty * (w + 1) + tx,
                forall|i: int|
                    0 <= i < out@.len() ==> out@[i] == grid_char(*frame, w as int, h as int, i),
            decreases w - tx,
        {
            let c = render_pixel(frame, w, h, tx, ty);
            proof {
                lemma_fundamental_div_mod_converse(
                    (ty as int) * ((w as int) + 1) + (tx as int),
                    (w as int) + 1,
                    ty as int,
                    tx as int,
                );
            }
            out.push(c);
            tx = tx + 1;
        }
        proof {
            lemma_fundamental_div_mod_converse(
                (ty as int) * ((w as int) + 1) + (w as int),
                (w as int) + 1,
                ty as int,
                w as int,
            );
        }
        out.push('\n');
        ty = ty + 1;
    }
    out.pop();
    proof {
        assert(out@ =~= text);
    }
    Ok(chars_to_string(out))
}

/// Decomposition of a flat text position into its row and column.
proof fn lemma_flat_index(out_w: int, out_h: int, i: int)
    requires
        1 <= out_w,
        1 <= out_h,
        0 <= i < out_h * (out_w + 1) - 1,
    ensures
        0 <= i % (out_w + 1) <= out_w,
        0 <= i / (out_w + 1) < out_h,
        i == (i / (out_w + 1)) * (out_w + 1) + i % (out_w + 1),
{
    lemma_fundamental_div_mod(i, out_w + 1);
    assert(i / (out_w + 1) < out_h) by (nonlinear_arith)
        requires
            i < out_h * (out_w + 1) - 1,
            i == (out_w + 1) * (i / (out_w + 1)) + i % (out_w + 1),
            0 <= i % (out_w + 1) < out_w + 1,
            1 <= out_w,
            1 <= out_h,
    ;
}

/// Every rendered pixel carries a ramp character, never a separator.
pub proof fn lemma_char_at_in_ramp(f: RawFrame, out_w: int, out_h: int, tx: int, ty: int)
    requires
        transform_ok(f, out_w, out_h),
        0 <= tx < out_w,
        0 <= ty < out_h,
    ensures
        0 <= pixel_value(f, out_w, out_h, tx, ty) <= 255,
        0 <= quantize_index(pixel_value(f, out_w, out_h, tx, ty)) <= 9,
        char_at(f, out_w, out_h, tx, ty) != '\n',
{
    lemma_src_coord_bounds(tx, out_w, f.width as int);
    lemma_src_coord_bounds(ty, out_h, f.height as int);
    let cx = src_coord_fp(tx, out_w, f.width as int);
    let cy = src_coord_fp(ty, out_h, f.height as int);
    let x0 = cx / 256;
    let y0 = cy / 256;
    let x1 = if x0 + 1 <= f.width - 1 {
        x0 + 1
    } else {
        f.width - 1
    };
    let y1 = if y0 + 1 <= f.height - 1 {
        y0 + 1
    } else {
        f.height - 1
    };
    lemma_blend_in_range(
        gray_at(f, x0, y0),
        gray_at(f, x1, y0),
        gray_at(f, x0, y1),
        gray_at(f, x1, y1),
        cx % 256,
        cy % 256,
    );
    lemma_quantize_in_range(pixel_value(f, out_w, out_h, tx, ty));
}

/// A transformable frame yields exactly `out_h` rows of `out_w` characters:
/// the text holds a newline exactly at the positions that separate
/// consecutive rows, and a ramp character everywhere else.
pub proof fn lemma_text_dimensions(f: RawFrame, out_w: int, out_h: int)
    requires
        transform_ok(f, out_w, out_h),
    ensures
        text_of(f, out_w, out_h).len() == out_h * (out_w + 1) - 1,
        forall|i: int|
            0 <= i < out_h * (out_w + 1) - 1 ==> (text_of(f, out_w, out_h)[i] == '\n' <==> i % (
            out_w + 1) == out_w),
{
    assert(2 <= out_h * (out_w + 1)) by (nonlinear_arith)
        requires
            1 <= out_w,
            1 <= out_h,
    ;
    assert forall|i: int| 0 <= i < out_h * (out_w + 1) - 1 implies (text_of(f, out_w, out_h)[i]
        == '\n' <==> i % (out_w + 1) == out_w) by {
        lemma_flat_index(out_w, out_h, i);
        if i % (out_w + 1) != out_w {
            lemma_char_at_in_ramp(f, out_w, out_h, i % (out_w + 1), i / (out_w + 1));
        }
    }
}

/// Whether every pixel of the frame carries the one colour `(b, g, r)`.
pub open spec fn uniform_frame(f: RawFrame, b: u8, g: u8, r: u8) -> bool {
    forall|x: int, y: int|
        0 <= x < f.width && 0 <= y < f.height ==> f.blue_at(x, y) == b && f.green_at(x, y) == g
            && f.red_at(x, y) == r
}

/// A frame of one uniform colour renders to a uniform text: every character
/// that is not a row separator is the ramp character of that colour's
/// luminance.
pub proof fn lemma_uniform_text(f: RawFrame, out_w: int, out_h: int, b: u8, g: u8, r: u8)
    requires
        transform_ok(f, out_w, out_h),
        uniform_frame(f, b, g, r),
    ensures
        forall|i: int|
            0 <= i < out_h * (out_w + 1) - 1 && i % (out_w + 1) != out_w ==> text_of(
                f,
                out_w,
                out_h,
            )[i] == ramp()[quantize_index(luma_spec(b, g, r))],
{
    assert forall|i: int| 0 <= i < out_h * (out_w + 1) - 1 && i % (out_w + 1) != out_w implies
        text_of(f, out_w, out_h)[i] == ramp()[quantize_index(luma_spec(b, g, r))] by {
        lemma_flat_index(out_w, out_h, i);
        let tx = i % (out_w + 1);
        let ty = i / (out_w + 1);
        lemma_src_coord_bounds(tx, out_w, f.width as int);
        lemma_src_coord_bounds(ty, out_h, f.height as int);
        let cx = src_coord_fp(tx, out_w, f.width as int);
        let cy = src_coord_fp(ty, out_h, f.height as int);
        let x0 = cx / 256;
        let y0 = cy / 256;
        let x1 = if x0 + 1 <= f.width - 1 {
            x0 + 1
        } else {
            f.width - 1
        };
        let y1 = if y0 + 1 <= f.height - 1 {
            y0 + 1
        } else {
            f.height - 1
        };
        lemma_luma_in_range(b, g, r);
        let v = luma_spec(b, g, r) as u8;
        assert(gray_at(f, x0, y0) == v && gray_at(f, x1, y0) == v && gray_at(f, x0, y1) == v
            && gray_at(f, x1, y1) == v);
        lemma_blend_uniform(v, cx % 256, cy % 256);
    }
}

} // verus!
