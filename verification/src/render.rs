//! The renderer: from a glyph or a cell to the pixels to write and the
//! region of the panel to refresh.

use crate::glyph::{Glyph, GlyphMetrics, GlyphView};
use vstd::arithmetic::div_mod::{
    lemma_div_pos_is_pos, lemma_fundamental_div_mod_converse, lemma_mod_pos_bound,
    lemma_multiply_divide_lt,
};
use vstd::prelude::*;

verus! {

/// Coverage plus noise must exceed this value for a pixel to be inked.
pub const THRESHOLD: i64 = 128;

/// A position on the panel, in device pixels.
#[derive(Clone, Copy, Debug, PartialEq, Eq)]
pub struct Pixel {
    pub x: i64,
    pub y: i64,
}

/// A rectangle of the panel, in device pixels.
#[derive(Clone, Copy, Debug, PartialEq, Eq)]
pub struct PixelRect {
    pub left: i64,
    pub top: i64,
    pub width: u32,
    pub height: u32,
}

/// How the panel drives a refresh.
#[derive(Clone, Copy, Debug, PartialEq, Eq)]
pub enum Waveform {
    /// Quick, two-level update for frequent small changes.
    Fast,
    /// Slower, cleaner update that leaves no residue.
    Quality,
}

/// The value written to a pixel.
#[derive(Clone, Copy, Debug, PartialEq, Eq)]
pub enum Ink {
    Black,
    White,
}

/// A request to refresh one rectangle of the panel.
#[derive(Clone, Copy, Debug, PartialEq, Eq)]
pub struct RefreshRequest {
    pub rect: PixelRect,
    pub waveform: Waveform,
}

/// What one rendering step asks of the panel: the pixels to write, in the
/// order of writing, the value to write to each, and the refresh to issue
/// afterwards.
#[derive(Clone, Debug, PartialEq, Eq)]
pub struct Drawing {
    pub pixels: Vec<Pixel>,
    pub ink: Ink,
    pub refresh: RefreshRequest,
}

/// The rectangle with the given corner and size lies within the coordinates
/// that a `Pixel` can hold.
pub open spec fn fits(left: int, top: int, width: int, height: int) -> bool {
    &&& i64::MIN <= left
    &&& left + width <= i64::MAX
    &&& i64::MIN <= top
    &&& top + height <= i64::MAX
}

/// The pixel at position `k`, counted row by row, of a rectangle that is
/// `width` pixels wide and has its top-left corner at (`left`, `top`).
pub open spec fn pixel_at(left: int, top: int, width: int, k: int) -> Pixel {
    Pixel { x: (left + k % width) as i64, y: (top + k / width) as i64 }
}

/// Left edge of a glyph's bitmap in a cell whose left edge is at `x`.
pub open spec fn glyph_left(x: int, metrics: GlyphMetrics) -> int {
    x + metrics.xmin
}

/// Top edge of a glyph's bitmap in a cell whose top edge is at `y`: the
/// bitmap's bottom edge stands `ymin` above the cell's bottom edge.
pub open spec fn glyph_top(y: int, line_height: int, metrics: GlyphMetrics) -> int {
    y + line_height - metrics.height - metrics.ymin
}

/// Whether the pixel at position `k` of the bitmap is inked: its coverage
/// plus the noise at that position exceeds the threshold.
pub open spec fn inked(bitmap: Seq<u8>, noise: Seq<i32>, k: int) -> bool {
    bitmap[k] + noise[k] > THRESHOLD
}

/// The inked pixels among the first `n` positions of the bitmap, in the
/// order of their positions.
pub open spec fn ink_pixels(
    bitmap: Seq<u8>,
    noise: Seq<i32>,
    left: int,
    top: int,
    width: int,
    n: nat,
) -> Seq<Pixel>
    decreases n,
{
    if n == 0 {
        Seq::empty()
    } else {
        let before = ink_pixels(bitmap, noise, left, top, width, (n - 1) as nat);
        if inked(bitmap, noise, n - 1) {
            before.push(pixel_at(left, top, width, n - 1))
        } else {
            before
        }
    }
}

/// All pixels of a rectangle, row by row.
pub open spec fn rect_pixels(left: int, top: int, width: int, height: int) -> Seq<Pixel> {
    Seq::new((width * height) as nat, |k: int| pixel_at(left, top, width, k))
}

/// `r` is what rendering `glyph` gives, in the cell with top-left corner
/// (`x`, `y`) and height `line_height`, with the given noise: the inked
/// pixels in black and a fast refresh of the bitmap's rectangle, or nothing
/// where the noise has not one value per position or the rectangle does not
/// fit.
pub open spec fn drawn(
    x: int,
    y: int,
    line_height: int,
    glyph: GlyphView,
    noise: Seq<i32>,
    r: Option<Drawing>,
) -> bool {
    let left = glyph_left(x, glyph.metrics);
    let top = glyph_top(y, line_height, glyph.metrics);
    let width = glyph.metrics.width;
    let height = glyph.metrics.height;
    &&& r is Some <==> noise.len() == glyph.area() && fits(left, top, width as int, height as int)
    &&& r matches Some(d) ==> {
        &&& d.pixels@ == ink_pixels(glyph.bitmap, noise, left, top, width as int, glyph.area())
        &&& d.ink == Ink::Black
        &&& d.refresh == (RefreshRequest {
            rect: PixelRect { left: left as i64, top: top as i64, width, height },
            waveform: Waveform::Fast,
        })
    }
}

/// `r` is what clearing the rectangle gives: all its pixels in white and a
/// clean refresh of it, or nothing where the rectangle does not fit.
pub open spec fn cleared(x: int, y: int, width: u32, height: u32, r: Option<Drawing>) -> bool {
    &&& r is Some <==> fits(x, y, width as int, height as int)
    &&& r matches Some(d) ==> {
        &&& d.pixels@ == rect_pixels(x, y, width as int, height as int)
        &&& d.ink == Ink::White
        &&& d.refresh == (RefreshRequest {
            rect: PixelRect { left: x as i64, top: y as i64, width, height },
            waveform: Waveform::Quality,
        })
    }
}

/// Rendering is a function of the glyph, the cell and the noise: any two
/// results for the same arguments write the same pixels in the same order,
/// in the same ink, and ask for the same refresh.
pub proof fn lemma_draw_is_deterministic(
    x: int,
    y: int,
    line_height: int,
    glyph: GlyphView,
    noise: Seq<i32>,
    first: Option<Drawing>,
    second: Option<Drawing>,
)
    requires
        drawn(x, y, line_height, glyph, noise, first),
        drawn(x, y, line_height, glyph, noise, second),
    ensures
        first is Some <==> second is Some,
        first matches Some(a) ==> second matches Some(b) ==> a.pixels@ == b.pixels@ && a.ink
            == b.ink && a.refresh == b.refresh,
{
}

/// A pixel is written by a drawing exactly if it is the pixel of a position
/// whose coverage plus noise exceeds the threshold.
pub proof fn lemma_ink_pixels_contain(
    bitmap: Seq<u8>,
    noise: Seq<i32>,
    left: int,
    top: int,
    width: int,
    n: nat,
    p: Pixel,
)
    ensures
        ink_pixels(bitmap, noise, left, top, width, n).contains(p) <==> exists|k: int|
            0 <= k < n && inked(bitmap, noise, k) && p == #[trigger] pixel_at(left, top, width, k),
    decreases n,
{
    if n > 0 {
        let before = ink_pixels(bitmap, noise, left, top, width, (n - 1) as nat);
        let here = pixel_at(left, top, width, n - 1);
        lemma_ink_pixels_contain(bitmap, noise, left, top, width, (n - 1) as nat, p);
        if inked(bitmap, noise, n - 1) {
            let all = before.push(here);
            assert(all.last() == here);
            assert forall|i: int| 0 <= i < before.len() implies all[i] == before[i] by {}
            if before.contains(p) {
                let i = choose|i: int| 0 <= i < before.len() && before[i] == p;
                assert(all[i] == p);
            }
            if all.contains(p) {
                let i = choose|i: int| 0 <= i < all.len() && all[i] == p;
                if i < before.len() {
                    assert(before[i] == p);
                } else {
                    assert(p == pixel_at(left, top, width, n - 1));
                }
            }
            if p == here {
                assert(all[all.len() - 1] == p);
            }
        }
    }
}

/// Every position of a rectangle that fits has its pixel inside the
/// rectangle, so a drawing writes no pixel outside the region that it asks
/// to refresh.
pub proof fn lemma_pixel_in_rect(left: int, top: int, width: int, height: int, k: int)
    requires
        fits(left, top, width, height),
        0 <= width,
        0 <= height,
        0 <= k < width * height,
    ensures
        left <= pixel_at(left, top, width, k).x < left + width,
        top <= pixel_at(left, top, width, k).y < top + height,
{
    assert(0 < width) by (nonlinear_arith)
        requires
            0 <= width,
            0 < width * height,
    ;
    lemma_mod_pos_bound(k, width);
    lemma_div_pos_is_pos(k, width);
    lemma_multiply_divide_lt(k, width, height);
}

/// Position `row * width + col` of a rectangle is in row `row`, column `col`,
/// and comes before the rectangle's end.
proof fn lemma_position(row: int, col: int, width: int, height: int)
    requires
        0 <= row < height,
        0 <= col < width,
    ensures
        0 <= row * width + col < width * height,
        (row * width + col) / width == row,
        (row * width + col) % width == col,
{
    assert(0 <= row * width && row * width + width <= width * height) by (nonlinear_arith)
        requires
            0 <= row < height,
            0 < width,
    ;
    lemma_fundamental_div_mod_converse(row * width + col, width, row, col);
}

/// The first `row + 1` rows of a rectangle hold one row more than the first
/// `row`, and `height` rows hold all of it.
proof fn lemma_rows(row: int, width: int, height: int)
    ensures
        row * width + width == (row + 1) * width,
        height * width == width * height,
{
    assert(row * width + width == (row + 1) * width && height * width == width * height)
        by (nonlinear_arith);
}

/// Renders `glyph` into the cell whose top-left corner is at (`x`, `y`) and
/// whose height is `line_height`.
///
/// `noise` holds one value per bitmap position, row by row. A pixel is inked
/// where coverage plus noise exceeds [`THRESHOLD`]; the others are left as
/// they are. The drawing asks for a fast refresh of the bitmap's rectangle.
/// The result depends on the arguments alone: the same glyph and the same
/// noise give the same pixels.
///
/// Returns `None` where `noise` has not one value per position, or where the
/// bitmap's rectangle leaves the coordinates that a `Pixel` can hold.
pub fn draw_glyph(x: i64, y: i64, line_height: u32, glyph: &Glyph, noise: &[i32]) -> (r: Option<
    Drawing,
>)
    ensures
        glyph@.wf(),
        drawn(x as int, y as int, line_height as int, glyph@, noise@, r),
{
    let metrics: GlyphMetrics = glyph.metrics();
    let bitmap: &Vec<u8> = glyph.bitmap();
    let width: u32 = metrics.width;
    let height: u32 = metrics.height;
    if noise.len() != bitmap.len() {
        return None;
    }
    let wide_left: i128 = x as i128 + metrics.xmin as i128;
    let wide_top: i128 = y as i128 + line_height as i128 - height as i128 - metrics.ymin as i128;
    if wide_left < i64::MIN as i128 || wide_left + width as i128 > i64::MAX as i128 || wide_top
        < i64::MIN as i128 || wide_top + height as i128 > i64::MAX as i128 {
        return None;
    }
    let left: i64 = wide_left as i64;
    let top: i64 = wide_top as i64;
    let mut pixels: Vec<Pixel> = Vec::new();
    let mut row: u32 = 0;
    while row < height
        invariant
            row <= height,
            width == glyph@.metrics.width,
            height == glyph@.metrics.height,
            bitmap@ == glyph@.bitmap,
            bitmap@.len() <= usize::MAX,
            bitmap@.len() == width as nat * height as nat,
            noise@.len() == bitmap@.len(),
            fits(left as int, top as int, width as int, height as int),
            pixels@ == ink_pixels(
                bitmap@,
                noise@,
                left as int,
                top as int,
                width as int,
                (row * width) as nat,
            ),
        decreases height - row,
    {
        let mut col: u32 = 0;
        while col < width
            invariant
                row < height,
                col <= width,
                bitmap@.len() <= usize::MAX,
                bitmap@.len() == width as nat * height as nat,
                noise@.len() == bitmap@.len(),
                fits(left as int, top as int, width as int, height as int),
                pixels@ == ink_pixels(
                    bitmap@,
                    noise@,
                    left as int,
                    top as int,
                    width as int,
                    (row * width + col) as nat,
                ),
            decreases width - col,
        {
            proof {
                lemma_position(row as int, col as int, width as int, height as int);
            }
            let k: usize = (row as usize) * (width as usize) + (col as usize);
            let level: i64 = bitmap[k] as i64 + noise[k] as i64;
            if level > THRESHOLD {
                pixels.push(Pixel { x: left + col as i64, y: top + row as i64 });
            }
            col = col + 1;
        }
        proof {
            lemma_rows(row as int, width as int, height as int);
        }
        row = row + 1;
    }
    proof {
        lemma_rows(row as int, width as int, height as int);
    }
    let rect = PixelRect { left, top, width, height };
    Some(
        Drawing { pixels, ink: Ink::Black, refresh: RefreshRequest { rect, waveform: Waveform::Fast } },
    )
}

/// Clears the rectangle with top-left corner (`x`, `y`), `width` pixels wide
/// and `height` pixels high: every pixel of it is written white, row by row,
/// and the drawing asks for a clean refresh of that rectangle.
///
/// Returns `None` where the rectangle leaves the coordinates that a `Pixel`
/// can hold.
pub fn clear(x: i64, y: i64, width: u32, height: u32) -> (r: Option<Drawing>)
    ensures
        cleared(x as int, y as int, width, height, r),
{
    if x as i128 + width as i128 > i64::MAX as i128 || y as i128 + height as i128 > i64::MAX as i128 {
        return None;
    }
    let mut pixels: Vec<Pixel> = Vec::new();
    let mut row: u32 = 0;
    while row < height
        invariant
            row <= height,
            fits(x as int, y as int, width as int, height as int),
            pixels@ == Seq::new(
                (row * width) as nat,
                |k: int| pixel_at(x as int, y as int, width as int, k),
            ),
        decreases height - row,
    {
        let mut col: u32 = 0;
        while col < width
            invariant
                row < height,
                col <= width,
                fits(x as int, y as int, width as int, height as int),
                pixels@ == Seq::new(
                    (row * width + col) as nat,
                    |k: int| pixel_at(x as int, y as int, width as int, k),
                ),
            decreases width - col,
        {
            proof {
                lemma_position(row as int, col as int, width as int, height as int);
            }
            pixels.push(Pixel { x: x + col as i64, y: y + row as i64 });
            col = col + 1;
        }
        proof {
            lemma_rows(row as int, width as int, height as int);
        }
        row = row + 1;
    }
    proof {
        lemma_rows(row as int, width as int, height as int);
    }
    let rect = PixelRect { left: x, top: y, width, height };
    Some(
        Drawing {
            pixels,
            ink: Ink::White,
            refresh: RefreshRequest { rect, waveform: Waveform::Quality },
        },
    )
}

} // verus!
