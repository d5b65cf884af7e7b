//! The glyph rasterizer: coverage masks of laid-out glyphs, merged and
//! tinted into one RGBA image.

use vstd::prelude::*;
use crate::canvas::{lemma_cell_in_range, transparent, Pixel, PixelBuffer};

verus! {

/// The coverage mask of one glyph: one byte of ink per pixel, row by row.
#[derive(Debug)]
pub struct GlyphBitmap {
    pub width: u32,
    pub height: u32,
    pub coverage: Vec<u8>,
}

impl GlyphBitmap {
    /// One byte for each pixel of the mask.
    pub open spec fn wf(&self) -> bool {
        self.coverage@.len() == self.width * self.height
    }

    /// Whether `(gx, gy)` is a pixel of the mask.
    pub open spec fn in_bounds(&self, gx: int, gy: int) -> bool {
        0 <= gx < self.width && 0 <= gy < self.height
    }

    /// The ink at `(gx, gy)`, and none off the mask.
    pub open spec fn ink_at(&self, gx: int, gy: int) -> u8 {
        if self.in_bounds(gx, gy) {
            self.coverage@[gy * self.width + gx]
        } else {
            0
        }
    }
}

/// A glyph of a laid-out line: its mask, and where the top-left corner of
/// the mask stands in the line.
#[derive(Debug)]
pub struct Glyph {
    pub x: u32,
    pub y: u32,
    pub bitmap: GlyphBitmap,
}

impl Glyph {
    /// The ink that the glyph puts on the pixel `(px, py)` of the line.
    pub open spec fn ink(&self, px: int, py: int) -> u8 {
        self.bitmap.ink_at(px - self.x, py - self.y)
    }
}

/// The image of a rasterized line.
#[allow(non_camel_case_types)]
#[derive(Debug)]
pub struct layout_raster {
    pub width: u32,
    pub height: u32,
    pub buffer: PixelBuffer,
}

/// The higher of two coverage values.
pub open spec fn higher(a: u8, b: u8) -> u8 {
    if a >= b {
        a
    } else {
        b
    }
}

/// The coverage of the pixel `(px, py)` under all the glyphs: the highest
/// ink that any of them puts there, so that a later glyph never erases an
/// earlier one.
pub open spec fn coverage(glyphs: Seq<Glyph>, px: int, py: int) -> u8
    decreases glyphs.len(),
{
    if glyphs.len() == 0 {
        0
    } else {
        higher(coverage(glyphs.drop_last(), px, py), glyphs.last().ink(px, py))
    }
}

/// A covered pixel has the tint and its coverage as alpha; a pixel without
/// coverage is transparent black.
pub open spec fn tinted(r: u8, g: u8, b: u8, cover: u8) -> Pixel {
    if cover == 0 {
        transparent()
    } else {
        (r, g, b, cover)
    }
}

/// Adds one glyph to an image that holds tinted coverage: on every pixel
/// the coverage becomes the higher of what was there and the glyph's ink.
/// The part of the glyph off the image is dropped.
pub fn stamp_glyph(image: &mut PixelBuffer, glyph: &Glyph, r: u8, g: u8, b: u8)
    requires
        old(image).wf(),
        glyph.bitmap.wf(),
        forall|px: int, py: int|
            old(image).in_bounds(px, py) ==> old(image).pixel_at(px, py) == tinted(
                r,
                g,
                b,
                old(image).pixel_at(px, py).3,
            ),
    ensures
        final(image).wf(),
        final(image).spec_width() == old(image).spec_width(),
        final(image).spec_height() == old(image).spec_height(),
        forall|px: int, py: int|
            old(image).in_bounds(px, py) ==> final(image).pixel_at(px, py) == tinted(
                r,
                g,
                b,
                higher(old(image).pixel_at(px, py).3, glyph.ink(px, py)),
            ),
{
    let ghost before = *image;
    let w: u64 = image.width() as u64;
    let h: u64 = image.height() as u64;
    let x0: u64 = glyph.x as u64;
    let y0: u64 = glyph.y as u64;
    let gw: u64 = glyph.bitmap.width as u64;
    let right: u64 = x0 + gw;
    let below: u64 = y0 + glyph.bitmap.height as u64;
    let x1: u64 = if right < w { right } else { w };
    let y1: u64 = if below < h { below } else { h };
    let mut cy: u64 = y0;
    while cy < y1
        invariant
            y0 <= cy,
            cy <= y1 || cy == y0,
            y1 <= h,
            y1 <= y0 + glyph.bitmap.height,
            x1 <= w,
            x1 <= x0 + gw,
            x0 == glyph.x,
            y0 == glyph.y,
            gw == glyph.bitmap.width,
            w == before.spec_width(),
            h == before.spec_height(),
            glyph.bitmap.wf(),
            image.wf(),
            image.spec_width() == before.spec_width(),
            image.spec_height() == before.spec_height(),
            forall|px: int, py: int|
                before.in_bounds(px, py) ==> image.pixel_at(px, py) == if x0 <= px < x1 && y0
                    <= py < cy {
                    tinted(r, g, b, higher(before.pixel_at(px, py).3, glyph.ink(px, py)))
                } else {
                    before.pixel_at(px, py)
                },
        decreases y1 - cy,
    {
        let mut cx: u64 = x0;
        while cx < x1
            invariant
                y0 <= cy < y1,
                y1 <= h,
                y1 <= y0 + glyph.bitmap.height,
                x0 <= cx,
                x1 <= w,
                x1 <= x0 + gw,
                x0 == glyph.x,
                y0 == glyph.y,
                gw == glyph.bitmap.width,
                w == before.spec_width(),
                h == before.spec_height(),
                glyph.bitmap.wf(),
                image.wf(),
                image.spec_width() == before.spec_width(),
                image.spec_height() == before.spec_height(),
                forall|px: int, py: int|
                    before.in_bounds(px, py) ==> image.pixel_at(px, py) == if x0 <= px < x1 && (y0
                        <= py < cy || (py == cy && px < cx)) {
                        tinted(r, g, b, higher(before.pixel_at(px, py).3, glyph.ink(px, py)))
                    } else {
                        before.pixel_at(px, py)
                    },
            decreases x1 - cx,
        {
            let gx: u64 = cx - x0;
            let gy: u64 = cy - y0;
            let len: usize = glyph.bitmap.coverage.len();
            proof {
                lemma_cell_in_range(
                    gx as int,
                    gy as int,
                    glyph.bitmap.width as int,
                    glyph.bitmap.height as int,
                );
                assert(0 <= gy * gw) by (nonlinear_arith)
                    requires
                        0 <= gy,
                        0 <= gw,
                ;
                assert(gy * gw + gx < len);
                assert(before.in_bounds(cx as int, cy as int));
            }
            let at: usize = (gy as usize) * (gw as usize) + (gx as usize);
            let ink: u8 = glyph.bitmap.coverage[at];
            assert(ink == glyph.ink(cx as int, cy as int));
            let under: Pixel = image.pixel(cx as u32, cy as u32);
            let cover: u8 = if under.3 >= ink { under.3 } else { ink };
            let c: Pixel = if cover == 0 { (0u8, 0u8, 0u8, 0u8) } else { (r, g, b, cover) };
            image.set_pixel(cx as u32, cy as u32, c);
            cx = cx + 1;
        }
        cy = cy + 1;
    }
    proof {
        assert forall|px: int, py: int| before.in_bounds(px, py) implies image.pixel_at(px, py)
            == tinted(r, g, b, higher(before.pixel_at(px, py).3, glyph.ink(px, py))) by {
            assert(glyph.bitmap.in_bounds(px - glyph.x, py - glyph.y) <==> (x0 <= px < x1 && y0
                <= py < y1));
        }
    }
}

/// Rasterizes a laid-out line into one tinted image. The image is as wide
/// as the right edge of the last glyph and as high as the line; each pixel
/// that some glyph covers has the tint `(r, g, b)` with the coverage as
/// alpha, and every other pixel is transparent black.
pub fn layout_rasterize(glyphs: &Vec<Glyph>, line_height: u32, r: u8, g: u8, b: u8) -> (out:
    layout_raster)
    requires
        glyphs@.len() > 0,
        forall|i: int| 0 <= i < glyphs@.len() ==> (#[trigger] glyphs@[i]).bitmap.wf(),
        glyphs@.last().x + glyphs@.last().bitmap.width <= u32::MAX,
        (glyphs@.last().x + glyphs@.last().bitmap.width) * line_height * 4 <= usize::MAX,
    ensures
        out.width == glyphs@.last().x + glyphs@.last().bitmap.width,
        out.height == line_height,
        out.buffer.wf(),
        out.buffer.spec_width() == out.width,
        out.buffer.spec_height() == out.height,
        forall|px: int, py: int|
            out.buffer.in_bounds(px, py) ==> out.buffer.pixel_at(px, py) == tinted(
                r,
                g,
                b,
                coverage(glyphs@, px, py),
            ),
{
    let last: &Glyph = &glyphs[glyphs.len() - 1];
    let width: u32 = last.x + last.bitmap.width;
    let mut buffer = PixelBuffer::new(width, line_height, None);
    let mut k: usize = 0;
    while k < glyphs.len()
        invariant
            k <= glyphs@.len(),
            forall|i: int| 0 <= i < glyphs@.len() ==> (#[trigger] glyphs@[i]).bitmap.wf(),
            buffer.wf(),
            buffer.spec_width() == width,
            buffer.spec_height() == line_height,
            forall|px: int, py: int|
                buffer.in_bounds(px, py) ==> buffer.pixel_at(px, py) == tinted(
                    r,
                    g,
                    b,
                    coverage(glyphs@.take(k as int), px, py),
                ),
        decreases glyphs@.len() - k,
    {
        let ghost before = buffer;
        stamp_glyph(&mut buffer, &glyphs[k], r, g, b);
        proof {
            let next = glyphs@.take(k + 1);
            assert(next.drop_last() =~= glyphs@.take(k as int));
            assert(next.last() == glyphs@[k as int]);
            assert forall|px: int, py: int| buffer.in_bounds(px, py) implies buffer.pixel_at(
                px,
                py,
            ) == tinted(r, g, b, coverage(next, px, py)) by {
                assert(before.in_bounds(px, py));
                assert(before.pixel_at(px, py).3 == coverage(glyphs@.take(k as int), px, py));
            }
        }
        k = k + 1;
    }
    proof {
        assert(glyphs@.take(k as int) =~= glyphs@);
    }
    layout_raster { width, height: line_height, buffer }
}

} // verus!
