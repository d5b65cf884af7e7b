//! The placement rules of the distortion pipeline: the font size, the
//! jittered position of each character, and the glyph layer that these give
//! on a background.

use vstd::prelude::*;
use vstd::arithmetic::div_mod::lemma_basic_div;
use crate::canvas::{Pixel, PixelBuffer, Rect};
use crate::compose::{blend_over, overlaid_pixel, overlay};
use crate::glyph::layout_raster;

verus! {

/// Lowest channel of a background color.
pub const BACKGROUND_MIN: u32 = 160;

/// Highest channel of a background color.
pub const BACKGROUND_MAX: u32 = 210;

/// Lowest channel of a glyph tint or of a stroke color.
pub const INK_MIN: u32 = 0;

/// Highest channel of a glyph tint or of a stroke color.
pub const INK_MAX: u32 = 140;

/// Where a glyph stands whose jittered position fell left of the canvas.
pub const LEFT_MARGIN: i64 = 2;

/// Fewest occlusion strokes of one kind, straight or curved.
pub const STROKES_MIN: u32 = 1;

/// Most occlusion strokes of one kind, straight or curved.
pub const STROKES_MAX: u32 = 2;

/// Mean of the noise that is added to every channel of every pixel.
pub const NOISE_MEAN: u32 = 5;

/// Standard deviation of that noise.
pub const NOISE_DEVIATION: u32 = 15;

/// The font size for `chars` characters on a canvas of the given size: the
/// height, or the width of one character's share of the line, whichever is
/// less.
pub open spec fn font_size(height: u32, width: u32, chars: int) -> int {
    if height as int <= width as int / chars {
        height as int
    } else {
        width as int / chars
    }
}

/// With no more characters than the canvas has columns, and a canvas of
/// at least one row, the font size is at least 1.
pub proof fn lemma_font_size_positive(height: u32, width: u32, chars: u32)
    requires
        1 <= chars <= width,
        1 <= height,
    ensures
        font_size(height, width, chars as int) >= 1,
{
    assert(width as int / chars as int >= 1) by (nonlinear_arith)
        requires
            1 <= chars <= width,
    ;
}

/// The characters at the font size fit the canvas side by side, and each
/// fits its height.
pub proof fn lemma_font_size_fits(height: u32, width: u32, chars: u32)
    requires
        1 <= chars,
    ensures
        0 <= font_size(height, width, chars as int) <= height,
        font_size(height, width, chars as int) * chars <= width,
{
    let share = width as int / chars as int;
    assert(0 <= share && share * chars <= width) by (nonlinear_arith)
        requires
            share == width as int / chars as int,
            1 <= chars,
            0 <= width,
    ;
    let size = font_size(height, width, chars as int);
    assert(size * chars <= share * chars) by (nonlinear_arith)
        requires
            0 <= size <= share,
            1 <= chars,
    ;
}

/// Computes the font size for `chars` characters.
pub fn coerce_font_size(height: u32, width: u32, chars: u32) -> (size: u32)
    requires
        chars > 0,
    ensures
        size == font_size(height, width, chars as int),
        size <= height,
        size * chars <= width,
        chars <= width && height >= 1 ==> size >= 1,
{
    proof {
        lemma_font_size_fits(height, width, chars);
        if chars <= width && height >= 1 {
            lemma_font_size_positive(height, width, chars);
        }
    }
    let share: u32 = width / chars;
    if height <= share {
        height
    } else {
        share
    }
}

/// Computes the font size for a text of `chars` characters, however many:
/// more characters than a canvas can have columns leave no room, and the
/// size is 0.
pub fn text_font_size(height: u32, width: u32, chars: usize) -> (size: u32)
    requires
        chars > 0,
    ensures
        size == font_size(height, width, chars as int),
        size <= height,
        chars * size <= width,
        chars <= width && height >= 1 ==> size >= 1,
{
    if chars > u32::MAX as usize {
        proof {
            lemma_basic_div(width as int, chars as int);
        }
        0
    } else {
        let size: u32 = coerce_font_size(height, width, chars as u32);
        assert(chars * size == size * chars) by (nonlinear_arith);
        size
    }
}

/// How far, in pixels, a glyph may be moved to either side of its nominal
/// position: a sixth of the font size.
pub fn jitter_limit(font_size: u32) -> (limit: u32)
    ensures
        limit == font_size / 6,
        limit <= u32::MAX / 6,
{
    font_size / 6
}

/// The highest sample that stands for a jitter: the samples 0 to twice the
/// limit stand for the jitters from the limit to the left to the limit to
/// the right.
pub fn jitter_sample_max(limit: u32) -> (highest: u32)
    requires
        limit <= u32::MAX / 6,
    ensures
        highest == 2 * limit,
{
    2 * limit
}

/// The jitter that a sample stands for: the sample less the limit.
pub fn jitter_of_sample(limit: u32, sample: u32) -> (jitter: i32)
    requires
        limit <= u32::MAX / 6,
        sample <= 2 * limit,
    ensures
        jitter == sample - limit,
        -limit <= jitter <= limit,
{
    (sample as i64 - limit as i64) as i32
}

/// The highest coordinate at which a stroke may start or end along a side
/// of `extent` pixels: the last pixel of the side, and 0 on a side without
/// pixels.
pub fn stroke_limit(extent: u32) -> (highest: u32)
    ensures
        highest == if extent == 0 {
            0
        } else {
            extent - 1
        },
{
    if extent == 0 {
        0
    } else {
        extent - 1
    }
}

/// Whether `jitter` is within the limit for the font size, to the left or
/// to the right.
pub open spec fn jitter_allowed(font_size: u32, jitter: int) -> bool {
    -(font_size as int / 6) <= jitter <= font_size as int / 6
}

/// The column at which character `index` is composited: its nominal
/// position, `index` font sizes from the left, moved by `jitter`; a
/// position left of the canvas is replaced by the margin.
pub open spec fn glyph_left(index: int, font_size: int, jitter: int) -> int {
    if index * font_size + jitter < 0 {
        LEFT_MARGIN as int
    } else {
        index * font_size + jitter
    }
}

/// Computes the column of character `index`. It is never left of the
/// canvas, and with a jitter within the limit it is the margin or within
/// the limit of the nominal position.
pub fn glyph_x(index: usize, font_size: u32, jitter: i32) -> (x: i64)
    requires
        index * font_size <= u32::MAX,
    ensures
        x == glyph_left(index as int, font_size as int, jitter as int),
        x >= 0,
        jitter_allowed(font_size, jitter as int) ==> x == LEFT_MARGIN || (index * font_size
            - font_size / 6 <= x <= index * font_size + font_size / 6),
{
    let nominal: u64 = (index as u64) * (font_size as u64);
    let x: i64 = nominal as i64 + jitter as i64;
    if x < 0 {
        LEFT_MARGIN
    } else {
        x
    }
}

/// The highest row at which a glyph of the font size may be placed: the
/// room that the canvas leaves below it, and 0 where that room is no more
/// than one row.
pub fn glyph_y_limit(height: u32, font_size: u32) -> (limit: u32)
    ensures
        limit == if height - font_size <= 1 {
            0
        } else {
            height - font_size
        },
{
    if height <= font_size || height - font_size <= 1 {
        0
    } else {
        height - font_size
    }
}

/// A canvas of the given size, every pixel of the opaque color `color`.
pub fn background(width: u32, height: u32, color: (u8, u8, u8)) -> (canvas: PixelBuffer)
    requires
        width * height * 4 <= usize::MAX,
    ensures
        canvas.wf(),
        canvas.spec_width() == width,
        canvas.spec_height() == height,
        canvas.bytes().len() == width * height * 4,
        forall|px: int, py: int|
            canvas.in_bounds(px, py) ==> canvas.pixel_at(px, py) == (
                color.0,
                color.1,
                color.2,
                255u8,
            ),
{
    let mut canvas = PixelBuffer::new(width, height, None);
    let all = Rect { left: 0, top: 0, width, height };
    canvas.fill_rect(all, (color.0, color.1, color.2, 255u8));
    canvas
}

/// The random part of one character's placement: the horizontal jitter and
/// the row.
#[derive(Clone, Copy, Debug)]
pub struct Placement {
    pub jitter: i32,
    pub y: u32,
}

/// Composites the image of character `index` onto the canvas, at its
/// jittered column and at row `y`.
pub fn place_glyph(
    canvas: &mut PixelBuffer,
    image: &PixelBuffer,
    index: usize,
    font_size: u32,
    at: Placement,
)
    requires
        old(canvas).wf(),
        image.wf(),
        index * font_size <= u32::MAX,
    ensures
        final(canvas).wf(),
        final(canvas).spec_width() == old(canvas).spec_width(),
        final(canvas).spec_height() == old(canvas).spec_height(),
        forall|px: int, py: int|
            old(canvas).in_bounds(px, py) ==> final(canvas).pixel_at(px, py) == overlaid_pixel(
                *old(canvas),
                *image,
                glyph_left(index as int, font_size as int, at.jitter as int),
                at.y as int,
                px,
                py,
            ),
{
    let x: i64 = glyph_x(index, font_size, at.jitter);
    overlay(canvas, image, x, at.y as i64);
}

/// The pixel at `(px, py)` once the first `k` character images have been
/// composited, each at its placement, onto a canvas that held `base` there.
pub open spec fn glyph_layer(
    base: Pixel,
    images: Seq<layout_raster>,
    placements: Seq<Placement>,
    font_size: u32,
    k: nat,
    px: int,
    py: int,
) -> Pixel
    decreases k,
{
    if k == 0 {
        base
    } else {
        let i = k - 1;
        let under = glyph_layer(base, images, placements, font_size, i as nat, px, py);
        let x = glyph_left(i, font_size as int, placements[i].jitter as int);
        let y = placements[i].y as int;
        if images[i].buffer.in_bounds(px - x, py - y) {
            blend_over(under, images[i].buffer.pixel_at(px - x, py - y))
        } else {
            under
        }
    }
}

/// Composites the character images onto the canvas in order, the first at
/// the left. The size of the canvas stays.
pub fn draw_glyphs(
    canvas: &mut PixelBuffer,
    images: &Vec<layout_raster>,
    placements: &Vec<Placement>,
    font_size: u32,
)
    requires
        old(canvas).wf(),
        images@.len() == placements@.len(),
        images@.len() * font_size <= u32::MAX,
        forall|i: int| 0 <= i < images@.len() ==> (#[trigger] images@[i]).buffer.wf(),
    ensures
        final(canvas).wf(),
        final(canvas).spec_width() == old(canvas).spec_width(),
        final(canvas).spec_height() == old(canvas).spec_height(),
        final(canvas).bytes().len() == old(canvas).bytes().len(),
        forall|px: int, py: int|
            old(canvas).in_bounds(px, py) ==> final(canvas).pixel_at(px, py) == glyph_layer(
                old(canvas).pixel_at(px, py),
                images@,
                placements@,
                font_size,
                images@.len(),
                px,
                py,
            ),
{
    let ghost before = *canvas;
    let mut k: usize = 0;
    while k < images.len()
        invariant
            k <= images@.len(),
            images@.len() == placements@.len(),
            images@.len() * font_size <= u32::MAX,
            forall|i: int| 0 <= i < images@.len() ==> (#[trigger] images@[i]).buffer.wf(),
            canvas.wf(),
            canvas.spec_width() == before.spec_width(),
            canvas.spec_height() == before.spec_height(),
            forall|px: int, py: int|
                before.in_bounds(px, py) ==> canvas.pixel_at(px, py) == glyph_layer(
                    before.pixel_at(px, py),
                    images@,
                    placements@,
                    font_size,
                    k as nat,
                    px,
                    py,
                ),
        decreases images@.len() - k,
    {
        proof {
            assert(k * font_size <= images@.len() * font_size) by (nonlinear_arith)
                requires
                    k <= images@.len(),
                    0 <= font_size,
            ;
        }
        let ghost under = *canvas;
        place_glyph(canvas, &images[k].buffer, k, font_size, placements[k]);
        proof {
            assert forall|px: int, py: int| before.in_bounds(px, py) implies canvas.pixel_at(
                px,
                py,
            ) == glyph_layer(
                before.pixel_at(px, py),
                images@,
                placements@,
                font_size,
                (k + 1) as nat,
                px,
                py,
            ) by {
                assert(under.in_bounds(px, py));
            }
        }
        k = k + 1;
    }
}

/// The first stages of a challenge image: a canvas of the given size in
/// the opaque color `paper`, and on it the images of the characters, one
/// for each character of the challenge, at the font size that the canvas
/// and their number give. The canvas has four bytes for each of its
/// `width * height` pixels, whatever the images and placements are.
pub fn draw_text(
    width: u32,
    height: u32,
    paper: (u8, u8, u8),
    images: &Vec<layout_raster>,
    placements: &Vec<Placement>,
) -> (canvas: PixelBuffer)
    requires
        width * height * 4 <= usize::MAX,
        1 <= images@.len(),
        images@.len() == placements@.len(),
        forall|i: int| 0 <= i < images@.len() ==> (#[trigger] images@[i]).buffer.wf(),
    ensures
        canvas.wf(),
        canvas.spec_width() == width,
        canvas.spec_height() == height,
        canvas.bytes().len() == width * height * 4,
        forall|px: int, py: int|
            canvas.in_bounds(px, py) ==> canvas.pixel_at(px, py) == glyph_layer(
                (paper.0, paper.1, paper.2, 255u8),
                images@,
                placements@,
                font_size(height, width, images@.len() as int) as u32,
                images@.len(),
                px,
                py,
            ),
{
    let size: u32 = text_font_size(height, width, images.len());
    let mut canvas = background(width, height, paper);
    draw_glyphs(&mut canvas, images, placements, size);
    canvas
}

/// Two canvases that `draw_text` may give for one size, paper, list of
/// images and list of placements hold the same bytes.
pub proof fn lemma_draw_text_deterministic(
    width: u32,
    height: u32,
    paper: (u8, u8, u8),
    images: Seq<layout_raster>,
    placements: Seq<Placement>,
    first: PixelBuffer,
    second: PixelBuffer,
)
    requires
        first.wf(),
        second.wf(),
        first.spec_width() == width && second.spec_width() == width,
        first.spec_height() == height && second.spec_height() == height,
        forall|px: int, py: int|
            first.in_bounds(px, py) ==> first.pixel_at(px, py) == glyph_layer(
                (paper.0, paper.1, paper.2, 255u8),
                images,
                placements,
                font_size(height, width, images.len() as int) as u32,
                images.len(),
                px,
                py,
            ),
        forall|px: int, py: int|
            second.in_bounds(px, py) ==> second.pixel_at(px, py) == glyph_layer(
                (paper.0, paper.1, paper.2, 255u8),
                images,
                placements,
                font_size(height, width, images.len() as int) as u32,
                images.len(),
                px,
                py,
            ),
    ensures
        first.bytes() == second.bytes(),
{
    assert forall|px: int, py: int| first.in_bounds(px, py) implies first.pixel_at(px, py)
        == second.pixel_at(px, py) by {
        assert(second.in_bounds(px, py));
    }
    first.lemma_same_pixels_same_bytes(&second);
}

/// The glyph layer is a function of what goes in: from canvases that hold
/// the same bytes, with the same character images, placements and font
/// size, compositing gives canvases that hold the same bytes.
pub proof fn lemma_glyph_layer_deterministic(
    first: PixelBuffer,
    second: PixelBuffer,
    images: Seq<layout_raster>,
    placements: Seq<Placement>,
    font_size: u32,
    first_out: PixelBuffer,
    second_out: PixelBuffer,
)
    requires
        first_out.wf(),
        second_out.wf(),
        first.spec_width() == second.spec_width(),
        first.spec_height() == second.spec_height(),
        first.bytes() == second.bytes(),
        first_out.spec_width() == first.spec_width(),
        first_out.spec_height() == first.spec_height(),
        second_out.spec_width() == second.spec_width(),
        second_out.spec_height() == second.spec_height(),
        forall|px: int, py: int|
            first.in_bounds(px, py) ==> first_out.pixel_at(px, py) == glyph_layer(
                first.pixel_at(px, py),
                images,
                placements,
                font_size,
                images.len(),
                px,
                py,
            ),
        forall|px: int, py: int|
            second.in_bounds(px, py) ==> second_out.pixel_at(px, py) == glyph_layer(
                second.pixel_at(px, py),
                images,
                placements,
                font_size,
                images.len(),
                px,
                py,
            ),
    ensures
        first_out.bytes() == second_out.bytes(),
{
    assert forall|px: int, py: int| first_out.in_bounds(px, py) implies first_out.pixel_at(px, py)
        == second_out.pixel_at(px, py) by {
        assert(first.in_bounds(px, py) && second.in_bounds(px, py));
        assert(first.pixel_at(px, py) == second.pixel_at(px, py));
    }
    first_out.lemma_same_pixels_same_bytes(&second_out);
}

} // verus!
