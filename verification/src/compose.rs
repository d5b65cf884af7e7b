//! Alpha compositing of one canvas onto another at a signed offset.

use vstd::prelude::*;
use crate::canvas::{Pixel, PixelBuffer};

verus! {

/// What `image`'s `Pixel::blend` leaves in an 8-bit RGBA pixel `bottom` when
/// `top` is blended onto it and the alpha of `top` is neither 0 nor 255. The
/// blend is computed there in single-precision arithmetic; here it has only
/// a name.
pub uninterp spec fn blended(bottom: (u8, u8, u8, u8), top: (u8, u8, u8, u8)) -> (u8, u8, u8, u8);

/// "Over" compositing of one pixel onto another: a transparent top pixel
/// leaves the bottom one, an opaque top pixel replaces it, anything between
/// mixes the two.
pub open spec fn blend_over(bottom: Pixel, top: Pixel) -> Pixel {
    if top.3 == 0 {
        bottom
    } else if top.3 == 255 {
        top
    } else {
        blended(bottom, top)
    }
}

/// Calls `image::Pixel::blend` on `image::Rgba<u8>`. Trusted: the result is
/// `bottom` where the alpha of `top` is 0, `top` where it is 255 (the two
/// early returns of that method), and otherwise a function of the two
/// pixels alone, named `blended`.
#[verifier::external_body]
pub(crate) fn blend(bottom: Pixel, top: Pixel) -> (r: Pixel)
    ensures
        r == blend_over(bottom, top),
        0 < top.3 < 255 ==> r == blended(bottom, top),
{
    let mut under = image::Rgba([bottom.0, bottom.1, bottom.2, bottom.3]);
    image::Pixel::blend(&mut under, &image::Rgba([top.0, top.1, top.2, top.3]));
    (under.0[0], under.0[1], under.0[2], under.0[3])
}

/// The pixel that `overlay` leaves at `(px, py)` of the bottom canvas, with
/// the top canvas placed at `(x, y)`: blended where the top canvas covers
/// it, as before elsewhere.
pub open spec fn overlaid_pixel(
    bottom: PixelBuffer,
    top: PixelBuffer,
    x: int,
    y: int,
    px: int,
    py: int,
) -> Pixel {
    if top.in_bounds(px - x, py - y) {
        blend_over(bottom.pixel_at(px, py), top.pixel_at(px - x, py - y))
    } else {
        bottom.pixel_at(px, py)
    }
}

/// Whether every pixel of the canvas is fully transparent.
pub open spec fn fully_transparent(top: PixelBuffer) -> bool {
    forall|tx: int, ty: int| top.in_bounds(tx, ty) ==> (#[trigger] top.pixel_at(tx, ty)).3 == 0
}

/// Blends `top` onto `bottom` with its top-left corner at `(x, y)`. The
/// offset is signed and the part of `top` that falls off `bottom` is
/// dropped, so every offset is accepted. A fully transparent `top` leaves
/// every byte of `bottom`; an opaque pixel of `top` replaces the one below.
pub fn overlay(bottom: &mut PixelBuffer, top: &PixelBuffer, x: i64, y: i64)
    requires
        old(bottom).wf(),
        top.wf(),
    ensures
        final(bottom).wf(),
        final(bottom).spec_width() == old(bottom).spec_width(),
        final(bottom).spec_height() == old(bottom).spec_height(),
        forall|px: int, py: int|
            old(bottom).in_bounds(px, py) ==> final(bottom).pixel_at(px, py) == overlaid_pixel(
                *old(bottom),
                *top,
                x as int,
                y as int,
                px,
                py,
            ),
        forall|px: int, py: int|
            old(bottom).in_bounds(px, py) && !top.in_bounds(px - x, py - y)
                ==> final(bottom).pixel_at(px, py) == old(bottom).pixel_at(px, py),
        forall|px: int, py: int|
            old(bottom).in_bounds(px, py) && top.in_bounds(px - x, py - y) && top.pixel_at(
                px - x,
                py - y,
            ).3 == 255 ==> final(bottom).pixel_at(px, py) == top.pixel_at(px - x, py - y),
        fully_transparent(*top) ==> final(bottom).bytes() == old(bottom).bytes(),
{
    let ghost before = *bottom;
    let bw: i128 = bottom.width() as i128;
    let bh: i128 = bottom.height() as i128;
    let ox: i128 = x as i128;
    let oy: i128 = y as i128;
    let right: i128 = ox + top.width() as i128;
    let below: i128 = oy + top.height() as i128;
    let x0: i128 = if ox < 0 { 0 } else { ox };
    let y0: i128 = if oy < 0 { 0 } else { oy };
    let x1: i128 = if right < bw { right } else { bw };
    let y1: i128 = if below < bh { below } else { bh };
    let mut cy: i128 = y0;
    while cy < y1
        invariant
            0 <= y0 <= cy,
            cy <= y1 || cy == y0,
            y1 <= bh,
            y1 <= oy + top.spec_height(),
            0 <= x0,
            ox <= x0,
            oy <= y0,
            x1 <= bw,
            x1 <= ox + top.spec_width(),
            ox == x,
            oy == y,
            bw == before.spec_width(),
            bh == before.spec_height(),
            top.wf(),
            bottom.wf(),
            bottom.spec_width() == before.spec_width(),
            bottom.spec_height() == before.spec_height(),
            forall|px: int, py: int|
                before.in_bounds(px, py) ==> bottom.pixel_at(px, py) == if x0 <= px < x1 && y0
                    <= py < cy {
                    blend_over(before.pixel_at(px, py), top.pixel_at(px - x, py - y))
                } else {
                    before.pixel_at(px, py)
                },
        decreases y1 - cy,
    {
        let mut cx: i128 = x0;
        while cx < x1
            invariant
                0 <= y0 <= cy < y1,
                y1 <= bh,
                y1 <= oy + top.spec_height(),
                0 <= x0 <= cx,
                ox <= x0,
                oy <= y0,
                x1 <= bw,
                x1 <= ox + top.spec_width(),
                ox == x,
                oy == y,
                bw == before.spec_width(),
                bh == before.spec_height(),
                top.wf(),
                bottom.wf(),
                bottom.spec_width() == before.spec_width(),
                bottom.spec_height() == before.spec_height(),
                forall|px: int, py: int|
                    before.in_bounds(px, py) ==> bottom.pixel_at(px, py) == if x0 <= px < x1 && (y0
                        <= py < cy || (py == cy && px < cx)) {
                        blend_over(before.pixel_at(px, py), top.pixel_at(px - x, py - y))
                    } else {
                        before.pixel_at(px, py)
                    },
            decreases x1 - cx,
        {
            assert(before.in_bounds(cx as int, cy as int));
            let under: Pixel = bottom.pixel(cx as u32, cy as u32);
            let over: Pixel = top.pixel((cx - ox) as u32, (cy - oy) as u32);
            let mixed: Pixel = blend(under, over);
            bottom.set_pixel(cx as u32, cy as u32, mixed);
            cx = cx + 1;
        }
        cy = cy + 1;
    }
    proof {
        assert forall|px: int, py: int| before.in_bounds(px, py) implies bottom.pixel_at(px, py)
            == overlaid_pixel(before, *top, x as int, y as int, px, py) by {
            assert(top.in_bounds(px - x, py - y) <==> (x0 <= px < x1 && y0 <= py < y1));
        }
        if fully_transparent(*top) {
            assert forall|px: int, py: int| bottom.in_bounds(px, py) implies bottom.pixel_at(
                px,
                py,
            ) == before.pixel_at(px, py) by {
                assert(before.in_bounds(px, py));
                if top.in_bounds(px - x, py - y) {
                    assert(top.pixel_at(px - x, py - y).3 == 0);
                }
            }
            bottom.lemma_same_pixels_same_bytes(&before);
        }
    }
}

} // verus!
