//! An owned RGBA canvas: row-major bytes, four per pixel.

use vstd::prelude::*;
use vstd::arithmetic::div_mod::*;

verus! {

/// One pixel: red, green, blue, alpha.
pub type Pixel = (u8, u8, u8, u8);

/// The pixel that a fresh canvas holds when no fill is given.
pub open spec fn transparent() -> Pixel {
    (0u8, 0u8, 0u8, 0u8)
}

/// Channel `k` of a pixel: 0 is red, 1 green, 2 blue, anything else alpha.
pub open spec fn channel(c: Pixel, k: int) -> u8 {
    if k == 0 {
        c.0
    } else if k == 1 {
        c.1
    } else if k == 2 {
        c.2
    } else {
        c.3
    }
}

/// A cell `(x, y)` of a grid of `w` columns and `h` rows has a row-major
/// index below `w * h`.
pub proof fn lemma_cell_in_range(x: int, y: int, w: int, h: int)
    requires
        0 <= x < w,
        0 <= y < h,
    ensures
        0 <= y * w + x < w * h,
{
    assert(0 <= y * w) by (nonlinear_arith)
        requires
            0 <= y,
            0 <= w,
    ;
    assert((y + 1) * w <= h * w) by (nonlinear_arith)
        requires
            y + 1 <= h,
            0 <= w,
    ;
    assert((y + 1) * w == y * w + w) by (nonlinear_arith);
    assert(h * w == w * h) by (nonlinear_arith);
}

/// Two different cells of a grid of `w` columns have different row-major
/// indices.
pub proof fn lemma_cell_distinct(x1: int, y1: int, x2: int, y2: int, w: int)
    requires
        0 <= x1 < w,
        0 <= x2 < w,
        0 <= y1,
        0 <= y2,
        x1 != x2 || y1 != y2,
    ensures
        y1 * w + x1 != y2 * w + x2,
{
    if y1 < y2 {
        assert((y1 + 1) * w <= y2 * w) by (nonlinear_arith)
            requires
                y1 + 1 <= y2,
                0 <= w,
        ;
        assert((y1 + 1) * w == y1 * w + w) by (nonlinear_arith);
    } else if y2 < y1 {
        assert((y2 + 1) * w <= y1 * w) by (nonlinear_arith)
            requires
                y2 + 1 <= y1,
                0 <= w,
        ;
        assert((y2 + 1) * w == y2 * w + w) by (nonlinear_arith);
    }
}

/// Every index below `w * h` is the row-major index of one cell of the grid.
pub proof fn lemma_index_is_cell(p: int, w: int, h: int)
    requires
        0 <= p < w * h,
        0 <= w,
        0 <= h,
    ensures
        0 <= p % w < w,
        0 <= p / w < h,
        (p / w) * w + p % w == p,
{
    assert(w > 0) by (nonlinear_arith)
        requires
            0 <= p < w * h,
            0 <= w,
    ;
    lemma_fundamental_div_mod(p, w);
    lemma_mod_pos_bound(p, w);
    let q = p / w;
    assert(w * q == q * w) by (nonlinear_arith);
    assert(0 <= q) by (nonlinear_arith)
        requires
            q * w + p % w == p,
            0 <= p,
            0 <= p % w < w,
    ;
    assert(q < h) by (nonlinear_arith)
        requires
            q * w + p % w == p,
            p < w * h,
            0 <= p % w,
            0 < w,
    ;
}

/// A rectangle on the integer grid, by its top-left corner and its size.
#[derive(Clone, Copy, Debug)]
pub struct Rect {
    pub left: i32,
    pub top: i32,
    pub width: u32,
    pub height: u32,
}

impl Rect {
    /// Whether the rectangle covers the cell `(x, y)`.
    pub open spec fn contains(&self, x: int, y: int) -> bool {
        &&& self.left <= x < self.left + self.width
        &&& self.top <= y < self.top + self.height
    }
}

/// A canvas of `width` by `height` pixels.
#[derive(Debug)]
pub struct PixelBuffer {
    width: u32,
    height: u32,
    data: Vec<u8>,
}

impl PixelBuffer {
    /// The number of columns.
    pub closed spec fn spec_width(&self) -> u32 {
        self.width
    }

    /// The number of rows.
    pub closed spec fn spec_height(&self) -> u32 {
        self.height
    }

    /// The raw bytes, row by row, four per pixel.
    pub closed spec fn bytes(&self) -> Seq<u8> {
        self.data@
    }

    /// The invariant of the type: four bytes for each pixel, no more.
    pub open spec fn wf(&self) -> bool {
        self.bytes().len() == self.spec_width() * self.spec_height() * 4
    }

    /// Whether `(x, y)` is a pixel of the canvas.
    pub open spec fn in_bounds(&self, x: int, y: int) -> bool {
        0 <= x < self.spec_width() && 0 <= y < self.spec_height()
    }

    /// The pixel at column `x` of row `y`.
    pub open spec fn pixel_at(&self, x: int, y: int) -> Pixel {
        let i = (y * self.spec_width() + x) * 4;
        (self.bytes()[i], self.bytes()[i + 1], self.bytes()[i + 2], self.bytes()[i + 3])
    }

    /// Two canvases of one size that agree on every pixel.
    pub open spec fn same_pixels(&self, other: &PixelBuffer) -> bool {
        &&& self.spec_width() == other.spec_width()
        &&& self.spec_height() == other.spec_height()
        &&& forall|x: int, y: int|
            self.in_bounds(x, y) ==> self.pixel_at(x, y) == other.pixel_at(x, y)
    }

    /// Canvases that agree on every pixel agree on every byte.
    pub proof fn lemma_same_pixels_same_bytes(&self, other: &PixelBuffer)
        requires
            self.wf(),
            other.wf(),
            self.same_pixels(other),
        ensures
            self.bytes() == other.bytes(),
    {
        let w = self.spec_width() as int;
        let h = self.spec_height() as int;
        assert(self.bytes().len() == other.bytes().len());
        assert forall|i: int| 0 <= i < self.bytes().len() implies self.bytes()[i]
            == other.bytes()[i] by {
            let p = i / 4;
            let c = i % 4;
            assert(0 <= p < w * h);
            lemma_index_is_cell(p, w, h);
            let x = p % w;
            let y = p / w;
            assert(self.in_bounds(x, y));
            assert(self.pixel_at(x, y) == other.pixel_at(x, y));
            assert((y * w + x) * 4 + c == i);
        }
        assert(self.bytes() =~= other.bytes());
    }

    /// A canvas of the given size, every pixel set to `fill`, or to
    /// transparent black where no fill is given.
    pub fn new(width: u32, height: u32, fill: Option<Pixel>) -> (r: PixelBuffer)
        requires
            width * height * 4 <= usize::MAX,
        ensures
            r.wf(),
            r.spec_width() == width,
            r.spec_height() == height,
            forall|x: int, y: int|
                r.in_bounds(x, y) ==> r.pixel_at(x, y) == match fill {
                    Some(c) => c,
                    None => transparent(),
                },
    {
        let c: Pixel = match fill {
            Some(c) => c,
            None => (0u8, 0u8, 0u8, 0u8),
        };
        assert(width * height <= width * height * 4) by (nonlinear_arith);
        let n: usize = (width as usize) * (height as usize);
        let mut data: Vec<u8> = Vec::new();
        let mut k: usize = 0;
        while k < n
            invariant
                k <= n,
                n * 4 <= usize::MAX,
                data@.len() == k * 4,
                forall|i: int| 0 <= i < data@.len() ==> data@[i] == channel(c, i % 4),
            decreases n - k,
        {
            data.push(c.0);
            data.push(c.1);
            data.push(c.2);
            data.push(c.3);
            k = k + 1;
        }
        let r = PixelBuffer { width, height, data };
        proof {
            assert forall|x: int, y: int| r.in_bounds(x, y) implies r.pixel_at(x, y) == c by {
                lemma_cell_in_range(x, y, width as int, height as int);
            }
        }
        r
    }

    /// A canvas over bytes that are already laid out row by row; `None`
    /// where their number is not four per pixel.
    pub fn from_raw(width: u32, height: u32, data: Vec<u8>) -> (r: Option<PixelBuffer>)
        ensures
            r.is_some() <==> data@.len() == width * height * 4,
            r.is_some() ==> r.unwrap().wf() && r.unwrap().spec_width() == width
                && r.unwrap().spec_height() == height && r.unwrap().bytes() == data@,
    {
        assert(width * height * 4 <= 0xffff_ffff * 0xffff_ffff * 4) by (nonlinear_arith)
            requires
                0 <= width <= 0xffff_ffff,
                0 <= height <= 0xffff_ffff,
        ;
        let want: u128 = (width as u128) * (height as u128) * 4;
        if data.len() as u128 == want {
            Some(PixelBuffer { width, height, data })
        } else {
            None
        }
    }

    /// The number of columns.
    #[verifier::when_used_as_spec(spec_width)]
    pub fn width(&self) -> (w: u32)
        ensures
            w == self.spec_width(),
    {
        self.width
    }

    /// The number of rows.
    #[verifier::when_used_as_spec(spec_height)]
    pub fn height(&self) -> (h: u32)
        ensures
            h == self.spec_height(),
    {
        self.height
    }

    /// The raw bytes, borrowed.
    pub fn as_raw(&self) -> (r: &Vec<u8>)
        ensures
            r@ == self.bytes(),
    {
        &self.data
    }

    /// The raw bytes, the canvas given up.
    pub fn into_raw(self) -> (r: Vec<u8>)
        ensures
            r@ == self.bytes(),
    {
        self.data
    }

    /// Reads a pixel that the caller has shown to lie on the canvas.
    pub(crate) fn pixel(&self, x: u32, y: u32) -> (c: Pixel)
        requires
            self.wf(),
            self.in_bounds(x as int, y as int),
        ensures
            c == self.pixel_at(x as int, y as int),
    {
        let len: usize = self.data.len();
        proof {
            lemma_cell_in_range(x as int, y as int, self.width as int, self.height as int);
            assert(0 <= y * self.width) by (nonlinear_arith);
            assert((y * self.width + x) * 4 + 3 < len);
        }
        let i: usize = ((y as usize) * (self.width as usize) + (x as usize)) * 4;
        (self.data[i], self.data[i + 1], self.data[i + 2], self.data[i + 3])
    }

    /// Writes a pixel that the caller has shown to lie on the canvas; every
    /// other pixel stays as it was.
    pub(crate) fn set_pixel(&mut self, x: u32, y: u32, c: Pixel)
        requires
            old(self).wf(),
            old(self).in_bounds(x as int, y as int),
        ensures
            final(self).wf(),
            final(self).spec_width() == old(self).spec_width(),
            final(self).spec_height() == old(self).spec_height(),
            forall|px: int, py: int|
                old(self).in_bounds(px, py) ==> final(self).pixel_at(px, py) == if px == x && py
                    == y {
                    c
                } else {
                    old(self).pixel_at(px, py)
                },
    {
        let len: usize = self.data.len();
        proof {
            lemma_cell_in_range(x as int, y as int, self.width as int, self.height as int);
            assert(0 <= y * self.width) by (nonlinear_arith);
            assert((y * self.width + x) * 4 + 3 < len);
        }
        let ghost w = self.width as int;
        let ghost h = self.height as int;
        let ghost before = self.data@;
        let i: usize = ((y as usize) * (self.width as usize) + (x as usize)) * 4;
        self.data.set(i, c.0);
        self.data.set(i + 1, c.1);
        self.data.set(i + 2, c.2);
        self.data.set(i + 3, c.3);
        proof {
            assert forall|px: int, py: int| 0 <= px < w && 0 <= py < h implies self.pixel_at(
                px,
                py,
            ) == if px == x && py == y {
                c
            } else {
                (
                    before[(py * w + px) * 4],
                    before[(py * w + px) * 4 + 1],
                    before[(py * w + px) * 4 + 2],
                    before[(py * w + px) * 4 + 3],
                )
            } by {
                lemma_cell_in_range(px, py, w, h);
                if px != x || py != y {
                    lemma_cell_distinct(px, py, x as int, y as int, w);
                }
            }
        }
    }

    /// The pixel at `(x, y)`, or `None` off the canvas.
    pub fn get_pixel(&self, x: u32, y: u32) -> (r: Option<Pixel>)
        requires
            self.wf(),
        ensures
            r == if self.in_bounds(x as int, y as int) {
                Some(self.pixel_at(x as int, y as int))
            } else {
                None
            },
    {
        if x < self.width && y < self.height {
            Some(self.pixel(x, y))
        } else {
            None
        }
    }

    /// Writes `c` at `(x, y)` and says whether the pixel lies on the canvas;
    /// off the canvas nothing is written.
    pub fn put_pixel(&mut self, x: u32, y: u32, c: Pixel) -> (written: bool)
        requires
            old(self).wf(),
        ensures
            final(self).wf(),
            final(self).spec_width() == old(self).spec_width(),
            final(self).spec_height() == old(self).spec_height(),
            written == old(self).in_bounds(x as int, y as int),
            !written ==> final(self).bytes() == old(self).bytes(),
            forall|px: int, py: int|
                old(self).in_bounds(px, py) ==> final(self).pixel_at(px, py) == if px == x && py
                    == y {
                    c
                } else {
                    old(self).pixel_at(px, py)
                },
    {
        if x < self.width && y < self.height {
            self.set_pixel(x, y, c);
            true
        } else {
            false
        }
    }

    /// Paints `color` on every pixel that `rect` covers. The part of `rect`
    /// off the canvas is ignored, so a rectangle that misses the canvas
    /// changes nothing.
    pub fn fill_rect(&mut self, rect: Rect, color: Pixel)
        requires
            old(self).wf(),
        ensures
            final(self).wf(),
            final(self).spec_width() == old(self).spec_width(),
            final(self).spec_height() == old(self).spec_height(),
            forall|px: int, py: int|
                old(self).in_bounds(px, py) ==> final(self).pixel_at(px, py) == if rect.contains(
                    px,
                    py,
                ) {
                    color
                } else {
                    old(self).pixel_at(px, py)
                },
            (forall|px: int, py: int| old(self).in_bounds(px, py) ==> !rect.contains(px, py))
                ==> final(self).bytes() == old(self).bytes(),
    {
        let ghost before = *self;
        let w: i64 = self.width as i64;
        let h: i64 = self.height as i64;
        let left: i64 = rect.left as i64;
        let top: i64 = rect.top as i64;
        let right: i64 = left + rect.width as i64;
        let bottom: i64 = top + rect.height as i64;
        let x0: i64 = if left < 0 { 0 } else { left };
        let y0: i64 = if top < 0 { 0 } else { top };
        let x1: i64 = if right < w { right } else { w };
        let y1: i64 = if bottom < h { bottom } else { h };
        let mut y: i64 = y0;
        while y < y1
            invariant
                0 <= y0 <= y,
                y <= y1 || y == y0,
                y1 <= h,
                0 <= x0,
                x1 <= w,
                w == before.spec_width(),
                h == before.spec_height(),
                self.wf(),
                self.spec_width() == before.spec_width(),
                self.spec_height() == before.spec_height(),
                forall|px: int, py: int|
                    before.in_bounds(px, py) ==> self.pixel_at(px, py) == if x0 <= px < x1 && y0
                        <= py < y {
                        color
                    } else {
                        before.pixel_at(px, py)
                    },
            decreases y1 - y,
        {
            let mut x: i64 = x0;
            while x < x1
                invariant
                    0 <= y0 <= y < y1,
                    y1 <= h,
                    0 <= x0 <= x,
                    x1 <= w,
                    w == before.spec_width(),
                    h == before.spec_height(),
                    self.wf(),
                    self.spec_width() == before.spec_width(),
                    self.spec_height() == before.spec_height(),
                    forall|px: int, py: int|
                        before.in_bounds(px, py) ==> self.pixel_at(px, py) == if x0 <= px < x1 && (
                        y0 <= py < y || (py == y && px < x)) {
                            color
                        } else {
                            before.pixel_at(px, py)
                        },
                decreases x1 - x,
            {
                self.set_pixel(x as u32, y as u32, color);
                x = x + 1;
            }
            y = y + 1;
        }
        proof {
            if forall|px: int, py: int| before.in_bounds(px, py) ==> !rect.contains(px, py) {
                assert forall|x: int, y: int| self.in_bounds(x, y) implies self.pixel_at(x, y)
                    == before.pixel_at(x, y) by {
                    assert(before.in_bounds(x, y) && !rect.contains(x, y));
                }
                self.lemma_same_pixels_same_bytes(&before);
            }
        }
    }
}

} // verus!
