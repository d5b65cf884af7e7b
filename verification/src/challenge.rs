//! The finished challenge: the image and the text that solves it.

use vstd::prelude::*;
use crate::canvas::PixelBuffer;
use crate::encode::{png_stream, serialize_png, Compression, PngError};

verus! {

/// A generated challenge. It owns the pixels of the final image and the
/// solution, and nothing changes them once it is made.
#[allow(non_camel_case_types)]
#[derive(Debug)]
pub struct captcha {
    buffer: Vec<u8>,
    solution: String,
    width: u32,
    height: u32,
}

impl captcha {
    /// The number of columns of the image.
    pub closed spec fn spec_width(&self) -> u32 {
        self.width
    }

    /// The number of rows of the image.
    pub closed spec fn spec_height(&self) -> u32 {
        self.height
    }

    /// The bytes of the image, row by row, four per pixel.
    pub closed spec fn bytes(&self) -> Seq<u8> {
        self.buffer@
    }

    /// The text that solves the challenge.
    pub closed spec fn text(&self) -> Seq<char> {
        self.solution@
    }

    /// The invariant of the type: four bytes for each pixel, no more.
    pub open spec fn wf(&self) -> bool {
        self.bytes().len() == self.spec_width() * self.spec_height() * 4
    }

    /// Packages the final canvas with the challenge text, which is kept as
    /// it is.
    pub fn new(image: PixelBuffer, solution: String) -> (r: captcha)
        requires
            image.wf(),
        ensures
            r.wf(),
            r.spec_width() == image.spec_width(),
            r.spec_height() == image.spec_height(),
            r.bytes() == image.bytes(),
            r.bytes().len() == image.spec_width() * image.spec_height() * 4,
            r.text() == solution@,
    {
        let width: u32 = image.width();
        let height: u32 = image.height();
        captcha { buffer: image.into_raw(), solution, width, height }
    }

    /// The number of columns of the image.
    #[verifier::when_used_as_spec(spec_width)]
    pub fn width(&self) -> (w: u32)
        ensures
            w == self.spec_width(),
    {
        self.width
    }

    /// The number of rows of the image.
    #[verifier::when_used_as_spec(spec_height)]
    pub fn height(&self) -> (h: u32)
        ensures
            h == self.spec_height(),
    {
        self.height
    }

    /// The bytes of the image.
    pub fn buffer(&self) -> (r: &Vec<u8>)
        ensures
            r@ == self.bytes(),
    {
        &self.buffer
    }

    /// The text that solves the challenge.
    pub fn solution(&self) -> (r: &String)
        ensures
            r@ == self.text(),
    {
        &self.solution
    }

    /// Serializes the image as a PNG of 8 bits per channel, RGBA, without a
    /// palette. An image without columns or rows has no PNG: the header is
    /// refused. Every other image is serialized, and the bytes are the PNG
    /// stream of the image at that level. The challenge itself is left as
    /// it was.
    pub fn to_png(&self, level: Compression) -> (r: Result<Vec<u8>, PngError>)
        requires
            self.wf(),
        ensures
            self.spec_width() == 0 || self.spec_height() == 0 ==> r is Err && r->Err_0
                == PngError::Header,
            self.spec_width() > 0 && self.spec_height() > 0 ==> r is Ok && r->Ok_0@ == png_stream(
                self.spec_width(),
                self.spec_height(),
                self.bytes(),
                level.spec_code(),
            ),
    {
        serialize_png(self.width, self.height, &self.buffer, level)
    }

    /// Serializes the image at the level that `compression` stands for: 0
    /// the default, 1 fast, 2 best, and the default for any other number,
    /// which therefore gives the same bytes as 0.
    pub fn as_png(&self, compression: u8) -> (r: Result<Vec<u8>, PngError>)
        requires
            self.wf(),
        ensures
            self.spec_width() == 0 || self.spec_height() == 0 ==> r is Err && r->Err_0
                == PngError::Header,
            self.spec_width() > 0 && self.spec_height() > 0 ==> r is Ok && r->Ok_0@ == png_stream(
                self.spec_width(),
                self.spec_height(),
                self.bytes(),
                if compression == 1 || compression == 2 {
                    compression
                } else {
                    0
                },
            ),
    {
        self.to_png(Compression::from_code(compression))
    }
}

} // verus!
