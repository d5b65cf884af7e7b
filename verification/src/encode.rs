//! PNG serialization of raw RGBA bytes.

use vstd::prelude::*;

verus! {

/// How hard the encoder compresses.
#[derive(Clone, Copy, Debug, PartialEq, Eq, Structural)]
pub enum Compression {
    Default,
    Fast,
    Best,
}

impl Compression {
    /// The number that stands for the level: 0 for `Default`, 1 for `Fast`,
    /// 2 for `Best`.
    pub open spec fn spec_code(&self) -> u8 {
        match self {
            Compression::Default => 0,
            Compression::Fast => 1,
            Compression::Best => 2,
        }
    }

    /// The level that a number asks for; a number that stands for none
    /// asks for `Default`.
    pub open spec fn spec_from_code(code: u8) -> Compression {
        if code == 1 {
            Compression::Fast
        } else if code == 2 {
            Compression::Best
        } else {
            Compression::Default
        }
    }

    /// The number that stands for the level.
    #[verifier::when_used_as_spec(spec_code)]
    pub fn code(&self) -> (c: u8)
        ensures
            c == self.spec_code(),
    {
        match self {
            Compression::Default => 0,
            Compression::Fast => 1,
            Compression::Best => 2,
        }
    }

    /// The level that a number asks for.
    #[verifier::when_used_as_spec(spec_from_code)]
    pub fn from_code(code: u8) -> (level: Compression)
        ensures
            level == Compression::spec_from_code(code),
            code <= 2 ==> level.spec_code() == code,
            code > 2 ==> level == Compression::Default,
    {
        match code {
            1 => Compression::Fast,
            2 => Compression::Best,
            _ => Compression::Default,
        }
    }
}

/// Why an image could not be serialized.
#[derive(Clone, Copy, Debug, PartialEq, Eq, Structural)]
pub enum PngError {
    /// The encoder refused to write the header.
    Header,
    /// The encoder refused the image data.
    ImageData,
}

impl PngError {
    /// The number that reports the error: 0 for the header, 1 for the image
    /// data.
    pub open spec fn spec_code(&self) -> u8 {
        match self {
            PngError::Header => 0,
            PngError::ImageData => 1,
        }
    }

    /// The number that reports the error.
    #[verifier::when_used_as_spec(spec_code)]
    pub fn code(&self) -> (c: u8)
        ensures
            c == self.spec_code(),
    {
        match self {
            PngError::Header => 0,
            PngError::ImageData => 1,
        }
    }
}

/// The PNG stream that the `png` encoder writes for an image of the given
/// size from its raw bytes, at 8 bits per channel with the color type RGBA,
/// at the compression level that `level` stands for.
pub uninterp spec fn png_stream(width: u32, height: u32, data: Seq<u8>, level: u8) -> Seq<u8>;

/// Runs the `png` encoder on a buffer in memory: `Encoder::new`, with
/// `set_color(Rgba)`, `set_depth(Eight)` and `set_compression`, then
/// `write_header` and `Writer::write_image_data`. Trusted: `write_header`
/// fails on a width or a height of 0 and on nothing else, since RGBA at 8
/// bits is a valid pair and writing into a vector does not fail;
/// `write_image_data` fails where the data are not four bytes per pixel and
/// on nothing else; and what is written on success depends on the size, the
/// bytes and the level alone.
#[verifier::external_body]
fn encode_rgba8(width: u32, height: u32, data: &Vec<u8>, level: Compression) -> (r: Result<
    Vec<u8>,
    PngError,
>)
    requires
        width * height * 4 <= usize::MAX,
    ensures
        width == 0 || height == 0 ==> r is Err && r->Err_0 == PngError::Header,
        width > 0 && height > 0 && data@.len() != width * height * 4 ==> r is Err && r->Err_0
            == PngError::ImageData,
        width > 0 && height > 0 && data@.len() == width * height * 4 ==> r is Ok,
        r is Ok ==> r->Ok_0@ == png_stream(width, height, data@, level.spec_code()),
{
    let mut out: Vec<u8> = Vec::new();
    let mut encoder = png::Encoder::new(&mut out, width, height);
    encoder.set_color(png::ColorType::Rgba);
    encoder.set_depth(png::BitDepth::Eight);
    encoder.set_compression(
        match level {
            Compression::Default => png::Compression::Default,
            Compression::Fast => png::Compression::Fast,
            Compression::Best => png::Compression::Best,
        },
    );
    let mut writer = encoder.write_header().map_err(|_| PngError::Header)?;
    writer.write_image_data(data).map_err(|_| PngError::ImageData)?;
    drop(writer);
    Ok(out)
}

/// Serializes raw RGBA bytes as a PNG of 8 bits per channel, without a
/// palette. A width or a height of 0 is reported as a header error, and
/// bytes that are not four per pixel as an image-data error. Every other
/// input is serialized: the bytes are the PNG stream of the image at that
/// level.
pub fn serialize_png(width: u32, height: u32, data: &Vec<u8>, level: Compression) -> (r: Result<
    Vec<u8>,
    PngError,
>)
    ensures
        width == 0 || height == 0 ==> r is Err && r->Err_0 == PngError::Header,
        width > 0 && height > 0 && data@.len() != width * height * 4 ==> r is Err && r->Err_0
            == PngError::ImageData,
        width > 0 && height > 0 && data@.len() == width * height * 4 ==> r is Ok && r->Ok_0@
            == png_stream(width, height, data@, level.spec_code()),
{
    assert(width * height * 4 <= 0xffff_ffff * 0xffff_ffff * 4) by (nonlinear_arith)
        requires
            0 <= width <= 0xffff_ffff,
            0 <= height <= 0xffff_ffff,
    ;
    let want: u128 = (width as u128) * (height as u128) * 4;
    let have: usize = data.len();
    if want > usize::MAX as u128 {
        assert(have < want);
        Err(PngError::ImageData)
    } else {
        encode_rgba8(width, height, data, level)
    }
}

} // verus!
