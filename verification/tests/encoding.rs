use captcha_image::canvas::PixelBuffer;
use captcha_image::challenge::captcha;
use captcha_image::encode::{serialize_png, Compression, PngError};

fn sample(width: u32, height: u32) -> PixelBuffer {
    let mut canvas = PixelBuffer::new(width, height, None);
    for y in 0..height {
        for x in 0..width {
            let v = (y * width + x) as u8;
            canvas.put_pixel(x, y, (v, v.wrapping_mul(7), 255 - v, v.wrapping_add(64)));
        }
    }
    canvas
}

fn decode(bytes: &[u8]) -> (u32, u32, Vec<u8>) {
    let decoder = png::Decoder::new(bytes);
    let mut reader = decoder.read_info().unwrap();
    let mut pixels = vec![0u8; reader.output_buffer_size()];
    let info = reader.next_frame(&mut pixels).unwrap();
    assert_eq!(info.color_type, png::ColorType::Rgba);
    assert_eq!(info.bit_depth, png::BitDepth::Eight);
    pixels.truncate(info.buffer_size());
    (info.width, info.height, pixels)
}

#[test]
fn png_decodes_to_the_same_pixels_at_every_level() {
    let result = captcha::new(sample(16, 9), String::from("A1b2"));
    for level in [Compression::Default, Compression::Fast, Compression::Best] {
        let bytes = result.to_png(level).unwrap();
        assert_eq!(&bytes[..8], &[137, 80, 78, 71, 13, 10, 26, 10]);
        let (width, height, pixels) = decode(&bytes);
        assert_eq!((width, height), (16, 9));
        assert_eq!(&pixels, result.buffer());
    }
}

#[test]
fn png_is_not_the_raw_buffer() {
    let result = captcha::new(sample(4, 4), String::from("x"));
    let bytes = result.to_png(Compression::Default).unwrap();
    assert_ne!(&bytes, result.buffer());
    assert_eq!(result.buffer().len(), 64);
    assert_eq!(result.solution(), "x");
}

#[test]
fn as_png_reads_the_level_from_a_number() {
    let result = captcha::new(sample(8, 8), String::from("abc"));
    assert_eq!(result.as_png(0).unwrap(), result.to_png(Compression::Default).unwrap());
    assert_eq!(result.as_png(1).unwrap(), result.to_png(Compression::Fast).unwrap());
    assert_eq!(result.as_png(2).unwrap(), result.to_png(Compression::Best).unwrap());
    assert_eq!(result.as_png(3).unwrap(), result.to_png(Compression::Default).unwrap());
    assert_eq!(result.as_png(255).unwrap(), result.to_png(Compression::Default).unwrap());
}

#[test]
fn compression_codes() {
    assert_eq!(Compression::from_code(0), Compression::Default);
    assert_eq!(Compression::from_code(1), Compression::Fast);
    assert_eq!(Compression::from_code(2), Compression::Best);
    assert_eq!(Compression::from_code(9), Compression::Default);
    assert_eq!(Compression::Default.code(), 0);
    assert_eq!(Compression::Fast.code(), 1);
    assert_eq!(Compression::Best.code(), 2);
}

#[test]
fn error_codes() {
    assert_eq!(PngError::Header.code(), 0);
    assert_eq!(PngError::ImageData.code(), 1);
}

#[test]
fn an_image_without_pixels_has_no_header() {
    let result = captcha::new(PixelBuffer::new(0, 7, None), String::from("a"));
    assert_eq!(result.to_png(Compression::Default), Err(PngError::Header));
    let result = captcha::new(PixelBuffer::new(7, 0, None), String::from("a"));
    assert_eq!(result.as_png(1), Err(PngError::Header));
    assert_eq!(serialize_png(0, 0, &Vec::new(), Compression::Best), Err(PngError::Header));
}

#[test]
fn bytes_that_are_not_four_per_pixel_are_refused() {
    assert_eq!(serialize_png(2, 2, &vec![0u8; 15], Compression::Default), Err(PngError::ImageData));
    assert_eq!(serialize_png(2, 2, &vec![0u8; 17], Compression::Fast), Err(PngError::ImageData));
    assert_eq!(serialize_png(2, 2, &Vec::new(), Compression::Best), Err(PngError::ImageData));
    assert!(serialize_png(2, 2, &vec![0u8; 16], Compression::Default).is_ok());
}

#[test]
fn the_same_image_gives_the_same_png() {
    let first = captcha::new(sample(10, 6), String::from("q"));
    let second = captcha::new(sample(10, 6), String::from("q"));
    assert_eq!(first.to_png(Compression::Best), second.to_png(Compression::Best));
}

#[test]
fn every_image_with_a_pixel_is_serialized() {
    let one = captcha::new(PixelBuffer::new(1, 1, Some((1, 2, 3, 4))), String::from("a"));
    for code in 0..=255u8 {
        let bytes = one.as_png(code).unwrap();
        let (width, height, pixels) = decode(&bytes);
        assert_eq!((width, height), (1, 1));
        assert_eq!(pixels, vec![1, 2, 3, 4]);
    }
    let wide = captcha::new(sample(300, 1), String::from("a"));
    assert!(wide.to_png(Compression::Fast).is_ok());
    assert_eq!(wide.as_png(0), wide.as_png(0));
    assert_eq!(wide.as_png(200), wide.as_png(0));
}
