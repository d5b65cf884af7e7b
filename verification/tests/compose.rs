use captcha_image::canvas::PixelBuffer;
use captcha_image::compose::overlay;

fn gradient(width: u32, height: u32) -> PixelBuffer {
    let mut canvas = PixelBuffer::new(width, height, None);
    for y in 0..height {
        for x in 0..width {
            let v = (y * width + x) as u8;
            canvas.put_pixel(x, y, (v, v.wrapping_mul(3), v.wrapping_add(100), 200u8.wrapping_add(v)));
        }
    }
    canvas
}

#[test]
fn overlay_of_a_transparent_image_changes_no_byte() {
    let mut bottom = gradient(6, 5);
    let before = bottom.as_raw().clone();
    let top = PixelBuffer::new(3, 3, Some((200, 100, 50, 0)));
    overlay(&mut bottom, &top, 1, 1);
    overlay(&mut bottom, &top, -1, 4);
    assert_eq!(bottom.as_raw(), &before);
}

#[test]
fn overlay_of_an_opaque_image_replaces_what_it_covers() {
    let mut bottom = gradient(6, 5);
    let before = gradient(6, 5);
    let top = PixelBuffer::new(3, 2, Some((11, 22, 33, 255)));
    overlay(&mut bottom, &top, 2, 1);
    for y in 0..5u32 {
        for x in 0..6u32 {
            let covered = (2..5).contains(&x) && (1..3).contains(&y);
            let expected = if covered { Some((11, 22, 33, 255)) } else { before.get_pixel(x, y) };
            assert_eq!(bottom.get_pixel(x, y), expected);
        }
    }
}

#[test]
fn overlay_at_a_negative_offset_clips_at_the_origin() {
    let mut bottom = PixelBuffer::new(4, 4, Some((1, 1, 1, 255)));
    let mut top = PixelBuffer::new(3, 3, Some((9, 9, 9, 255)));
    top.put_pixel(2, 2, (7, 8, 9, 255));
    overlay(&mut bottom, &top, -2, -2);
    assert_eq!(bottom.get_pixel(0, 0), Some((7, 8, 9, 255)));
    for y in 0..4u32 {
        for x in 0..4u32 {
            if x != 0 || y != 0 {
                assert_eq!(bottom.get_pixel(x, y), Some((1, 1, 1, 255)));
            }
        }
    }
    assert_eq!(bottom.as_raw().len(), 64);
}

#[test]
fn overlay_past_the_far_edges_is_clipped() {
    let mut bottom = PixelBuffer::new(4, 3, Some((1, 1, 1, 255)));
    let top = PixelBuffer::new(5, 5, Some((9, 9, 9, 255)));
    overlay(&mut bottom, &top, 3, 1);
    for y in 0..3u32 {
        for x in 0..4u32 {
            let expected = if x == 3 && y >= 1 { (9, 9, 9, 255) } else { (1, 1, 1, 255) };
            assert_eq!(bottom.get_pixel(x, y), Some(expected));
        }
    }
    assert_eq!(bottom.width(), 4);
    assert_eq!(bottom.height(), 3);
    assert_eq!(bottom.as_raw().len(), 48);
}

#[test]
fn overlay_fully_outside_changes_nothing() {
    let mut bottom = gradient(4, 3);
    let before = bottom.as_raw().clone();
    let top = PixelBuffer::new(2, 2, Some((9, 9, 9, 255)));
    overlay(&mut bottom, &top, 4, 0);
    overlay(&mut bottom, &top, 0, 3);
    overlay(&mut bottom, &top, -2, 0);
    overlay(&mut bottom, &top, 0, -2);
    overlay(&mut bottom, &top, i64::MAX, i64::MAX);
    overlay(&mut bottom, &top, i64::MIN, i64::MIN);
    overlay(&mut bottom, &top, i64::MAX, i64::MIN);
    assert_eq!(bottom.as_raw(), &before);
}

#[test]
fn overlay_of_an_empty_image_changes_nothing() {
    let mut bottom = gradient(4, 3);
    let before = bottom.as_raw().clone();
    let top = PixelBuffer::new(0, 0, None);
    overlay(&mut bottom, &top, 1, 1);
    assert_eq!(bottom.as_raw(), &before);
}

#[test]
fn overlay_of_a_half_transparent_pixel_mixes_as_the_image_crate_does() {
    let under = (10u8, 200u8, 30u8, 255u8);
    let over = (250u8, 20u8, 130u8, 128u8);
    let mut bottom = PixelBuffer::new(2, 1, Some(under));
    let top = PixelBuffer::new(1, 1, Some(over));
    overlay(&mut bottom, &top, 1, 0);
    let mut expected = image::Rgba([under.0, under.1, under.2, under.3]);
    image::Pixel::blend(&mut expected, &image::Rgba([over.0, over.1, over.2, over.3]));
    let got = bottom.get_pixel(1, 0).unwrap();
    assert_eq!([got.0, got.1, got.2, got.3], expected.0);
    assert_ne!(got, under);
    assert_ne!(got, over);
    assert!(got.3 >= 254);
    assert!(got.0 > 120 && got.0 < 140);
    assert_eq!(bottom.get_pixel(0, 0), Some(under));
}

#[test]
fn overlay_onto_a_transparent_canvas_keeps_the_top_color() {
    let mut bottom = PixelBuffer::new(1, 1, None);
    let top = PixelBuffer::new(1, 1, Some((40, 50, 60, 100)));
    overlay(&mut bottom, &top, 0, 0);
    let got = bottom.get_pixel(0, 0).unwrap();
    let mut expected = image::Rgba([0u8, 0, 0, 0]);
    image::Pixel::blend(&mut expected, &image::Rgba([40u8, 50, 60, 100]));
    assert_eq!([got.0, got.1, got.2, got.3], expected.0);
}
