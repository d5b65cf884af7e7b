use captcha_image::canvas::{PixelBuffer, Rect};

fn repeated(pixel: [u8; 4], count: usize) -> Vec<u8> {
    let mut out = Vec::new();
    for _ in 0..count {
        out.extend_from_slice(&pixel);
    }
    out
}

#[test]
fn new_without_fill_is_transparent_black() {
    let canvas = PixelBuffer::new(3, 2, None);
    assert_eq!(canvas.width(), 3);
    assert_eq!(canvas.height(), 2);
    assert_eq!(canvas.as_raw(), &vec![0u8; 24]);
}

#[test]
fn new_with_fill_sets_every_pixel() {
    let canvas = PixelBuffer::new(3, 2, Some((1, 2, 3, 4)));
    assert_eq!(canvas.as_raw(), &repeated([1, 2, 3, 4], 6));
    assert_eq!(canvas.get_pixel(2, 1), Some((1, 2, 3, 4)));
}

#[test]
fn new_with_no_columns_is_empty() {
    let canvas = PixelBuffer::new(0, 5, Some((1, 2, 3, 4)));
    assert_eq!(canvas.as_raw().len(), 0);
    assert_eq!(canvas.get_pixel(0, 0), None);
}

#[test]
fn get_pixel_off_the_canvas_is_none() {
    let canvas = PixelBuffer::new(3, 2, Some((9, 9, 9, 9)));
    assert_eq!(canvas.get_pixel(3, 0), None);
    assert_eq!(canvas.get_pixel(0, 2), None);
    assert_eq!(canvas.get_pixel(u32::MAX, u32::MAX), None);
}

#[test]
fn put_pixel_writes_one_pixel_row_major() {
    let mut canvas = PixelBuffer::new(3, 3, None);
    assert!(canvas.put_pixel(1, 2, (10, 20, 30, 40)));
    let mut expected = vec![0u8; 36];
    expected[28] = 10;
    expected[29] = 20;
    expected[30] = 30;
    expected[31] = 40;
    assert_eq!(canvas.as_raw(), &expected);
    assert_eq!(canvas.get_pixel(1, 2), Some((10, 20, 30, 40)));
    assert_eq!(canvas.get_pixel(2, 1), Some((0, 0, 0, 0)));
}

#[test]
fn put_pixel_off_the_canvas_writes_nothing() {
    let mut canvas = PixelBuffer::new(3, 2, Some((1, 1, 1, 1)));
    assert!(!canvas.put_pixel(3, 1, (7, 7, 7, 7)));
    assert!(!canvas.put_pixel(0, 2, (7, 7, 7, 7)));
    assert_eq!(canvas.as_raw(), &repeated([1, 1, 1, 1], 6));
}

#[test]
fn fill_rect_inside_the_canvas() {
    let mut canvas = PixelBuffer::new(4, 3, None);
    canvas.fill_rect(Rect { left: 1, top: 1, width: 2, height: 1 }, (5, 6, 7, 8));
    for y in 0..3u32 {
        for x in 0..4u32 {
            let inside = y == 1 && (x == 1 || x == 2);
            let expected = if inside { (5, 6, 7, 8) } else { (0, 0, 0, 0) };
            assert_eq!(canvas.get_pixel(x, y), Some(expected));
        }
    }
}

#[test]
fn fill_rect_partly_outside_writes_the_intersection() {
    let mut canvas = PixelBuffer::new(4, 3, Some((1, 1, 1, 1)));
    canvas.fill_rect(Rect { left: -1, top: -1, width: 3, height: 2 }, (5, 6, 7, 8));
    for y in 0..3u32 {
        for x in 0..4u32 {
            let inside = y == 0 && x <= 1;
            let expected = if inside { (5, 6, 7, 8) } else { (1, 1, 1, 1) };
            assert_eq!(canvas.get_pixel(x, y), Some(expected));
        }
    }
    assert_eq!(canvas.as_raw().len(), 48);
}

#[test]
fn fill_rect_beyond_the_far_corner_is_clipped() {
    let mut canvas = PixelBuffer::new(4, 3, Some((1, 1, 1, 1)));
    canvas.fill_rect(Rect { left: 3, top: 2, width: u32::MAX, height: u32::MAX }, (5, 6, 7, 8));
    for y in 0..3u32 {
        for x in 0..4u32 {
            let expected = if x == 3 && y == 2 { (5, 6, 7, 8) } else { (1, 1, 1, 1) };
            assert_eq!(canvas.get_pixel(x, y), Some(expected));
        }
    }
}

#[test]
fn fill_rect_fully_outside_changes_nothing() {
    let mut canvas = PixelBuffer::new(4, 3, Some((1, 2, 3, 4)));
    let before = canvas.as_raw().clone();
    canvas.fill_rect(Rect { left: 4, top: 0, width: 2, height: 2 }, (9, 9, 9, 9));
    canvas.fill_rect(Rect { left: -5, top: 0, width: 5, height: 3 }, (9, 9, 9, 9));
    canvas.fill_rect(Rect { left: 0, top: 3, width: 4, height: 1 }, (9, 9, 9, 9));
    canvas.fill_rect(Rect { left: i32::MIN, top: i32::MIN, width: 7, height: 7 }, (9, 9, 9, 9));
    canvas.fill_rect(Rect { left: i32::MAX, top: i32::MAX, width: u32::MAX, height: u32::MAX }, (9, 9, 9, 9));
    canvas.fill_rect(Rect { left: 1, top: 1, width: 0, height: 2 }, (9, 9, 9, 9));
    assert_eq!(canvas.as_raw(), &before);
}

#[test]
fn from_raw_takes_four_bytes_per_pixel() {
    let data: Vec<u8> = (0..24u8).collect();
    let canvas = PixelBuffer::from_raw(2, 3, data.clone()).unwrap();
    assert_eq!(canvas.get_pixel(1, 2), Some((20, 21, 22, 23)));
    assert_eq!(canvas.into_raw(), data);
}

#[test]
fn from_raw_refuses_another_length() {
    assert!(PixelBuffer::from_raw(2, 3, vec![0u8; 23]).is_none());
    assert!(PixelBuffer::from_raw(2, 3, vec![0u8; 25]).is_none());
    assert!(PixelBuffer::from_raw(0, 3, vec![0u8; 4]).is_none());
    assert!(PixelBuffer::from_raw(u32::MAX, u32::MAX, vec![0u8; 4]).is_none());
    assert!(PixelBuffer::from_raw(0, 3, Vec::new()).is_some());
}
