//! Letterbox resize: canvas size, centered content, symmetric padding and
//! step sampling.

use rust_movenet::resize::resize_with_padding_ultra_fast;
use rust_movenet::types::{Image, COLOR_SPACE};

/// A blue-green-red test image whose pixel `(x, y)` encodes its own
/// coordinates in its channels.
fn coordinate_image(width: i32, height: i32) -> Image {
    let mut data = Vec::new();
    for y in 0..height {
        for x in 0..width {
            data.push((x % 251) as u8);
            data.push((y % 251) as u8);
            data.push(((x + y) % 251) as u8);
        }
    }
    Image::new(data, width, height, COLOR_SPACE::RGB)
}

#[test]
fn letterbox_640x480_to_192x192() {
    let img = coordinate_image(640, 480);
    let out = resize_with_padding_ultra_fast(&img, (192, 192), COLOR_SPACE::RGB);
    // always exactly target_w x target_h pixels
    assert_eq!(out.width, 192);
    assert_eq!(out.height, 192);
    assert_eq!(out.data.len(), 192 * 192 * 3);
    assert_eq!(out.timestamp, img.timestamp);
    // scaled content is 192x144: 24 rows of padding above and below, none
    // on the sides
    let pad_top = 24usize;
    let content_h = 144usize;
    for y in 0..192usize {
        for x in 0..192usize {
            let base = (y * 192 + x) * 3;
            if y < pad_top || y >= pad_top + content_h {
                assert_eq!(&out.data[base..base + 3], &[0, 0, 0], "padding at ({x}, {y})");
            } else {
                // step sampling: both axes step by 640/192 = 480/144 = 3
                let sx = x * 3;
                let sy = (y - pad_top) * 3;
                let src_base = (sy * 640 + sx) * 3;
                assert_eq!(
                    &out.data[base..base + 3],
                    &img.data[src_base..src_base + 3],
                    "content at ({x}, {y})"
                );
            }
        }
    }
}

#[test]
fn letterbox_tall_source_pads_sides() {
    let img = coordinate_image(60, 120);
    let out = resize_with_padding_ultra_fast(&img, (30, 30), COLOR_SPACE::RGB);
    assert_eq!(out.data.len(), 30 * 30 * 3);
    // scale is 30/120: content 15x30, pad 7 left and 8 right
    for y in 0..30usize {
        for x in 0..30usize {
            let base = (y * 30 + x) * 3;
            if x < 7 || x >= 7 + 15 {
                assert_eq!(&out.data[base..base + 3], &[0, 0, 0]);
            } else {
                let sx = (x - 7) * 4;
                let sy = y * 4;
                let src_base = (sy * 60 + sx) * 3;
                assert_eq!(&out.data[base..base + 3], &img.data[src_base..src_base + 3]);
            }
        }
    }
}

#[test]
fn letterbox_identity_size_keeps_content() {
    let img = coordinate_image(8, 8);
    let out = resize_with_padding_ultra_fast(&img, (8, 8), COLOR_SPACE::RGB);
    assert_eq!(out.data, img.data);
}

#[test]
fn letterbox_packed_stride_two() {
    // packed 4:2:2 input: stride 2 bytes per pixel
    let mut data = Vec::new();
    for i in 0..(16 * 8) {
        data.push((i % 256) as u8);
        data.push(((i * 3) % 256) as u8);
    }
    let img = Image::new(data, 16, 8, COLOR_SPACE::YUV);
    let out = resize_with_padding_ultra_fast(&img, (8, 4), COLOR_SPACE::YUV);
    assert_eq!(out.data.len(), 8 * 4 * 2);
    // same aspect ratio: no padding, steps of 2 on both axes
    for y in 0..4usize {
        for x in 0..8usize {
            let base = (y * 8 + x) * 2;
            let src_base = ((y * 2) * 16 + x * 2) * 2;
            assert_eq!(&out.data[base..base + 2], &img.data[src_base..src_base + 2]);
        }
    }
}
