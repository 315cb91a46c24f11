//! Frame type: construction, horizontal flip, and encoding conversion.

use rust_movenet::types::{bytes_per_pixel, Image, COLOR_SPACE};

#[test]
fn strides_per_encoding() {
    assert_eq!(bytes_per_pixel(COLOR_SPACE::RGB), 3);
    assert_eq!(bytes_per_pixel(COLOR_SPACE::YUV), 2);
}

#[test]
fn new_keeps_fields() {
    let data = vec![1u8, 2, 3, 4, 5, 6];
    let img = Image::new(data.clone(), 2, 1, COLOR_SPACE::RGB);
    assert_eq!(img.data, data);
    assert_eq!(img.width, 2);
    assert_eq!(img.height, 1);
    assert_eq!(img.color_space, COLOR_SPACE::RGB);
}

#[test]
fn flip_mirrors_each_row() {
    // 3x2 image whose pixels are labeled by their coordinates
    let data = vec![
        10, 11, 12, 20, 21, 22, 30, 31, 32, // row 0
        40, 41, 42, 50, 51, 52, 60, 61, 62, // row 1
    ];
    let mut img = Image::new(data, 3, 2, COLOR_SPACE::RGB);
    let ts = img.timestamp;
    img.flip();
    assert_eq!(
        img.data,
        vec![
            30, 31, 32, 20, 21, 22, 10, 11, 12, // row 0 reversed pixelwise
            60, 61, 62, 50, 51, 52, 40, 41, 42, // row 1 reversed pixelwise
        ]
    );
    assert_eq!(img.timestamp, ts);
    assert_eq!(img.width, 3);
    assert_eq!(img.height, 2);
}

#[test]
fn flip_twice_restores_the_image() {
    let data: Vec<u8> = (0..(5 * 4 * 3)).map(|i| (i * 7 % 256) as u8).collect();
    let mut img = Image::new(data.clone(), 5, 4, COLOR_SPACE::RGB);
    img.flip();
    img.flip();
    assert_eq!(img.data, data);
}

#[test]
fn to_rgb_passes_rgb_through() {
    let img = Image::new(vec![9u8; 2 * 2 * 3], 2, 2, COLOR_SPACE::RGB);
    let ts = img.timestamp;
    let out = img.to_rgb().expect("already blue-green-red");
    assert_eq!(out.timestamp, ts);
    assert_eq!(out.data, vec![9u8; 12]);
}

#[test]
fn to_rgb_rejects_partial_macropixels() {
    // a 1x1 packed image holds half a macropixel and cannot be decoded
    let img = Image::new(vec![50, 128], 1, 1, COLOR_SPACE::YUV);
    assert!(img.to_rgb().is_err());
}

#[test]
fn to_rgb_decodes_packed_frames() {
    // 2x2 packed 4:2:2 with neutral chroma: luma becomes all channels
    let img = Image::new(vec![50, 128, 60, 128, 70, 128, 80, 128], 2, 2, COLOR_SPACE::YUV);
    let out = img.to_rgb().expect("whole macropixels");
    assert_eq!(out.color_space, COLOR_SPACE::RGB);
    assert_eq!(out.width, 2);
    assert_eq!(out.height, 2);
    assert_eq!(out.data, vec![50, 50, 50, 60, 60, 60, 70, 70, 70, 80, 80, 80]);
}
