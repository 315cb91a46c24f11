//! Colorspace conversion: exact channel values, buffer layout, length
//! checks, and the round-trip tolerance.

use rust_movenet::pixel::{rgb24_to_yuv422, rgb_to_ycbcr, ycbcr_to_rgb, yuv422_to_rgb24};

/// Reference for one channel: fixed-point value in millionths, rounded
/// half away from zero and clamped to a byte.
fn clamp_round(v: i64) -> u8 {
    if v < 0 {
        0
    } else {
        let q = (v + 500_000) / 1_000_000;
        if q > 255 {
            255
        } else {
            q as u8
        }
    }
}

fn ref_ycbcr_to_rgb(y: u8, cb: u8, cr: u8) -> (u8, u8, u8) {
    let yv = 1_000_000 * (y as i64);
    let cbv = (cb as i64) - 128;
    let crv = (cr as i64) - 128;
    (
        clamp_round(yv + 1_402_000 * crv),
        clamp_round(yv - 344_136 * cbv - 714_136 * crv),
        clamp_round(yv + 1_772_000 * cbv),
    )
}

fn ref_rgb_to_ycbcr(r: u8, g: u8, b: u8) -> (u8, u8, u8) {
    let rv = r as i64;
    let gv = g as i64;
    let bv = b as i64;
    (
        clamp_round(299_000 * rv + 587_000 * gv + 114_000 * bv),
        clamp_round(128_000_000 + 500_000 * bv - 168_736 * rv - 331_264 * gv),
        clamp_round(128_000_000 + 500_000 * rv - 418_688 * gv - 81_312 * bv),
    )
}

#[test]
fn ycbcr_to_rgb_exact_values() {
    // round(90 + 1.402*72) = 191, round(90 + 0.344136*8 - 0.714136*72) = 41,
    // round(90 - 1.772*8) = 76
    assert_eq!(ycbcr_to_rgb((90, 120, 200)), (191, 41, 76));
    // neutral chroma leaves the luma untouched
    assert_eq!(ycbcr_to_rgb((0, 128, 128)), (0, 0, 0));
    assert_eq!(ycbcr_to_rgb((255, 128, 128)), (255, 255, 255));
    // saturation clamps to the byte range
    assert_eq!(ycbcr_to_rgb((255, 255, 255)), (255, 121, 255));
    assert_eq!(ycbcr_to_rgb((0, 0, 0)), (0, 135, 0));
}

#[test]
fn rgb_to_ycbcr_exact_values() {
    // pure red: y = round(76.245), cb = round(84.97232),
    // cr = round(255.5) clamped to 255
    assert_eq!(rgb_to_ycbcr((255, 0, 0)), (76, 85, 255));
    // pure blue: y = round(29.07), cb = round(255.5) -> 255, cr = round(107.26544)
    assert_eq!(rgb_to_ycbcr((0, 0, 255)), (29, 255, 107));
    // gray maps to neutral chroma exactly
    assert_eq!(rgb_to_ycbcr((50, 50, 50)), (50, 128, 128));
    assert_eq!(rgb_to_ycbcr((0, 0, 0)), (0, 128, 128));
    assert_eq!(rgb_to_ycbcr((255, 255, 255)), (255, 128, 128));
}

#[test]
fn yuv_buffer_decodes_to_triple_length() {
    let input: Vec<u8> = vec![90, 120, 91, 200, 10, 128, 20, 128];
    let mut out = vec![0u8; input.len() * 3 / 2];
    assert!(yuv422_to_rgb24(&input, &mut out).is_ok());
    assert_eq!(out.len(), input.len() * 3 / 2);
}

#[test]
fn rgb_buffer_encodes_to_two_thirds_length() {
    let input: Vec<u8> = vec![0, 0, 255, 0, 0, 255, 10, 20, 30, 40, 50, 60];
    let mut out = vec![0u8; input.len() * 2 / 3];
    assert!(rgb24_to_yuv422(&input, &mut out).is_ok());
    assert_eq!(out.len(), input.len() * 2 / 3);
}

#[test]
fn yuv_decode_rejects_wrong_output_length() {
    let input: Vec<u8> = vec![90, 120, 91, 200];
    let mut out = vec![0u8; 5];
    assert!(yuv422_to_rgb24(&input, &mut out).is_err());
    // the output buffer is untouched on failure
    assert_eq!(out, vec![0u8; 5]);
}

#[test]
fn yuv_decode_rejects_partial_macropixel() {
    let input: Vec<u8> = vec![90, 120, 91, 200, 10, 128];
    let mut out = vec![0u8; 9];
    assert!(yuv422_to_rgb24(&input, &mut out).is_err());
}

#[test]
fn rgb_encode_rejects_wrong_lengths() {
    let input: Vec<u8> = vec![1, 2, 3, 4, 5, 6];
    let mut short = vec![0u8; 3];
    assert!(rgb24_to_yuv422(&input, &mut short).is_err());
    let odd_input: Vec<u8> = vec![1, 2, 3];
    let mut out = vec![0u8; 2];
    assert!(rgb24_to_yuv422(&odd_input, &mut out).is_err());
}

#[test]
fn packed_four_by_four_matches_formulas() {
    // a 4x4-pixel packed 4:2:2 frame: 8 macropixels (Y1, Cb, Y2, Cr)
    let mut input = Vec::new();
    for i in 0..8u8 {
        input.extend_from_slice(&[40 + 20 * i, 100 + 10 * i, 45 + 20 * i, 210 - 10 * i]);
    }
    let mut out = vec![0u8; input.len() * 3 / 2];
    assert!(yuv422_to_rgb24(&input, &mut out).is_ok());
    assert_eq!(out.len(), 4 * 4 * 3);
    for q in 0..8 {
        let (y1, cb, y2, cr) = (
            input[4 * q],
            input[4 * q + 1],
            input[4 * q + 2],
            input[4 * q + 3],
        );
        let (r1, g1, b1) = ref_ycbcr_to_rgb(y1, cb, cr);
        let (r2, g2, b2) = ref_ycbcr_to_rgb(y2, cb, cr);
        // each triple is stored blue, green, red
        assert_eq!(&out[6 * q..6 * q + 6], &[b1, g1, r1, b2, g2, r2]);
    }
}

#[test]
fn rgb_pairs_take_chroma_from_first_pixel() {
    // two pixel pairs with very different colors inside each pair
    let input: Vec<u8> = vec![255, 0, 0, 0, 255, 0, 0, 0, 255, 200, 100, 50];
    let mut out = vec![0u8; 8];
    assert!(rgb24_to_yuv422(&input, &mut out).is_ok());
    for q in 0..2 {
        let (b1, g1, r1) = (input[6 * q], input[6 * q + 1], input[6 * q + 2]);
        let (b2, g2, r2) = (input[6 * q + 3], input[6 * q + 4], input[6 * q + 5]);
        let (y1, cb1, cr1) = ref_rgb_to_ycbcr(r1, g1, b1);
        let (y2, _, _) = ref_rgb_to_ycbcr(r2, g2, b2);
        assert_eq!(&out[4 * q..4 * q + 4], &[y1, cb1, y2, cr1]);
    }
}

#[test]
fn round_trip_within_one_unit_per_channel() {
    // pairs of equal pixels: encoding and decoding must come back within
    // the rounding tolerance on every channel
    let colors: [(u8, u8, u8); 6] = [
        (0, 0, 0),
        (255, 255, 255),
        (200, 30, 90),
        (17, 250, 3),
        (128, 128, 128),
        (90, 200, 40),
    ];
    let mut rgb = Vec::new();
    for &(b, g, r) in colors.iter() {
        // both pixels of the pair equal, stored blue-green-red
        rgb.extend_from_slice(&[b, g, r, b, g, r]);
    }
    let mut yuv = vec![0u8; rgb.len() * 2 / 3];
    assert!(rgb24_to_yuv422(&rgb, &mut yuv).is_ok());
    let mut back = vec![0u8; yuv.len() * 3 / 2];
    assert!(yuv422_to_rgb24(&yuv, &mut back).is_ok());
    for k in 0..rgb.len() {
        let a = rgb[k] as i32;
        let b = back[k] as i32;
        assert!((a - b).abs() <= 1, "byte {k}: {a} vs {b}");
    }
}
