//! Colorspace conversion between 24-bit blue-green-red pixel buffers and
//! packed 4:2:2 luma/chroma buffers.
//!
//! The conversion formulas are stated in fixed-point arithmetic with a
//! denominator of one million, which expresses the conversion coefficients
//! (0.299, 0.587, 0.114, 0.168736, 0.331264, 0.5, 0.418688, 0.081312, 1.402,
//! 0.344136, 0.714136, 1.772) exactly; each channel is rounded half away
//! from zero and clamped to `[0, 255]`.

use vstd::prelude::*;
use vstd::arithmetic::div_mod::{
    lemma_div_multiples_vanish, lemma_div_pos_is_pos, lemma_fundamental_div_mod, lemma_mod_bound,
};

verus! {

/// Error of the buffer conversions: the input and output buffer lengths do
/// not stand in the required relationship.
#[derive(Clone, Copy, PartialEq, Eq, Structural, Debug)]
pub enum CodecError {
    LengthMismatch,
}

/// Rounds a value held in millionths half away from zero.
pub open spec fn spec_round_micro(v: int) -> int {
    if v >= 0 {
        (v + 500000) / 1000000
    } else {
        -(((-v) + 500000) / 1000000)
    }
}

/// Clamps a value to the byte range `[0, 255]`.
pub open spec fn spec_clamp255(v: int) -> int {
    if v < 0 {
        0
    } else if v > 255 {
        255
    } else {
        v
    }
}

/// Red channel recovered from luma and red-difference chroma:
/// `R = Y + 1.402 (Cr - 128)`, rounded and clamped.
pub open spec fn spec_yuv_r(y: u8, cr: u8) -> int {
    spec_clamp255(spec_round_micro(1000000 * y + 1402000 * (cr - 128)))
}

/// Green channel recovered from luma and both chroma components:
/// `G = Y - 0.344136 (Cb - 128) - 0.714136 (Cr - 128)`, rounded and clamped.
pub open spec fn spec_yuv_g(y: u8, cb: u8, cr: u8) -> int {
    spec_clamp255(spec_round_micro(1000000 * y - 344136 * (cb - 128) - 714136 * (cr - 128)))
}

/// Blue channel recovered from luma and blue-difference chroma:
/// `B = Y + 1.772 (Cb - 128)`, rounded and clamped.
pub open spec fn spec_yuv_b(y: u8, cb: u8) -> int {
    spec_clamp255(spec_round_micro(1000000 * y + 1772000 * (cb - 128)))
}

/// Luma of a blue-green-red pixel: `Y = 0.299 R + 0.587 G + 0.114 B`,
/// rounded and clamped.
pub open spec fn spec_rgb_y(r: u8, g: u8, b: u8) -> int {
    spec_clamp255(spec_round_micro(299000 * r + 587000 * g + 114000 * b))
}

/// Blue-difference chroma of a pixel:
/// `Cb = -0.168736 R - 0.331264 G + 0.5 B + 128`, rounded and clamped.
pub open spec fn spec_rgb_cb(r: u8, g: u8, b: u8) -> int {
    spec_clamp255(spec_round_micro(-168736 * r - 331264 * g + 500000 * b + 128000000))
}

/// Red-difference chroma of a pixel:
/// `Cr = 0.5 R - 0.418688 G - 0.081312 B + 128`, rounded and clamped.
pub open spec fn spec_rgb_cr(r: u8, g: u8, b: u8) -> int {
    spec_clamp255(spec_round_micro(500000 * r - 418688 * g - 81312 * b + 128000000))
}

/// Rounds a fixed-point value (millionths) half away from zero and clamps the
/// result to the byte range.
fn clamp_round_micro(v: i64) -> (r: u8)
    requires
        -1000000000000 <= v <= 1000000000000,
    ensures
        r == spec_clamp255(spec_round_micro(v as int)),
{
    if v < 0 {
        proof {
            lemma_div_pos_is_pos((-(v as int)) + 500000, 1000000);
        }
        0
    } else {
        let q: u64 = ((v as u64) + 500000) / 1000000;
        if q > 255 {
            255
        } else {
            q as u8
        }
    }
}

/// Converts one packed 4:2:2 sample to a blue-green-red pixel, per the
/// documented formulas. The result is `(r, g, b)`.
pub fn ycbcr_to_rgb(ycc: (u8, u8, u8)) -> (rgb: (u8, u8, u8))
    ensures
        rgb.0 == spec_yuv_r(ycc.0, ycc.2),
        rgb.1 == spec_yuv_g(ycc.0, ycc.1, ycc.2),
        rgb.2 == spec_yuv_b(ycc.0, ycc.1),
{
    let (y, cb, cr) = ycc;
    let yv: i64 = 1000000 * (y as i64);
    let cbv: i64 = (cb as i64) - 128;
    let crv: i64 = (cr as i64) - 128;
    let r = clamp_round_micro(yv + 1402000 * crv);
    let g = clamp_round_micro(yv - 344136 * cbv - 714136 * crv);
    let b = clamp_round_micro(yv + 1772000 * cbv);
    (r, g, b)
}

/// Converts one blue-green-red pixel to its luma and chroma components, per
/// the documented formulas. The result is `(y, cb, cr)`.
pub fn rgb_to_ycbcr(rgb: (u8, u8, u8)) -> (ycc: (u8, u8, u8))
    ensures
        ycc.0 == spec_rgb_y(rgb.0, rgb.1, rgb.2),
        ycc.1 == spec_rgb_cb(rgb.0, rgb.1, rgb.2),
        ycc.2 == spec_rgb_cr(rgb.0, rgb.1, rgb.2),
{
    let (r, g, b) = rgb;
    let rv: i64 = r as i64;
    let gv: i64 = g as i64;
    let bv: i64 = b as i64;
    let y = clamp_round_micro(299000 * rv + 587000 * gv + 114000 * bv);
    let cb = clamp_round_micro(128000000 + 500000 * bv - 168736 * rv - 331264 * gv);
    let cr = clamp_round_micro(128000000 + 500000 * rv - 418688 * gv - 81312 * bv);
    proof {
        assert(128000000 + 500000 * bv - 168736 * rv - 331264 * gv == -168736 * rv - 331264 * gv
            + 500000 * bv + 128000000);
        assert(128000000 + 500000 * rv - 418688 * gv - 81312 * bv == 500000 * rv - 418688 * gv
            - 81312 * bv + 128000000);
    }
    (y, cb, cr)
}

/// One macropixel `(Y1, Cb, Y2, Cr)` at index `q` of `inp` decodes to two
/// blue-green-red triples, sharing the chroma pair, at index `q` of `outp`.
pub open spec fn yuv_macropixel_ok(inp: Seq<u8>, outp: Seq<u8>, q: int) -> bool {
    let y1 = inp[4 * q];
    let cb = inp[4 * q + 1];
    let y2 = inp[4 * q + 2];
    let cr = inp[4 * q + 3];
    &&& outp[6 * q] == spec_yuv_b(y1, cb)
    &&& outp[6 * q + 1] == spec_yuv_g(y1, cb, cr)
    &&& outp[6 * q + 2] == spec_yuv_r(y1, cr)
    &&& outp[6 * q + 3] == spec_yuv_b(y2, cb)
    &&& outp[6 * q + 4] == spec_yuv_g(y2, cb, cr)
    &&& outp[6 * q + 5] == spec_yuv_r(y2, cr)
}

/// One 6-byte pixel pair at index `q` of `inp` (stored blue-green-red)
/// encodes to the 4 bytes `(Y1, Cb, Y2, Cr)` at index `q` of `outp`; the
/// chroma pair comes from the first pixel of the pair only.
pub open spec fn rgb_pair_ok(inp: Seq<u8>, outp: Seq<u8>, q: int) -> bool {
    let b1 = inp[6 * q];
    let g1 = inp[6 * q + 1];
    let r1 = inp[6 * q + 2];
    let b2 = inp[6 * q + 3];
    let g2 = inp[6 * q + 4];
    let r2 = inp[6 * q + 5];
    &&& outp[4 * q] == spec_rgb_y(r1, g1, b1)
    &&& outp[4 * q + 1] == spec_rgb_cb(r1, g1, b1)
    &&& outp[4 * q + 2] == spec_rgb_y(r2, g2, b2)
    &&& outp[4 * q + 3] == spec_rgb_cr(r1, g1, b1)
}

/// `dst` is the blue-green-red decoding of the packed 4:2:2 buffer `src`.
pub open spec fn decoded_rgb(src: Seq<u8>, dst: Seq<u8>) -> bool {
    &&& src.len() % 4 == 0
    &&& 2 * dst.len() == 3 * src.len()
    &&& forall|q: int| 0 <= q < src.len() / 4 ==> #[trigger] yuv_macropixel_ok(src, dst, q)
}

/// `dst` is the packed 4:2:2 encoding of the blue-green-red buffer `src`.
pub open spec fn encoded_yuv(src: Seq<u8>, dst: Seq<u8>) -> bool {
    &&& src.len() % 6 == 0
    &&& 3 * dst.len() == 2 * src.len()
    &&& forall|q: int| 0 <= q < src.len() / 6 ==> #[trigger] rgb_pair_ok(src, dst, q)
}

/// Rounding to whole units moves a fixed-point value by at most half a
/// unit.
proof fn lemma_round_micro_err(v: int)
    ensures
        -500000 <= 1000000 * spec_round_micro(v) - v <= 500000,
{
    if v >= 0 {
        lemma_fundamental_div_mod(v + 500000, 1000000);
        lemma_mod_bound(v + 500000, 1000000);
    } else {
        lemma_fundamental_div_mod((-v) + 500000, 1000000);
        lemma_mod_bound((-v) + 500000, 1000000);
    }
}

/// A conversion channel value (fixed-point, at most half a unit above the
/// byte range) lands within half a unit of its exact value after rounding
/// and clamping.
proof fn lemma_channel_err(v: int)
    requires
        0 <= v <= 255500000,
    ensures
        -500000 <= 1000000 * spec_clamp255(spec_round_micro(v)) - v <= 500000,
{
    lemma_round_micro_err(v);
    lemma_div_pos_is_pos(v + 500000, 1000000);
}

/// Clamping to the byte range never moves a value further from a target
/// that itself lies in the byte range.
proof fn lemma_clamp_near(t: int, s: int, d: int)
    requires
        0 <= t <= 255,
        -d <= s - t <= d,
        0 <= d,
    ensures
        -d <= spec_clamp255(s) - t <= d,
{
}

/// Round trip of one pixel through the conversion formulas: encoding a
/// blue-green-red pixel to luma and chroma and decoding it back
/// reproduces every channel to within one unit — the rounding tolerance
/// the formulas imply; the conversion is not bit-exact.
pub proof fn lemma_rgb_roundtrip_pixel(r: u8, g: u8, b: u8, y: u8, cb: u8, cr: u8)
    requires
        y == spec_rgb_y(r, g, b),
        cb == spec_rgb_cb(r, g, b),
        cr == spec_rgb_cr(r, g, b),
    ensures
        -1 <= spec_yuv_r(y, cr) - r <= 1,
        -1 <= spec_yuv_g(y, cb, cr) - g <= 1,
        -1 <= spec_yuv_b(y, cb) - b <= 1,
{
    let vy = 299000 * r + 587000 * g + 114000 * b;
    let vcb = -168736 * r - 331264 * g + 500000 * b + 128000000;
    let vcr = 500000 * r - 418688 * g - 81312 * b + 128000000;
    lemma_channel_err(vy);
    lemma_channel_err(vcb);
    lemma_channel_err(vcr);
    let vr = 1000000 * y + 1402000 * (cr - 128);
    let vg = 1000000 * y - 344136 * (cb - 128) - 714136 * (cr - 128);
    let vb = 1000000 * y + 1772000 * (cb - 128);
    lemma_round_micro_err(vr);
    lemma_round_micro_err(vg);
    lemma_round_micro_err(vb);
    let rr = spec_round_micro(vr);
    let rg = spec_round_micro(vg);
    let rb = spec_round_micro(vb);
    assert(-2 < rr - r < 2);
    assert(-2 < rg - g < 2);
    assert(-2 < rb - b < 2);
    lemma_clamp_near(r as int, rr, 1);
    lemma_clamp_near(g as int, rg, 1);
    lemma_clamp_near(b as int, rb, 1);
}

/// Round trip of whole buffers (P-series law over the byte level): where
/// `yuv` encodes the blue-green-red buffer `src` and `dst` decodes `yuv`
/// back, the first pixel of every pair comes back within one unit per
/// channel, and so does the second pixel wherever the pair's two pixels
/// were equal — the second pixel's chroma is sampled from the first, the
/// chroma-subsampling tolerance of the encoding.
pub proof fn lemma_rgb_yuv_rgb_roundtrip(src: Seq<u8>, yuv: Seq<u8>, dst: Seq<u8>, q: int)
    requires
        encoded_yuv(src, yuv),
        decoded_rgb(yuv, dst),
        0 <= q < src.len() / 6,
    ensures
        -1 <= dst[6 * q] - src[6 * q] <= 1,
        -1 <= dst[6 * q + 1] - src[6 * q + 1] <= 1,
        -1 <= dst[6 * q + 2] - src[6 * q + 2] <= 1,
        (src[6 * q + 3] == src[6 * q] && src[6 * q + 4] == src[6 * q + 1] && src[6 * q + 5]
            == src[6 * q + 2]) ==> (-1 <= dst[6 * q + 3] - src[6 * q + 3] <= 1 && -1 <= dst[6 * q
            + 4] - src[6 * q + 4] <= 1 && -1 <= dst[6 * q + 5] - src[6 * q + 5] <= 1),
{
    lemma_fundamental_div_mod(src.len() as int, 6);
    let k = src.len() as int / 6;
    assert(yuv.len() == 4 * k);
    lemma_div_multiples_vanish(k, 4);
    assert(yuv.len() as int / 4 == k);
    assert(rgb_pair_ok(src, yuv, q));
    assert(yuv_macropixel_ok(yuv, dst, q));
    let b1 = src[6 * q];
    let g1 = src[6 * q + 1];
    let r1 = src[6 * q + 2];
    let b2 = src[6 * q + 3];
    let g2 = src[6 * q + 4];
    let r2 = src[6 * q + 5];
    let y1 = yuv[4 * q];
    let cb = yuv[4 * q + 1];
    let y2 = yuv[4 * q + 2];
    let cr = yuv[4 * q + 3];
    lemma_rgb_roundtrip_pixel(r1, g1, b1, y1, cb, cr);
    if b2 == b1 && g2 == g1 && r2 == r1 {
        lemma_rgb_roundtrip_pixel(r2, g2, b2, y2, cb, cr);
    }
}

/// The valid length relationship for decoding packed 4:2:2 into
/// blue-green-red: the input splits into whole macropixels and the output
/// holds 3 bytes for every 2 input bytes.
pub open spec fn yuv_to_rgb_lens_ok(in_len: int, out_len: int) -> bool {
    in_len % 4 == 0 && 2 * out_len == 3 * in_len
}

/// The valid length relationship for encoding blue-green-red into packed
/// 4:2:2: the input splits into whole pixel pairs and the output holds
/// 2 bytes for every 3 input bytes.
pub open spec fn rgb_to_yuv_lens_ok(in_len: int, out_len: int) -> bool {
    in_len % 6 == 0 && 3 * out_len == 2 * in_len
}

/// Decodes a packed 4:2:2 buffer into a blue-green-red buffer, writing the
/// caller's output buffer in place. Fails fast, leaving the output
/// untouched, when the buffer lengths do not stand in the 3:2 relationship.
pub fn yuv422_to_rgb24(in_buf: &[u8], out_buf: &mut Vec<u8>) -> (r: Result<(), CodecError>)
    ensures
        r is Ok <==> yuv_to_rgb_lens_ok(in_buf@.len() as int, old(out_buf)@.len() as int),
        r is Err ==> final(out_buf)@ == old(out_buf)@,
        r is Ok ==> final(out_buf)@.len() == old(out_buf)@.len(),
        r is Ok ==> forall|q: int|
            0 <= q < in_buf@.len() / 4 ==> #[trigger] yuv_macropixel_ok(in_buf@, final(out_buf)@, q),
{
    let n = in_buf.len();
    let out_len = out_buf.len();
    if n % 4 != 0 || out_len % 6 != 0 || out_len / 6 != n / 4 {
        proof {
            lemma_fundamental_div_mod(n as int, 4);
            lemma_fundamental_div_mod(out_len as int, 6);
        }
        return Err(CodecError::LengthMismatch);
    }
    proof {
        lemma_fundamental_div_mod(n as int, 4);
        lemma_fundamental_div_mod(out_len as int, 6);
    }
    let macropixels = n / 4;
    assert(4 * macropixels == n && 6 * macropixels == out_len);
    let mut q: usize = 0;
    while q < macropixels
        invariant
            in_buf@.len() == n,
            out_buf@.len() == out_len,
            4 * macropixels == n,
            6 * macropixels == out_len,
            q <= macropixels,
            forall|j: int| 0 <= j < q ==> #[trigger] yuv_macropixel_ok(in_buf@, out_buf@, j),
        decreases macropixels - q,
    {
        let base_in = 4 * q;
        let base_out = 6 * q;
        let y1 = in_buf[base_in];
        let cb = in_buf[base_in + 1];
        let y2 = in_buf[base_in + 2];
        let cr = in_buf[base_in + 3];
        let (r1, g1, b1) = ycbcr_to_rgb((y1, cb, cr));
        let (r2, g2, b2) = ycbcr_to_rgb((y2, cb, cr));
        let ghost pre = out_buf@;
        out_buf[base_out] = b1;
        out_buf[base_out + 1] = g1;
        out_buf[base_out + 2] = r1;
        out_buf[base_out + 3] = b2;
        out_buf[base_out + 4] = g2;
        out_buf[base_out + 5] = r2;
        proof {
            assert forall|j: int| 0 <= j < q + 1 implies #[trigger] yuv_macropixel_ok(
                in_buf@,
                out_buf@,
                j,
            ) by {
                if j < q {
                    assert(yuv_macropixel_ok(in_buf@, pre, j));
                } else {
                    assert(yuv_macropixel_ok(in_buf@, out_buf@, q as int));
                }
            }
        }
        q = q + 1;
    }
    Ok(())
}

/// Encodes a blue-green-red buffer into a packed 4:2:2 buffer, writing the
/// caller's output buffer in place. Fails fast, leaving the output
/// untouched, when the buffer lengths do not stand in the 2:3 relationship.
pub fn rgb24_to_yuv422(in_buf: &[u8], out_buf: &mut Vec<u8>) -> (r: Result<(), CodecError>)
    ensures
        r is Ok <==> rgb_to_yuv_lens_ok(in_buf@.len() as int, old(out_buf)@.len() as int),
        r is Err ==> final(out_buf)@ == old(out_buf)@,
        r is Ok ==> final(out_buf)@.len() == old(out_buf)@.len(),
        r is Ok ==> forall|q: int|
            0 <= q < in_buf@.len() / 6 ==> #[trigger] rgb_pair_ok(in_buf@, final(out_buf)@, q),
{
    let n = in_buf.len();
    let out_len = out_buf.len();
    if n % 6 != 0 || out_len % 4 != 0 || out_len / 4 != n / 6 {
        proof {
            lemma_fundamental_div_mod(n as int, 6);
            lemma_fundamental_div_mod(out_len as int, 4);
        }
        return Err(CodecError::LengthMismatch);
    }
    proof {
        lemma_fundamental_div_mod(n as int, 6);
        lemma_fundamental_div_mod(out_len as int, 4);
    }
    let pairs = n / 6;
    assert(6 * pairs == n && 4 * pairs == out_len);
    let mut q: usize = 0;
    while q < pairs
        invariant
            in_buf@.len() == n,
            out_buf@.len() == out_len,
            6 * pairs == n,
            4 * pairs == out_len,
            q <= pairs,
            forall|j: int| 0 <= j < q ==> #[trigger] rgb_pair_ok(in_buf@, out_buf@, j),
        decreases pairs - q,
    {
        let base_in = 6 * q;
        let base_out = 4 * q;
        let b1 = in_buf[base_in];
        let g1 = in_buf[base_in + 1];
        let r1 = in_buf[base_in + 2];
        let b2 = in_buf[base_in + 3];
        let g2 = in_buf[base_in + 4];
        let r2 = in_buf[base_in + 5];
        let (y1, cb, cr) = rgb_to_ycbcr((r1, g1, b1));
        let (y2, _cb2, _cr2) = rgb_to_ycbcr((r2, g2, b2));
        let ghost pre = out_buf@;
        out_buf[base_out] = y1;
        out_buf[base_out + 1] = cb;
        out_buf[base_out + 2] = y2;
        out_buf[base_out + 3] = cr;
        proof {
            assert forall|j: int| 0 <= j < q + 1 implies #[trigger] rgb_pair_ok(
                in_buf@,
                out_buf@,
                j,
            ) by {
                if j < q {
                    assert(rgb_pair_ok(in_buf@, pre, j));
                } else {
                    assert(rgb_pair_ok(in_buf@, out_buf@, q as int));
                }
            }
        }
        q = q + 1;
    }
    Ok(())
}

} // verus!
