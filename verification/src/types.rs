//! Core data types: owned frames, pixel encodings, inference results and the
//! process configuration record.

use vstd::prelude::*;
use vstd::arithmetic::mul::lemma_mul_is_commutative;

verus! {

/// Pixel encoding of a frame's byte buffer: 24-bit blue-green-red triples
/// (3 bytes per pixel) or packed 4:2:2 luma/chroma (2 bytes per pixel,
/// 4 bytes encoding 2 pixels).
#[allow(non_camel_case_types)]
#[derive(Clone, Copy, PartialEq, Eq, Structural, Debug)]
pub enum COLOR_SPACE {
    RGB,
    YUV,
}

/// Bytes each pixel occupies under an encoding.
pub open spec fn spec_bytes_per_pixel(c: COLOR_SPACE) -> int {
    match c {
        COLOR_SPACE::RGB => 3,
        COLOR_SPACE::YUV => 2,
    }
}

/// Executable counterpart of [`spec_bytes_per_pixel`].
pub fn bytes_per_pixel(c: COLOR_SPACE) -> (n: usize)
    ensures
        n == spec_bytes_per_pixel(c),
{
    match c {
        COLOR_SPACE::RGB => 3,
        COLOR_SPACE::YUV => 2,
    }
}

/// An owned, self-contained image: capture timestamp (unix seconds), pixel
/// dimensions, encoding, and the raw pixel bytes.
pub struct Image {
    pub timestamp: u64,
    pub data: Vec<u8>,
    pub width: i32,
    pub height: i32,
    pub color_space: COLOR_SPACE,
}

impl Image {
    /// A well-formed image has positive dimensions and exactly
    /// `width * height * bytes_per_pixel` data bytes.
    pub open spec fn wf(self) -> bool {
        &&& 0 < self.width
        &&& 0 < self.height
        &&& self.data@.len() == self.width * self.height * spec_bytes_per_pixel(
            self.color_space,
        )
    }

    /// Wraps pixel bytes into an image stamped with the current unix time.
    pub fn new(data: Vec<u8>, width: i32, height: i32, color_space: COLOR_SPACE) -> (img: Image)
        ensures
            img.data == data,
            img.width == width,
            img.height == height,
            img.color_space == color_space,
    {
        let timestamp = unix_timestamp_now();
        Image { timestamp, data, width, height, color_space }
    }

    /// Flips the image horizontally in place: within every row of a
    /// blue-green-red image, pixel `x` trades places with pixel
    /// `width - 1 - x`, each 3-byte triple moving whole.
    pub fn flip(&mut self)
        requires
            old(self).wf(),
            old(self).color_space is RGB,
        ensures
            final(self).timestamp == old(self).timestamp,
            final(self).width == old(self).width,
            final(self).height == old(self).height,
            final(self).color_space == old(self).color_space,
            final(self).data@.len() == old(self).data@.len(),
            forall|y: int, x: int|
                0 <= y < old(self).height && 0 <= x < old(self).width ==> #[trigger] flip_px_ok(
                    old(self).data@,
                    final(self).data@,
                    old(self).width as int,
                    y,
                    x,
                ),
    {
        let w = self.width as usize;
        let h = self.height as usize;
        let n = self.data.len();
        let ghost orig = self.data@;
        proof {
            lemma_mul_is_commutative(w as int, h as int);
        }
        let mut out: Vec<u8> = Vec::new();
        let mut y: usize = 0;
        while y < h
            invariant
                y <= h,
                1 <= w,
                w == self.width,
                h == self.height,
                self.data@ == orig,
                orig.len() == n,
                orig.len() == 3 * (w * h),
                out@.len() == 3 * (y * w),
                forall|yy: int, xx: int|
                    0 <= yy < y && 0 <= xx < w ==> #[trigger] flip_px_ok(
                        orig,
                        out@,
                        w as int,
                        yy,
                        xx,
                    ),
            decreases h - y,
        {
            let mut x: usize = 0;
            while x < w
                invariant
                    y < h,
                    x <= w,
                    1 <= w,
                    w == self.width,
                    h == self.height,
                    self.data@ == orig,
                    orig.len() == n,
                    orig.len() == 3 * (w * h),
                    out@.len() == 3 * (y * w + x),
                    forall|yy: int, xx: int|
                        (0 <= yy < y && 0 <= xx < w) || (yy == y && 0 <= xx < x)
                            ==> #[trigger] flip_px_ok(orig, out@, w as int, yy, xx),
                decreases w - x,
            {
                proof {
                    assert(y * w + w <= w * h) by (nonlinear_arith)
                        requires
                            y < h,
                            0 <= w,
                    ;
                }
                let rowb = y * w;
                let src = 3 * (rowb + (w - 1 - x));
                let b0 = self.data[src];
                let b1 = self.data[src + 1];
                let b2 = self.data[src + 2];
                let ghost pre = out@;
                out.push(b0);
                out.push(b1);
                out.push(b2);
                proof {
                    assert forall|yy: int, xx: int|
                        (0 <= yy < y && 0 <= xx < w) || (yy == y && 0 <= xx < x
                            + 1) implies #[trigger] flip_px_ok(orig, out@, w as int, yy, xx) by {
                        if yy == y && xx == x {
                            assert(out@[3 * (y * w + x)] == b0);
                            assert(out@[3 * (y * w + x) + 1] == b1);
                            assert(out@[3 * (y * w + x) + 2] == b2);
                        } else {
                            assert(flip_px_ok(orig, pre, w as int, yy, xx));
                            assert(3 * (yy * (w as int) + xx) + 2 < pre.len()) by (nonlinear_arith)
                                requires
                                    0 <= yy,
                                    0 <= xx < w,
                                    (yy < y && x <= w) || (yy == y && xx < x),
                                    pre.len() == 3 * (y * w + x),
                            ;
                        }
                    }
                }
                x = x + 1;
            }
            proof {
                assert((y + 1) * w == y * w + w) by (nonlinear_arith);
            }
            y = y + 1;
        }
        proof {
            lemma_mul_is_commutative(h as int, w as int);
        }
        self.data = out;
    }

    /// The image in the blue-green-red encoding: a packed 4:2:2 image is
    /// decoded (which needs a whole number of macropixels), a
    /// blue-green-red image is handed back unchanged but for a zeroed
    /// timestamp on the converted copy, as the display path does.
    pub fn to_rgb(self) -> (r: Result<Image, crate::pixel::CodecError>)
        requires
            self.wf(),
        ensures
            r matches Ok(img) ==> {
                &&& img.width == self.width
                &&& img.height == self.height
                &&& img.color_space is RGB
                &&& img.wf()
                &&& (self.color_space is RGB ==> img == self)
                &&& (self.color_space is YUV ==> crate::pixel::decoded_rgb(self.data@, img.data@)
                    && img.timestamp == 0)
            },
            self.color_space is RGB ==> r is Ok,
            self.color_space is YUV ==> (r is Ok <==> ((self.width * self.height) % 2 == 0
                && self.width * self.height * 3 <= usize::MAX)),
    {
        match self.color_space {
            COLOR_SPACE::RGB => Ok(self),
            COLOR_SPACE::YUV => {
                let w = self.width as usize;
                let h = self.height as usize;
                let n = self.data.len();
                if (w * h) % 2 != 0 {
                    proof {
                        lemma_pixel_pair_parity(w as int, h as int);
                    }
                    return Err(crate::pixel::CodecError::LengthMismatch);
                }
                proof {
                    lemma_pixel_pair_parity(w as int, h as int);
                }
                if n / 2 > usize::MAX / 3 {
                    return Err(crate::pixel::CodecError::LengthMismatch);
                }
                let mut rgb: Vec<u8> = vec![0u8; n / 2 * 3];
                let res = crate::pixel::yuv422_to_rgb24(self.data.as_slice(), &mut rgb);
                proof {
                    assert(res is Ok);
                }
                Ok(
                    Image {
                        timestamp: 0,
                        data: rgb,
                        width: self.width,
                        height: self.height,
                        color_space: COLOR_SPACE::RGB,
                    },
                )
            },
        }
    }
}

/// An even pixel count is exactly what makes a packed 4:2:2 buffer split
/// into whole 4-byte macropixels, and relates its byte count to the
/// decoded one.
proof fn lemma_pixel_pair_parity(w: int, h: int)
    by (nonlinear_arith)
    requires
        0 <= w,
        0 <= h,
    ensures
        (w * h) % 2 == 0 <==> (w * h * 2) % 4 == 0,
        (w * h) % 2 == 0 ==> w * h * 2 / 2 * 3 == w * h * 3,
        2 * (w * h * 3) == 3 * (w * h * 2),
{
}

/// Within row `y` of a row-major image `w` pixels wide, the 3-byte pixel at
/// column `x` of `post` holds what the pixel at column `w - 1 - x` of `pre`
/// held.
pub open spec fn flip_px_ok(pre: Seq<u8>, post: Seq<u8>, w: int, y: int, x: int) -> bool {
    &&& post[3 * (y * w + x)] == pre[3 * (y * w + (w - 1 - x))]
    &&& post[3 * (y * w + x) + 1] == pre[3 * (y * w + (w - 1 - x)) + 1]
    &&& post[3 * (y * w + x) + 2] == pre[3 * (y * w + (w - 1 - x)) + 2]
}

/// Relies on `std::time::SystemTime::now` and
/// `SystemTime::duration_since(UNIX_EPOCH)`: seconds elapsed since the unix
/// epoch, or 0 if the clock reads earlier than the epoch. The result depends
/// on the wall clock, so nothing is promised of it.
#[verifier::external_body]
fn unix_timestamp_now() -> u64 {
    match std::time::SystemTime::now().duration_since(std::time::UNIX_EPOCH) {
        Ok(d) => d.as_secs(),
        Err(_) => 0,
    }
}

/// Pose keypoints decoded off the wire: the echoed request timestamp and the
/// model's output vector of 51 values (17 keypoints x (y ratio, x ratio,
/// confidence)), each carried as the bit pattern of an IEEE-754 single.
pub struct InferenceResults {
    pub timestamp: u64,
    pub vector: Vec<u32>,
}

/// Process configuration: run mode and the two socket addresses.
pub struct Arguments {
    pub server: bool,
    pub client: bool,
    pub main: bool,
    pub bind: String,
    pub connect: String,
}

} // verus!
