//! Orchestration decisions of the streaming client and the inference
//! session.
//!
//! The client turns a captured blue-green-red frame into the wire bytes of
//! one request: letterbox-resize to the agreed resolution, convert to
//! packed 4:2:2, frame. The server turns a decoded request into the
//! model's input tensor: letterbox-resize the packed payload, convert to
//! blue-green-red. The inference engine itself is a black box between
//! those two steps; the response echoes the request's timestamp around
//! whatever the engine returned. All socket work stays outside; these
//! functions go from plain values to plain values.

use vstd::prelude::*;
use crate::pixel::{decoded_rgb, encoded_yuv, rgb24_to_yuv422, yuv422_to_rgb24};
use crate::resize::{letterboxed, resize_with_padding_ultra_fast};
use crate::types::{Image, InferenceResults, COLOR_SPACE};
use crate::wire::{encode_request, spec_request_wire, RequestMessage, ResponseMessage};

verus! {

/// A frame could not be prepared: its dimensions, encoding or byte count
/// do not fit what the pipeline was negotiated for.
#[derive(Clone, Copy, PartialEq, Eq, Structural, Debug)]
pub enum PrepareError {
    BadDimensions,
}

/// The conditions under which a captured blue-green-red frame can become
/// a request at the target resolution: a well-formed image, target within
/// the source on both axes, and a whole number of pixel pairs in the
/// scaled canvas.
pub open spec fn client_frame_ok(img: Image, tw: int, th: int) -> bool {
    &&& img.wf()
    &&& img.color_space is RGB
    &&& 0 < tw <= img.width
    &&& 0 < th <= img.height
    &&& (tw * th) % 2 == 0
}

/// Builds the wire bytes of one request from a captured blue-green-red
/// frame: letterbox-resize to `target`, convert to packed 4:2:2, frame
/// with the resized dimensions and the frame's timestamp. Fails fast when
/// the frame does not fit the negotiated target.
pub fn client_request_bytes(img: &Image, target: (i32, i32)) -> (r: Result<Vec<u8>, PrepareError>)
    ensures
        r is Ok <==> client_frame_ok(*img, target.0 as int, target.1 as int),
        r matches Ok(bytes) ==> exists|mid: Seq<u8>|
            {
                &&& #[trigger] letterboxed(
                    img.data@,
                    img.width as int,
                    img.height as int,
                    target.0 as int,
                    target.1 as int,
                    3,
                    mid,
                )
                &&& exists|payload: Seq<u8>|
                    {
                        &&& #[trigger] encoded_yuv(mid, payload)
                        &&& bytes@ == spec_request_wire(
                            RequestMessage {
                                width: target.0 as u32,
                                height: target.1 as u32,
                                timestamp: img.timestamp,
                                payload_length: payload.len() as u64,
                            },
                            payload,
                        )
                    }
            },
{
    let (tw, th) = target;
    if tw < 1 || th < 1 {
        return Err(PrepareError::BadDimensions);
    }
    if img.width < tw || img.height < th || img.width < 1 || img.height < 1 {
        return Err(PrepareError::BadDimensions);
    }
    let n = img.data.len();
    proof {
        lemma_area_bound(img.width as int, img.height as int, 3);
    }
    let expected = (img.width as u64) * (img.height as u64) * 3;
    if (n as u64) != expected {
        return Err(PrepareError::BadDimensions);
    }
    let is_rgb = match img.color_space {
        COLOR_SPACE::RGB => true,
        COLOR_SPACE::YUV => false,
    };
    if !is_rgb {
        return Err(PrepareError::BadDimensions);
    }
    proof {
        lemma_target_area_fits(
            img.width as int,
            img.height as int,
            tw as int,
            th as int,
            3,
            n as int,
        );
    }
    if ((tw as usize) * (th as usize)) % 2 != 0 {
        return Err(PrepareError::BadDimensions);
    }
    let resized = resize_with_padding_ultra_fast(img, (tw, th), COLOR_SPACE::RGB);
    let rgb_len = resized.data.len();
    let mut payload: Vec<u8> = vec![0u8; rgb_len / 3 * 2];
    proof {
        lemma_thirds(tw as int * (th as int));
    }
    let enc = rgb24_to_yuv422(resized.data.as_slice(), &mut payload);
    proof {
        assert(enc is Ok);
    }
    let bytes = encode_request(tw as u32, th as u32, img.timestamp, payload.as_slice());
    proof {
        assert(letterboxed(
            img.data@,
            img.width as int,
            img.height as int,
            tw as int,
            th as int,
            3,
            resized.data@,
        ));
        assert(encoded_yuv(resized.data@, payload@));
    }
    Ok(bytes)
}

/// The byte count of a bounded frame stays within 64 bits.
proof fn lemma_area_bound(a: int, b: int, k: int)
    by (nonlinear_arith)
    requires
        0 <= a <= 0x7fffffff,
        0 <= b <= 0x7fffffff,
        0 <= k <= 3,
    ensures
        0 <= a * b * k <= 0x7fffffff * 0x7fffffff * 3,
        0 <= a * b <= 0x7fffffff * 0x7fffffff,
{
}

/// A target box that fits inside the source holds no more pixels than the
/// source buffer holds bytes.
proof fn lemma_target_area_fits(w: int, h: int, tw: int, th: int, k: int, n: int)
    by (nonlinear_arith)
    requires
        1 <= tw <= w,
        1 <= th <= h,
        1 <= k,
        n == w * h * k,
    ensures
        tw * th <= n,
{
}

/// With `p` pixels at 3 bytes each, the buffer splits into whole 6-byte
/// pixel pairs exactly when the pixel count is even, and the packed
/// output is two thirds of it.
proof fn lemma_thirds(p: int)
    by (nonlinear_arith)
    requires
        0 <= p,
        p % 2 == 0,
    ensures
        (p * 3) % 6 == 0,
        p * 3 / 3 * 2 == p * 2,
        3 * (p * 2) == 2 * (p * 3),
{
}

/// The conditions under which a decoded request can feed the model: the
/// declared payload length matches the payload, the payload holds exactly
/// one packed 4:2:2 frame of the declared dimensions, the dimensions hold
/// in an `i32`, and the target box fits inside them with a whole number
/// of pixel pairs.
pub open spec fn request_feedable(m: RequestMessage, payload: Seq<u8>, tw: int, th: int) -> bool {
    &&& m.payload_length == payload.len()
    &&& 1 <= m.width <= 0x7fffffff
    &&& 1 <= m.height <= 0x7fffffff
    &&& payload.len() == m.width * m.height * 2
    &&& 0 < tw <= m.width
    &&& 0 < th <= m.height
    &&& (tw * th) % 2 == 0
    &&& tw * th * 3 <= usize::MAX
}

/// Turns a decoded request into the model's input tensor: the packed
/// payload is letterbox-resized to the target resolution and decoded to
/// blue-green-red, giving exactly `target.0 * target.1 * 3` bytes. A
/// request whose payload or dimensions do not fit the declared format is
/// malformed and fails fast.
pub fn prepare_model_input(m: &RequestMessage, payload: &[u8], target: (i32, i32)) -> (r: Result<
    Vec<u8>,
    PrepareError,
>)
    ensures
        r is Ok <==> request_feedable(*m, payload@, target.0 as int, target.1 as int),
        r matches Ok(tensor) ==> tensor@.len() == target.0 * target.1 * 3 && exists|mid: Seq<u8>|
            {
                &&& #[trigger] letterboxed(
                    payload@,
                    m.width as int,
                    m.height as int,
                    target.0 as int,
                    target.1 as int,
                    2,
                    mid,
                )
                &&& decoded_rgb(mid, tensor@)
            },
{
    let (tw, th) = target;
    if tw < 1 || th < 1 {
        return Err(PrepareError::BadDimensions);
    }
    if m.width < 1 || m.width > 0x7fffffff || m.height < 1 || m.height > 0x7fffffff {
        return Err(PrepareError::BadDimensions);
    }
    if (tw as u32) > m.width || (th as u32) > m.height {
        return Err(PrepareError::BadDimensions);
    }
    let n = payload.len();
    if m.payload_length != (n as u64) {
        return Err(PrepareError::BadDimensions);
    }
    proof {
        lemma_area_bound(m.width as int, m.height as int, 2);
        lemma_area_bound(tw as int, th as int, 3);
    }
    let expected = (m.width as u64) * (m.height as u64) * 2;
    if (n as u64) != expected {
        return Err(PrepareError::BadDimensions);
    }
    proof {
        lemma_target_area_fits(m.width as int, m.height as int, tw as int, th as int, 2, n as int);
    }
    if ((tw as usize) * (th as usize)) % 2 != 0 {
        return Err(PrepareError::BadDimensions);
    }
    if (tw as u64) * (th as u64) * 3 > (usize::MAX as u64) {
        return Err(PrepareError::BadDimensions);
    }
    let mut data: Vec<u8> = Vec::new();
    data.extend_from_slice(payload);
    proof {
        assert(data@ =~= payload@);
    }
    let img = Image {
        timestamp: m.timestamp,
        data,
        width: m.width as i32,
        height: m.height as i32,
        color_space: COLOR_SPACE::YUV,
    };
    let resized = resize_with_padding_ultra_fast(&img, (tw, th), COLOR_SPACE::YUV);
    let yuv_len = resized.data.len();
    proof {
        lemma_halves(tw as int * (th as int));
    }
    let mut tensor: Vec<u8> = vec![0u8; yuv_len / 2 * 3];
    let dec = yuv422_to_rgb24(resized.data.as_slice(), &mut tensor);
    proof {
        assert(dec is Ok);
        assert(letterboxed(
            payload@,
            m.width as int,
            m.height as int,
            tw as int,
            th as int,
            2,
            resized.data@,
        ));
        assert(decoded_rgb(resized.data@, tensor@));
    }
    Ok(tensor)
}

/// With `p` pixels at 2 bytes each, the buffer splits into whole 4-byte
/// macropixels exactly when the pixel count is even, and the
/// blue-green-red output is three halves of it.
proof fn lemma_halves(p: int)
    by (nonlinear_arith)
    requires
        0 <= p,
        p % 2 == 0,
    ensures
        (p * 2) % 4 == 0,
        p * 2 / 2 * 3 == p * 3,
        2 * (p * 3) == 3 * (p * 2),
{
}

/// Builds the response for a served request: the request's timestamp is
/// echoed back unchanged around the engine's keypoint vector.
pub fn build_response(m: &RequestMessage, keypoints: Vec<u32>) -> (resp: ResponseMessage)
    requires
        keypoints@.len() == 51,
    ensures
        resp.timestamp == m.timestamp,
        resp.keypoints == keypoints,
        resp.wf(),
{
    ResponseMessage { timestamp: m.timestamp, keypoints }
}

/// Unpacks a decoded response for the renderer: the echoed timestamp and
/// the keypoint vector, unchanged.
pub fn results_from_response(m: ResponseMessage) -> (r: InferenceResults)
    ensures
        r.timestamp == m.timestamp,
        r.vector == m.keypoints,
{
    InferenceResults { timestamp: m.timestamp, vector: m.keypoints }
}

} // verus!
