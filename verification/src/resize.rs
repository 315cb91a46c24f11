//! Aspect-preserving resize with letterbox padding.
//!
//! A single uniform scale factor is chosen so that the scaled image fits
//! entirely within the target box; the content is downsampled by
//! nearest-neighbor step sampling (not area-averaged) and centered inside a
//! zero-filled canvas, any odd leftover padding split as `floor(delta/2)`
//! before and `delta - floor(delta/2)` after. The output uses the same
//! per-pixel stride as the input (3 for blue-green-red, 2 for packed 4:2:2).

use vstd::prelude::*;
use vstd::arithmetic::div_mod::{
    lemma_div_by_self, lemma_div_is_ordered, lemma_div_multiples_vanish,
    lemma_div_pos_is_pos, lemma_fundamental_div_mod, lemma_mod_bound,
};
use vstd::arithmetic::mul::{lemma_mul_inequality, lemma_mul_is_commutative};
use crate::types::{bytes_per_pixel, spec_bytes_per_pixel, Image, COLOR_SPACE};

verus! {

/// Width of the scaled content: the full target width when the source is
/// proportionally wider than the target box, else scaled down by the
/// height ratio.
pub open spec fn spec_scaled_width(ow: int, oh: int, nw: int, nh: int) -> int {
    if ow * nh > oh * nw {
        nw
    } else {
        ow * nh / oh
    }
}

/// Height of the scaled content, chosen with the same uniform scale factor
/// as [`spec_scaled_width`].
pub open spec fn spec_scaled_height(ow: int, oh: int, nw: int, nh: int) -> int {
    if ow * nh > oh * nw {
        oh * nw / ow
    } else {
        nh
    }
}

/// Nearest-neighbor sampling step: the source extent over the destination
/// extent, at least 1.
pub open spec fn spec_step(src: int, dst: int) -> int {
    if src / dst >= 1 {
        src / dst
    } else {
        1
    }
}

/// Padding inserted before the content on an axis: half the leftover,
/// rounded down.
pub open spec fn spec_pad_before(total: int, content: int) -> int {
    (total - content) / 2
}

/// The byte a letterbox resize writes at output pixel `(x, y)`, channel `c`:
/// a step-sampled source byte inside the centered content box, 0 in the
/// padding.
pub open spec fn lb_expected(
    src: Seq<u8>,
    ow: int,
    oh: int,
    nw: int,
    nh: int,
    ch: int,
    y: int,
    x: int,
    c: int,
) -> u8 {
    let sw = spec_scaled_width(ow, oh, nw, nh);
    let sh = spec_scaled_height(ow, oh, nw, nh);
    let pl = spec_pad_before(nw, sw);
    let pt = spec_pad_before(nh, sh);
    let xs = spec_step(ow, sw);
    let ys = spec_step(oh, sh);
    if pl <= x < pl + sw && pt <= y < pt + sh {
        src[(((y - pt) * ys) * ow + (x - pl) * xs) * ch + c]
    } else {
        0u8
    }
}

/// Output byte `(x, y, c)` of `dst` holds what the letterbox resize of `src`
/// puts there.
pub open spec fn lb_byte_ok(
    src: Seq<u8>,
    dst: Seq<u8>,
    ow: int,
    oh: int,
    nw: int,
    nh: int,
    ch: int,
    y: int,
    x: int,
    c: int,
) -> bool {
    dst[(y * nw + x) * ch + c] == lb_expected(src, ow, oh, nw, nh, ch, y, x, c)
}

/// `dst` is the letterbox resize of the `ow x oh` image `src` into an
/// `nw x nh` canvas at `ch` bytes per pixel.
pub open spec fn letterboxed(
    src: Seq<u8>,
    ow: int,
    oh: int,
    nw: int,
    nh: int,
    ch: int,
    dst: Seq<u8>,
) -> bool {
    &&& dst.len() == nw * nh * ch
    &&& forall|y: int, x: int, c: int|
        0 <= y < nh && 0 <= x < nw && 0 <= c < ch ==> #[trigger] lb_byte_ok(
            src,
            dst,
            ow,
            oh,
            nw,
            nh,
            ch,
            y,
            x,
            c,
        )
}

/// A row-major byte index with in-range coordinates lies inside the buffer.
pub proof fn lemma_grid_index_bound(rows: int, cols: int, ch: int, y: int, x: int, c: int)
    by (nonlinear_arith)
    requires
        0 <= y < rows,
        0 <= x < cols,
        0 <= c < ch,
    ensures
        0 <= (y * cols + x) * ch + c < rows * cols * ch,
{
}

/// A byte index of a row-major grid that lies strictly before the cell
/// `(y, x)` lies strictly below that cell's first byte index.
proof fn lemma_pre_index_bound(y: int, x: int, nw: int, ch: int, yy: int, xx: int, cc: int)
    by (nonlinear_arith)
    requires
        0 <= cc < ch,
        0 <= xx < nw,
        0 <= yy,
        0 <= x <= nw,
        (yy < y) || (yy == y && xx < x),
    ensures
        0 <= (yy * nw + xx) * ch + cc < (y * nw + x) * ch,
{
}

/// Scaling a length by a ratio at most one does not enlarge it:
/// `a * b / d <= a` when `b <= d`.
proof fn lemma_scale_le(a: int, b: int, d: int)
    requires
        0 <= a,
        0 <= b <= d,
        0 < d,
    ensures
        a * b / d <= a,
{
    lemma_mul_inequality(b, d, a);
    lemma_mul_is_commutative(b, a);
    lemma_mul_is_commutative(d, a);
    lemma_div_is_ordered(a * b, a * d, d);
    lemma_mul_is_commutative(a, d);
    lemma_div_multiples_vanish(a, d);
}

/// The padding on an axis is symmetric to within one pixel: the leftover
/// splits into `floor(delta/2)` before the content and `delta -
/// floor(delta/2)` after it, and the two parts differ by at most 1.
pub proof fn lemma_letterbox_padding_symmetric(total: int, content: int)
    requires
        0 <= content <= total,
    ensures
        0 <= spec_pad_before(total, content),
        spec_pad_before(total, content) <= (total - content) - spec_pad_before(total, content),
        (total - content) - spec_pad_before(total, content) - spec_pad_before(total, content)
            <= 1,
{
    lemma_fundamental_div_mod(total - content, 2);
    lemma_mod_bound(total - content, 2);
    lemma_div_pos_is_pos(total - content, 2);
}

/// The scaled content keeps the source's aspect ratio to within integer
/// rounding: the cross products of the scaled and source dimensions differ
/// by less than one source pixel extent.
pub proof fn lemma_letterbox_aspect(ow: int, oh: int, nw: int, nh: int)
    requires
        0 < nw <= ow,
        0 < nh <= oh,
    ensures
        -oh < spec_scaled_width(ow, oh, nw, nh) * oh - spec_scaled_height(ow, oh, nw, nh) * ow
            < ow,
{
    if ow * nh > oh * nw {
        let q = oh * nw / ow;
        lemma_fundamental_div_mod(oh * nw, ow);
        lemma_mod_bound(oh * nw, ow);
        lemma_mul_is_commutative(nw, oh);
        lemma_mul_is_commutative(ow, q);
    } else {
        let q = ow * nh / oh;
        lemma_fundamental_div_mod(ow * nh, oh);
        lemma_mod_bound(ow * nh, oh);
        lemma_mul_is_commutative(nh, ow);
        lemma_mul_is_commutative(oh, q);
    }
}

/// Computes the scaled content dimensions for a letterbox resize.
fn scaled_dims(ow: usize, oh: usize, nw: usize, nh: usize) -> (r: (usize, usize))
    requires
        1 <= ow <= 0x7fffffff,
        1 <= oh <= 0x7fffffff,
        1 <= nw <= ow,
        1 <= nh <= oh,
    ensures
        r.0 == spec_scaled_width(ow as int, oh as int, nw as int, nh as int),
        r.1 == spec_scaled_height(ow as int, oh as int, nw as int, nh as int),
        r.0 <= nw && r.0 <= ow,
        r.1 <= nh && r.1 <= oh,
{
    let ow64 = ow as u64;
    let oh64 = oh as u64;
    let nw64 = nw as u64;
    let nh64 = nh as u64;
    proof {
        assert(ow as int * (nh as int) <= 0x7fffffff * 0x7fffffff && oh as int * (nw as int)
            <= 0x7fffffff * 0x7fffffff) by (nonlinear_arith)
            requires
                0 <= ow <= 0x7fffffff,
                0 <= oh <= 0x7fffffff,
                0 <= nw <= 0x7fffffff,
                0 <= nh <= 0x7fffffff,
        ;
    }
    if ow64 * nh64 > oh64 * nw64 {
        let sh64 = oh64 * nw64 / ow64;
        proof {
            lemma_scale_le(oh as int, nw as int, ow as int);
            // the scaled height also fits in the target box
            lemma_div_is_ordered(oh as int * nw as int, ow as int * nh as int, ow as int);
            lemma_mul_is_commutative(ow as int, nh as int);
            lemma_div_multiples_vanish(nh as int, ow as int);
        }
        (nw, sh64 as usize)
    } else {
        let sw64 = ow64 * nh64 / oh64;
        proof {
            lemma_scale_le(ow as int, nh as int, oh as int);
            // the scaled width also fits in the target box
            lemma_mul_is_commutative(ow as int, nh as int);
            lemma_mul_is_commutative(oh as int, nw as int);
            lemma_div_is_ordered(ow as int * nh as int, oh as int * nw as int, oh as int);
            lemma_mul_is_commutative(oh as int, nw as int);
            lemma_div_multiples_vanish(nw as int, oh as int);
        }
        (sw64 as usize, nh)
    }
}

/// Resizes `img` into a `new_shape.0 x new_shape.1` canvas, preserving the
/// aspect ratio by a uniform scale factor, step-sampling the content and
/// centering it inside zero-filled padding. The per-pixel stride is taken
/// from `color_type`, which must describe the input. The timestamp carries
/// over.
pub fn resize_with_padding_ultra_fast(img: &Image, new_shape: (i32, i32), color_type: COLOR_SPACE)
    -> (out: Image)
    requires
        img.wf(),
        img.color_space == color_type,
        0 < new_shape.0 <= img.width,
        0 < new_shape.1 <= img.height,
    ensures
        out.wf(),
        out.timestamp == img.timestamp,
        out.width == new_shape.0,
        out.height == new_shape.1,
        out.color_space == color_type,
        out.data@.len() == new_shape.0 * new_shape.1 * spec_bytes_per_pixel(color_type),
        forall|y: int, x: int, c: int|
            0 <= y < new_shape.1 && 0 <= x < new_shape.0 && 0 <= c < spec_bytes_per_pixel(
                color_type,
            ) ==> #[trigger] lb_byte_ok(
                img.data@,
                out.data@,
                img.width as int,
                img.height as int,
                new_shape.0 as int,
                new_shape.1 as int,
                spec_bytes_per_pixel(color_type),
                y,
                x,
                c,
            ),
{
    let ow = img.width as usize;
    let oh = img.height as usize;
    let nw = new_shape.0 as usize;
    let nh = new_shape.1 as usize;
    let ch = bytes_per_pixel(color_type);
    let n_src = img.data.len();
    let ghost src = img.data@;
    let (sw, sh) = scaled_dims(ow, oh, nw, nh);
    let pl = (nw - sw) / 2;
    let pt = (nh - sh) / 2;
    let xs = if sw == 0 {
        1
    } else {
        ow / sw
    };
    let ys = if sh == 0 {
        1
    } else {
        oh / sh
    };
    proof {
        if sw >= 1 {
            lemma_div_by_self(sw as int);
            lemma_div_is_ordered(sw as int, ow as int, sw as int);
            lemma_fundamental_div_mod(ow as int, sw as int);
            lemma_mod_bound(ow as int, sw as int);
        }
        if sh >= 1 {
            lemma_div_by_self(sh as int);
            lemma_div_is_ordered(sh as int, oh as int, sh as int);
            lemma_fundamental_div_mod(oh as int, sh as int);
            lemma_mod_bound(oh as int, sh as int);
        }
    }
    let mut out: Vec<u8> = Vec::new();
    let mut y: usize = 0;
    while y < nh
        invariant
            y <= nh,
            1 <= nw <= ow <= 0x7fffffff,
            1 <= nh <= oh <= 0x7fffffff,
            ch == spec_bytes_per_pixel(color_type),
            1 <= ch <= 3,
            img.data@ == src,
            src.len() == n_src,
            n_src == ow * oh * ch,
            sw == spec_scaled_width(ow as int, oh as int, nw as int, nh as int),
            sh == spec_scaled_height(ow as int, oh as int, nw as int, nh as int),
            sw <= nw && sw <= ow,
            sh <= nh && sh <= oh,
            pl == spec_pad_before(nw as int, sw as int),
            pt == spec_pad_before(nh as int, sh as int),
            sw >= 1 ==> xs == spec_step(ow as int, sw as int),
            sh >= 1 ==> ys == spec_step(oh as int, sh as int),
            xs >= 1 && ys >= 1,
            sw >= 1 ==> sw * xs <= ow,
            sh >= 1 ==> sh * ys <= oh,
            out@.len() == (y * nw) * ch,
            forall|yy: int, xx: int, cc: int|
                0 <= yy < y && 0 <= xx < nw && 0 <= cc < ch ==> #[trigger] lb_byte_ok(
                    src,
                    out@,
                    ow as int,
                    oh as int,
                    nw as int,
                    nh as int,
                    ch as int,
                    yy,
                    xx,
                    cc,
                ),
        decreases nh - y,
    {
        let mut x: usize = 0;
        while x < nw
            invariant
                y < nh,
                x <= nw,
                1 <= nw <= ow <= 0x7fffffff,
                1 <= nh <= oh <= 0x7fffffff,
                ch == spec_bytes_per_pixel(color_type),
                1 <= ch <= 3,
                img.data@ == src,
                src.len() == n_src,
                n_src == ow * oh * ch,
                sw == spec_scaled_width(ow as int, oh as int, nw as int, nh as int),
                sh == spec_scaled_height(ow as int, oh as int, nw as int, nh as int),
                sw <= nw && sw <= ow,
                sh <= nh && sh <= oh,
                pl == spec_pad_before(nw as int, sw as int),
                pt == spec_pad_before(nh as int, sh as int),
                sw >= 1 ==> xs == spec_step(ow as int, sw as int),
                sh >= 1 ==> ys == spec_step(oh as int, sh as int),
                xs >= 1 && ys >= 1,
                sw >= 1 ==> sw * xs <= ow,
                sh >= 1 ==> sh * ys <= oh,
                out@.len() == (y * nw + x) * ch,
                forall|yy: int, xx: int, cc: int|
                    ((0 <= yy < y && 0 <= xx < nw) || (yy == y && 0 <= xx < x)) && 0 <= cc < ch
                        ==> #[trigger] lb_byte_ok(
                        src,
                        out@,
                        ow as int,
                        oh as int,
                        nw as int,
                        nh as int,
                        ch as int,
                        yy,
                        xx,
                        cc,
                    ),
            decreases nw - x,
        {
            let ghost pre = out@;
            let in_content = pl <= x && x < pl + sw && pt <= y && y < pt + sh;
            if in_content {
                proof {
                    lemma_mul_inequality(y - pt as int, sh as int - 1, ys as int);
                    assert((sh as int - 1) * (ys as int) == sh * ys - ys) by (nonlinear_arith);
                    lemma_mul_inequality(x - pl as int, sw as int - 1, xs as int);
                    assert((sw as int - 1) * (xs as int) == sw * xs - xs) by (nonlinear_arith);
                }
                let cy = (y - pt) * ys;
                let cx = (x - pl) * xs;
                proof {
                    assert(cy < oh && cx < ow);
                    lemma_grid_index_bound(
                        oh as int,
                        ow as int,
                        ch as int,
                        cy as int,
                        cx as int,
                        ch as int - 1,
                    );
                    assert(oh as int * (ow as int) * (ch as int) == ow as int * (oh as int) * (
                    ch as int)) by (nonlinear_arith);
                }
                let base = (cy * ow + cx) * ch;
                if ch == 3 {
                    out.push(img.data[base]);
                    out.push(img.data[base + 1]);
                    out.push(img.data[base + 2]);
                } else {
                    out.push(img.data[base]);
                    out.push(img.data[base + 1]);
                }
            } else {
                if ch == 3 {
                    out.push(0);
                    out.push(0);
                    out.push(0);
                } else {
                    out.push(0);
                    out.push(0);
                }
            }
            proof {
                assert forall|yy: int, xx: int, cc: int|
                    ((0 <= yy < y && 0 <= xx < nw) || (yy == y && 0 <= xx < x + 1)) && 0 <= cc
                        < ch implies #[trigger] lb_byte_ok(
                    src,
                    out@,
                    ow as int,
                    oh as int,
                    nw as int,
                    nh as int,
                    ch as int,
                    yy,
                    xx,
                    cc,
                ) by {
                    if yy == y && xx == x {
                        assert(out@[(y * nw + x) * ch + cc] == lb_expected(
                            src,
                            ow as int,
                            oh as int,
                            nw as int,
                            nh as int,
                            ch as int,
                            yy,
                            xx,
                            cc,
                        ));
                    } else {
                        assert(lb_byte_ok(
                            src,
                            pre,
                            ow as int,
                            oh as int,
                            nw as int,
                            nh as int,
                            ch as int,
                            yy,
                            xx,
                            cc,
                        ));
                        lemma_pre_index_bound(
                            y as int,
                            x as int,
                            nw as int,
                            ch as int,
                            yy,
                            xx,
                            cc,
                        );
                    }
                }
            }
            x = x + 1;
        }
        proof {
            assert((y + 1) * nw * ch == (y * nw + nw) * ch) by (nonlinear_arith);
        }
        y = y + 1;
    }
    proof {
        assert((nh * nw) * ch == nw as int * nh as int * ch) by (nonlinear_arith);
    }
    Image {
        timestamp: img.timestamp,
        data: out,
        width: new_shape.0,
        height: new_shape.1,
        color_space: color_type,
    }
}

} // verus!
