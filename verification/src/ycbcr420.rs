//! YCbCr 4:2:0 planar decoder.
//!
//! Layout: a `w·h` luma plane, then a Cb plane and a Cr plane of
//! `⌈w/2⌉·⌈h/2⌉` bytes each (Cr first with `swap_chroma_planes`); each chroma
//! sample covers a 2×2 block of pixels.

use vstd::prelude::*;
use std::sync::atomic::AtomicBool;
use crate::decoder_helpers::{validate_dimensions, padded, pad_to, decoded_as, DEFAULT_TRAILING_PADDING_TOLERANCE};
use crate::error::{DecodeError, DecodedImage, Fault};
use crate::model::{Bgra, Bitmap, px_bytes, quad, lemma_px_bytes_push, lemma_px_bytes_empty, lemma_row_major};
use crate::pixel_utils::check_canceled;
use crate::profile::{Profile, ProfileSpec};
use crate::yuv::{yuv_px, yuv_to_bgra};
use crate::enc::ycbcr420::{ycbcr420_encoded, chroma_plane, block_chroma};
use crate::enc::helpers::px_luma;
use crate::pixel_utils::{src_px, lemma_px_bytes_pixel};

verus! {

/// Frame length of a `w`×`h` YCbCr 4:2:0 frame.
pub open spec fn ycbcr420_len(w: int, h: int) -> int {
    w * h + 2 * (((w + 1) / 2) * ((h + 1) / 2))
}

/// Pixel `i` of a `w`×`h` YCbCr 4:2:0 frame.
pub open spec fn ycbcr420_px(d: Seq<u8>, w: int, h: int, swap: bool, i: int) -> Bgra {
    let x = i % w;
    let y = i / w;
    let uvw = (w + 1) / 2;
    let cs = uvw * ((h + 1) / 2);
    let ci = (y / 2) * uvw + x / 2;
    let first = d[w * h + ci];
    let second = d[w * h + cs + ci];
    if swap {
        yuv_px(d[y * w + x], second, first)
    } else {
        yuv_px(d[y * w + x], first, second)
    }
}

/// What decoding a YCbCr 4:2:0 frame gives.
pub open spec fn ycbcr420_spec(src: Seq<u8>, p: ProfileSpec, tol: nat) -> Result<Bitmap, Fault> {
    if p.width <= 0 || p.height <= 0 {
        Err(Fault::InvalidFormat)
    } else if ycbcr420_len(p.width as int, p.height as int) > usize::MAX {
        Err(Fault::BufferTooShort(0, 0))
    } else {
        let w = p.width as int;
        let h = p.height as int;
        match padded(src, ycbcr420_len(w, h), tol) {
            Err(f) => Err(f),
            Ok(d) => Ok(
                Bitmap {
                    data: px_bytes(w * h, |i: int| ycbcr420_px(d, w, h, p.swap_chroma_planes, i)),
                    width: p.width as u32,
                    height: p.height as u32,
                },
            ),
        }
    }
}

proof fn lemma_ycbcr_bounds(w: int, h: int, y: int, x: int)
    requires
        w > 0,
        h > 0,
        0 <= y < h,
        0 <= x < w,
    ensures
        0 <= y * w + x < w * h,
        0 <= (y / 2) * ((w + 1) / 2) + x / 2 < ((w + 1) / 2) * ((h + 1) / 2),
{
    assert(0 <= y * w + x < w * h) by (nonlinear_arith)
        requires
            0 <= y < h,
            0 <= x < w,
    ;
    let uvw = (w + 1) / 2;
    let uvh = (h + 1) / 2;
    assert(0 <= y / 2 < uvh);
    assert(0 <= x / 2 < uvw);
    assert(0 <= (y / 2) * uvw + x / 2 < uvw * uvh) by (nonlinear_arith)
        requires
            0 <= y / 2 < uvh,
            0 <= x / 2 < uvw,
    ;
}

/// Decodes a YCbCr 4:2:0 frame with the given trailing-padding tolerance.
pub fn decode_with_tolerance(src: &[u8], profile: &Profile, canceled: &AtomicBool, tolerance: usize) -> (r:
    Result<DecodedImage, DecodeError>)
    ensures
        decoded_as(r, ycbcr420_spec(src@, profile@, tolerance as nat)),
{
    let (_unused, w, h) = validate_dimensions(src, profile, "YCbCr420 dimensions must be positive", 0, tolerance)?;
    let uvw = w / 2 + w % 2;
    let uvh = h / 2 + h % 2;
    assert(uvw == (w + 1) / 2 && uvh == (h + 1) / 2);
    proof {
        assert(w * h >= 0 && uvw * uvh >= 0) by (nonlinear_arith)
            requires w > 0, h > 0, uvw >= 0, uvh >= 0;
    }
    let sizes = match w.checked_mul(h) {
        Some(ys) => match uvw.checked_mul(uvh) {
            Some(cs) => match cs.checked_mul(2) {
                Some(cs2) => match ys.checked_add(cs2) {
                    Some(e) => Some((ys, cs, e)),
                    None => None,
                },
                None => None,
            },
            None => None,
        },
        None => None,
    };
    let (ys, cs, expected) = match sizes {
        Some(t) => t,
        None => {
            return Err(DecodeError::BufferTooShort { expected: 0, actual: 0 });
        },
    };
    let data = pad_to(src, expected, tolerance)?;
    let swap = profile.swap_chroma_planes;
    let len = data.len();
    let ghost f = |i: int| ycbcr420_px(data@, w as int, h as int, swap, i);
    let mut dst: Vec<u8> = Vec::new();
    proof {
        lemma_px_bytes_empty(f);
    }
    let mut y: usize = 0;
    while y < h
        invariant
            0 <= y <= h,
            w > 0,
            h > 0,
            uvw == (w + 1) / 2,
            uvh == (h + 1) / 2,
            ys == w * h,
            cs == uvw * uvh,
            len == data@.len(),
            len >= ys + 2 * cs,
            f == (|i: int| ycbcr420_px(data@, w as int, h as int, swap, i)),
            dst@ == px_bytes(y * w, f),
            ycbcr420_spec(src@, profile@, tolerance as nat) is Ok,
        decreases h - y,
    {
        check_canceled(canceled, "ycbcr420 decode canceled")?;
        let mut x: usize = 0;
        while x < w
            invariant
                0 <= y < h,
                0 <= x <= w,
                w > 0,
                h > 0,
                uvw == (w + 1) / 2,
                uvh == (h + 1) / 2,
                ys == w * h,
                cs == uvw * uvh,
                len == data@.len(),
                len >= ys + 2 * cs,
                f == (|i: int| ycbcr420_px(data@, w as int, h as int, swap, i)),
                dst@ == px_bytes(y * w + x, f),
            decreases w - x,
        {
            proof {
                lemma_ycbcr_bounds(w as int, h as int, y as int, x as int);
                lemma_row_major(y as int, x as int, w as int);
            }
            let ci = (y / 2) * uvw + x / 2;
            let first = data[ys + ci];
            let second = data[ys + cs + ci];
            let luma = data[y * w + x];
            let px = if swap {
                yuv_to_bgra(luma, second, first)
            } else {
                yuv_to_bgra(luma, first, second)
            };
            dst.push(px[0]);
            dst.push(px[1]);
            dst.push(px[2]);
            dst.push(px[3]);
            proof {
                let i = y * w + x;
                assert(px@ == quad(f(i)));
                lemma_px_bytes_push(i, f);
                assert(dst@ =~= px_bytes(i + 1, f));
            }
            x = x + 1;
        }
        y = y + 1;
        assert(y * w == (y - 1) * w + w) by (nonlinear_arith);
    }
    proof {
        assert(h * w == w * h) by (nonlinear_arith);
    }
    Ok(DecodedImage { data: dst, width: w as u32, height: h as u32 })
}

/// Decodes a YCbCr 4:2:0 frame to BGRA8 output.
///
/// Errors: `InvalidFormat` if width or height is not positive,
/// `BufferTooShort` if `src` lacks more than 256 bytes of the frame.
pub fn decode(src: &[u8], profile: &Profile, canceled: &AtomicBool) -> (r: Result<DecodedImage, DecodeError>)
    ensures
        decoded_as(r, ycbcr420_spec(src@, profile@, 256)),
{
    decode_with_tolerance(src, profile, canceled, DEFAULT_TRAILING_PADDING_TOLERANCE)
}

proof fn lemma_ycbcr420_encoded_at(bgra: Seq<u8>, w: int, h: int, s: bool, x: int, y: int)
    requires
        w > 0,
        h > 0,
        0 <= x < w,
        0 <= y < h,
    ensures
        ycbcr420_encoded(bgra, w, h, s).len() == ycbcr420_len(w, h),
        ycbcr420_encoded(bgra, w, h, s)[y * w + x] == px_luma(bgra, y * w + x) as u8,
        ycbcr420_encoded(bgra, w, h, s)[w * h + ((y / 2) * ((w + 1) / 2) + x / 2)] == block_chroma(
            bgra,
            w,
            h,
            x / 2,
            y / 2,
            !s,
        ),
        ycbcr420_encoded(bgra, w, h, s)[w * h + ((w + 1) / 2) * ((h + 1) / 2) + ((y / 2) * ((w + 1) / 2) + x
            / 2)] == block_chroma(bgra, w, h, x / 2, y / 2, s),
{
    let uw = (w + 1) / 2;
    let uh = (h + 1) / 2;
    let cs = uw * uh;
    let ci = (y / 2) * uw + x / 2;
    lemma_ycbcr_bounds(w, h, y, x);
    assert(0 <= x / 2 < uw);
    crate::model::lemma_row_major(y / 2, x / 2, uw);
    let lp = Seq::new((w * h) as nat, |i: int| px_luma(bgra, i) as u8);
    let cb = chroma_plane(bgra, w, h, true);
    let cr = chroma_plane(bgra, w, h, false);
    assert(cb[ci] == block_chroma(bgra, w, h, x / 2, y / 2, true));
    assert(cr[ci] == block_chroma(bgra, w, h, x / 2, y / 2, false));
    let (p1, p2) = if s {
        (cr, cb)
    } else {
        (cb, cr)
    };
    assert(ycbcr420_encoded(bgra, w, h, s) == lp + p1 + p2);
    assert(lp.len() == w * h && p1.len() == cs && p2.len() == cs);
    assert((lp + p1 + p2)[y * w + x] == lp[y * w + x]);
    assert((lp + p1 + p2)[w * h + ci] == p1[ci]);
    assert((lp + p1 + p2)[w * h + cs + ci] == p2[ci]);
}

/// Decoding what the YCbCr 4:2:0 encoder writes, with the chroma planes in
/// the order the profile names (blue-difference first unless it swaps
/// them), gives the pixel at column `x`, row `y` its own luma and the
/// blue-difference and red-difference samples of its 2×2 block.
pub proof fn lemma_ycbcr420_round_trip(bgra: Seq<u8>, p: ProfileSpec, tol: nat, b: Bitmap, x: int, y: int)
    requires
        ycbcr420_spec(ycbcr420_encoded(bgra, p.width as int, p.height as int, p.swap_chroma_planes), p, tol)
            == Ok::<Bitmap, Fault>(b),
        0 <= x < p.width,
        0 <= y < p.height,
    ensures
        src_px(b.data, y * p.width + x) == yuv_px(
            px_luma(bgra, y * p.width + x) as u8,
            block_chroma(bgra, p.width as int, p.height as int, x / 2, y / 2, true),
            block_chroma(bgra, p.width as int, p.height as int, x / 2, y / 2, false),
        ),
{
    let w = p.width as int;
    let h = p.height as int;
    let s = p.swap_chroma_planes;
    let d = ycbcr420_encoded(bgra, w, h, s);
    lemma_ycbcr420_encoded_at(bgra, w, h, s, x, y);
    assert(padded(d, ycbcr420_len(w, h), tol) == Ok::<Seq<u8>, Fault>(d));
    let i = y * w + x;
    lemma_ycbcr_bounds(w, h, y, x);
    crate::model::lemma_row_major(y, x, w);
    let f = |k: int| ycbcr420_px(d, w, h, s, k);
    assert(b.data == px_bytes(w * h, f));
    lemma_px_bytes_pixel(w * h, f, i);
}

} // verus!
