//! UYVY 4:2:2 decoder (progressive and interlaced).
//!
//! Each pair of pixels of a row is stored as `[Cb, Y0, Cr, Y1]`, so a row
//! takes `4·⌈w/2⌉` bytes; rows are `len / h` bytes apart. An interlaced frame
//! stores the even rows first (`⌈h/2⌉` of them), then the odd rows.

use vstd::prelude::*;
use std::sync::atomic::AtomicBool;
use crate::decoder_helpers::{validate_dimensions, padded, pad_to, decoded_as, DEFAULT_TRAILING_PADDING_TOLERANCE};
use crate::error::{DecodeError, DecodedImage, Fault};
use crate::model::{Bgra, Bitmap, px_bytes, quad, lemma_px_bytes_push, lemma_px_bytes_empty, lemma_row_major};
use crate::pixel_utils::check_canceled;
use crate::profile::{Profile, ProfileSpec};
use crate::yuv::{yuv_px, yuv_to_bgra};
use crate::enc::uyvy::uyvy_encoded;
use crate::enc::helpers::{px_luma, px_cb, px_cr};
use crate::pixel_utils::{src_px, lemma_px_bytes_pixel};

verus! {

/// Bytes of one stored row of a `w`-wide UYVY frame.
pub open spec fn uyvy_row_bytes(w: int) -> int {
    4 * ((w + 1) / 2)
}

/// The stored row holding display row `y` of an `h`-row frame.
pub open spec fn stored_row(y: int, h: int, interlaced: bool) -> int {
    if interlaced {
        if y % 2 == 0 {
            y / 2
        } else {
            (h + 1) / 2 + y / 2
        }
    } else {
        y
    }
}

/// Pixel `i` of a `w`×`h` UYVY frame whose stored rows are `stride` bytes apart.
pub open spec fn uyvy_px(d: Seq<u8>, w: int, h: int, stride: int, interlaced: bool, i: int) -> Bgra {
    let x = i % w;
    let y = i / w;
    let base = stored_row(y, h, interlaced) * stride + 4 * (x / 2);
    yuv_px(d[base + 1 + 2 * (x % 2)], d[base], d[base + 2])
}

/// What decoding a UYVY frame gives.
pub open spec fn uyvy_spec(src: Seq<u8>, p: ProfileSpec, tol: nat) -> Result<Bitmap, Fault> {
    if p.width <= 0 || p.height <= 0 {
        Err(Fault::InvalidFormat)
    } else if p.height * uyvy_row_bytes(p.width as int) > usize::MAX {
        Err(Fault::BufferTooShort(0, 0))
    } else {
        let w = p.width as int;
        let h = p.height as int;
        match padded(src, h * uyvy_row_bytes(w), tol) {
            Err(f) => Err(f),
            Ok(d) => {
                let stride = (d.len() as int) / h;
                Ok(
                    Bitmap {
                        data: px_bytes(w * h, |i: int| uyvy_px(d, w, h, stride, p.is_interlaced, i)),
                        width: p.width as u32,
                        height: p.height as u32,
                    },
                )
            },
        }
    }
}

proof fn lemma_uyvy_bounds(len: int, w: int, h: int, y: int, x: int, interlaced: bool)
    requires
        w > 0,
        h > 0,
        len >= h * uyvy_row_bytes(w),
        0 <= y < h,
        0 <= x < w,
    ensures
        0 <= stored_row(y, h, interlaced) < h,
        stored_row(y, h, interlaced) * (len / h) + 4 * (x / 2) + 3 < len,
        stored_row(y, h, interlaced) * (len / h) + 4 * (x / 2) >= 0,
{
    let sr = stored_row(y, h, interlaced);
    let rb = uyvy_row_bytes(w);
    assert(0 <= sr < h);
    assert(4 * (x / 2) + 4 <= rb);
    let s = len / h;
    crate::model::lemma_index_split(len, h);
    assert(s >= rb) by (nonlinear_arith)
        requires
            len == s * h + len % h,
            0 <= len % h < h,
            len >= h * rb,
            h > 0,
    ;
    assert(sr * s + 4 * (x / 2) + 3 < len) by (nonlinear_arith)
        requires
            len == s * h + len % h,
            0 <= len % h,
            s >= rb,
            0 <= sr < h,
            4 * (x / 2) + 4 <= rb,
            x >= 0,
    ;
    assert(sr * s >= 0) by (nonlinear_arith)
        requires
            sr >= 0,
            s >= 0,
    ;
}

/// Decodes a UYVY frame with the given trailing-padding tolerance.
pub fn decode_with_tolerance(src: &[u8], profile: &Profile, canceled: &AtomicBool, tolerance: usize) -> (r:
    Result<DecodedImage, DecodeError>)
    ensures
        decoded_as(r, uyvy_spec(src@, profile@, tolerance as nat)),
{
    let (_unused, w, h) = validate_dimensions(src, profile, "UYVY dimensions must be positive", 0, tolerance)?;
    let pairs = w / 2 + w % 2;
    assert(pairs == (w + 1) / 2);
    let expected = match pairs.checked_mul(4) {
        Some(rb) => h.checked_mul(rb),
        None => {
            proof {
                assert(h * (4 * pairs) >= 4 * pairs) by (nonlinear_arith)
                    requires h >= 1, pairs >= 0;
            }
            None
        },
    };
    let expected = match expected {
        Some(e) => e,
        None => {
            return Err(DecodeError::BufferTooShort { expected: 0, actual: 0 });
        },
    };
    let data = pad_to(src, expected, tolerance)?;
    let interlaced = profile.is_interlaced;
    let len = data.len();
    let stride = len / h;
    let half = h / 2 + h % 2;
    assert(half == (h + 1) / 2);
    let ghost f = |i: int| uyvy_px(data@, w as int, h as int, stride as int, interlaced, i);
    let mut dst: Vec<u8> = Vec::new();
    proof {
        lemma_px_bytes_empty(f);
    }
    let mut y: usize = 0;
    while y < h
        invariant
            0 <= y <= h,
            w > 0,
            h > 0,
            half == (h + 1) / 2,
            len == data@.len(),
            len >= h * uyvy_row_bytes(w as int),
            stride == len / h,
            f == (|i: int| uyvy_px(data@, w as int, h as int, stride as int, interlaced, i)),
            dst@ == px_bytes(y * w, f),
            uyvy_spec(src@, profile@, tolerance as nat) is Ok,
        decreases h - y,
    {
        check_canceled(canceled, "uyvy decode canceled")?;
        let sr = if interlaced {
            if y % 2 == 0 {
                y / 2
            } else {
                half + y / 2
            }
        } else {
            y
        };
        assert(sr == stored_row(y as int, h as int, interlaced));
        let mut x: usize = 0;
        while x < w
            invariant
                0 <= y < h,
                0 <= x <= w,
                w > 0,
                h > 0,
                len == data@.len(),
                len >= h * uyvy_row_bytes(w as int),
                stride == len / h,
                sr == stored_row(y as int, h as int, interlaced),
                f == (|i: int| uyvy_px(data@, w as int, h as int, stride as int, interlaced, i)),
                dst@ == px_bytes(y * w + x, f),
            decreases w - x,
        {
            proof {
                lemma_uyvy_bounds(len as int, w as int, h as int, y as int, x as int, interlaced);
                lemma_row_major(y as int, x as int, w as int);
            }
            let base = sr * stride + 4 * (x / 2);
            let u = data[base];
            let v = data[base + 2];
            let luma = data[base + 1 + 2 * (x % 2)];
            let px = yuv_to_bgra(luma, u, v);
            dst.push(px[0]);
            dst.push(px[1]);
            dst.push(px[2]);
            dst.push(px[3]);
            proof {
                let i = y * w + x;
                assert(px@ == quad(f(i)));
                lemma_px_bytes_push(i, f);
                assert(dst@ =~= px_bytes(i + 1, f));
            }
            x = x + 1;
        }
        y = y + 1;
        assert(y * w == (y - 1) * w + w) by (nonlinear_arith);
    }
    proof {
        assert(h * w == w * h) by (nonlinear_arith);
        assert(h * uyvy_row_bytes(w as int) == expected);
    }
    Ok(DecodedImage { data: dst, width: w as u32, height: h as u32 })
}

/// Decodes a UYVY frame to BGRA8 output.
///
/// Errors: `InvalidFormat` if width or height is not positive,
/// `BufferTooShort` if `src` lacks more than 256 bytes of the frame.
pub fn decode(src: &[u8], profile: &Profile, canceled: &AtomicBool) -> (r: Result<DecodedImage, DecodeError>)
    ensures
        decoded_as(r, uyvy_spec(src@, profile@, 256)),
{
    decode_with_tolerance(src, profile, canceled, DEFAULT_TRAILING_PADDING_TOLERANCE)
}

/// The pair arithmetic of an even-width frame: pixel `i` sits in row
/// `i / w`, column `i % w`, its pair's group starts at `4·(i/2)`, which is
/// `(i / w)·2w + 4·((i % w)/2)`, and its place in the pair is `i % 2`.
proof fn lemma_even_width_pairs(w: int, i: int)
    requires
        w > 0,
        w % 2 == 0,
        i >= 0,
    ensures
        (i / w) * (2 * w) + 4 * ((i % w) / 2) == 4 * (i / 2),
        (i % w) % 2 == i % 2,
{
    crate::model::lemma_index_split(i, w);
    let y = i / w;
    let x = i % w;
    let q = w / 2;
    assert(w == 2 * q);
    assert(y * w == 2 * (y * q)) by (nonlinear_arith)
        requires
            w == 2 * q,
    ;
    assert(i == 2 * (y * q) + x);
    assert(x == 2 * (x / 2) + x % 2);
    assert(i / 2 == y * q + x / 2);
    assert(i % 2 == x % 2);
    assert(y * (2 * w) == 4 * (y * q)) by (nonlinear_arith)
        requires
            w == 2 * q,
    ;
}

proof fn lemma_even_width_sizes(w: int, h: int)
    requires
        w > 0,
        w % 2 == 0,
        h > 0,
    ensures
        (w + 1) / 2 == w / 2,
        ((w + 1) / 2) * h * 4 == 2 * (w * h),
        h * uyvy_row_bytes(w) == 2 * (w * h),
        h * uyvy_row_bytes(w) == (2 * w) * h,
        (w * h) % 2 == 0,
{
    let q = w / 2;
    assert(w == 2 * q);
    assert(((w + 1) / 2) == q);
    assert(q * h * 4 == 2 * (w * h)) by (nonlinear_arith)
        requires
            w == 2 * q,
    ;
    assert(h * (4 * q) == (2 * w) * h) by (nonlinear_arith)
        requires
            w == 2 * q,
    ;
    assert(h * (4 * q) == 2 * (w * h)) by (nonlinear_arith)
        requires
            w == 2 * q,
    ;
    assert(w * h == 2 * (q * h)) by (nonlinear_arith)
        requires
            w == 2 * q,
    ;
}

proof fn lemma_uyvy_group_byte(bgra: Seq<u8>, w: int, h: int, j: int, k: int)
    requires
        w > 0,
        w % 2 == 0,
        h > 0,
        0 <= 2 * j + 1 < w * h,
        0 <= k < 4,
    ensures
        uyvy_encoded(bgra, w, h)[4 * j + k] == crate::enc::uyvy::uyvy_byte(bgra, w * h, j, k),
{
    lemma_even_width_sizes(w, h);
    assert((4 * j + k) / 4 == j && (4 * j + k) % 4 == k);
    assert(j < (w * h + 1) / 2);
}

/// Decoding what the UYVY encoder writes for an even-width image, read as a
/// progressive frame, gives every pixel its own luma and the chroma its pair
/// shares: the blue-difference and red-difference values of the two pixels
/// averaged (the `Cb` and `Cr` bytes of the pair's `[Cb, Y0, Cr, Y1]` group).
#[verifier::rlimit(50)]
pub proof fn lemma_uyvy_round_trip(bgra: Seq<u8>, p: ProfileSpec, tol: nat, b: Bitmap, i: int)
    requires
        p.width % 2 == 0,
        !p.is_interlaced,
        uyvy_spec(uyvy_encoded(bgra, p.width as int, p.height as int), p, tol) == Ok::<Bitmap, Fault>(b),
        0 <= i < p.width * p.height,
    ensures
        src_px(b.data, i) == yuv_px(
            px_luma(bgra, i) as u8,
            ((px_cb(bgra, 2 * (i / 2)) + px_cb(bgra, 2 * (i / 2) + 1)) / 2) as u8,
            ((px_cr(bgra, 2 * (i / 2)) + px_cr(bgra, 2 * (i / 2) + 1)) / 2) as u8,
        ),
{
    let w = p.width as int;
    let h = p.height as int;
    let n = w * h;
    let d = uyvy_encoded(bgra, w, h);
    lemma_even_width_sizes(w, h);
    assert(padded(d, h * uyvy_row_bytes(w), tol) == Ok::<Seq<u8>, Fault>(d));
    vstd::arithmetic::div_mod::lemma_div_by_multiple(2 * w, h);
    let stride = (d.len() as int) / h;
    assert(stride == 2 * w);
    let f = |k: int| uyvy_px(d, w, h, stride, false, k);
    assert(b.data == px_bytes(n, f));
    lemma_px_bytes_pixel(n, f, i);
    lemma_even_width_pairs(w, i);
    let j = i / 2;
    assert(2 * j + 1 < n);
    let kl = 1 + 2 * (i % 2);
    let x = i % w;
    let y = i / w;
    assert(stored_row(y, h, false) * stride + 4 * (x / 2) == 4 * j);
    lemma_uyvy_group_byte(bgra, w, h, j, 0);
    lemma_uyvy_group_byte(bgra, w, h, j, 2);
    lemma_uyvy_group_byte(bgra, w, h, j, kl);
    assert(f(i) == yuv_px(d[4 * j + kl], d[4 * j], d[4 * j + 2]));
    if i % 2 == 0 {
        assert(2 * j == i);
    } else {
        assert(2 * j + 1 == i);
    }
}

/// An interlaced frame stores its even display rows first, then its odd
/// ones: decoding it interlaced shows at column `x`, row `y` what decoding
/// the same bytes progressively shows at column `x` of stored row `y / 2`
/// (even `y`) or `⌈h/2⌉ + y / 2` (odd `y`).
pub proof fn lemma_uyvy_interlaced_rows(src: Seq<u8>, p: ProfileSpec, tol: nat, bi: Bitmap, bp: Bitmap, x: int, y: int)
    requires
        p.is_interlaced,
        uyvy_spec(src, p, tol) == Ok::<Bitmap, Fault>(bi),
        uyvy_spec(src, ProfileSpec { is_interlaced: false, ..p }, tol) == Ok::<Bitmap, Fault>(bp),
        0 <= x < p.width,
        0 <= y < p.height,
    ensures
        src_px(bi.data, y * p.width + x) == src_px(
            bp.data,
            (if y % 2 == 0 {
                y / 2
            } else {
                (p.height + 1) / 2 + y / 2
            }) * p.width + x,
        ),
{
    let w = p.width as int;
    let h = p.height as int;
    let r = if y % 2 == 0 {
        y / 2
    } else {
        (h + 1) / 2 + y / 2
    };
    assert(0 <= r < h);
    let d = match padded(src, h * uyvy_row_bytes(w), tol) {
        Ok(d) => d,
        Err(_) => src,
    };
    let stride = (d.len() as int) / h;
    let fi = |k: int| uyvy_px(d, w, h, stride, true, k);
    let fp = |k: int| uyvy_px(d, w, h, stride, false, k);
    assert(bi.data == px_bytes(w * h, fi));
    assert(bp.data == px_bytes(w * h, fp));
    lemma_row_major(y, x, w);
    lemma_row_major(r, x, w);
    assert(0 <= y * w + x < w * h && 0 <= r * w + x < w * h) by (nonlinear_arith)
        requires
            0 <= y < h,
            0 <= r < h,
            0 <= x < w,
    ;
    lemma_px_bytes_pixel(w * h, fi, y * w + x);
    lemma_px_bytes_pixel(w * h, fp, r * w + x);
}

} // verus!
