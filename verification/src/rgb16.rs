//! Shared row decoder for the 16-bit RGB formats (RGB565 and RGB555).

use vstd::prelude::*;
use std::sync::atomic::AtomicBool;
use crate::decoder_helpers::{validate_dimensions, validated, decoded_as};
use crate::error::{DecodeError, DecodedImage, Fault};
use crate::model::{Bgra, Bitmap, px_bytes, quad, lemma_px_bytes_push, lemma_px_bytes_empty, lemma_row_major};
use crate::pixel_utils::{px565, px555, unpack_rgb565, unpack_rgb555, check_canceled};
use crate::profile::{Profile, ProfileSpec};
use crate::enc::helpers::{word_bytes, word_byte};
use crate::model::lemma_index_split;

verus! {

/// The 16-bit word at byte offset `off`, little- or big-endian.
pub open spec fn word16(d: Seq<u8>, off: int, le: bool) -> u16 {
    if le {
        (d[off] + 256 * d[off + 1]) as u16
    } else {
        (256 * d[off] + d[off + 1]) as u16
    }
}

/// Byte offset of pixel `i` of a `w`-wide frame whose rows are `stride` bytes
/// apart, two bytes per pixel.
pub open spec fn word_offset(i: int, w: int, stride: int) -> int {
    (i / w) * stride + 2 * (i % w)
}

/// Pixel `i` of a 16-bit RGB frame.
pub open spec fn rgb16_px(data: Seq<u8>, w: int, stride: int, le: bool, swap: bool, is565: bool, i: int) -> Bgra {
    let word = word16(data, word_offset(i, w, stride), le);
    if is565 {
        px565(word, swap)
    } else {
        px555(word, swap)
    }
}

/// The BGRA bytes of a `w`×`h` 16-bit RGB frame; the row stride is the frame
/// length divided by the height, so rows may carry trailing padding.
pub open spec fn rgb16_frame(data: Seq<u8>, w: int, h: int, le: bool, swap: bool, is565: bool) -> Seq<u8> {
    let stride = (data.len() as int) / h;
    px_bytes(w * h, |i: int| rgb16_px(data, w, stride, le, swap, is565, i))
}

/// What decoding a 16-bit RGB frame gives.
pub open spec fn rgb16_spec(src: Seq<u8>, p: ProfileSpec, tol: nat, is565: bool) -> Result<Bitmap, Fault> {
    match validated(src, p.width, p.height, 2, tol) {
        Err(f) => Err(f),
        Ok(d) => Ok(
            Bitmap {
                data: rgb16_frame(d, p.width as int, p.height as int, p.little_endian, p.swap_rgb_channels, is565),
                width: p.width as u32,
                height: p.height as u32,
            },
        ),
    }
}

/// Row-stride bounds: with at least `w·h·bpp` bytes split into `h` rows of
/// `len / h` bytes, the last byte of pixel `x` of row `y` is inside the data.
pub proof fn lemma_stride_bounds(len: int, w: int, h: int, bpp: int, y: int, x: int)
    requires
        w > 0,
        h > 0,
        bpp > 0,
        len >= w * h * bpp,
        0 <= y < h,
        0 <= x < w,
    ensures
        len / h >= w * bpp,
        y * (len / h) + bpp * x + bpp - 1 < len,
        y * (len / h) + bpp * x >= 0,
{
    let s = len / h;
    crate::model::lemma_index_split(len, h);
    assert(s >= w * bpp) by (nonlinear_arith)
        requires
            len == s * h + len % h,
            0 <= len % h < h,
            len >= w * h * bpp,
            h > 0,
    ;
    assert(y * s + bpp * x + bpp - 1 < len) by (nonlinear_arith)
        requires
            len == s * h + len % h,
            0 <= len % h,
            s >= w * bpp,
            0 <= y < h,
            0 <= x < w,
            bpp > 0,
    ;
    assert(y * s >= 0) by (nonlinear_arith)
        requires
            y >= 0,
            s >= 0,
    ;
}

/// Decodes a 16-bit RGB frame (RGB565 when `is565`, RGB555 otherwise) to BGRA.
pub fn decode_rgb16(
    src: &[u8],
    profile: &Profile,
    canceled: &AtomicBool,
    tolerance: usize,
    is565: bool,
    dim_msg: &str,
    cancel_msg: &str,
) -> (r: Result<DecodedImage, DecodeError>)
    ensures
        decoded_as(r, rgb16_spec(src@, profile@, tolerance as nat, is565)),
{
    let (data, w, h) = validate_dimensions(src, profile, dim_msg, 2, tolerance)?;
    let le = profile.little_endian;
    let swap = profile.swap_rgb_channels;
    let len = data.len();
    let stride = len / h;
    let ghost f = |i: int| rgb16_px(data@, w as int, stride as int, le, swap, is565, i);
    let mut dst: Vec<u8> = Vec::new();
    proof {
        lemma_px_bytes_empty(f);
        assert(len >= w * h * 2);
    }
    let mut y: usize = 0;
    while y < h
        invariant
            0 <= y <= h,
            w > 0,
            h > 0,
            len == data@.len(),
            len >= w * h * 2,
            stride == len / h,
            f == (|i: int| rgb16_px(data@, w as int, stride as int, le, swap, is565, i)),
            dst@ == px_bytes(y * w, f),
            rgb16_spec(src@, profile@, tolerance as nat, is565) is Ok,
        decreases h - y,
    {
        check_canceled(canceled, cancel_msg)?;
        let mut x: usize = 0;
        while x < w
            invariant
                0 <= y < h,
                0 <= x <= w,
                w > 0,
                h > 0,
                len == data@.len(),
                len >= w * h * 2,
                stride == len / h,
                f == (|i: int| rgb16_px(data@, w as int, stride as int, le, swap, is565, i)),
                dst@ == px_bytes(y * w + x, f),
            decreases w - x,
        {
            proof {
                lemma_stride_bounds(len as int, w as int, h as int, 2, y as int, x as int);
                lemma_row_major(y as int, x as int, w as int);
            }
            let off = y * stride + 2 * x;
            let lo = data[off] as u16;
            let hi = data[off + 1] as u16;
            let word: u16 = if le {
                lo + hi * 256
            } else {
                lo * 256 + hi
            };
            let px = if is565 {
                unpack_rgb565(word, swap)
            } else {
                unpack_rgb555(word, swap)
            };
            dst.push(px[0]);
            dst.push(px[1]);
            dst.push(px[2]);
            dst.push(px[3]);
            proof {
                let i = y * w + x;
                assert(word_offset(i, w as int, stride as int) == off);
                assert(word == word16(data@, off as int, le));
                assert(px@ == quad(f(i)));
                lemma_px_bytes_push(i, f);
                assert(dst@ =~= px_bytes(i + 1, f));
            }
            x = x + 1;
        }
        y = y + 1;
        assert(y * w == (y - 1) * w + w) by (nonlinear_arith);
    }
    proof {
        assert(f =~= (|i: int| rgb16_px(data@, profile.width as int, (data@.len() as int) / (profile.height as int), le, swap, is565, i)));
        assert(h * w == w * h) by (nonlinear_arith);
        assert(dst@ == rgb16_frame(data@, w as int, h as int, le, swap, is565));
    }
    Ok(DecodedImage { data: dst, width: w as u32, height: h as u32 })
}

/// The pixel a 16-bit RGB decoder makes of a word.
pub open spec fn word_px(word: u16, swap: bool, is565: bool) -> Bgra {
    if is565 {
        px565(word, swap)
    } else {
        px555(word, swap)
    }
}

/// Decoding `width × height` 16-bit words written in the profile's byte
/// order reads every word back: the image is the profile's size and pixel
/// `i` is the decoder's pixel of word `i`.
pub proof fn lemma_rgb16_reads_words(f: spec_fn(int) -> u16, p: ProfileSpec, tol: nat, is565: bool)
    requires
        p.width > 0,
        p.height > 0,
        2 * (p.width * p.height) <= usize::MAX,
    ensures
        rgb16_spec(word_bytes(p.width * p.height, f, !p.little_endian), p, tol, is565) == Ok::<Bitmap, Fault>(
            Bitmap {
                data: px_bytes(p.width * p.height, |i: int| word_px(f(i), p.swap_rgb_channels, is565)),
                width: p.width as u32,
                height: p.height as u32,
            },
        ),
{
    let w = p.width as int;
    let h = p.height as int;
    let n = w * h;
    let le = p.little_endian;
    let be = !le;
    let d = word_bytes(n, f, be);
    assert(w * h * 2 == 2 * n) by (nonlinear_arith)
        requires
            n == w * h,
    ;
    assert(validated(d, p.width, p.height, 2, tol) == Ok::<Seq<u8>, Fault>(d));
    assert((2 * w) * h == 2 * n) by (nonlinear_arith)
        requires
            n == w * h,
    ;
    vstd::arithmetic::div_mod::lemma_div_by_multiple(2 * w, h);
    let stride = (d.len() as int) / h;
    assert(stride == 2 * w);
    let g1 = |i: int| rgb16_px(d, w, stride, le, p.swap_rgb_channels, is565, i);
    let g2 = |i: int| word_px(f(i), p.swap_rgb_channels, is565);
    assert forall|i: int| 0 <= i < n implies #[trigger] g1(i) == g2(i) by {
        lemma_index_split(i, w);
        assert(word_offset(i, w, stride) == 2 * i) by (nonlinear_arith)
            requires
                i == (i / w) * w + i % w,
                stride == 2 * w,
                word_offset(i, w, stride) == (i / w) * stride + 2 * (i % w),
        ;
        assert((2 * i) / 2 == i && (2 * i) % 2 == 0);
        assert((2 * i + 1) / 2 == i && (2 * i + 1) % 2 == 1);
        assert(d[2 * i] == word_byte(f(i), 0, be));
        assert(d[2 * i + 1] == word_byte(f(i), 1, be));
        let x = f(i);
        assert(word16(d, 2 * i, le) == x) by {
            assert(x == (x % 256) + 256 * (x / 256));
        }
    }
    assert(rgb16_frame(d, w, h, le, p.swap_rgb_channels, is565) =~= px_bytes(n, g2)) by {
        assert forall|k: int| 0 <= k < 4 * n implies #[trigger] px_bytes(n, g1)[k] == px_bytes(n, g2)[k] by {
            assert(0 <= k / 4 < n);
            assert(g1(k / 4) == g2(k / 4));
        }
        assert(px_bytes(n, g1) =~= px_bytes(n, g2));
    }
}

} // verus!
