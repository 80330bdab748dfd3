//! Shared pixel helpers: MSB replication, RGB unpacking, clamping,
//! cancellation checks and rotation of BGRA buffers.

use vstd::prelude::*;
use std::sync::atomic::AtomicBool;
use crate::error::DecodeError;
use crate::model::{Bgra, quad, px_bytes, lemma_px_bytes_push, lemma_px_bytes_empty, lemma_row_major, lemma_index_row_bound};
use crate::text::string_of;

verus! {

/// The 8-bit value obtained by replicating the top bits of a 5-bit channel.
pub open spec fn msb5(v: u32) -> u8 {
    (v * 8 + v / 4) as u8
}

/// The 8-bit value obtained by replicating the top bits of a 6-bit channel.
pub open spec fn msb6(v: u32) -> u8 {
    (v * 4 + v / 16) as u8
}

/// Replicates a 5-bit value to 8 bits: `(v << 3) | (v >> 2)`.
pub fn msb_replicate_5(v: u32) -> (r: u8)
    requires
        v < 32,
    ensures
        r == msb5(v),
{
    assert(((v << 3) | (v >> 2)) as u8 == (v * 8 + v / 4) as u8) by (bit_vector)
        requires
            v < 32,
    ;
    ((v << 3) | (v >> 2)) as u8
}

/// Replicates a 6-bit value to 8 bits: `(v << 2) | (v >> 4)`.
pub fn msb_replicate_6(v: u32) -> (r: u8)
    requires
        v < 64,
    ensures
        r == msb6(v),
{
    assert(((v << 2) | (v >> 4)) as u8 == (v * 4 + v / 16) as u8) by (bit_vector)
        requires
            v < 64,
    ;
    ((v << 2) | (v >> 4)) as u8
}

/// The BGRA pixel of an RGB565 word (`RRRRRGGGGGGBBBBB`); with `swap` the
/// red and blue outputs trade places.
pub open spec fn px565(pixel: u16, swap: bool) -> Bgra {
    let r5 = (pixel / 2048) as u32;
    let g6 = ((pixel / 32) % 64) as u32;
    let b5 = (pixel % 32) as u32;
    if swap {
        Bgra { b: msb5(r5), g: msb6(g6), r: msb5(b5), a: 255 }
    } else {
        Bgra { b: msb5(b5), g: msb6(g6), r: msb5(r5), a: 255 }
    }
}

/// The BGRA pixel of an RGB555 word (`xRRRRRGGGGGBBBBB`, or `xBBBBBGGGGGRRRRR`
/// with `swap`).
pub open spec fn px555(pixel: u16, swap: bool) -> Bgra {
    let hi = ((pixel / 1024) % 32) as u32;
    let mid = ((pixel / 32) % 32) as u32;
    let lo = (pixel % 32) as u32;
    if swap {
        Bgra { b: msb5(hi), g: msb5(mid), r: msb5(lo), a: 255 }
    } else {
        Bgra { b: msb5(lo), g: msb5(mid), r: msb5(hi), a: 255 }
    }
}

/// Unpacks an RGB565 pixel to BGRA.
pub fn unpack_rgb565(pixel: u16, swap: bool) -> (r: [u8; 4])
    ensures
        r@ == quad(px565(pixel, swap)),
{
    let r5 = ((pixel >> 11u16) & 0x1Fu16) as u32;
    let g6 = ((pixel >> 5u16) & 0x3Fu16) as u32;
    let b5 = (pixel & 0x1Fu16) as u32;
    assert(((pixel >> 11u16) & 0x1Fu16) == pixel / 2048 && ((pixel >> 5u16) & 0x3Fu16) == (pixel
        / 32) % 64 && (pixel & 0x1Fu16) == pixel % 32) by (bit_vector);
    let out = if swap {
        [msb_replicate_5(r5), msb_replicate_6(g6), msb_replicate_5(b5), 255u8]
    } else {
        [msb_replicate_5(b5), msb_replicate_6(g6), msb_replicate_5(r5), 255u8]
    };
    assert(out@ =~= quad(px565(pixel, swap)));
    out
}

/// Unpacks an RGB555 pixel to BGRA.
pub fn unpack_rgb555(pixel: u16, swap: bool) -> (r: [u8; 4])
    ensures
        r@ == quad(px555(pixel, swap)),
{
    let hi = ((pixel >> 10u16) & 0x1Fu16) as u32;
    let mid = ((pixel >> 5u16) & 0x1Fu16) as u32;
    let lo = (pixel & 0x1Fu16) as u32;
    assert(((pixel >> 10u16) & 0x1Fu16) == (pixel / 1024) % 32 && ((pixel >> 5u16) & 0x1Fu16) == (
    pixel / 32) % 32 && (pixel & 0x1Fu16) == pixel % 32) by (bit_vector);
    let out = if swap {
        [msb_replicate_5(hi), msb_replicate_5(mid), msb_replicate_5(lo), 255u8]
    } else {
        [msb_replicate_5(lo), msb_replicate_5(mid), msb_replicate_5(hi), 255u8]
    };
    assert(out@ =~= quad(px555(pixel, swap)));
    out
}

/// `v` clamped to `0..=255`.
pub open spec fn clamp255(v: int) -> u8 {
    if v < 0 {
        0
    } else if v > 255 {
        255
    } else {
        v as u8
    }
}

/// Clamps an `i32` to the `0..=255` range.
pub fn clamp_u8(v: i32) -> (r: u8)
    ensures
        r == clamp255(v as int),
{
    if v < 0 {
        0
    } else if v > 255 {
        255
    } else {
        v as u8
    }
}

/// Reads the cancellation flag.
///
/// The flag may be set by another thread at any time, so nothing is stated of
/// the value read.
pub fn is_canceled(canceled: &AtomicBool) -> bool {
    canceled.load(std::sync::atomic::Ordering::Acquire)
}

/// The outcome of a cancellation check once the flag has been read as
/// `flag`: `Err(DecodeError::Canceled(name))` if it is set, `Ok(())`
/// otherwise.
pub fn cancel_outcome(flag: bool, name: &str) -> (r: Result<(), DecodeError>)
    ensures
        flag ==> (r matches Err(e) && e matches DecodeError::Canceled(m) && m@ == name@),
        !flag ==> r is Ok,
{
    if flag {
        return Err(DecodeError::Canceled(string_of(name)));
    }
    Ok(())
}

/// Returns `Err(DecodeError::Canceled(name))` if the flag is set, `Ok(())` otherwise.
///
/// Which of the two comes back depends on the flag's value at the moment it
/// is read, which another thread may change at any time; what is returned for
/// each value read is stated by `cancel_outcome`.
pub fn check_canceled(canceled: &AtomicBool, name: &str) -> (r: Result<(), DecodeError>)
    ensures
        r matches Err(e) ==> e matches DecodeError::Canceled(m) && m@ == name@,
{
    cancel_outcome(is_canceled(canceled), name)
}

/// Pixel `k` of a BGRA byte sequence.
pub open spec fn src_px(src: Seq<u8>, k: int) -> Bgra {
    Bgra { b: src[4 * k], g: src[4 * k + 1], r: src[4 * k + 2], a: src[4 * k + 3] }
}

/// Pixel `i` of the bytes of `n` pixels is the `i`-th of them.
pub proof fn lemma_px_bytes_pixel(n: int, f: spec_fn(int) -> Bgra, i: int)
    requires
        0 <= i < n,
    ensures
        src_px(px_bytes(n, f), i) == f(i),
{
    let d = px_bytes(n, f);
    assert((4 * i) / 4 == i && (4 * i + 1) / 4 == i && (4 * i + 2) / 4 == i && (4 * i + 3) / 4 == i);
    assert((4 * i) % 4 == 0 && (4 * i + 1) % 4 == 1 && (4 * i + 2) % 4 == 2 && (4 * i + 3) % 4 == 3);
}

/// Rust's remainder of a rotation angle by 360 (same sign as the angle).
pub open spec fn rem360(rot: int) -> int {
    if rot >= 0 {
        rot % 360
    } else {
        -((-rot) % 360)
    }
}

/// Source pixel index of destination pixel `i` for a clockwise rotation of a
/// `w`×`h` image; destination width is `h` for 90/270 and `w` for 180.
pub open spec fn rotate_source_index(i: int, w: int, h: int, rot: int) -> int {
    if rot == 90 {
        (h - 1 - i % h) * w + i / h
    } else if rot == 180 {
        (h - 1 - i / w) * w + (w - 1 - i % w)
    } else {
        (i % h) * w + (w - 1 - i / h)
    }
}

/// The BGRA bytes of a `w`×`h` image rotated clockwise by `rot` degrees
/// (0/90/180/270 after taking the remainder by 360; other angles leave it as it is),
/// with the new width and height.
pub open spec fn rotated(src: Seq<u8>, w: u32, h: u32, rot: int) -> (Seq<u8>, u32, u32) {
    let r = rem360(rot);
    if r == 90 || r == 180 || r == 270 {
        let data = px_bytes(
            w * h,
            |i: int| src_px(src, rotate_source_index(i, w as int, h as int, r)),
        );
        if r == 180 {
            (data, w, h)
        } else {
            (data, h, w)
        }
    } else {
        (src, w, h)
    }
}

proof fn lemma_rotate_index_bounds(i: int, w: int, h: int, rot: int)
    requires
        0 < w,
        0 < h,
        0 <= i < w * h,
        rot == 90 || rot == 180 || rot == 270,
    ensures
        0 <= rotate_source_index(i, w, h, rot) < w * h,
{
    let s = rotate_source_index(i, w, h, rot);
    if rot == 180 {
        lemma_index_row_bound(i, w, h);
        let a = h - 1 - i / w;
        let b = w - 1 - i % w;
        assert(0 <= a < h && 0 <= b < w);
        assert(0 <= a * w + b < w * h) by (nonlinear_arith)
            requires
                0 <= a < h,
                0 <= b < w,
        ;
    } else {
        assert(w * h == h * w) by (nonlinear_arith);
        lemma_index_row_bound(i, h, w);
        let a = if rot == 90 { h - 1 - i % h } else { i % h };
        let b = if rot == 90 { i / h } else { w - 1 - i / h };
        assert(0 <= a < h && 0 <= b < w);
        assert(0 <= a * w + b < w * h) by (nonlinear_arith)
            requires
                0 <= a < h,
                0 <= b < w,
        ;
    }
}

/// Rotates BGRA pixel data clockwise by `rotation` degrees (0/90/180/270 after
/// taking Rust's remainder by 360; any other value returns an unrotated copy).
///
/// Returns `(rotated_data, new_width, new_height)`; for 90 and 270 the
/// dimensions swap.
pub fn rotate_pixels(src: &[u8], width: u32, height: u32, rotation: i32) -> (r: (Vec<u8>, u32, u32))
    requires
        ({
            let q = rem360(rotation as int);
            q == 90 || q == 180 || q == 270
        }) ==> width * height * 4 <= src@.len(),
    ensures
        (r.0@, r.1, r.2) == rotated(src@, width, height, rotation as int),
{
    let rot: i32 = if rotation >= 0 {
        rotation % 360
    } else {
        -((-(rotation as i64) % 360) as i32)
    };
    assert(rot as int == rem360(rotation as int));
    if rot != 90 && rot != 180 && rot != 270 {
        return (crate::bytes::copy_all(src), width, height);
    }
    let src_len = src.len();
    let wu = width as usize;
    let hu = height as usize;
    let (nw, nh) = if rot == 180 {
        (wu, hu)
    } else {
        (hu, wu)
    };
    let ghost f = |i: int| src_px(src@, rotate_source_index(i, wu as int, hu as int, rot as int));
    let mut dst: Vec<u8> = Vec::new();
    proof {
        lemma_px_bytes_empty(f);
        assert(nw * nh == wu * hu) by (nonlinear_arith)
            requires
                (nw == wu && nh == hu) || (nw == hu && nh == wu),
        ;
    }
    let mut dy: usize = 0;
    while dy < nh
        invariant
            0 <= dy <= nh,
            nw * nh == wu * hu,
            wu * hu * 4 <= src@.len(),
            wu == width,
            hu == height,
            rot == 90 || rot == 180 || rot == 270,
            rot == 180 ==> nw == wu && nh == hu,
            rot != 180 ==> nw == hu && nh == wu,
            src_len == src@.len(),
            f == (|i: int| src_px(src@, rotate_source_index(i, wu as int, hu as int, rot as int))),
            dst@ == px_bytes(dy * nw, f),
        decreases nh - dy,
    {
        let mut dx: usize = 0;
        while dx < nw
            invariant
                0 <= dy < nh,
                0 <= dx <= nw,
                nw * nh == wu * hu,
                wu * hu * 4 <= src@.len(),
                wu == width,
                hu == height,
                rot == 90 || rot == 180 || rot == 270,
                rot == 180 ==> nw == wu && nh == hu,
                rot != 180 ==> nw == hu && nh == wu,
                src_len == src@.len(),
                f == (|i: int| src_px(src@, rotate_source_index(i, wu as int, hu as int, rot as int))),
                dst@ == px_bytes(dy * nw + dx, f),
            decreases nw - dx,
        {
            let ghost i = dy * nw + dx;
            proof {
                lemma_row_major(dy as int, dx as int, nw as int);
                assert(i < nw * nh) by (nonlinear_arith)
                    requires
                        i == dy * nw + dx,
                        dx < nw,
                        dy < nh,
                ;
                lemma_rotate_index_bounds(i, wu as int, hu as int, rot as int);
            }
            let (sx, sy) = if rot == 90 {
                (dy, hu - 1 - dx)
            } else if rot == 180 {
                (wu - 1 - dx, hu - 1 - dy)
            } else {
                (wu - 1 - dy, dx)
            };
            proof {
                assert(i / (nw as int) == dy && i % (nw as int) == dx);
                assert(sy * wu + sx == rotate_source_index(i, wu as int, hu as int, rot as int));
                assert(sy * wu + sx < wu * hu);
                assert(4 * (sy * wu + sx) + 3 < src@.len()) by (nonlinear_arith)
                    requires
                        sy * wu + sx < wu * hu,
                        wu * hu * 4 <= src@.len(),
                ;
            }
            let s = 4 * (sy * wu + sx);
            dst.push(src[s]);
            dst.push(src[s + 1]);
            dst.push(src[s + 2]);
            dst.push(src[s + 3]);
            proof {
                let k = (sy * wu + sx) as int;
                assert(f(i) == src_px(src@, k));
                assert(quad(f(i)) =~= seq![src@[4 * k], src@[4 * k + 1], src@[4 * k + 2], src@[4 * k + 3]]);
                lemma_px_bytes_push(i, f);
                assert(dst@ =~= px_bytes(i + 1, f));
            }
            dx = dx + 1;
        }
        dy = dy + 1;
        assert(dy * nw == (dy - 1) * nw + nw) by (nonlinear_arith);
    }
    proof {
        let g = |i: int| src_px(src@, rotate_source_index(i, width as int, height as int, rem360(rotation as int)));
        assert(f =~= g);
        assert(nh * nw == width * height) by (nonlinear_arith)
            requires nw * nh == wu * hu, wu == width, hu == height;
        assert(dst@ =~= rotated(src@, width, height, rotation as int).0);
    }
    if rot == 180 {
        (dst, width, height)
    } else {
        (dst, height, width)
    }
}

} // verus!
