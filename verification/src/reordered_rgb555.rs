//! Reordered RGB555 decoder: RGB555 pixels stored in Morton (Z-order)
//! sequence.
//!
//! Pixel `(x, y)` is the 16-bit word at word index `morton(x, y, bits)`, where
//! `bits` is the number of bits needed to index `max(w, h)` positions; a word
//! past the end of the data reads as zero (black).

use vstd::prelude::*;
use std::sync::atomic::AtomicBool;
use crate::decoder_helpers::{validate_dimensions, validated, decoded_as, DEFAULT_TRAILING_PADDING_TOLERANCE};
use crate::error::{DecodeError, DecodedImage, Fault};
use crate::model::{Bgra, Bitmap, px_bytes, quad, lemma_px_bytes_push, lemma_px_bytes_empty, lemma_row_major};
use crate::pixel_utils::{check_canceled, px555, unpack_rgb555};
use crate::profile::{Profile, ProfileSpec};
use crate::rgb16::word16;

verus! {

/// Morton (Z-order) interleave of the low `bits` bits of `x` and `y`: bit `i`
/// of `y` goes to bit `2i`, bit `i` of `x` to bit `2i + 1`.
pub open spec fn morton(x: u32, y: u32, bits: nat) -> u32
    decreases bits,
{
    if bits == 0 {
        0
    } else {
        let i = (bits - 1) as u32;
        morton(x, y, (bits - 1) as nat) | (((x >> i) & 1u32) << ((2 * i + 1) as u32)) | (((y >> i) & 1u32)
            << ((2 * i) as u32))
    }
}

/// The number of bits needed to index `m` positions (the base-2 logarithm of
/// the next power of two at or above `m`).
pub open spec fn index_bits(m: nat) -> nat
    decreases m,
{
    if m <= 1 {
        0
    } else {
        1 + index_bits(((m + 1) / 2) as nat)
    }
}

/// Powers of two.
pub open spec fn p2(k: nat) -> nat
    decreases k,
{
    if k == 0 {
        1
    } else {
        2 * p2((k - 1) as nat)
    }
}

proof fn lemma_index_bits_bound(m: nat, k: nat)
    requires
        m <= p2(k),
    ensures
        index_bits(m) <= k,
    decreases k,
{
    if m > 1 {
        assert(k > 0);
        assert(((m + 1) / 2) as nat <= p2((k - 1) as nat));
        lemma_index_bits_bound(((m + 1) / 2) as nat, (k - 1) as nat);
    }
}

/// Interleaves the low `bits` bits of `x` and `y` into a Morton code.
pub fn morton_interleave(x: u32, y: u32, bits: u32) -> (z: u32)
    requires
        bits <= 16,
    ensures
        z == morton(x, y, bits as nat),
{
    let mut z: u32 = 0;
    let mut i: u32 = 0;
    while i < bits
        invariant
            i <= bits <= 16,
            z == morton(x, y, i as nat),
        decreases bits - i,
    {
        z = z | (((x >> i) & 1u32) << (2 * i + 1)) | (((y >> i) & 1u32) << (2 * i));
        i = i + 1;
    }
    z
}

fn index_bits_of(m: usize) -> (r: u32)
    requires
        m <= 65536,
    ensures
        r == index_bits(m as nat),
        r <= 16,
    decreases m,
{
    proof {
        reveal_with_fuel(p2, 17);
        assert(p2(16) == 65536);
        lemma_index_bits_bound(m as nat, 16);
    }
    if m <= 1 {
        0
    } else {
        1 + index_bits_of(m / 2 + m % 2)
    }
}

/// Pixel `i` of a `w`-wide reordered frame whose Morton codes use `bits` bits.
pub open spec fn reordered_px(d: Seq<u8>, w: int, bits: nat, le: bool, swap: bool, i: int) -> Bgra {
    let z = morton((i % w) as u32, (i / w) as u32, bits);
    let off = 2 * z;
    let word = if off + 1 < d.len() {
        word16(d, off, le)
    } else {
        0u16
    };
    px555(word, swap)
}

/// What decoding a reordered RGB555 frame gives.
pub open spec fn reordered_spec(src: Seq<u8>, p: ProfileSpec, tol: nat) -> Result<Bitmap, Fault> {
    match validated(src, p.width, p.height, 2, tol) {
        Err(f) => Err(f),
        Ok(d) => {
            let w = p.width as int;
            let h = p.height as int;
            let bits = index_bits((if w >= h { w } else { h }) as nat);
            Ok(
                Bitmap {
                    data: px_bytes(w * h, |i: int| reordered_px(d, w, bits, p.little_endian, p.swap_rgb_channels, i)),
                    width: p.width as u32,
                    height: p.height as u32,
                },
            )
        },
    }
}

/// The inputs the reordered decoder handles: a frame that passes validation
/// is at most 1024 pixels wide and 65536 pixels high.
pub open spec fn reordered_input_ok(src: Seq<u8>, p: ProfileSpec, tol: nat) -> bool {
    validated(src, p.width, p.height, 2, tol) is Ok ==> p.width <= 1024 && p.height <= 65536
}

/// Decodes a reordered RGB555 frame with the given trailing-padding tolerance.
pub fn decode_with_tolerance(src: &[u8], profile: &Profile, canceled: &AtomicBool, tolerance: usize) -> (r:
    Result<DecodedImage, DecodeError>)
    requires
        reordered_input_ok(src@, profile@, tolerance as nat),
    ensures
        decoded_as(r, reordered_spec(src@, profile@, tolerance as nat)),
{
    let (data, w, h) = validate_dimensions(src, profile, "width and height must be positive", 2, tolerance)?;
    let le = profile.little_endian;
    let swap = profile.swap_rgb_channels;
    let m = if w >= h {
        w
    } else {
        h
    };
    let bits = index_bits_of(m);
    let len = data.len();
    let ghost f = |i: int| reordered_px(data@, w as int, bits as nat, le, swap, i);
    let mut dst: Vec<u8> = Vec::new();
    proof {
        lemma_px_bytes_empty(f);
    }
    let mut y: usize = 0;
    while y < h
        invariant
            0 <= y <= h,
            0 < w <= 1024,
            0 < h <= 65536,
            bits <= 16,
            len == data@.len(),
            f == (|i: int| reordered_px(data@, w as int, bits as nat, le, swap, i)),
            dst@ == px_bytes(y * w, f),
            reordered_spec(src@, profile@, tolerance as nat) is Ok,
        decreases h - y,
    {
        check_canceled(canceled, "reordered_rgb555 decode canceled")?;
        let mut x: usize = 0;
        while x < w
            invariant
                0 <= y < h,
                0 <= x <= w,
                0 < w <= 1024,
                0 < h <= 65536,
                bits <= 16,
                len == data@.len(),
                f == (|i: int| reordered_px(data@, w as int, bits as nat, le, swap, i)),
                dst@ == px_bytes(y * w + x, f),
            decreases w - x,
        {
            proof {
                lemma_row_major(y as int, x as int, w as int);
            }
            let z = morton_interleave(x as u32, y as u32, bits);
            let off: u64 = (z as u64) * 2;
            let word: u16 = if off + 1 < len as u64 {
                let o = off as usize;
                let lo = data[o] as u16;
                let hi = data[o + 1] as u16;
                if le {
                    lo + hi * 256
                } else {
                    lo * 256 + hi
                }
            } else {
                0u16
            };
            let px = unpack_rgb555(word, swap);
            dst.push(px[0]);
            dst.push(px[1]);
            dst.push(px[2]);
            dst.push(px[3]);
            proof {
                let i = y * w + x;
                assert(px@ == quad(f(i)));
                lemma_px_bytes_push(i, f);
                assert(dst@ =~= px_bytes(i + 1, f));
            }
            x = x + 1;
        }
        y = y + 1;
        assert(y * w == (y - 1) * w + w) by (nonlinear_arith);
    }
    proof {
        assert(h * w == w * h) by (nonlinear_arith);
    }
    Ok(DecodedImage { data: dst, width: w as u32, height: h as u32 })
}

/// Decodes a reordered RGB555 frame to BGRA8 output.
///
/// Errors: `InvalidFormat` if width or height is not positive,
/// `BufferTooShort` if `src` lacks more than 256 of the `w·h·2` bytes.
pub fn decode(src: &[u8], profile: &Profile, canceled: &AtomicBool) -> (r: Result<DecodedImage, DecodeError>)
    requires
        reordered_input_ok(src@, profile@, 256),
    ensures
        decoded_as(r, reordered_spec(src@, profile@, 256)),
{
    decode_with_tolerance(src, profile, canceled, DEFAULT_TRAILING_PADDING_TOLERANCE)
}

} // verus!
