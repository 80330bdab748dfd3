//! CLCL (shared nibble chroma) decoder.
//!
//! Payload layout (planar): `n = w·h` luma bytes, then a Cb plane and a Cr
//! plane of `⌈n/2⌉` bytes each; pixel `i` takes the low nibble of byte `i/2`
//! when `i` is even and the high nibble when `i` is odd. A nibble `v` stands
//! for the 8-bit value `v << 4`.

use vstd::prelude::*;
use std::sync::atomic::AtomicBool;
use crate::decoder_helpers::{validate_dimensions, validated, padded, pad_to, decoded_as, DEFAULT_TRAILING_PADDING_TOLERANCE};
use crate::error::{DecodeError, DecodedImage, Fault};
use crate::model::{Bgra, Bitmap, px_bytes, quad, lemma_px_bytes_push, lemma_px_bytes_empty};
use crate::pixel_utils::check_canceled;
use crate::profile::{Profile, ProfileSpec};
use crate::yuv::{yuv_px, yuv_to_bgra};
use crate::enc::clcl::{clcl_encoded, clcl_cb_byte, clcl_cr_byte, lemma_clcl_nibble_packing, lemma_clcl_luma};
use crate::enc::helpers::{px_luma, px_cb, px_cr};
use crate::pixel_utils::{src_px, lemma_px_bytes_pixel};

verus! {

/// The nibble of `b` a pixel uses: the high one for odd pixels.
pub open spec fn nibble(b: u8, odd: bool) -> int {
    if odd {
        (b / 16) as int
    } else {
        (b % 16) as int
    }
}

/// Pixel `i` of a CLCL frame of `n` pixels with chroma planes of `c` bytes.
pub open spec fn clcl_px(d: Seq<u8>, n: int, c: int, i: int) -> Bgra {
    let odd = i % 2 == 1;
    yuv_px(d[i], (nibble(d[n + i / 2], odd) * 16) as u8, (nibble(d[n + c + i / 2], odd) * 16) as u8)
}

/// Frame length of a CLCL frame of `n` pixels.
pub open spec fn clcl_len(n: int) -> int {
    n + 2 * ((n + 1) / 2)
}

/// What decoding a CLCL frame gives.
pub open spec fn clcl_spec(src: Seq<u8>, p: ProfileSpec, tol: nat) -> Result<Bitmap, Fault> {
    if p.width <= 0 || p.height <= 0 {
        Err(Fault::InvalidFormat)
    } else if clcl_len(p.width * p.height) > usize::MAX {
        Err(Fault::BufferTooShort(0, 0))
    } else {
        let n = p.width * p.height;
        match padded(src, clcl_len(n), tol) {
            Err(f) => Err(f),
            Ok(d) => Ok(
                Bitmap {
                    data: px_bytes(n, |i: int| clcl_px(d, n, (n + 1) / 2, i)),
                    width: p.width as u32,
                    height: p.height as u32,
                },
            ),
        }
    }
}

fn nibble_value(b: u8, odd: bool) -> (r: u8)
    ensures
        r == (nibble(b, odd) * 16) as u8,
{
    if odd {
        let r = (b >> 4u8) << 4u8;
        assert(r == ((b / 16) * 16) as u8) by (bit_vector)
            requires
                r == (b >> 4u8) << 4u8,
        ;
        r
    } else {
        let r = (b & 0x0Fu8) << 4u8;
        assert(r == ((b % 16) * 16) as u8) by (bit_vector)
            requires
                r == (b & 0x0Fu8) << 4u8,
        ;
        r
    }
}

/// Decodes a CLCL frame with the given trailing-padding tolerance.
pub fn decode_with_tolerance(src: &[u8], profile: &Profile, canceled: &AtomicBool, tolerance: usize) -> (r:
    Result<DecodedImage, DecodeError>)
    ensures
        decoded_as(r, clcl_spec(src@, profile@, tolerance as nat)),
{
    let (_unused, w, h) = validate_dimensions(src, profile, "CLCL dimensions must be positive", 0, tolerance)?;
    let n = match w.checked_mul(h) {
        Some(n) => n,
        None => {
            proof {
                assert(clcl_len(w * h) >= w * h) by (nonlinear_arith)
                    requires w * h >= 0;
            }
            return Err(DecodeError::BufferTooShort { expected: 0, actual: 0 });
        },
    };
    let c = n / 2 + n % 2;
    assert(c == (n + 1) / 2);
    let expected = match n.checked_add(c) {
        Some(a) => a.checked_add(c),
        None => None,
    };
    let expected = match expected {
        Some(e) => e,
        None => {
            return Err(DecodeError::BufferTooShort { expected: 0, actual: 0 });
        },
    };
    let data = pad_to(src, expected, tolerance)?;
    check_canceled(canceled, "clcl decode canceled")?;
    let dlen = data.len();
    let ghost f = |i: int| clcl_px(data@, n as int, c as int, i);
    let mut dst: Vec<u8> = Vec::new();
    proof {
        lemma_px_bytes_empty(f);
    }
    let mut i: usize = 0;
    while i < n
        invariant
            0 <= i <= n,
            c == (n + 1) / 2,
            dlen == data@.len(),
            data@.len() >= n + 2 * c,
            f == (|i: int| clcl_px(data@, n as int, c as int, i)),
            dst@ == px_bytes(i as int, f),
        decreases n - i,
    {
        let odd = i % 2 == 1;
        let cb = nibble_value(data[n + i / 2], odd);
        let cr = nibble_value(data[n + c + i / 2], odd);
        let px = yuv_to_bgra(data[i], cb, cr);
        dst.push(px[0]);
        dst.push(px[1]);
        dst.push(px[2]);
        dst.push(px[3]);
        proof {
            lemma_px_bytes_push(i as int, f);
            assert(dst@ =~= px_bytes(i + 1, f));
        }
        i = i + 1;
    }
    Ok(DecodedImage { data: dst, width: w as u32, height: h as u32 })
}

/// Decodes a CLCL frame to BGRA8 output.
///
/// Errors: `InvalidFormat` if width or height is not positive,
/// `BufferTooShort` if `src` lacks more than 256 bytes of the frame.
pub fn decode(src: &[u8], profile: &Profile, canceled: &AtomicBool) -> (r: Result<DecodedImage, DecodeError>)
    ensures
        decoded_as(r, clcl_spec(src@, profile@, 256)),
{
    decode_with_tolerance(src, profile, canceled, DEFAULT_TRAILING_PADDING_TOLERANCE)
}

/// Decoding what the CLCL encoder writes gives every pixel back from its
/// own samples: its luma, and the top four bits of its own blue-difference
/// and red-difference values (the even pixel of a pair reads the low
/// nibble of the shared byte, the odd pixel the high one).
pub proof fn lemma_clcl_round_trip(bgra: Seq<u8>, p: ProfileSpec, tol: nat, b: Bitmap, i: int)
    requires
        clcl_spec(clcl_encoded(bgra, p.width * p.height), p, tol) == Ok::<Bitmap, Fault>(b),
        0 <= i < p.width * p.height,
    ensures
        src_px(b.data, i) == yuv_px(
            px_luma(bgra, i) as u8,
            ((px_cb(bgra, i) / 16) * 16) as u8,
            ((px_cr(bgra, i) / 16) * 16) as u8,
        ),
{
    let n = p.width * p.height;
    let d = clcl_encoded(bgra, n);
    let c = (n + 1) / 2;
    lemma_clcl_nibble_packing(bgra, n, i / 2);
    lemma_clcl_luma(bgra, n, i);
    assert(d.len() == clcl_len(n));
    assert(padded(d, clcl_len(n), tol) == Ok::<Seq<u8>, Fault>(d));
    lemma_px_bytes_pixel(n, |k: int| clcl_px(d, n, c, k), i);
    assert(d[n + i / 2] == clcl_cb_byte(bgra, n, i / 2));
    assert(d[n + c + i / 2] == clcl_cr_byte(bgra, n, i / 2));
    if i % 2 == 0 {
        assert(2 * (i / 2) == i);
    } else {
        assert(2 * (i / 2) + 1 == i);
    }
}

} // verus!
