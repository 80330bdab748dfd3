//! CL (per-pixel nibble chroma) decoder.
//!
//! Payload layout (planar): `w·h` luma bytes, then `w·h` chroma bytes, each
//! chroma byte holding Cr in its high nibble and Cb in its low nibble; a
//! nibble `v` stands for the 8-bit value `v << 4`.

use vstd::prelude::*;
use std::sync::atomic::AtomicBool;
use crate::decoder_helpers::{validate_dimensions, validated, decoded_as, DEFAULT_TRAILING_PADDING_TOLERANCE};
use crate::error::{DecodeError, DecodedImage, Fault};
use crate::model::{Bgra, Bitmap, px_bytes, quad, lemma_px_bytes_push, lemma_px_bytes_empty};
use crate::pixel_utils::check_canceled;
use crate::profile::{Profile, ProfileSpec};
use crate::yuv::{yuv_px, yuv_to_bgra};
use crate::enc::cl::cl_encoded;
use crate::enc::clcl::lemma_cl_bytes;
use crate::enc::helpers::{px_luma, px_cb, px_cr};
use crate::pixel_utils::{src_px, lemma_px_bytes_pixel};

verus! {

/// Pixel `i` of a CL frame of `n` pixels.
pub open spec fn cl_px(d: Seq<u8>, n: int, i: int) -> Bgra {
    let c = d[n + i];
    yuv_px(d[i], ((c % 16) * 16) as u8, ((c / 16) * 16) as u8)
}

/// What decoding a CL frame gives.
pub open spec fn cl_spec(src: Seq<u8>, p: ProfileSpec, tol: nat) -> Result<Bitmap, Fault> {
    match validated(src, p.width, p.height, 2, tol) {
        Err(f) => Err(f),
        Ok(d) => {
            let n = p.width * p.height;
            Ok(Bitmap { data: px_bytes(n, |i: int| cl_px(d, n, i)), width: p.width as u32, height: p.height as u32 })
        },
    }
}

/// Decodes a CL frame with the given trailing-padding tolerance.
pub fn decode_with_tolerance(src: &[u8], profile: &Profile, canceled: &AtomicBool, tolerance: usize) -> (r:
    Result<DecodedImage, DecodeError>)
    ensures
        decoded_as(r, cl_spec(src@, profile@, tolerance as nat)),
{
    let (data, w, h) = validate_dimensions(src, profile, "CL dimensions must be positive", 2, tolerance)?;
    proof {
        assert(w * h * 2 == 2 * (w * h)) by (nonlinear_arith);
    }
    let n = w * h;
    let dlen = data.len();
    check_canceled(canceled, "cl decode canceled")?;
    let ghost f = |i: int| cl_px(data@, n as int, i);
    let mut dst: Vec<u8> = Vec::new();
    proof {
        lemma_px_bytes_empty(f);
    }
    let mut i: usize = 0;
    while i < n
        invariant
            0 <= i <= n,
            data@.len() >= 2 * n,
            dlen == data@.len(),
            f == (|i: int| cl_px(data@, n as int, i)),
            dst@ == px_bytes(i as int, f),
        decreases n - i,
    {
        let c = data[n + i];
        let cb: u8 = (c & 0x0Fu8) << 4u8;
        let cr: u8 = c & 0xF0u8;
        assert(cb == ((c % 16) * 16) as u8 && cr == ((c / 16) * 16) as u8) by (bit_vector)
            requires
                cb == (c & 0x0Fu8) << 4u8,
                cr == c & 0xF0u8,
        ;
        let px = yuv_to_bgra(data[i], cb, cr);
        dst.push(px[0]);
        dst.push(px[1]);
        dst.push(px[2]);
        dst.push(px[3]);
        proof {
            lemma_px_bytes_push(i as int, f);
            assert(dst@ =~= px_bytes(i + 1, f));
        }
        i = i + 1;
    }
    Ok(DecodedImage { data: dst, width: w as u32, height: h as u32 })
}

/// Decodes a CL frame to BGRA8 output.
///
/// Errors: `InvalidFormat` if width or height is not positive,
/// `BufferTooShort` if `src` lacks more than 256 of the `w·h·2` bytes.
pub fn decode(src: &[u8], profile: &Profile, canceled: &AtomicBool) -> (r: Result<DecodedImage, DecodeError>)
    ensures
        decoded_as(r, cl_spec(src@, profile@, 256)),
{
    decode_with_tolerance(src, profile, canceled, DEFAULT_TRAILING_PADDING_TOLERANCE)
}

/// Decoding what the CL encoder writes gives every pixel back from its own
/// samples: its luma, and the top four bits of its blue-difference (low
/// nibble of its chroma byte) and red-difference (high nibble) values.
pub proof fn lemma_cl_round_trip(bgra: Seq<u8>, p: ProfileSpec, tol: nat, b: Bitmap, i: int)
    requires
        cl_spec(cl_encoded(bgra, p.width * p.height), p, tol) == Ok::<Bitmap, Fault>(b),
        0 <= i < p.width * p.height,
    ensures
        src_px(b.data, i) == yuv_px(
            px_luma(bgra, i) as u8,
            ((px_cb(bgra, i) / 16) * 16) as u8,
            ((px_cr(bgra, i) / 16) * 16) as u8,
        ),
{
    let n = p.width * p.height;
    let d = cl_encoded(bgra, n);
    assert(p.width * p.height * 2 == 2 * n);
    assert(validated(d, p.width, p.height, 2, tol) == Ok::<Seq<u8>, Fault>(d));
    lemma_cl_bytes(bgra, n, i);
    lemma_px_bytes_pixel(n, |k: int| cl_px(d, n, k), i);
}

} // verus!
