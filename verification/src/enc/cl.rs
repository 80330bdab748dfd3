//! CL encoder: a full luma plane followed by one byte per pixel holding the
//! red-difference chroma in its high nibble and the blue-difference chroma
//! in its low nibble.

use vstd::prelude::*;
use crate::enc::helpers::{pixel_ycc, px_luma, px_cb, px_cr};

verus! {

/// The CL bytes of the first `n` pixels of a BGRA buffer: `n` luma bytes,
/// then `n` bytes `(Cr >> 4) << 4 | (Cb >> 4)`.
pub open spec fn cl_encoded(bgra: Seq<u8>, n: int) -> Seq<u8> {
    Seq::new(n as nat, |i: int| px_luma(bgra, i) as u8) + Seq::new(
        n as nat,
        |i: int| ((px_cr(bgra, i) / 16) * 16 + px_cb(bgra, i) / 16) as u8,
    )
}

/// Encodes `w × h` BGRA pixels to the CL nibble-chroma format (two bytes
/// per pixel); alpha is ignored.
pub fn encode_cl(bgra: &[u8], w: i32, h: i32) -> (r: Vec<u8>)
    requires
        w >= 0,
        h >= 0,
        4 * (w * h) <= bgra@.len(),
    ensures
        r@ == cl_encoded(bgra@, w * h),
{
    let len = bgra.len();
    assert((w as usize) as int * (h as usize) as int == w * h);
    let n = (w as usize) * (h as usize);
    let ghost lum = |i: int| px_luma(bgra@, i) as u8;
    let ghost chr = |i: int| ((px_cr(bgra@, i) / 16) * 16 + px_cb(bgra@, i) / 16) as u8;
    let mut out: Vec<u8> = Vec::new();
    let mut i: usize = 0;
    while i < n
        invariant
            0 <= i <= n,
            n == w * h,
            4 * n <= bgra@.len(),
            len == bgra@.len(),
            lum == (|i: int| px_luma(bgra@, i) as u8),
            out@ == Seq::new(i as nat, lum),
        decreases n - i,
    {
        let (y, _, _) = pixel_ycc(bgra, i);
        out.push(y as u8);
        assert(out@ =~= Seq::new((i + 1) as nat, lum));
        i = i + 1;
    }
    let ghost luma_plane = out@;
    let mut i: usize = 0;
    while i < n
        invariant
            0 <= i <= n,
            n == w * h,
            4 * n <= bgra@.len(),
            len == bgra@.len(),
            chr == (|i: int| ((px_cr(bgra@, i) / 16) * 16 + px_cb(bgra@, i) / 16) as u8),
            out@ == luma_plane + Seq::new(i as nat, chr),
        decreases n - i,
    {
        let (_, cb, cr) = pixel_ycc(bgra, i);
        let cb_nibble = (cb as u8) >> 4u8;
        let cr_nibble = (cr as u8) >> 4u8;
        let byte = (cr_nibble << 4u8) | cb_nibble;
        assert(byte == ((cr as u8) / 16) * 16 + (cb as u8) / 16) by (bit_vector)
            requires
                cb_nibble == (cb as u8) >> 4u8,
                cr_nibble == (cr as u8) >> 4u8,
                byte == (cr_nibble << 4u8) | cb_nibble,
        ;
        out.push(byte);
        assert(out@ =~= luma_plane + Seq::new((i + 1) as nat, chr));
        i = i + 1;
    }
    out
}

} // verus!
