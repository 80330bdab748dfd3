//! CLCL encoder: a full luma plane followed by separate blue-difference and
//! red-difference planes of packed 4-bit samples (even pixel in the low
//! nibble, odd pixel in the high nibble).

use vstd::prelude::*;
use crate::enc::helpers::{pixel_ycc, px_luma, px_cb, px_cr, lemma_ycc_range};
use crate::pixel_utils::src_px;
use crate::enc::cl::cl_encoded;

verus! {

/// Byte `ci` of a plane of packed nibbles of `n` values `v(0..n)`: the top
/// four bits of `v(2·ci)` low and of `v(2·ci + 1)` (if any) high.
pub open spec fn nibble_pair(v: spec_fn(int) -> int, n: int, ci: int) -> u8 {
    if 2 * ci + 1 < n {
        ((v(2 * ci + 1) / 16) * 16 + v(2 * ci) / 16) as u8
    } else {
        (v(2 * ci) / 16) as u8
    }
}

/// The CLCL bytes of the first `n` pixels of a BGRA buffer: `n` luma
/// bytes, then `⌈n/2⌉` bytes of blue-difference nibbles and as many of
/// red-difference nibbles.
pub open spec fn clcl_encoded(bgra: Seq<u8>, n: int) -> Seq<u8> {
    let m = (n + 1) / 2;
    Seq::new(n as nat, |i: int| px_luma(bgra, i) as u8) + Seq::new(
        m as nat,
        |ci: int| nibble_pair(|i: int| px_cb(bgra, i), n, ci),
    ) + Seq::new(m as nat, |ci: int| nibble_pair(|i: int| px_cr(bgra, i), n, ci))
}

/// Packs the top nibbles of a low and an optional high 8-bit value.
fn pack_nibbles(lo: i32, hi: Option<i32>) -> (r: u8)
    requires
        0 <= lo <= 255,
        hi matches Some(h) ==> 0 <= h <= 255,
    ensures
        r == match hi {
            Some(h) => ((h / 16) * 16 + lo / 16) as u8,
            None => (lo / 16) as u8,
        },
{
    let lo_nibble = (lo as u8) >> 4u8;
    assert(lo_nibble == (lo as u8) / 16) by (bit_vector)
        requires
            lo_nibble == (lo as u8) >> 4u8,
    ;
    match hi {
        Some(h) => {
            let hi_nibble = (h as u8) >> 4u8;
            let byte = (hi_nibble << 4u8) | lo_nibble;
            assert(byte == ((h as u8) / 16) * 16 + (lo as u8) / 16) by (bit_vector)
                requires
                    hi_nibble == (h as u8) >> 4u8,
                    lo_nibble == (lo as u8) / 16,
                    byte == (hi_nibble << 4u8) | lo_nibble,
            ;
            byte
        },
        None => lo_nibble,
    }
}

/// Encodes `w × h` BGRA pixels to the CLCL nibble-chroma planar format;
/// alpha is ignored.
pub fn encode_clcl(bgra: &[u8], w: i32, h: i32) -> (r: Vec<u8>)
    requires
        w >= 0,
        h >= 0,
        4 * (w * h) <= bgra@.len(),
    ensures
        r@ == clcl_encoded(bgra@, w * h),
{
    let len = bgra.len();
    assert((w as usize) as int * (h as usize) as int == w * h);
    let n = (w as usize) * (h as usize);
    let m = n / 2 + n % 2;
    assert(m == (n + 1) / 2);
    let ghost lum = |i: int| px_luma(bgra@, i) as u8;
    let ghost cbs = |ci: int| nibble_pair(|i: int| px_cb(bgra@, i), n as int, ci);
    let ghost crs = |ci: int| nibble_pair(|i: int| px_cr(bgra@, i), n as int, ci);
    let mut out: Vec<u8> = Vec::new();
    let mut i: usize = 0;
    while i < n
        invariant
            0 <= i <= n,
            n == w * h,
            4 * n <= bgra@.len(),
            len == bgra@.len(),
            lum == (|i: int| px_luma(bgra@, i) as u8),
            out@ == Seq::new(i as nat, lum),
        decreases n - i,
    {
        let (y, _, _) = pixel_ycc(bgra, i);
        out.push(y as u8);
        assert(out@ =~= Seq::new((i + 1) as nat, lum));
        i = i + 1;
    }
    let ghost luma_plane = out@;
    let mut ci: usize = 0;
    while ci < m
        invariant
            0 <= ci <= m,
            m == (n + 1) / 2,
            n == w * h,
            4 * n <= bgra@.len(),
            len == bgra@.len(),
            cbs == (|ci: int| nibble_pair(|i: int| px_cb(bgra@, i), n as int, ci)),
            out@ == luma_plane + Seq::new(ci as nat, cbs),
        decreases m - ci,
    {
        let (_, cb0, _) = pixel_ycc(bgra, 2 * ci);
        let hi = if 2 * ci + 1 < n {
            let (_, cb1, _) = pixel_ycc(bgra, 2 * ci + 1);
            Some(cb1)
        } else {
            None
        };
        let byte = pack_nibbles(cb0, hi);
        out.push(byte);
        assert(out@ =~= luma_plane + Seq::new((ci + 1) as nat, cbs));
        ci = ci + 1;
    }
    let ghost cb_part = out@;
    let mut ci: usize = 0;
    while ci < m
        invariant
            0 <= ci <= m,
            m == (n + 1) / 2,
            n == w * h,
            4 * n <= bgra@.len(),
            len == bgra@.len(),
            crs == (|ci: int| nibble_pair(|i: int| px_cr(bgra@, i), n as int, ci)),
            out@ == cb_part + Seq::new(ci as nat, crs),
        decreases m - ci,
    {
        let (_, _, cr0) = pixel_ycc(bgra, 2 * ci);
        let hi = if 2 * ci + 1 < n {
            let (_, _, cr1) = pixel_ycc(bgra, 2 * ci + 1);
            Some(cr1)
        } else {
            None
        };
        let byte = pack_nibbles(cr0, hi);
        out.push(byte);
        assert(out@ =~= cb_part + Seq::new((ci + 1) as nat, crs));
        ci = ci + 1;
    }
    out
}

/// Byte `ci` of the blue-difference plane of a CLCL encoding of `n` pixels.
pub open spec fn clcl_cb_byte(bgra: Seq<u8>, n: int, ci: int) -> u8 {
    clcl_encoded(bgra, n)[n + ci]
}

/// Byte `ci` of the red-difference plane of a CLCL encoding of `n` pixels.
pub open spec fn clcl_cr_byte(bgra: Seq<u8>, n: int, ci: int) -> u8 {
    clcl_encoded(bgra, n)[n + (n + 1) / 2 + ci]
}

#[verifier::spinoff_prover]
proof fn lemma_clcl_planes(bgra: Seq<u8>, n: int, ci: int)
    requires
        n >= 0,
        0 <= ci < (n + 1) / 2,
    ensures
        clcl_cb_byte(bgra, n, ci) == nibble_pair(|i: int| px_cb(bgra, i), n, ci),
        clcl_cr_byte(bgra, n, ci) == nibble_pair(|i: int| px_cr(bgra, i), n, ci),
{
    let m = (n + 1) / 2;
    let a = Seq::new(n as nat, |i: int| px_luma(bgra, i) as u8);
    let b = Seq::new(m as nat, |c: int| nibble_pair(|i: int| px_cb(bgra, i), n, c));
    let c = Seq::new(m as nat, |c: int| nibble_pair(|i: int| px_cr(bgra, i), n, c));
    assert(clcl_encoded(bgra, n) == a + b + c);
    assert((a + b + c)[n + ci] == b[ci]);
    assert((a + b + c)[n + m + ci] == c[ci]);
}

#[verifier::spinoff_prover]
proof fn lemma_nibble_fields(v: spec_fn(int) -> int, n: int, ci: int)
    requires
        0 <= v(2 * ci) <= 255,
        2 * ci + 1 < n ==> 0 <= v(2 * ci + 1) <= 255,
    ensures
        nibble_pair(v, n, ci) % 16 == v(2 * ci) / 16,
        nibble_pair(v, n, ci) / 16 == if 2 * ci + 1 < n {
            v(2 * ci + 1) / 16
        } else {
            0
        },
{
    let lo = v(2 * ci);
    if 2 * ci + 1 < n {
        let hi = v(2 * ci + 1);
        assert(0 <= (hi / 16) * 16 + lo / 16 <= 255);
    }
}

proof fn lemma_px_ycc_range(bgra: Seq<u8>, i: int)
    ensures
        0 <= px_cb(bgra, i) <= 255,
        0 <= px_cr(bgra, i) <= 255,
{
    let p = src_px(bgra, i);
    lemma_ycc_range(p.r as int, p.g as int, p.b as int);
}

/// The CLCL nibble packing: after the `n` luma bytes come `⌈n/2⌉` bytes of
/// blue-difference and as many of red-difference samples; byte `ci` of
/// each plane holds the top four bits of pixel `2ci`'s sample in its low
/// nibble and those of pixel `2ci + 1` (zero past the last pixel) in its
/// high nibble.
#[verifier::spinoff_prover]
pub proof fn lemma_clcl_nibble_packing(bgra: Seq<u8>, n: int, ci: int)
    requires
        n >= 0,
        0 <= ci < (n + 1) / 2,
    ensures
        clcl_encoded(bgra, n).len() == n + 2 * ((n + 1) / 2),
        clcl_cb_byte(bgra, n, ci) % 16 == px_cb(bgra, 2 * ci) / 16,
        clcl_cb_byte(bgra, n, ci) / 16 == if 2 * ci + 1 < n {
            px_cb(bgra, 2 * ci + 1) / 16
        } else {
            0
        },
        clcl_cr_byte(bgra, n, ci) % 16 == px_cr(bgra, 2 * ci) / 16,
        clcl_cr_byte(bgra, n, ci) / 16 == if 2 * ci + 1 < n {
            px_cr(bgra, 2 * ci + 1) / 16
        } else {
            0
        },
{
    lemma_clcl_planes(bgra, n, ci);
    lemma_px_ycc_range(bgra, 2 * ci);
    lemma_px_ycc_range(bgra, 2 * ci + 1);
    let vb = |i: int| px_cb(bgra, i);
    let vr = |i: int| px_cr(bgra, i);
    lemma_nibble_fields(vb, n, ci);
    lemma_nibble_fields(vr, n, ci);
}

/// Nibble `k` of a byte: the low four bits for `k == 0`, the high four
/// otherwise.
pub open spec fn nibble_at(x: u8, k: int) -> int {
    if k == 0 {
        (x % 16) as int
    } else {
        (x / 16) as int
    }
}

/// The first `n` bytes of a CLCL encoding are the pixels' luma values.
#[verifier::spinoff_prover]
pub proof fn lemma_clcl_luma(bgra: Seq<u8>, n: int, i: int)
    requires
        0 <= i < n,
    ensures
        clcl_encoded(bgra, n)[i] == px_luma(bgra, i) as u8,
{
    let m = (n + 1) / 2;
    let a = Seq::new(n as nat, |k: int| px_luma(bgra, k) as u8);
    let b = Seq::new(m as nat, |c: int| nibble_pair(|k: int| px_cb(bgra, k), n, c));
    let c = Seq::new(m as nat, |c: int| nibble_pair(|k: int| px_cr(bgra, k), n, c));
    assert(clcl_encoded(bgra, n) == a + b + c);
    assert((a + b + c)[i] == a[i]);
}

proof fn lemma_pack_nibbles(cb: int, cr: int)
    requires
        0 <= cb <= 255,
        0 <= cr <= 255,
    ensures
        ((cr / 16) * 16 + cb / 16) as u8 % 16 == cb / 16,
        ((cr / 16) * 16 + cb / 16) as u8 / 16 == cr / 16,
{
    assert(0 <= (cr / 16) * 16 + cb / 16 <= 255);
}

proof fn lemma_concat_index(a: Seq<u8>, b: Seq<u8>, i: int)
    requires
        0 <= i < a.len(),
        i < b.len(),
    ensures
        (a + b)[i] == a[i],
        (a + b)[a.len() + i] == b[i],
{
}

/// The bytes of a CL encoding: pixel `i`'s luma, then at `n + i` its chroma
/// byte with the top four bits of its blue-difference value low and of its
/// red-difference value high.
#[verifier::spinoff_prover]
pub proof fn lemma_cl_bytes(bgra: Seq<u8>, n: int, i: int)
    requires
        0 <= i < n,
    ensures
        cl_encoded(bgra, n)[i] == px_luma(bgra, i) as u8,
        cl_encoded(bgra, n)[n + i] % 16 == px_cb(bgra, i) / 16,
        cl_encoded(bgra, n)[n + i] / 16 == px_cr(bgra, i) / 16,
{
    lemma_px_ycc_range(bgra, i);
    let la = Seq::new(n as nat, |k: int| px_luma(bgra, k) as u8);
    let lc = Seq::new(n as nat, |k: int| ((px_cr(bgra, k) / 16) * 16 + px_cb(bgra, k) / 16) as u8);
    assert(cl_encoded(bgra, n) == la + lc);
    lemma_concat_index(la, lc, i);
    lemma_pack_nibbles(px_cb(bgra, i), px_cr(bgra, i));
}

/// CLCL carries the samples of the CL encoding of the same pixels: the same
/// luma bytes, and for pixel `i` the nibble `i % 2` of byte `i / 2` of the
/// blue-difference plane is the low nibble of CL's chroma byte for `i`, and
/// that of the red-difference plane its high nibble.
pub proof fn lemma_clcl_matches_cl(bgra: Seq<u8>, n: int, i: int)
    requires
        0 <= i < n,
    ensures
        clcl_encoded(bgra, n)[i] == cl_encoded(bgra, n)[i],
        nibble_at(clcl_cb_byte(bgra, n, i / 2), i % 2) == cl_encoded(bgra, n)[n + i] % 16,
        nibble_at(clcl_cr_byte(bgra, n, i / 2), i % 2) == cl_encoded(bgra, n)[n + i] / 16,
{
    let ci = i / 2;
    lemma_clcl_nibble_packing(bgra, n, ci);
    lemma_clcl_luma(bgra, n, i);
    lemma_cl_bytes(bgra, n, i);
    if i % 2 == 0 {
        assert(2 * ci == i);
    } else {
        assert(2 * ci + 1 == i);
    }
}

} // verus!
