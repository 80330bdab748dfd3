//! UYVY encoder: packed YUV 4:2:2, each pair of pixels written as
//! `[Cb, Y0, Cr, Y1]` with the pair's chroma averaged.

use vstd::prelude::*;
use crate::enc::cl::cl_encoded;
use crate::enc::helpers::{pixel_ycc, px_luma, px_cb, px_cr};

verus! {

/// Byte `k` (0..4) of the group for pixel pair `j` of `n` pixels: chroma
/// averaged over the pair (rounded down), or, for a trailing single pixel,
/// its own chroma and a zero second luma.
pub open spec fn uyvy_byte(bgra: Seq<u8>, n: int, j: int, k: int) -> u8 {
    let a = 2 * j;
    if a + 1 < n {
        if k == 0 {
            ((px_cb(bgra, a) + px_cb(bgra, a + 1)) / 2) as u8
        } else if k == 1 {
            px_luma(bgra, a) as u8
        } else if k == 2 {
            ((px_cr(bgra, a) + px_cr(bgra, a + 1)) / 2) as u8
        } else {
            px_luma(bgra, a + 1) as u8
        }
    } else {
        if k == 0 {
            px_cb(bgra, a) as u8
        } else if k == 1 {
            px_luma(bgra, a) as u8
        } else if k == 2 {
            px_cr(bgra, a) as u8
        } else {
            0
        }
    }
}

/// The UYVY bytes of a `w × h` BGRA image: `⌈w/2⌉·h` four-byte groups,
/// the pixels taken in pairs in reading order (a pair may span two rows
/// when `w` is odd), the groups past the last pair zero.
pub open spec fn uyvy_encoded(bgra: Seq<u8>, w: int, h: int) -> Seq<u8> {
    let n = w * h;
    let pairs = (n + 1) / 2;
    Seq::new(
        (((w + 1) / 2) * h * 4) as nat,
        |k: int|
            if k / 4 < pairs {
                uyvy_byte(bgra, n, k / 4, k % 4)
            } else {
                0
            },
    )
}

proof fn lemma_pair_room(w: int, h: int)
    requires
        w >= 0,
        h >= 0,
    ensures
        (w * h + 1) / 2 <= ((w + 1) / 2) * h,
        ((w + 1) / 2) * h <= w * h,
{
    let c = (w + 1) / 2;
    assert(2 * c >= w && c <= w && c >= 0);
    assert(2 * c * h >= w * h) by (nonlinear_arith)
        requires
            2 * c >= w,
            h >= 0,
    ;
    assert(c * h <= w * h) by (nonlinear_arith)
        requires
            c <= w,
            h >= 0,
    ;
    assert(2 * (c * h) == 2 * c * h) by (nonlinear_arith);
}

/// Encodes `w × h` BGRA pixels to UYVY (YUV 4:2:2 packed); alpha is
/// ignored.
pub fn encode_uyvy(bgra: &[u8], w: i32, h: i32) -> (r: Vec<u8>)
    requires
        w >= 0,
        h >= 0,
        4 * (w * h) <= bgra@.len(),
    ensures
        r@ == uyvy_encoded(bgra@, w as int, h as int),
{
    let len = bgra.len();
    assert((w as usize) as int * (h as usize) as int == w * h);
    let wu = w as usize;
    let hu = h as usize;
    let n = wu * hu;
    proof {
        lemma_pair_room(w as int, h as int);
        assert((wu / 2 + wu % 2) as int == (w + 1) / 2);
        assert((wu / 2 + wu % 2) as int * (hu as int) == ((w + 1) / 2) * h);
    }
    let pairs_per_row = wu / 2 + wu % 2;
    let out_len = pairs_per_row * hu * 4;
    let pairs = n / 2 + n % 2;
    let ghost f = |k: int|
        if k / 4 < pairs {
            uyvy_byte(bgra@, n as int, k / 4, k % 4)
        } else {
            0
        };
    let mut out: Vec<u8> = Vec::new();
    let mut j: usize = 0;
    while j < pairs
        invariant
            0 <= j <= pairs,
            pairs == (n + 1) / 2,
            4 * pairs <= out_len,
            n == w * h,
            4 * n <= bgra@.len(),
            len == bgra@.len(),
            f == (|k: int|
                if k / 4 < pairs {
                    uyvy_byte(bgra@, n as int, k / 4, k % 4)
                } else {
                    0
                }),
            out@ == Seq::new((4 * j) as nat, f),
        decreases pairs - j,
    {
        let a = 2 * j;
        let (y0, cb0, cr0) = pixel_ycc(bgra, a);
        let group: [u8; 4] = if a + 1 < n {
            let (y1, cb1, cr1) = pixel_ycc(bgra, a + 1);
            [((cb0 + cb1) / 2) as u8, y0 as u8, ((cr0 + cr1) / 2) as u8, y1 as u8]
        } else {
            [cb0 as u8, y0 as u8, cr0 as u8, 0u8]
        };
        proof {
            assert forall|k: int| 0 <= k < 4 implies #[trigger] group@[k] == uyvy_byte(
                bgra@,
                n as int,
                j as int,
                k,
            ) by {}
        }
        let ghost before = out@;
        out.push(group[0]);
        out.push(group[1]);
        out.push(group[2]);
        out.push(group[3]);
        proof {
            assert forall|k: int| 0 <= k < 4 * (j + 1) implies #[trigger] out@[k] == f(k) by {
                if k >= 4 * j {
                    assert(k / 4 == j);
                    assert(out@[k] == group@[k - 4 * j]);
                }
            }
            assert(out@ =~= Seq::new((4 * (j + 1)) as nat, f));
        }
        j = j + 1;
    }
    let mut k: usize = 4 * pairs;
    while k < out_len
        invariant
            4 * pairs <= k <= out_len,
            pairs == (n + 1) / 2,
            f == (|k: int|
                if k / 4 < pairs {
                    uyvy_byte(bgra@, n as int, k / 4, k % 4)
                } else {
                    0
                }),
            out@ == Seq::new(k as nat, f),
        decreases out_len - k,
    {
        out.push(0u8);
        assert(out@ =~= Seq::new((k + 1) as nat, f));
        k = k + 1;
    }
    out
}

/// The UYVY luma bytes are the CL luma plane: for an even width, the
/// encoding holds two bytes per pixel, and the byte at odd offset `2i + 1`
/// (`Y0` or `Y1` of each `[Cb, Y0, Cr, Y1]` group) is pixel `i`'s BT.601
/// luma, the byte the CL encoder writes first for it.
pub proof fn lemma_uyvy_luma_is_cl_luma(bgra: Seq<u8>, w: int, h: int)
    requires
        w > 0,
        w % 2 == 0,
        h > 0,
    ensures
        uyvy_encoded(bgra, w, h).len() == 2 * (w * h),
        forall|i: int| 0 <= i < w * h ==> #[trigger] uyvy_encoded(bgra, w, h)[2 * i + 1] == cl_encoded(bgra, w * h)[i],
{
    let n = w * h;
    assert(((w + 1) / 2) * h * 4 == 2 * n) by (nonlinear_arith)
        requires
            w % 2 == 0,
            w > 0,
            n == w * h,
    ;
    let q = w / 2;
    assert(w == 2 * q);
    assert(n == 2 * (q * h)) by (nonlinear_arith)
        requires
            w == 2 * q,
            n == w * h,
    ;
    assert(n % 2 == 0);
    assert forall|i: int| 0 <= i < n implies #[trigger] uyvy_encoded(bgra, w, h)[2 * i + 1] == cl_encoded(bgra, n)[i] by {
        let k = 2 * i + 1;
        assert(k / 4 == i / 2);
        assert(k % 4 == if i % 2 == 0 { 1int } else { 3int });
        assert(k / 4 < (n + 1) / 2);
        assert(2 * (i / 2) + 1 < n);
    }
}

} // verus!
