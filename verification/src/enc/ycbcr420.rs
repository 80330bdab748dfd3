//! YCbCr 4:2:0 encoder: a full luma plane followed by two chroma planes at
//! half resolution in each direction, each chroma sample the average over
//! its 2×2 block.

use vstd::prelude::*;
use crate::enc::helpers::{pixel_ycc, px_luma, px_cb, px_cr};
use crate::model::lemma_index_row_bound;

verus! {

/// Blue-difference (`blue`) or red-difference chroma of pixel `i`.
pub open spec fn chroma_of(bgra: Seq<u8>, i: int, blue: bool) -> int {
    if blue {
        px_cb(bgra, i)
    } else {
        px_cr(bgra, i)
    }
}

/// The chroma of the pixel at column `x`, row `y` of a `w`-wide, `h`-high
/// image if it lies inside, else 0.
pub open spec fn block_term(bgra: Seq<u8>, w: int, h: int, x: int, y: int, blue: bool) -> int {
    if x < w && y < h {
        chroma_of(bgra, y * w + x, blue)
    } else {
        0
    }
}

/// Whether the pixel at column `x`, row `y` lies inside the image (1) or
/// not (0).
pub open spec fn inside(w: int, h: int, x: int, y: int) -> int {
    if x < w && y < h {
        1
    } else {
        0
    }
}

/// The chroma sample of block `(cx, cy)`: the sum over the block's pixels
/// inside the image divided by their number, rounded down.
pub open spec fn block_chroma(bgra: Seq<u8>, w: int, h: int, cx: int, cy: int, blue: bool) -> u8 {
    let x = 2 * cx;
    let y = 2 * cy;
    let sum = block_term(bgra, w, h, x, y, blue) + block_term(bgra, w, h, x + 1, y, blue) + block_term(
        bgra,
        w,
        h,
        x,
        y + 1,
        blue,
    ) + block_term(bgra, w, h, x + 1, y + 1, blue);
    let count = inside(w, h, x, y) + inside(w, h, x + 1, y) + inside(w, h, x, y + 1) + inside(
        w,
        h,
        x + 1,
        y + 1,
    );
    (sum / count) as u8
}

/// A chroma plane: one sample per 2×2 block, blocks in reading order.
pub open spec fn chroma_plane(bgra: Seq<u8>, w: int, h: int, blue: bool) -> Seq<u8> {
    let uw = (w + 1) / 2;
    let uh = (h + 1) / 2;
    Seq::new((uw * uh) as nat, |ci: int| block_chroma(bgra, w, h, ci % uw, ci / uw, blue))
}

/// The YCbCr 4:2:0 bytes of a `w × h` BGRA image: the luma plane, then the
/// blue-difference and red-difference planes, or with `swap_chroma` the
/// red-difference plane first.
pub open spec fn ycbcr420_encoded(bgra: Seq<u8>, w: int, h: int, swap_chroma: bool) -> Seq<u8> {
    let luma_plane = Seq::new((w * h) as nat, |i: int| px_luma(bgra, i) as u8);
    let cb = chroma_plane(bgra, w, h, true);
    let cr = chroma_plane(bgra, w, h, false);
    if swap_chroma {
        luma_plane + cr + cb
    } else {
        luma_plane + cb + cr
    }
}

proof fn lemma_inside_index(w: int, h: int, x: int, y: int)
    requires
        0 <= x < w,
        0 <= y < h,
    ensures
        0 <= y * w + x < w * h,
{
    assert(y * w + x < w * h) by (nonlinear_arith)
        requires
            0 <= x < w,
            0 <= y < h,
    ;
    assert(0 <= y * w) by (nonlinear_arith)
        requires
            0 <= y,
            0 <= w,
    ;
}

/// Adds the chroma of one block position, if inside the image.
fn add_term(
    bgra: &[u8],
    w: usize,
    h: usize,
    x: usize,
    y: usize,
    acc: (i32, i32, i32),
) -> (r: (i32, i32, i32))
    requires
        4 * (w * h) <= bgra@.len(),
        x <= w,
        y <= h,
        0 <= acc.0 <= 765,
        0 <= acc.1 <= 765,
        0 <= acc.2 <= 3,
        acc.0 <= 255 * acc.2,
        acc.1 <= 255 * acc.2,
    ensures
        r.0 == acc.0 + block_term(bgra@, w as int, h as int, x as int, y as int, true),
        r.1 == acc.1 + block_term(bgra@, w as int, h as int, x as int, y as int, false),
        r.2 == acc.2 + inside(w as int, h as int, x as int, y as int),
        r.0 <= 255 * r.2,
        r.1 <= 255 * r.2,
{
    let len = bgra.len();
    if x < w && y < h {
        proof {
            lemma_inside_index(w as int, h as int, x as int, y as int);
        }
        let i = y * w + x;
        let (_, cb, cr) = pixel_ycc(bgra, i);
        (acc.0 + cb, acc.1 + cr, acc.2 + 1)
    } else {
        acc
    }
}

/// The blue-difference and red-difference samples of block `(cx, cy)`.
fn block_samples(bgra: &[u8], w: usize, h: usize, cx: usize, cy: usize) -> (r: (u8, u8))
    requires
        4 * (w * h) <= bgra@.len(),
        cx < (w + 1) / 2,
        cy < (h + 1) / 2,
    ensures
        r.0 == block_chroma(bgra@, w as int, h as int, cx as int, cy as int, true),
        r.1 == block_chroma(bgra@, w as int, h as int, cx as int, cy as int, false),
{
    let x = 2 * cx;
    let y = 2 * cy;
    let acc = add_term(bgra, w, h, x, y, (0, 0, 0));
    let acc = add_term(bgra, w, h, x + 1, y, acc);
    let acc = add_term(bgra, w, h, x, y + 1, acc);
    let acc = add_term(bgra, w, h, x + 1, y + 1, acc);
    let (sum_cb, sum_cr, count) = acc;
    assert(count >= 1);
    assert(0 <= sum_cb / count <= 255 && 0 <= sum_cr / count <= 255) by (nonlinear_arith)
        requires
            count >= 1,
            0 <= sum_cb <= 255 * count,
            0 <= sum_cr <= 255 * count,
    ;
    ((sum_cb / count) as u8, (sum_cr / count) as u8)
}

proof fn lemma_plane_sizes(w: int, h: int)
    requires
        w >= 0,
        h >= 0,
    ensures
        0 <= ((w + 1) / 2) * ((h + 1) / 2) <= w * h,
{
    let uw = (w + 1) / 2;
    let uh = (h + 1) / 2;
    if w == 0 || h == 0 {
        assert(uw * uh == 0 || w * h == 0);
        if w == 0 {
            assert(uw == 0);
        } else {
            assert(uh == 0);
        }
        assert(uw * uh == 0);
        assert(w * h >= 0) by (nonlinear_arith)
            requires
                w >= 0,
                h >= 0,
        ;
    } else {
        assert(uw * uh <= w * h && 0 <= uw * uh) by (nonlinear_arith)
            requires
                0 <= uw <= w,
                0 <= uh <= h,
        ;
    }
}

/// Builds one chroma plane.
fn encode_plane(bgra: &[u8], w: usize, h: usize, blue: bool) -> (r: Vec<u8>)
    requires
        4 * (w * h) <= bgra@.len(),
        w <= i32::MAX,
        h <= i32::MAX,
    ensures
        r@ == chroma_plane(bgra@, w as int, h as int, blue),
{
    let len = bgra.len();
    proof {
        lemma_plane_sizes(w as int, h as int);
    }
    let uw = w / 2 + w % 2;
    let uh = h / 2 + h % 2;
    let c = uw * uh;
    let ghost f = |ci: int| block_chroma(bgra@, w as int, h as int, ci % (uw as int), ci / (uw as int), blue);
    let mut out: Vec<u8> = Vec::new();
    let mut ci: usize = 0;
    while ci < c
        invariant
            0 <= ci <= c,
            c == uw * uh,
            uw == (w + 1) / 2,
            uh == (h + 1) / 2,
            4 * (w * h) <= bgra@.len(),
            f == (|ci: int| block_chroma(bgra@, w as int, h as int, ci % (uw as int), ci / (uw as int), blue)),
            out@ == Seq::new(ci as nat, f),
        decreases c - ci,
    {
        assert(uw > 0) by (nonlinear_arith)
            requires
                ci < uw * uh,
                uh >= 0,
        ;
        proof {
            lemma_index_row_bound(ci as int, uw as int, uh as int);
        }
        let cx = ci % uw;
        let cy = ci / uw;
        let (cb, cr) = block_samples(bgra, w, h, cx, cy);
        out.push(if blue {
            cb
        } else {
            cr
        });
        assert(out@ =~= Seq::new((ci + 1) as nat, f));
        ci = ci + 1;
    }
    out
}

/// Encodes `w × h` BGRA pixels to planar YCbCr 4:2:0; alpha is ignored.
/// The planes come in the order Y, Cb, Cr, or Y, Cr, Cb with `swap_chroma`.
pub fn encode_ycbcr420(bgra: &[u8], w: i32, h: i32, swap_chroma: bool) -> (r: Vec<u8>)
    requires
        w >= 0,
        h >= 0,
        4 * (w * h) <= bgra@.len(),
    ensures
        r@ == ycbcr420_encoded(bgra@, w as int, h as int, swap_chroma),
{
    let len = bgra.len();
    assert((w as usize) as int * (h as usize) as int == w * h);
    let wu = w as usize;
    let hu = h as usize;
    let n = wu * hu;
    let ghost lum = |i: int| px_luma(bgra@, i) as u8;
    let mut out: Vec<u8> = Vec::new();
    let mut i: usize = 0;
    while i < n
        invariant
            0 <= i <= n,
            n == w * h,
            4 * n <= bgra@.len(),
            len == bgra@.len(),
            lum == (|i: int| px_luma(bgra@, i) as u8),
            out@ == Seq::new(i as nat, lum),
        decreases n - i,
    {
        let (y, _, _) = pixel_ycc(bgra, i);
        out.push(y as u8);
        assert(out@ =~= Seq::new((i + 1) as nat, lum));
        i = i + 1;
    }
    let cb = encode_plane(bgra, wu, hu, true);
    let cr = encode_plane(bgra, wu, hu, false);
    let ghost luma_plane = out@;
    if swap_chroma {
        crate::bytes::append_range(&mut out, cr.as_slice(), 0, cr.len());
        crate::bytes::append_range(&mut out, cb.as_slice(), 0, cb.len());
    } else {
        crate::bytes::append_range(&mut out, cb.as_slice(), 0, cb.len());
        crate::bytes::append_range(&mut out, cr.as_slice(), 0, cr.len());
    }
    assert(cb@.subrange(0, cb@.len() as int) =~= cb@);
    assert(cr@.subrange(0, cr@.len() as int) =~= cr@);
    out
}

} // verus!
