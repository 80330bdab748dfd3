//! Mathematical model of decoded bitmaps: BGRA pixels laid out row by row.

use vstd::prelude::*;
use vstd::arithmetic::div_mod::lemma_fundamental_div_mod_converse;

verus! {

/// One BGRA pixel.
pub struct Bgra {
    pub b: u8,
    pub g: u8,
    pub r: u8,
    pub a: u8,
}

/// Byte `j` (0 = blue .. 3 = alpha) of a pixel.
pub open spec fn bgra_byte(p: Bgra, j: int) -> u8 {
    if j == 0 {
        p.b
    } else if j == 1 {
        p.g
    } else if j == 2 {
        p.r
    } else {
        p.a
    }
}

/// The bytes of `n` pixels, pixel `i` being `f(i)`, four bytes each in BGRA order.
pub open spec fn px_bytes(n: int, f: spec_fn(int) -> Bgra) -> Seq<u8> {
    Seq::new((4 * n) as nat, |k: int| bgra_byte(f(k / 4), k % 4))
}

/// The four bytes of one pixel.
pub open spec fn quad(p: Bgra) -> Seq<u8> {
    seq![p.b, p.g, p.r, p.a]
}

/// A decoded image as a mathematical value.
pub struct Bitmap {
    pub data: Seq<u8>,
    pub width: u32,
    pub height: u32,
}

/// Appending pixel `n` to the bytes of the first `n` pixels.
pub proof fn lemma_px_bytes_push(n: int, f: spec_fn(int) -> Bgra)
    requires
        n >= 0,
    ensures
        px_bytes(n + 1, f) =~= px_bytes(n, f) + quad(f(n)),
{
    let a = px_bytes(n + 1, f);
    let b = px_bytes(n, f) + quad(f(n));
    assert forall|k: int| 0 <= k < 4 * (n + 1) implies #[trigger] a[k] == b[k] by {
        if k < 4 * n {
            lemma_fundamental_div_mod_converse(k, 4, k / 4, k % 4);
        } else {
            lemma_fundamental_div_mod_converse(k, 4, n, k - 4 * n);
        }
    }
}

/// The bytes of zero pixels are empty.
pub proof fn lemma_px_bytes_empty(f: spec_fn(int) -> Bgra)
    ensures
        px_bytes(0, f) =~= Seq::<u8>::empty(),
{
}

/// Row-major index arithmetic: pixel `y * w + x` sits in row `y`, column `x`.
pub proof fn lemma_row_major(y: int, x: int, w: int)
    requires
        0 <= x < w,
        0 <= y,
    ensures
        (y * w + x) / w == y,
        (y * w + x) % w == x,
{
    lemma_fundamental_div_mod_converse(y * w + x, w, y, x);
}

/// Splitting an index into row and column.
pub proof fn lemma_index_split(i: int, w: int)
    requires
        0 <= i,
        0 < w,
    ensures
        i == (i / w) * w + i % w,
        0 <= i % w < w,
        0 <= i / w,
        i / w <= i,
{
    vstd::arithmetic::div_mod::lemma_fundamental_div_mod(i, w);
    assert(w * (i / w) == (i / w) * w) by (nonlinear_arith);
    vstd::arithmetic::div_mod::lemma_mod_pos_bound(i, w);
    vstd::arithmetic::div_mod::lemma_div_pos_is_pos(i, w);
    assert((i / w) * w >= i / w) by (nonlinear_arith)
        requires
            i / w >= 0,
            w >= 1,
    ;
}

/// The row of an index inside a `w`×`h` grid is below `h`.
pub proof fn lemma_index_row_bound(i: int, w: int, h: int)
    requires
        0 <= i < w * h,
        0 < w,
    ensures
        i / w < h,
        0 <= i / w,
        0 <= i % w < w,
{
    lemma_index_split(i, w);
    let q = i / w;
    assert(q < h) by (nonlinear_arith)
        requires
            i == q * w + i % w,
            0 <= i % w,
            i < w * h,
            w > 0,
    ;
}

} // verus!
