//! Shared encoder helpers: full-range BT.601 RGB to YCbCr conversion with
//! integer coefficients over 256, and the byte layout of 16-bit words.

use vstd::prelude::*;
use crate::model::Bgra;
use crate::pixel_utils::src_px;
use crate::yuv::floor_div256;

verus! {

/// Luma of an RGB triple: `(77·R + 150·G + 29·B) / 256`, rounded down.
pub open spec fn luma(r: int, g: int, b: int) -> int {
    (77 * r + 150 * g + 29 * b) / 256
}

/// Blue-difference chroma: `(-43·R - 85·G + 128·B) / 256 + 128`, rounded down.
pub open spec fn chroma_b(r: int, g: int, b: int) -> int {
    (-43 * r - 85 * g + 128 * b) / 256 + 128
}

/// Red-difference chroma: `(128·R - 107·G - 21·B) / 256 + 128`, rounded down.
pub open spec fn chroma_r(r: int, g: int, b: int) -> int {
    (128 * r - 107 * g - 21 * b) / 256 + 128
}

/// Luma of pixel `i` of a BGRA buffer.
pub open spec fn px_luma(bgra: Seq<u8>, i: int) -> int {
    let p = src_px(bgra, i);
    luma(p.r as int, p.g as int, p.b as int)
}

/// Blue-difference chroma of pixel `i` of a BGRA buffer.
pub open spec fn px_cb(bgra: Seq<u8>, i: int) -> int {
    let p = src_px(bgra, i);
    chroma_b(p.r as int, p.g as int, p.b as int)
}

/// Red-difference chroma of pixel `i` of a BGRA buffer.
pub open spec fn px_cr(bgra: Seq<u8>, i: int) -> int {
    let p = src_px(bgra, i);
    chroma_r(p.r as int, p.g as int, p.b as int)
}

/// The luma, blue-difference and red-difference values of 8-bit channels
/// all lie in `0..=255`.
pub proof fn lemma_ycc_range(r: int, g: int, b: int)
    requires
        0 <= r <= 255,
        0 <= g <= 255,
        0 <= b <= 255,
    ensures
        0 <= luma(r, g, b) <= 255,
        0 <= chroma_b(r, g, b) <= 255,
        0 <= chroma_r(r, g, b) <= 255,
{
    assert(0 <= 77 * r + 150 * g + 29 * b <= 65280);
    assert(-32640 <= -43 * r - 85 * g + 128 * b <= 32640);
    assert(-32640 <= 128 * r - 107 * g - 21 * b <= 32640);
}

/// BT.601 luma of an RGB triple.
pub fn bt601_y(r: i32, g: i32, b: i32) -> (y: i32)
    requires
        0 <= r <= 255,
        0 <= g <= 255,
        0 <= b <= 255,
    ensures
        y == luma(r as int, g as int, b as int),
        0 <= y <= 255,
{
    proof {
        lemma_ycc_range(r as int, g as int, b as int);
    }
    floor_div256(77 * r + 150 * g + 29 * b)
}

/// BT.601 blue-difference chroma of an RGB triple, centred on 128.
pub fn bt601_cb(r: i32, g: i32, b: i32) -> (cb: i32)
    requires
        0 <= r <= 255,
        0 <= g <= 255,
        0 <= b <= 255,
    ensures
        cb == chroma_b(r as int, g as int, b as int),
        0 <= cb <= 255,
{
    proof {
        lemma_ycc_range(r as int, g as int, b as int);
    }
    floor_div256(-43 * r - 85 * g + 128 * b) + 128
}

/// BT.601 red-difference chroma of an RGB triple, centred on 128.
pub fn bt601_cr(r: i32, g: i32, b: i32) -> (cr: i32)
    requires
        0 <= r <= 255,
        0 <= g <= 255,
        0 <= b <= 255,
    ensures
        cr == chroma_r(r as int, g as int, b as int),
        0 <= cr <= 255,
{
    proof {
        lemma_ycc_range(r as int, g as int, b as int);
    }
    floor_div256(128 * r - 107 * g - 21 * b) + 128
}

/// Luma and both chroma values of pixel `i` of a BGRA buffer.
pub fn pixel_ycc(bgra: &[u8], i: usize) -> (r: (i32, i32, i32))
    requires
        4 * i + 3 < bgra@.len(),
    ensures
        r.0 == px_luma(bgra@, i as int),
        r.1 == px_cb(bgra@, i as int),
        r.2 == px_cr(bgra@, i as int),
        0 <= r.0 <= 255,
        0 <= r.1 <= 255,
        0 <= r.2 <= 255,
{
    let len = bgra.len();
    let px = i * 4;
    let b = bgra[px] as i32;
    let g = bgra[px + 1] as i32;
    let r = bgra[px + 2] as i32;
    (bt601_y(r, g, b), bt601_cb(r, g, b), bt601_cr(r, g, b))
}

/// Byte `j` (0 or 1) of the 16-bit word `w` in the given byte order.
pub open spec fn word_byte(w: u16, j: int, big_endian: bool) -> u8 {
    if (j == 0) == big_endian {
        (w / 256) as u8
    } else {
        (w % 256) as u8
    }
}

/// The bytes of `n` 16-bit words, word `i` being `f(i)`, two bytes each in
/// the given byte order.
pub open spec fn word_bytes(n: int, f: spec_fn(int) -> u16, big_endian: bool) -> Seq<u8> {
    Seq::new((2 * n) as nat, |k: int| word_byte(f(k / 2), k % 2, big_endian))
}

/// Splits a 16-bit word into its two bytes in the given byte order.
pub fn split_word(w: u16, big_endian: bool) -> (r: (u8, u8))
    ensures
        r.0 == word_byte(w, 0, big_endian),
        r.1 == word_byte(w, 1, big_endian),
{
    let hi = (w >> 8u16) as u8;
    let lo = (w & 0xFFu16) as u8;
    assert(hi == (w / 256) as u8 && lo == (w % 256) as u8) by (bit_vector)
        requires
            hi == (w >> 8u16) as u8,
            lo == (w & 0xFFu16) as u8,
    ;
    if big_endian {
        (hi, lo)
    } else {
        (lo, hi)
    }
}

/// Appending word `n` to the bytes of the first `n` words.
pub proof fn lemma_word_bytes_push(n: int, f: spec_fn(int) -> u16, big_endian: bool)
    requires
        n >= 0,
    ensures
        word_bytes(n + 1, f, big_endian) =~= word_bytes(n, f, big_endian).push(
            word_byte(f(n), 0, big_endian),
        ).push(word_byte(f(n), 1, big_endian)),
{
    let a = word_bytes(n + 1, f, big_endian);
    let b = word_bytes(n, f, big_endian).push(word_byte(f(n), 0, big_endian)).push(
        word_byte(f(n), 1, big_endian),
    );
    assert forall|k: int| 0 <= k < 2 * (n + 1) implies #[trigger] a[k] == b[k] by {
        if k < 2 * n {
        } else if k == 2 * n {
            assert(k / 2 == n && k % 2 == 0);
        } else {
            assert(k / 2 == n && k % 2 == 1);
        }
    }
}

} // verus!
