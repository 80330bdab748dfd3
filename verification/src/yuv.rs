//! BT.601 YCbCr to BGRA conversion with integer coefficients
//! (359, 88, 183 and 454 over 256).

use vstd::prelude::*;
use crate::model::{Bgra, quad};
use crate::pixel_utils::{clamp255, clamp_u8};

verus! {

/// The BGRA pixel of a full-range BT.601 YCbCr sample; each chroma term is
/// rounded down to a whole number after dividing by 256.
pub open spec fn yuv_px(y: u8, cb: u8, cr: u8) -> Bgra {
    let c = cb - 128;
    let d = cr - 128;
    Bgra {
        b: clamp255(y + (c * 454) / 256),
        g: clamp255(y - (c * 88) / 256 - (d * 183) / 256),
        r: clamp255(y + (d * 359) / 256),
        a: 255,
    }
}

/// `x / 256` rounded down.
pub fn floor_div256(x: i32) -> (r: i32)
    requires
        -131072 <= x <= 131072,
    ensures
        r == (x as int) / 256,
{
    let shifted = (x + 131072) as u32;
    let q = shifted / 256;
    proof {
        vstd::arithmetic::div_mod::lemma_fundamental_div_mod(x as int, 256);
        vstd::arithmetic::div_mod::lemma_mod_bound(x as int, 256);
        vstd::arithmetic::div_mod::lemma_fundamental_div_mod_converse(
            x + 131072,
            256,
            (x as int) / 256 + 512,
            (x as int) % 256,
        );
    }
    (q as i32) - 512
}

/// Converts one YCbCr sample to a BGRA pixel.
pub fn yuv_to_bgra(y: u8, cb: u8, cr: u8) -> (r: [u8; 4])
    ensures
        r@ == quad(yuv_px(y, cb, cr)),
{
    let yi = y as i32;
    let c = (cb as i32) - 128;
    let d = (cr as i32) - 128;
    let b = clamp_u8(yi + floor_div256(c * 454));
    let g = clamp_u8(yi - floor_div256(c * 88) - floor_div256(d * 183));
    let r = clamp_u8(yi + floor_div256(d * 359));
    let out = [b, g, r, 255u8];
    assert(out@ =~= quad(yuv_px(y, cb, cr)));
    out
}

/// Neutral chroma (128, 128) gives the gray of the luma: blue, green and red
/// all equal `y`.
pub proof fn lemma_yuv_neutral_is_gray(y: u8)
    ensures
        yuv_px(y, 128, 128) == (Bgra { b: y, g: y, r: y, a: 255 }),
{
}

/// Blue depends on the blue-difference sample alone and red on the
/// red-difference sample alone: exchanging the other sample leaves them,
/// and a blue-difference sample above neutral never lowers blue below the
/// luma, a red-difference sample above neutral never lowers red below it.
pub proof fn lemma_yuv_channel_sources(y: u8, cb: u8, cr: u8, cb2: u8, cr2: u8)
    ensures
        yuv_px(y, cb, cr).b == yuv_px(y, cb, cr2).b,
        yuv_px(y, cb, cr).r == yuv_px(y, cb2, cr).r,
        cb >= 128 ==> yuv_px(y, cb, cr).b >= y,
        cr >= 128 ==> yuv_px(y, cb, cr).r >= y,
        cb < 128 ==> yuv_px(y, cb, cr).b <= y,
        cr < 128 ==> yuv_px(y, cb, cr).r <= y,
{
    let c = cb - 128;
    let d = cr - 128;
    if cb >= 128 {
        assert((c * 454) / 256 >= 0) by (nonlinear_arith)
            requires
                c >= 0,
        ;
    } else {
        assert((c * 454) / 256 <= 0) by (nonlinear_arith)
            requires
                c < 0,
        ;
    }
    if cr >= 128 {
        assert((d * 359) / 256 >= 0) by (nonlinear_arith)
            requires
                d >= 0,
        ;
    } else {
        assert((d * 359) / 256 <= 0) by (nonlinear_arith)
            requires
                d < 0,
        ;
    }
}

} // verus!
