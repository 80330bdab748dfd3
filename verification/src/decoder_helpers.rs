//! Dimension validation shared by the raw decoders, and the common result
//! relation that their contracts use.

use vstd::prelude::*;
use crate::error::{DecodeError, DecodedImage, Fault};
use crate::model::Bitmap;
use crate::profile::{Profile, ProfileSpec};
use crate::text::string_of;

verus! {

/// Default trailing padding tolerance in bytes.
pub const DEFAULT_TRAILING_PADDING_TOLERANCE: usize = 256;

/// `n` zero bytes.
pub open spec fn zeros(n: int) -> Seq<u8> {
    Seq::new(n as nat, |i: int| 0u8)
}

/// The frame bytes a decoder works on once the profile's dimensions are
/// checked: `w`×`h` must be positive; with `bpp > 0` the input must hold
/// `w·h·bpp` bytes, a deficit of at most `tol` bytes being filled with zeros.
pub open spec fn validated(src: Seq<u8>, w: i32, h: i32, bpp: nat, tol: nat) -> Result<Seq<u8>, Fault> {
    if w <= 0 || h <= 0 {
        Err(Fault::InvalidFormat)
    } else if bpp > 0 {
        let e = w * h * bpp;
        if e > usize::MAX {
            Err(Fault::BufferTooShort(0, 0))
        } else if src.len() < e {
            if e - src.len() > tol {
                Err(Fault::BufferTooShort(e as usize, src.len() as usize))
            } else {
                Ok(src + zeros(e - src.len()))
            }
        } else {
            Ok(src)
        }
    } else {
        Ok(src)
    }
}

/// `src` zero-filled up to `e` bytes when it lacks at most `tol` of them.
pub open spec fn padded(src: Seq<u8>, e: int, tol: nat) -> Result<Seq<u8>, Fault> {
    if src.len() < e {
        if e - src.len() > tol {
            Err(Fault::BufferTooShort(e as usize, src.len() as usize))
        } else {
            Ok(src + zeros(e - src.len()))
        }
    } else {
        Ok(src)
    }
}

/// Copies `src`, zero-filling it up to `expected` bytes when it lacks at most
/// `tolerance` of them; a larger deficit is `BufferTooShort`.
pub fn pad_to(src: &[u8], expected: usize, tolerance: usize) -> (r: Result<Vec<u8>, DecodeError>)
    ensures
        match r {
            Ok(d) => padded(src@, expected as int, tolerance as nat) == Ok::<Seq<u8>, Fault>(d@),
            Err(e) => padded(src@, expected as int, tolerance as nat) == Err::<Seq<u8>, Fault>(e.fault()),
        },
{
    let src_len = src.len();
    let mut out = crate::bytes::copy_all(src);
    if src_len < expected {
        let deficit = expected - src_len;
        if deficit > tolerance {
            return Err(DecodeError::BufferTooShort { expected, actual: src_len });
        }
        let mut k = src_len;
        while k < expected
            invariant
                src_len <= k <= expected,
                src_len == src@.len(),
                out@ == src@ + zeros(k - src_len),
            decreases expected - k,
        {
            out.push(0u8);
            k = k + 1;
            assert(out@ =~= src@ + zeros(k - src_len));
        }
    }
    assert(src_len >= expected ==> out@ =~= src@);
    Ok(out)
}

/// `r` is the decoder result `s` describes: the image, or the validation
/// error; where `s` is an image, a cancellation may come in its place.
pub open spec fn decoded_as(r: Result<DecodedImage, DecodeError>, s: Result<Bitmap, Fault>) -> bool {
    match r {
        Ok(img) => s == Ok::<Bitmap, Fault>(img@),
        Err(e) => match s {
            Ok(_) => e.fault() == Fault::Canceled,
            Err(f) => f == e.fault(),
        },
    }
}

/// Validates that the profile's dimensions are positive and, when `bpp > 0`,
/// that `src` holds `width × height × bpp` bytes, zero-filling a deficit of at
/// most `tolerance` bytes.
///
/// Returns the (possibly padded) frame bytes and the dimensions as `usize`.
pub fn validate_dimensions(src: &[u8], profile: &Profile, name: &str, bpp: usize, tolerance: usize) -> (r:
    Result<(Vec<u8>, usize, usize), DecodeError>)
    ensures
        match r {
            Ok((data, w, h)) => validated(src@, profile.width, profile.height, bpp as nat, tolerance as nat)
                == Ok::<Seq<u8>, Fault>(data@) && w == profile.width && h == profile.height,
            Err(e) => validated(src@, profile.width, profile.height, bpp as nat, tolerance as nat)
                == Err::<Seq<u8>, Fault>(e.fault()) && (e matches DecodeError::InvalidFormat(m) ==> m@
                == name@),
        },
{
    let w_i32 = profile.width;
    let h_i32 = profile.height;
    if w_i32 <= 0 || h_i32 <= 0 {
        return Err(DecodeError::InvalidFormat(string_of(name)));
    }
    let w = w_i32 as usize;
    let h = h_i32 as usize;
    let src_len = src.len();
    if bpp > 0 {
        let wh = w.checked_mul(h);
        let e = match wh {
            Some(wh) => wh.checked_mul(bpp),
            None => None,
        };
        proof {
            assert(w * h > 0) by (nonlinear_arith)
                requires
                    w > 0,
                    h > 0,
            ;
            assert(w * h * bpp >= w * h) by (nonlinear_arith)
                requires
                    w * h > 0,
                    bpp > 0,
            ;
        }
        let expected = match e {
            Some(e) => e,
            None => {
                return Err(DecodeError::BufferTooShort { expected: 0, actual: 0 });
            },
        };
        if src_len < expected {
            let deficit = expected - src_len;
            if deficit > tolerance {
                return Err(DecodeError::BufferTooShort { expected, actual: src_len });
            }
            let mut padded = crate::bytes::copy_all(src);
            let mut k = src_len;
            while k < expected
                invariant
                    src_len <= k <= expected,
                    src_len == src@.len(),
                    padded@ == src@ + zeros(k - src_len),
                decreases expected - k,
            {
                padded.push(0u8);
                k = k + 1;
                assert(padded@ =~= src@ + zeros(k - src_len));
            }
            return Ok((padded, w, h));
        }
    }
    Ok((crate::bytes::copy_all(src), w, h))
}

} // verus!
