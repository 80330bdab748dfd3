//! The integer status codes of the C interface, and the decisions behind
//! them: which code a decode error maps to, the output dimensions of a
//! prefix, and whether a decoded image fits the caller's buffer.

use vstd::prelude::*;
use crate::error::DecodeError;
use crate::profile_db::{ProfileDb, builtin_db};

verus! {

/// Success.
pub const ITHMB_OK: i32 = 0;

/// The input data is invalid or corrupt.
pub const ITHMB_ERROR_INVALID: i32 = -1;

/// The format is recognized but not supported by this decoder.
pub const ITHMB_ERROR_UNSUPPORTED: i32 = -2;

/// The operation was canceled by the caller.
pub const ITHMB_ERROR_CANCELED: i32 = -3;

/// The status code of a decode error.
pub open spec fn status_of(e: DecodeError) -> i32 {
    match e {
        DecodeError::Canceled(_) => ITHMB_ERROR_CANCELED,
        DecodeError::Unsupported(_) | DecodeError::Profile(_) => ITHMB_ERROR_UNSUPPORTED,
        _ => ITHMB_ERROR_INVALID,
    }
}

/// Maps a decode error to its status code: `Canceled` to -3, `Unsupported`
/// and `Profile` to -2, every other error to -1.
pub fn decode_status(e: &DecodeError) -> (r: i32)
    ensures
        r == status_of(*e),
{
    match e {
        DecodeError::Canceled(_) => ITHMB_ERROR_CANCELED,
        DecodeError::InvalidFormat(_) | DecodeError::Io(_) => ITHMB_ERROR_INVALID,
        DecodeError::Unsupported(_) | DecodeError::Profile(_) => ITHMB_ERROR_UNSUPPORTED,
        DecodeError::BufferTooShort { .. } | DecodeError::FileTooLarge { .. } | DecodeError::Jpeg(_) => {
            ITHMB_ERROR_INVALID
        },
    }
}

/// A decoded image fits a caller buffer sized for `out_w × out_h` pixels
/// when its area is no larger (rotation may swap width and height).
pub fn fits_caller_buffer(img_w: u32, img_h: u32, out_w: u32, out_h: u32) -> (r: bool)
    ensures
        r == (img_w * img_h <= out_w * out_h),
{
    assert(img_w as u64 * img_h as u64 <= u64::MAX) by (nonlinear_arith)
        requires
            img_w <= u32::MAX,
            img_h <= u32::MAX,
    ;
    assert(out_w as u64 * out_h as u64 <= u64::MAX) by (nonlinear_arith)
        requires
            out_w <= u32::MAX,
            out_h <= u32::MAX,
    ;
    (img_w as u64) * (img_h as u64) <= (out_w as u64) * (out_h as u64)
}

/// The output dimensions of a prefix's built-in profile (its display
/// width and height, as `u32`), or the status code `ITHMB_ERROR_UNSUPPORTED`
/// when the prefix has no profile or the database cannot be loaded.
pub fn prefix_dimensions(prefix: u32) -> (r: Result<(u32, u32), i32>)
    ensures
        match builtin_db() {
            Ok(db) => if db.table.contains_key(prefix as i32) {
                let p = db.table[prefix as i32];
                r == Ok::<(u32, u32), i32>(
                    (
                        (if p.swaps_dimensions { p.height } else { p.width }) as u32,
                        (if p.swaps_dimensions { p.width } else { p.height }) as u32,
                    ),
                )
            } else {
                r == Err::<(u32, u32), i32>(ITHMB_ERROR_UNSUPPORTED)
            },
            Err(_) => r == Err::<(u32, u32), i32>(ITHMB_ERROR_UNSUPPORTED),
        },
{
    let db = match ProfileDb::load_builtin() {
        Ok(db) => db,
        Err(_) => {
            return Err(ITHMB_ERROR_UNSUPPORTED);
        },
    };
    match db.get(prefix as i32) {
        Some(p) => Ok((p.display_width() as u32, p.display_height() as u32)),
        None => Err(ITHMB_ERROR_UNSUPPORTED),
    }
}

} // verus!
