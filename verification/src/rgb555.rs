//! RGB555 decoder: 15-bit RGB, two bytes per pixel (`xRRRRRGGGGGBBBBB`, or
//! `xBBBBBGGGGGRRRRR` with `swap_rgb_channels`), little-endian by default.

use vstd::prelude::*;
use std::sync::atomic::AtomicBool;
use crate::decoder_helpers::{decoded_as, DEFAULT_TRAILING_PADDING_TOLERANCE};
use crate::error::{DecodeError, DecodedImage};
use crate::profile::Profile;
use crate::rgb16::{decode_rgb16, rgb16_spec};

verus! {

/// Decodes an RGB555 frame with the given trailing-padding tolerance.
pub fn decode_with_tolerance(src: &[u8], profile: &Profile, canceled: &AtomicBool, tolerance: usize) -> (r:
    Result<DecodedImage, DecodeError>)
    ensures
        decoded_as(r, rgb16_spec(src@, profile@, tolerance as nat, false)),
{
    decode_rgb16(src, profile, canceled, tolerance, false, "width and height must be positive", "rgb555 decode canceled")
}

/// Decodes an RGB555 frame to BGRA8 output.
///
/// Errors: `InvalidFormat` if width or height is not positive,
/// `BufferTooShort` if `src` lacks more than 256 of the `w·h·2` bytes.
pub fn decode(src: &[u8], profile: &Profile, canceled: &AtomicBool) -> (r: Result<DecodedImage, DecodeError>)
    ensures
        decoded_as(r, rgb16_spec(src@, profile@, 256, false)),
{
    decode_with_tolerance(src, profile, canceled, DEFAULT_TRAILING_PADDING_TOLERANCE)
}

} // verus!
