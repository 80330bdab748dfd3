//! RGB565 decoder: 16-bit RGB, two bytes per pixel (`RRRRRGGGGGGBBBBB`),
//! little-endian by default.

use vstd::prelude::*;
use std::sync::atomic::AtomicBool;
use crate::decoder_helpers::{decoded_as, DEFAULT_TRAILING_PADDING_TOLERANCE};
use crate::error::{DecodeError, DecodedImage};
use crate::profile::Profile;
use crate::rgb16::{decode_rgb16, rgb16_spec};

verus! {

/// Decodes an RGB565 frame with the given trailing-padding tolerance.
pub fn decode_with_tolerance(src: &[u8], profile: &Profile, canceled: &AtomicBool, tolerance: usize) -> (r:
    Result<DecodedImage, DecodeError>)
    ensures
        decoded_as(r, rgb16_spec(src@, profile@, tolerance as nat, true)),
{
    decode_rgb16(src, profile, canceled, tolerance, true, "width and height must be positive", "rgb565 decode canceled")
}

/// Decodes an RGB565 frame to BGRA8 output.
///
/// Errors: `InvalidFormat` if width or height is not positive,
/// `BufferTooShort` if `src` lacks more than 256 of the `w·h·2` bytes.
pub fn decode(src: &[u8], profile: &Profile, canceled: &AtomicBool) -> (r: Result<DecodedImage, DecodeError>)
    ensures
        decoded_as(r, rgb16_spec(src@, profile@, 256, true)),
{
    decode_with_tolerance(src, profile, canceled, DEFAULT_TRAILING_PADDING_TOLERANCE)
}

} // verus!
