//! Encoders from BGRA pixels to the raw `.ithmb` pixel formats, used to
//! build test frames and benchmark inputs.

pub mod helpers;
pub mod rgb565;
pub mod rgb555;
pub mod cl;
pub mod clcl;
pub mod uyvy;
pub mod ycbcr420;
