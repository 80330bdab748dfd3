//! Decoder and encoder for Apple `.ithmb` thumbnail-cache files.
#![allow(unused_imports)]

use vstd::prelude::*;

pub mod bytes;
pub mod cache;
pub mod cl;
pub mod clcl;
pub mod config;
pub mod decoder_helpers;
pub mod device_profiles;
pub mod enc;
pub mod error;
pub mod exif;
pub mod jpeg;
pub mod jpeg_scan;
pub mod layout;
pub mod metrics;
pub mod model;
pub mod open;
pub mod output;
pub mod photodb;
pub mod pipeline;
pub mod pixel_utils;
pub mod post_process;
pub mod profile;
pub mod profile_db;
pub mod profile_parser;
pub mod reordered_rgb555;
pub mod rgb16;
pub mod rgb555;
pub mod rgb565;
pub mod status;
pub mod text;
pub mod uyvy;
pub mod ycbcr420;
pub mod yuv;

pub use crate::config::DecodeConfig;
pub use crate::device_profiles::DeviceProfile;
pub use crate::error::{DecodeError, DecodedImage};
pub use crate::pipeline::{
    decode_ithmb,
    decode_ithmb_with_config,
    decode_with_profile,
    decode_with_profile_with_config,
    encoding_name_for_prefix,
    open_ithmb,
    open_ithmb_with_config,
};
pub use crate::profile::{Encoding, Profile};
pub use crate::profile_db::ProfileDb;

verus! {
} // verus!
