//! Runtime configuration: decode limits (`DecodeConfig`) and post-processing
//! overrides (`TransformConfig`).

use vstd::prelude::*;
use crate::text::{decimal, push_decimal, push_str};

verus! {

/// Runtime limits for `.ithmb` decoding.
///
/// Defaults: 8 MiB maximum file size, 4 MiB JPEG scan limit, 64 KiB
/// cancellation-check interval, 256 bytes of trailing-padding tolerance and a
/// 512-byte JFIF/Exif scan window.
#[derive(Clone, Debug, PartialEq, Eq)]
pub struct DecodeConfig {
    max_raw_file_size: usize,
    jpeg_scan_limit: usize,
    cancel_check_interval: usize,
    trailing_padding_tolerance: usize,
    jfif_exif_scan_window: usize,
}

/// The values a `DecodeConfig` holds.
pub struct ConfigSpec {
    pub max_raw_file_size: usize,
    pub jpeg_scan_limit: usize,
    pub cancel_check_interval: usize,
    pub trailing_padding_tolerance: usize,
    pub jfif_exif_scan_window: usize,
}

impl View for DecodeConfig {
    type V = ConfigSpec;

    closed spec fn view(&self) -> ConfigSpec {
        ConfigSpec {
            max_raw_file_size: self.max_raw_file_size,
            jpeg_scan_limit: self.jpeg_scan_limit,
            cancel_check_interval: self.cancel_check_interval,
            trailing_padding_tolerance: self.trailing_padding_tolerance,
            jfif_exif_scan_window: self.jfif_exif_scan_window,
        }
    }
}

/// The default limits.
pub open spec fn default_limits() -> ConfigSpec {
    ConfigSpec {
        max_raw_file_size: 8388608,
        jpeg_scan_limit: 4194304,
        cancel_check_interval: 65536,
        trailing_padding_tolerance: 256,
        jfif_exif_scan_window: 512,
    }
}

impl Default for DecodeConfig {
    fn default() -> (r: Self)
        ensures
            r@ == default_limits(),
    {
        DecodeConfig {
            max_raw_file_size: 8 * 1024 * 1024,
            jpeg_scan_limit: 4 * 1024 * 1024,
            cancel_check_interval: 64 * 1024,
            trailing_padding_tolerance: 256,
            jfif_exif_scan_window: 512,
        }
    }
}

impl DecodeConfig {
    /// Maximum input file size in bytes.
    pub fn max_raw_file_size(&self) -> (r: usize)
        ensures
            r == self@.max_raw_file_size,
    {
        self.max_raw_file_size
    }

    /// Maximum number of bytes to scan for embedded JPEG markers.
    pub fn jpeg_scan_limit(&self) -> (r: usize)
        ensures
            r == self@.jpeg_scan_limit,
    {
        self.jpeg_scan_limit
    }

    /// Byte interval between cancellation checks during scanning.
    pub fn cancel_check_interval(&self) -> (r: usize)
        ensures
            r == self@.cancel_check_interval,
    {
        self.cancel_check_interval
    }

    /// Trailing padding tolerance in bytes (deficit allowed before an error).
    pub fn trailing_padding_tolerance(&self) -> (r: usize)
        ensures
            r == self@.trailing_padding_tolerance,
    {
        self.trailing_padding_tolerance
    }

    /// Maximum bytes after a JPEG SOI to search for a JFIF or Exif marker.
    pub fn jfif_exif_scan_window(&self) -> (r: usize)
        ensures
            r == self@.jfif_exif_scan_window,
    {
        self.jfif_exif_scan_window
    }

    /// Sets the maximum raw file size.
    pub fn with_max_raw_file_size(self, val: usize) -> (r: Self)
        ensures
            r@ == (ConfigSpec { max_raw_file_size: val, ..self@ }),
    {
        DecodeConfig { max_raw_file_size: val, ..self }
    }

    /// Sets the JPEG scan limit.
    pub fn with_jpeg_scan_limit(self, val: usize) -> (r: Self)
        ensures
            r@ == (ConfigSpec { jpeg_scan_limit: val, ..self@ }),
    {
        DecodeConfig { jpeg_scan_limit: val, ..self }
    }

    /// Sets the cancellation-check interval.
    pub fn with_cancel_check_interval(self, val: usize) -> (r: Self)
        ensures
            r@ == (ConfigSpec { cancel_check_interval: val, ..self@ }),
    {
        DecodeConfig { cancel_check_interval: val, ..self }
    }

    /// Sets the trailing padding tolerance.
    pub fn with_trailing_padding_tolerance(self, val: usize) -> (r: Self)
        ensures
            r@ == (ConfigSpec { trailing_padding_tolerance: val, ..self@ }),
    {
        DecodeConfig { trailing_padding_tolerance: val, ..self }
    }

    /// Sets the JFIF/Exif scan window.
    pub fn with_jfif_exif_scan_window(self, val: usize) -> (r: Self)
        ensures
            r@ == (ConfigSpec { jfif_exif_scan_window: val, ..self@ }),
    {
        DecodeConfig { jfif_exif_scan_window: val, ..self }
    }
}

/// The summary text of a configuration:
/// `"DecodeConfig { max_raw_file_size: …, …, jfif_exif_scan_window: … }"`.
pub open spec fn config_text(c: ConfigSpec) -> Seq<char> {
    "DecodeConfig { max_raw_file_size: "@ + decimal(c.max_raw_file_size as nat) + ", jpeg_scan_limit: "@
        + decimal(c.jpeg_scan_limit as nat) + ", cancel_check_interval: "@ + decimal(
        c.cancel_check_interval as nat,
    ) + ", trailing_padding_tolerance: "@ + decimal(c.trailing_padding_tolerance as nat)
        + ", jfif_exif_scan_window: "@ + decimal(c.jfif_exif_scan_window as nat) + " }"@
}

impl DecodeConfig {
    /// The configuration as text, field by field.
    pub fn display_string(&self) -> (r: String)
        ensures
            r@ == config_text(self@),
    {
        let mut s = String::new();
        push_str(&mut s, "DecodeConfig { max_raw_file_size: ");
        push_decimal(&mut s, self.max_raw_file_size as u64);
        push_str(&mut s, ", jpeg_scan_limit: ");
        push_decimal(&mut s, self.jpeg_scan_limit as u64);
        push_str(&mut s, ", cancel_check_interval: ");
        push_decimal(&mut s, self.cancel_check_interval as u64);
        push_str(&mut s, ", trailing_padding_tolerance: ");
        push_decimal(&mut s, self.trailing_padding_tolerance as u64);
        push_str(&mut s, ", jfif_exif_scan_window: ");
        push_decimal(&mut s, self.jfif_exif_scan_window as u64);
        push_str(&mut s, " }");
        s
    }
}

/// The configuration the entry points without a config parameter use.
pub fn default_config() -> (r: DecodeConfig)
    ensures
        r@ == default_limits(),
{
    DecodeConfig::default()
}

/// Crop rectangle for runtime overrides; a width or height of 0 means
/// "the remaining span from the offset".
#[derive(Clone, Copy, Debug, Default, PartialEq, Eq, Structural)]
pub struct Crop {
    /// Left offset in pixels.
    pub x: i32,
    /// Top offset in pixels.
    pub y: i32,
    /// Crop width in pixels (0 = remaining span).
    pub width: i32,
    /// Crop height in pixels (0 = remaining span).
    pub height: i32,
}

/// Runtime overrides for post-processing; `None` means "use the profile's value".
#[derive(Clone, Debug, PartialEq, Eq)]
pub struct TransformConfig {
    rotation: Option<i32>,
    crop: Option<Crop>,
    swap_rgb_channels: Option<bool>,
    swap_chroma_planes: Option<bool>,
    clcl_chroma: Option<bool>,
    cl_chroma: Option<bool>,
}

/// The overrides a `TransformConfig` holds.
pub struct TransformSpec {
    pub rotation: Option<i32>,
    pub crop: Option<Crop>,
    pub swap_rgb_channels: Option<bool>,
    pub swap_chroma_planes: Option<bool>,
    pub clcl_chroma: Option<bool>,
    pub cl_chroma: Option<bool>,
}

impl View for TransformConfig {
    type V = TransformSpec;

    closed spec fn view(&self) -> TransformSpec {
        TransformSpec {
            rotation: self.rotation,
            crop: self.crop,
            swap_rgb_channels: self.swap_rgb_channels,
            swap_chroma_planes: self.swap_chroma_planes,
            clcl_chroma: self.clcl_chroma,
            cl_chroma: self.cl_chroma,
        }
    }
}

/// The transform that overrides nothing.
pub open spec fn identity_transform() -> TransformSpec {
    TransformSpec {
        rotation: None,
        crop: None,
        swap_rgb_channels: None,
        swap_chroma_planes: None,
        clcl_chroma: None,
        cl_chroma: None,
    }
}

impl Default for TransformConfig {
    fn default() -> (r: Self)
        ensures
            r@ == identity_transform(),
    {
        TransformConfig {
            rotation: None,
            crop: None,
            swap_rgb_channels: None,
            swap_chroma_planes: None,
            clcl_chroma: None,
            cl_chroma: None,
        }
    }
}

impl TransformConfig {
    /// Rotation override (clockwise degrees).
    pub fn rotation(&self) -> (r: Option<i32>)
        ensures
            r == self@.rotation,
    {
        self.rotation
    }

    /// Crop rectangle override.
    pub fn crop(&self) -> (r: Option<Crop>)
        ensures
            r == self@.crop,
    {
        self.crop
    }

    /// RGB channel-swap override.
    pub fn swap_rgb_channels(&self) -> (r: Option<bool>)
        ensures
            r == self@.swap_rgb_channels,
    {
        self.swap_rgb_channels
    }

    /// Chroma-plane-swap override.
    pub fn swap_chroma_planes(&self) -> (r: Option<bool>)
        ensures
            r == self@.swap_chroma_planes,
    {
        self.swap_chroma_planes
    }

    /// CLCL chroma override.
    pub fn clcl_chroma(&self) -> (r: Option<bool>)
        ensures
            r == self@.clcl_chroma,
    {
        self.clcl_chroma
    }

    /// CL chroma override.
    pub fn cl_chroma(&self) -> (r: Option<bool>)
        ensures
            r == self@.cl_chroma,
    {
        self.cl_chroma
    }

    /// Sets the rotation override.
    pub fn with_rotation(self, val: i32) -> (r: Self)
        ensures
            r@ == (TransformSpec { rotation: Some(val), ..self@ }),
    {
        TransformConfig { rotation: Some(val), ..self }
    }

    /// Sets the crop override.
    pub fn with_crop(self, val: Crop) -> (r: Self)
        ensures
            r@ == (TransformSpec { crop: Some(val), ..self@ }),
    {
        TransformConfig { crop: Some(val), ..self }
    }

    /// Sets the RGB channel-swap override.
    pub fn with_swap_rgb_channels(self, val: bool) -> (r: Self)
        ensures
            r@ == (TransformSpec { swap_rgb_channels: Some(val), ..self@ }),
    {
        TransformConfig { swap_rgb_channels: Some(val), ..self }
    }

    /// Sets the chroma-plane-swap override.
    pub fn with_swap_chroma_planes(self, val: bool) -> (r: Self)
        ensures
            r@ == (TransformSpec { swap_chroma_planes: Some(val), ..self@ }),
    {
        TransformConfig { swap_chroma_planes: Some(val), ..self }
    }

    /// Sets the CLCL chroma override.
    pub fn with_clcl_chroma(self, val: bool) -> (r: Self)
        ensures
            r@ == (TransformSpec { clcl_chroma: Some(val), ..self@ }),
    {
        TransformConfig { clcl_chroma: Some(val), ..self }
    }

    /// Sets the CL chroma override.
    pub fn with_cl_chroma(self, val: bool) -> (r: Self)
        ensures
            r@ == (TransformSpec { cl_chroma: Some(val), ..self@ }),
    {
        TransformConfig { cl_chroma: Some(val), ..self }
    }
}

} // verus!
