use ithmb_core::config::{DecodeConfig, TransformConfig};
use ithmb_core::error::{DecodeError, DecodedImage};
use ithmb_core::pipeline::{decode_ithmb, decode_with_profile};
use ithmb_core::post_process::{
    apply_crop, apply_post_process, apply_post_process_with_transform, apply_rotation, apply_rotation_with,
};
use ithmb_core::profile::{Encoding, Profile};
use std::sync::atomic::AtomicBool;

// -----------------------------------------------------------------------
// Helper: build a small test profile for any raw encoding
// -----------------------------------------------------------------------

fn small_profile(w: i32, h: i32, encoding: Encoding) -> Profile {
    let bpp = match encoding {
        Encoding::Rgb565 | Encoding::Rgb555 | Encoding::ReorderedRgb555 | Encoding::Yuv422 | Encoding::Ycbcr420 => {
            2
        }
        Encoding::Jpeg => 0,
    };
    Profile {
        prefix: 9999,
        width: w,
        height: h,
        encoding,
        frame_byte_length: w * h * bpp,
        ..Default::default()
    }
}

// ---- decode_ithmb errors ----

#[test]
fn test_empty_input_returns_buffer_too_short() {
    let result = decode_ithmb(&[], &AtomicBool::new(false));
    assert!(matches!(
        result,
        Err(DecodeError::BufferTooShort { expected: 4, actual: 0 })
    ));
}

#[test]
fn test_short_input_returns_buffer_too_short() {
    let result = decode_ithmb(&[0x00, 0x00, 0x00], &AtomicBool::new(false));
    assert!(matches!(
        result,
        Err(DecodeError::BufferTooShort { expected: 4, actual: 3 })
    ));
}

#[test]
fn test_unknown_prefix_returns_unsupported() {
    let buf = [0x00, 0x00, 0x27, 0x0F]; // 9999 in big-endian
    let result = decode_ithmb(&buf, &AtomicBool::new(false));
    assert!(matches!(
        result,
        Err(DecodeError::Unsupported(ref msg)) if msg.contains("9999")
    ));
}

#[test]
fn test_jpeg_fallback_profile_is_used() {
    let buf = [0xFF, 0xD8, 0x00, 0x00, 0x00];
    let result = decode_ithmb(&buf, &AtomicBool::new(false));
    assert!(result.is_err());
    assert!(
        !matches!(result, Err(DecodeError::Unsupported(_))),
        "JPEG SOI input must not return Unsupported"
    );
}

// ---- decode_with_profile dispatch ----

#[test]
fn test_rgb565_dispatch() {
    let profile = small_profile(2, 1, Encoding::Rgb565);
    let mut buf = Vec::new();
    buf.extend_from_slice(&9999i32.to_be_bytes());
    buf.extend_from_slice(&[0xFF, 0xFF, 0xFF, 0xFF]);

    let img = decode_with_profile(&buf, &profile, &AtomicBool::new(false)).unwrap();
    assert_eq!(img.width, 2);
    assert_eq!(img.height, 1);
    assert_eq!(img.data, vec![0xFF, 0xFF, 0xFF, 255, 0xFF, 0xFF, 0xFF, 255]);
}

#[test]
fn test_rgb555_dispatch() {
    let profile = small_profile(1, 1, Encoding::Rgb555);
    let mut buf = Vec::new();
    buf.extend_from_slice(&9999i32.to_be_bytes());
    buf.extend_from_slice(&[0xFF, 0x7F]);

    let img = decode_with_profile(&buf, &profile, &AtomicBool::new(false)).unwrap();
    assert_eq!(img.width, 1);
    assert_eq!(img.height, 1);
    assert_eq!(img.data, vec![0xFF, 0xFF, 0xFF, 255]);
}

#[test]
fn test_reordered_rgb555_dispatch() {
    let profile = small_profile(1, 1, Encoding::ReorderedRgb555);
    let mut buf = Vec::new();
    buf.extend_from_slice(&9999i32.to_be_bytes());
    buf.extend_from_slice(&[0xFF, 0x7F]);

    let img = decode_with_profile(&buf, &profile, &AtomicBool::new(false)).unwrap();
    assert_eq!(img.width, 1);
    assert_eq!(img.height, 1);
    assert_eq!(img.data, vec![0xFF, 0xFF, 0xFF, 255]);
}

#[test]
fn test_uyvy_dispatch() {
    let profile = small_profile(2, 1, Encoding::Yuv422);
    let mut buf = Vec::new();
    buf.extend_from_slice(&9999i32.to_be_bytes());
    buf.extend_from_slice(&[128, 128, 128, 128]);

    let img = decode_with_profile(&buf, &profile, &AtomicBool::new(false)).unwrap();
    assert_eq!(img.width, 2);
    assert_eq!(img.height, 1);
    assert_eq!(img.data, vec![128, 128, 128, 255, 128, 128, 128, 255]);
}

#[test]
fn test_clcl_dispatch() {
    let profile = Profile {
        prefix: 9999,
        width: 2,
        height: 1,
        encoding: Encoding::Yuv422,
        frame_byte_length: 4,
        clcl_chroma: true,
        ..Default::default()
    };
    let mut buf = Vec::new();
    buf.extend_from_slice(&9999i32.to_be_bytes());
    buf.extend_from_slice(&[128, 128, 0x88, 0x88]);

    let img = decode_with_profile(&buf, &profile, &AtomicBool::new(false)).unwrap();
    assert_eq!(img.width, 2);
    assert_eq!(img.height, 1);
    assert_eq!(img.data, vec![128, 128, 128, 255, 128, 128, 128, 255]);
}

#[test]
fn test_cl_dispatch() {
    let profile = Profile {
        prefix: 9999,
        width: 2,
        height: 1,
        encoding: Encoding::Yuv422,
        frame_byte_length: 4,
        cl_chroma: true,
        ..Default::default()
    };
    let mut buf = Vec::new();
    buf.extend_from_slice(&9999i32.to_be_bytes());
    buf.extend_from_slice(&[128, 128, 0x88, 0x88]);

    let img = decode_with_profile(&buf, &profile, &AtomicBool::new(false)).unwrap();
    assert_eq!(img.width, 2);
    assert_eq!(img.height, 1);
    assert_eq!(img.data, vec![128, 128, 128, 255, 128, 128, 128, 255]);
}

#[test]
fn test_ycbcr420_dispatch() {
    let profile = Profile {
        prefix: 9999,
        width: 2,
        height: 2,
        encoding: Encoding::Ycbcr420,
        frame_byte_length: 6,
        ..Default::default()
    };
    let mut buf = Vec::new();
    buf.extend_from_slice(&9999i32.to_be_bytes());
    buf.extend_from_slice(&[128u8; 6]);

    let img = decode_with_profile(&buf, &profile, &AtomicBool::new(false)).unwrap();
    assert_eq!(img.width, 2);
    assert_eq!(img.height, 2);
    for chunk in img.data.chunks_exact(4) {
        assert_eq!(chunk, &[128, 128, 128, 255]);
    }
}

#[test]
fn test_jpeg_dispatch_with_decode_with_profile() {
    let profile = Profile {
        prefix: -1,
        width: 0,
        height: 0,
        encoding: Encoding::Jpeg,
        use_mhni_dimensions: true,
        ..Default::default()
    };
    let buf = [0xFF, 0xD8, 0x00, 0x00];
    let result = decode_with_profile(&buf, &profile, &AtomicBool::new(false));
    assert!(result.is_err());
    assert!(matches!(result, Err(DecodeError::Jpeg(_))));
}

// ---- decode_with_profile - buffer too short ----

#[test]
fn test_decode_with_profile_too_short_for_prefix() {
    let profile = small_profile(1, 1, Encoding::Rgb565);
    let result = decode_with_profile(&[0x00, 0x00], &profile, &AtomicBool::new(false));
    assert!(matches!(
        result,
        Err(DecodeError::BufferTooShort { expected: 4, actual: 2 })
    ));
}

// ---- swaps_dimensions ----

#[test]
fn test_swaps_dimensions_metadata_only() {
    let profile = Profile {
        prefix: 9999,
        width: 2,
        height: 3,
        encoding: Encoding::Rgb565,
        frame_byte_length: 12,
        swaps_dimensions: true,
        ..Default::default()
    };
    let mut buf = vec![0u8; 4 + 6 * 2];
    buf[0..4].copy_from_slice(&9999i32.to_be_bytes());
    buf[4..].fill(0xFF);

    let img = decode_with_profile(&buf, &profile, &AtomicBool::new(false)).unwrap();
    assert_eq!(img.width, 3);
    assert_eq!(img.height, 2);
    assert_eq!(img.data.len(), 6 * 4);
}

// ---- Crop ----

#[test]
fn test_crop_2x2_to_1x1() {
    let profile = Profile {
        prefix: 9999,
        width: 2,
        height: 2,
        encoding: Encoding::Rgb565,
        frame_byte_length: 8,
        crop_x: 0,
        crop_y: 0,
        crop_width: 1,
        crop_height: 1,
        ..Default::default()
    };
    let mut buf = Vec::new();
    buf.extend_from_slice(&9999i32.to_be_bytes());
    buf.extend_from_slice(&[0x00, 0xF8, 0xE0, 0x07, 0x1F, 0x00, 0xFF, 0xFF]);

    let img = decode_with_profile(&buf, &profile, &AtomicBool::new(false)).unwrap();
    assert_eq!(img.width, 1);
    assert_eq!(img.height, 1);
    assert_eq!(img.data, vec![0, 0, 0xFF, 255]);
}

#[test]
fn test_crop_with_offset() {
    let profile = Profile {
        prefix: 9999,
        width: 2,
        height: 2,
        encoding: Encoding::Rgb565,
        frame_byte_length: 8,
        crop_x: 1,
        crop_y: 0,
        crop_width: 1,
        crop_height: 1,
        ..Default::default()
    };
    let mut buf = Vec::new();
    buf.extend_from_slice(&9999i32.to_be_bytes());
    buf.extend_from_slice(&[0x00, 0xF8, 0xE0, 0x07, 0x1F, 0x00, 0xFF, 0xFF]);

    let img = decode_with_profile(&buf, &profile, &AtomicBool::new(false)).unwrap();
    assert_eq!(img.width, 1);
    assert_eq!(img.height, 1);
    assert_eq!(img.data, vec![0, 0xFF, 0, 255]);
}

#[test]
fn test_crop_full_dimensions_when_zero() {
    let profile = Profile {
        prefix: 9999,
        width: 3,
        height: 2,
        encoding: Encoding::Rgb565,
        frame_byte_length: 12,
        crop_x: 1,
        crop_y: 0,
        crop_width: 0,
        crop_height: 0,
        ..Default::default()
    };
    let mut buf = vec![0u8; 4 + 6 * 2];
    buf[0..4].copy_from_slice(&9999i32.to_be_bytes());
    buf[4..].fill(0xFF);

    let img = decode_with_profile(&buf, &profile, &AtomicBool::new(false)).unwrap();
    assert_eq!(img.width, 2);
    assert_eq!(img.height, 2);
    assert_eq!(img.data.len(), 2 * 2 * 4);
}

#[test]
fn test_no_crop_when_all_zero() {
    let profile = Profile {
        prefix: 9999,
        width: 2,
        height: 2,
        encoding: Encoding::Rgb565,
        frame_byte_length: 8,
        crop_x: 0,
        crop_y: 0,
        crop_width: 0,
        crop_height: 0,
        ..Default::default()
    };
    let mut buf = vec![0u8; 4 + 4 * 2];
    buf[0..4].copy_from_slice(&9999i32.to_be_bytes());
    buf[4..].fill(0xFF);

    let img = decode_with_profile(&buf, &profile, &AtomicBool::new(false)).unwrap();
    assert_eq!(img.width, 2);
    assert_eq!(img.height, 2);
    assert_eq!(img.data.len(), 2 * 2 * 4);
}

// ---- Rotation ----

#[test]
fn test_rotation_90_cw_on_2x3() {
    let profile = Profile {
        prefix: 9999,
        width: 2,
        height: 3,
        encoding: Encoding::Rgb565,
        frame_byte_length: 12,
        rotation: 90,
        ..Default::default()
    };
    let mut buf = Vec::new();
    buf.extend_from_slice(&9999i32.to_be_bytes());
    buf.extend_from_slice(&[
        0x00, 0xF8, 0xE0, 0x07, // row 0
        0x1F, 0x00, 0xE0, 0xFF, // row 1
        0xFF, 0x07, 0x1F, 0xF8, // row 2
    ]);

    let img = decode_with_profile(&buf, &profile, &AtomicBool::new(false)).unwrap();
    assert_eq!(img.width, 3);
    assert_eq!(img.height, 2);
    assert_eq!(img.data.len(), 3 * 2 * 4);

    assert_eq!(&img.data[0..4], &[255, 255, 0, 255]);
    assert_eq!(&img.data[8..12], &[0, 0, 255, 255]);
    assert_eq!(&img.data[12..16], &[255, 0, 255, 255]);
    assert_eq!(&img.data[20..24], &[0, 255, 0, 255]);
}

#[test]
fn test_rotation_180_on_2x2() {
    let profile = Profile {
        prefix: 9999,
        width: 2,
        height: 2,
        encoding: Encoding::Rgb565,
        frame_byte_length: 8,
        rotation: 180,
        ..Default::default()
    };
    let mut buf = Vec::new();
    buf.extend_from_slice(&9999i32.to_be_bytes());
    buf.extend_from_slice(&[0x00, 0xF8, 0xE0, 0x07, 0x1F, 0x00, 0xFF, 0xFF]);

    let img = decode_with_profile(&buf, &profile, &AtomicBool::new(false)).unwrap();
    assert_eq!(img.width, 2);
    assert_eq!(img.height, 2);

    assert_eq!(&img.data[0..4], &[255, 255, 255, 255]);
    assert_eq!(&img.data[4..8], &[255, 0, 0, 255]);
    assert_eq!(&img.data[8..12], &[0, 255, 0, 255]);
    assert_eq!(&img.data[12..16], &[0, 0, 255, 255]);
}

#[test]
fn test_rotation_270_cw_on_2x3() {
    let profile = Profile {
        prefix: 9999,
        width: 2,
        height: 3,
        encoding: Encoding::Rgb565,
        frame_byte_length: 12,
        rotation: 270,
        ..Default::default()
    };
    let mut buf = Vec::new();
    buf.extend_from_slice(&9999i32.to_be_bytes());
    buf.extend_from_slice(&[0x00, 0xF8, 0xE0, 0x07, 0x1F, 0x00, 0xE0, 0xFF, 0xFF, 0x07, 0x1F, 0xF8]);

    let img = decode_with_profile(&buf, &profile, &AtomicBool::new(false)).unwrap();
    assert_eq!(img.width, 3);
    assert_eq!(img.height, 2);

    assert_eq!(&img.data[0..4], &[0, 255, 0, 255]);
    assert_eq!(&img.data[8..12], &[255, 0, 255, 255]);
    assert_eq!(&img.data[12..16], &[0, 0, 255, 255]);
    assert_eq!(&img.data[20..24], &[255, 255, 0, 255]);
}

#[test]
fn test_rotation_noop_for_unknown_angle() {
    let profile = Profile {
        prefix: 9999,
        width: 2,
        height: 1,
        encoding: Encoding::Rgb565,
        frame_byte_length: 4,
        rotation: 45,
        ..Default::default()
    };
    let mut buf = Vec::new();
    buf.extend_from_slice(&9999i32.to_be_bytes());
    buf.extend_from_slice(&[0xFF, 0xFF, 0xFF, 0xFF]);

    let img = decode_with_profile(&buf, &profile, &AtomicBool::new(false)).unwrap();
    assert_eq!(img.width, 2);
    assert_eq!(img.height, 1);
    assert_eq!(img.data, vec![0xFF, 0xFF, 0xFF, 255, 0xFF, 0xFF, 0xFF, 255]);
}

// ---- Crop + rotation ordering ----

#[test]
fn test_crop_then_rotation() {
    let profile = Profile {
        prefix: 9999,
        width: 2,
        height: 2,
        encoding: Encoding::Rgb565,
        frame_byte_length: 8,
        crop_x: 0,
        crop_y: 0,
        crop_width: 1,
        crop_height: 2,
        rotation: 90,
        ..Default::default()
    };
    let mut buf = Vec::new();
    buf.extend_from_slice(&9999i32.to_be_bytes());
    buf.extend_from_slice(&[0x00, 0xF8, 0xE0, 0x07, 0x1F, 0x00, 0xFF, 0xFF]);

    let img = decode_with_profile(&buf, &profile, &AtomicBool::new(false)).unwrap();
    assert_eq!(img.width, 2);
    assert_eq!(img.height, 1);
    assert_eq!(&img.data[0..4], &[255, 0, 0, 255]);
    assert_eq!(&img.data[4..8], &[0, 0, 255, 255]);
}

// ---- decode_ithmb with known profile 1007 ----

#[test]
fn test_decode_ithmb_prefix_1007_dispatch() {
    let w = 480usize;
    let h = 864usize;
    let mut buf = vec![0u8; 4 + w * h * 2];
    buf[0..4].copy_from_slice(&1007i32.to_be_bytes());
    buf[4..].fill(0xFF);

    let img = decode_ithmb(&buf, &AtomicBool::new(false)).unwrap();
    assert_eq!(img.width, 480);
    assert_eq!(img.height, 864);
    assert_eq!(img.data.len(), w * h * 4);
    for chunk in img.data.chunks_exact(4) {
        assert_eq!(chunk, &[255, 255, 255, 255]);
    }
}

// ---- Post-processing edge cases ----

#[test]
fn test_crop_outside_bounds_clamps() {
    let profile = Profile {
        prefix: 9999,
        width: 2,
        height: 2,
        encoding: Encoding::Rgb565,
        frame_byte_length: 8,
        crop_x: 10,
        crop_y: 10,
        crop_width: 5,
        crop_height: 5,
        ..Default::default()
    };
    let mut buf = vec![0u8; 4 + 4 * 2];
    buf[0..4].copy_from_slice(&9999i32.to_be_bytes());
    buf[4..].fill(0xFF);

    let img = decode_with_profile(&buf, &profile, &AtomicBool::new(false)).unwrap();
    assert_eq!(img.width, 2);
    assert_eq!(img.height, 2);
    assert_eq!(img.data.len(), 4 * 4);
}

#[test]
fn test_apply_crop_noop_when_not_needed() {
    let profile = Profile::default();
    let img = DecodedImage {
        data: vec![128u8; 16],
        width: 2,
        height: 2,
    };
    let result = apply_crop(img.clone(), &profile);
    assert_eq!(result.data, img.data);
    assert_eq!(result.width, img.width);
    assert_eq!(result.height, img.height);
}

#[test]
fn test_apply_rotation_noop_when_zero() {
    let profile = Profile::default();
    let img = DecodedImage {
        data: vec![128u8; 16],
        width: 2,
        height: 2,
    };
    let result = apply_rotation(img.clone(), &profile);
    assert_eq!(result.data, img.data);
    assert_eq!(result.width, img.width);
    assert_eq!(result.height, img.height);
}

#[test]
fn test_rotation_90_cw_identity() {
    let original = DecodedImage {
        data: (0..16).collect(),
        width: 2,
        height: 2,
    };
    let rotated = apply_rotation_with(apply_rotation_with(original.clone(), 90), 270);
    assert_eq!(rotated.width, original.width);
    assert_eq!(rotated.height, original.height);
    assert_eq!(rotated.data, original.data);
}

#[test]
fn test_rotation_180_twice_is_identity() {
    let original = DecodedImage {
        data: (0..24).collect(),
        width: 2,
        height: 3,
    };
    let rotated = apply_rotation_with(apply_rotation_with(original.clone(), 180), 180);
    assert_eq!(rotated.data, original.data);
    assert_eq!(rotated.width, original.width);
    assert_eq!(rotated.height, original.height);
}

// ---- Decoder dispatch via decode_ithmb with known prefix ----

#[test]
fn test_decode_ithmb_prefix_1019_interlaced_uyvy() {
    let w = 720usize;
    let h = 480usize;
    let mut buf = vec![0u8; 4 + w * h * 2];
    buf[0..4].copy_from_slice(&1019i32.to_be_bytes());
    buf[4..].fill(128);

    let img = decode_ithmb(&buf, &AtomicBool::new(false)).unwrap();
    assert_eq!(img.width, 720);
    assert_eq!(img.height, 480);
    assert_eq!(img.data.len(), w * h * 4);
}

#[allow(clippy::cast_possible_truncation)]
#[test]
fn test_decode_ithmb_prefix_2002_big_endian_rgb565() {
    let w = 50usize;
    let h = 50usize;
    let mut buf = vec![0u8; 4 + w * h * 2];
    buf[0..4].copy_from_slice(&2002i32.to_be_bytes());
    buf[4..].fill(0xFF);

    let img = decode_ithmb(&buf, &AtomicBool::new(false)).unwrap();
    assert_eq!(img.width, w as u32);
    assert_eq!(img.height, h as u32);
}

// ---- Post-processing order: swap → crop → rotation ----

#[test]
fn test_swaps_dimensions_with_crop() {
    let profile = Profile {
        prefix: 9999,
        width: 3,
        height: 2,
        encoding: Encoding::Rgb565,
        frame_byte_length: 12,
        swaps_dimensions: true,
        crop_x: 0,
        crop_y: 1,
        crop_width: 3,
        crop_height: 1,
        ..Default::default()
    };
    let mut buf = vec![0u8; 4 + 6 * 2];
    buf[0..4].copy_from_slice(&9999i32.to_be_bytes());
    buf[4..].fill(0xFF);

    let img = decode_with_profile(&buf, &profile, &AtomicBool::new(false)).unwrap();
    assert_eq!(img.width, 2);
    assert_eq!(img.height, 1);
    assert_eq!(img.data.len(), 2 * 4);
}

#[test]
fn transform_override_rotation_applies_over_profile_zero() {
    let img = DecodedImage {
        data: vec![0u8; 2 * 3 * 4],
        width: 2,
        height: 3,
    };
    let profile = Profile {
        rotation: 0,
        ..Profile::default()
    };
    let transform = TransformConfig::default().with_rotation(90);
    let out = apply_post_process_with_transform(img, &profile, &transform);
    assert_eq!(out.width, 3);
    assert_eq!(out.height, 2);
}

#[test]
fn transform_default_falls_back_to_profile_rotation() {
    let img = DecodedImage {
        data: vec![0u8; 2 * 3 * 4],
        width: 2,
        height: 3,
    };
    let profile = Profile {
        rotation: 90,
        ..Profile::default()
    };
    let transform = TransformConfig::default();
    let out = apply_post_process_with_transform(img, &profile, &transform);
    assert_eq!(out.width, 3);
    assert_eq!(out.height, 2);
}

#[test]
fn transform_identity_matches_apply_post_process() {
    let img = DecodedImage {
        data: vec![7u8; 2 * 3 * 4],
        width: 2,
        height: 3,
    };
    let profile = Profile {
        rotation: 90,
        ..Profile::default()
    };
    let a = apply_post_process(img.clone(), &profile);
    let b = apply_post_process_with_transform(img, &profile, &TransformConfig::default());
    assert_eq!(a, b);
}

#[test]
fn canceled_flag_stops_the_decoder() {
    let profile = small_profile(2, 2, Encoding::Rgb565);
    let mut buf = 9999i32.to_be_bytes().to_vec();
    buf.extend_from_slice(&[0xFF; 8]);
    let result = decode_with_profile(&buf, &profile, &AtomicBool::new(true));
    assert!(matches!(result, Err(DecodeError::Canceled(_))));
}

#[test]
fn short_frame_with_zero_tolerance_is_too_short() {
    let profile = Profile {
        prefix: 9999,
        width: 1,
        height: 1,
        encoding: Encoding::Yuv422,
        frame_byte_length: 2,
        cl_chroma: true,
        ..Default::default()
    };
    let config = DecodeConfig::default().with_trailing_padding_tolerance(0);
    let src = [0x00u8, 0x00, 0x27, 0x0F, 128];
    let r = ithmb_core::pipeline::decode_with_profile_with_config(&src, &profile, &AtomicBool::new(false), &config);
    assert!(matches!(r, Err(DecodeError::BufferTooShort { expected: 2, actual: 1 })));
}

#[test]
fn raw_decoders_report_validation_errors_even_when_canceled() {
    let canceled = AtomicBool::new(true);
    let p = small_profile(14, 10, Encoding::Rgb555);
    let r = ithmb_core::rgb555::decode(&[0u8; 10], &p, &canceled);
    assert!(matches!(r, Err(DecodeError::BufferTooShort { expected: 280, actual: 10 })));
    let bad = small_profile(0, 10, Encoding::Rgb555);
    assert!(matches!(ithmb_core::rgb555::decode(&[0u8; 10], &bad, &canceled), Err(DecodeError::InvalidFormat(_))));
    let ok = small_profile(2, 2, Encoding::Rgb555);
    assert!(matches!(ithmb_core::rgb555::decode(&[0u8; 8], &ok, &canceled), Err(DecodeError::Canceled(_))));
}
