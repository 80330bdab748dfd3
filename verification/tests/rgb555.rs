use ithmb_core::enc::rgb555::encode_rgb555;
use ithmb_core::error::{DecodeError, DecodedImage};
use ithmb_core::profile::{Encoding, Profile};
use ithmb_core::rgb555::decode;
use std::sync::atomic::AtomicBool;

type DecodeFn = fn(&[u8], &Profile, &AtomicBool) -> Result<DecodedImage, DecodeError>;

/// The checks shared by the little-endian RGB555 decoders: error paths,
/// one pixel of each primary, swapped channels, alpha and geometry.
fn run_rgb555_family_suite(decode: DecodeFn, make_profile: impl Fn(i32, i32, bool) -> Profile) {
    let never = AtomicBool::new(false);
    assert!(matches!(
        decode(b"", &make_profile(0, 100, false), &never),
        Err(DecodeError::InvalidFormat(_))
    ));
    assert!(matches!(
        decode(b"", &make_profile(-1, 100, false), &never),
        Err(DecodeError::InvalidFormat(_))
    ));
    assert!(matches!(
        decode(&[0u8; 10], &make_profile(14, 10, false), &never),
        Err(DecodeError::BufferTooShort { expected: 280, actual: 10 })
    ));
    let one = make_profile(1, 1, false);
    assert_eq!(decode(&[0xFF, 0x7F], &one, &never).unwrap().data, vec![0xFF, 0xFF, 0xFF, 255]);
    assert_eq!(decode(&[0x00, 0x00], &one, &never).unwrap().data, vec![0, 0, 0, 255]);
    assert_eq!(decode(&[0x00, 0x7C], &one, &never).unwrap().data, vec![0, 0, 0xFF, 255]);
    assert_eq!(decode(&[0x1F, 0x00], &one, &never).unwrap().data, vec![0xFF, 0, 0, 255]);
    assert_eq!(decode(&[0xE0, 0x03], &one, &never).unwrap().data, vec![0, 0xFF, 0, 255]);
    let swapped = make_profile(1, 1, true);
    assert_eq!(decode(&[0x00, 0x7C], &swapped, &never).unwrap().data, vec![0xFF, 0, 0, 255]);
    assert_eq!(decode(&[0x1F, 0x00], &swapped, &never).unwrap().data, vec![0, 0, 0xFF, 255]);
    let img = decode(&[0u8; 8], &make_profile(2, 2, false), &never).unwrap();
    assert_eq!((img.width, img.height, img.data.len()), (2, 2, 16));
    for i in 0..4 {
        assert_eq!(img.data[i * 4 + 3], 255);
    }
}

fn make_profile(w: i32, h: i32, le: bool, swap: bool) -> Profile {
    Profile {
        prefix: 0,
        width: w,
        height: h,
        encoding: Encoding::Rgb555,
        frame_byte_length: w * h * 2,
        little_endian: le,
        swap_rgb_channels: swap,
        ..Default::default()
    }
}

#[test]
fn decode_big_endian() {
    // Same bits as solid_red but bytes swapped
    // Layout xRRRRRGGGGGBBBBB, R=31 → pixel = 0x7C00
    // Big-endian bytes: [0x7C, 0x00]
    let profile = make_profile(1, 1, false, false);
    let img = decode(&[0x7C, 0x00], &profile, &AtomicBool::new(false)).unwrap();
    assert_eq!(img.data, vec![0, 0, 0xFF, 255]);
}

#[test]
fn multi_pixel_decode() {
    // 2×1 image, 2 white pixels
    let profile = make_profile(2, 1, true, false);
    let img = decode(&[0xFF, 0x7F, 0xFF, 0x7F], &profile, &AtomicBool::new(false)).unwrap();
    assert_eq!(img.data, vec![0xFF, 0xFF, 0xFF, 255, 0xFF, 0xFF, 0xFF, 255]);
}

#[test]
fn rgb555_two_pixel_different_colors() {
    // Pixel 0: red (R=31), Pixel 1: blue (B=31)
    let profile = make_profile(2, 1, true, false);
    let data = [
        0x00, 0x7C, // red: 0x7C00 LE
        0x1F, 0x00, // blue: 0x001F LE
    ];
    let img = decode(&data, &profile, &AtomicBool::new(false)).unwrap();
    assert_eq!(
        img.data,
        vec![
            0, 0, 0xFF, 255, // BGRA: B=0, G=0, R=255
            0xFF, 0, 0, 255, // BGRA: B=255, G=0, R=0
        ]
    );
}

#[test]
fn matches_golden_gradient_first_pixel() {
    // Golden test: gradient_4x4, first pixel 0x0010
    // Layout xRRRRRGGGGGBBBBB: R=0, G=0, B=16
    // BGRA: B=msb5(16)=0x84, G=0, R=0
    let profile = make_profile(4, 4, true, false);
    let img = decode(
        &[
            0x10, 0x00, 0x12, 0x28, 0x15, 0x54, 0x17, 0x7C, //
            0x52, 0x01, 0x55, 0x29, 0x57, 0x55, 0x5A, 0x7D, //
            0xB5, 0x02, 0xB7, 0x2A, 0xBA, 0x56, 0xBD, 0x7E, //
            0xF7, 0x03, 0xFA, 0x2B, 0xFD, 0x57, 0xFF, 0x7F, //
        ],
        &profile,
        &AtomicBool::new(false),
    )
    .unwrap();
    // Assert first pixel BGRA
    assert_eq!(img.data[0], 0x84); // B
    assert_eq!(img.data[1], 0x00); // G
    assert_eq!(img.data[2], 0x00); // R
    assert_eq!(img.data[3], 0xFF); // A
    // Assert last pixel (all max)
    let last = img.data.len() - 4;
    assert_eq!(img.data[last], 0xFF);
    assert_eq!(img.data[last + 1], 0xFF);
    assert_eq!(img.data[last + 2], 0xFF);
    assert_eq!(img.data[last + 3], 0xFF);
}

#[allow(clippy::cast_sign_loss)]
#[test]
fn row_stride_is_data_driven() {
    // 55×55 padded format: rowStride = src.len / h
    let w = 55i32;
    let h = 55i32;
    let padded_data = vec![0u8; 6400]; // larger than 55*55*2 = 6050
    let profile = Profile {
        width: w,
        height: h,
        encoding: Encoding::Rgb555,
        frame_byte_length: 6400,
        little_endian: true,
        ..Default::default()
    };
    let img = decode(&padded_data, &profile, &AtomicBool::new(false)).unwrap();
    assert_eq!(img.data.len(), (w * h * 4) as usize);
}

#[test]
fn shared_decode_suite() {
    // Historic per-decoder unit tests (14 fns) collapsed into one shared
    // suite — byte-for-byte identical assertions, see src/test_support.rs.
    run_rgb555_family_suite(decode, |w, h, swap| make_profile(w, h, true, swap));
}


#[test]
fn rgb555_encoder_round_trips_top_bits() {
    // Each channel keeps its top five bits: 0xFF stays 0xFF, 0x84 (10000100)
    // reads back as msb5(16) = 0x84, 0x07 drops to 0.
    let bgra = [0xFFu8, 0x84, 0x07, 0x10, 0x00, 0xFF, 0x00, 0x20];
    for swap in [false, true] {
        let enc = encode_rgb555(&bgra, 2, 1, false, swap);
        assert_eq!(enc.len(), 4);
        let profile = Profile {
            width: 2,
            height: 1,
            encoding: Encoding::Rgb555,
            frame_byte_length: 4,
            little_endian: true,
            swap_rgb_channels: swap,
            ..Default::default()
        };
        let img = decode(&enc, &profile, &AtomicBool::new(false)).unwrap();
        assert_eq!(img.data, vec![0xFF, 0x84, 0x00, 255, 0x00, 0xFF, 0x00, 255]);
    }
}

#[test]
fn rgb555_encoder_byte_orders() {
    let red = [0u8, 0, 0xFF, 0xFF];
    assert_eq!(encode_rgb555(&red, 1, 1, false, false), vec![0x00, 0x7C]);
    assert_eq!(encode_rgb555(&red, 1, 1, true, false), vec![0x7C, 0x00]);
    assert_eq!(encode_rgb555(&red, 1, 1, true, true), vec![0x00, 0x1F]);
}
