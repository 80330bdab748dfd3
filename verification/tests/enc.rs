use ithmb_core::enc::cl::encode_cl;
use ithmb_core::enc::clcl::encode_clcl;
use ithmb_core::enc::rgb555::encode_rgb555;
use ithmb_core::rgb555::decode as decode_rgb555;
use ithmb_core::enc::rgb565::encode_rgb565;
use ithmb_core::enc::uyvy::encode_uyvy;
use ithmb_core::enc::ycbcr420::encode_ycbcr420;
use ithmb_core::profile::{Encoding, Profile};
use ithmb_core::rgb565::decode as decode_rgb565;
use std::sync::atomic::AtomicBool;

const GRAY: [u8; 4] = [128, 128, 128, 255];
const RED: [u8; 4] = [0, 0, 255, 255];

fn repeat(px: [u8; 4], n: usize) -> Vec<u8> {
    px.iter().copied().cycle().take(4 * n).collect()
}

#[test]
fn rgb565_encoder_packs_channels_in_both_byte_orders() {
    assert_eq!(encode_rgb565(&[255, 255, 255, 255], 1, 1, false), vec![0xFF, 0xFF]);
    assert_eq!(encode_rgb565(&RED, 1, 1, false), vec![0x00, 0xF8]);
    assert_eq!(encode_rgb565(&RED, 1, 1, true), vec![0xF8, 0x00]);
    assert_eq!(encode_rgb565(&[0, 255, 0, 0], 1, 1, true), vec![0x07, 0xE0]);
}

#[test]
fn rgb565_encoder_round_trips_through_decoder() {
    // Channels keep their top bits: 0x84 (blue, 5 bits) and 0x86 (green, 6
    // bits) come back as 0x84 and 0x86.
    let bgra = [0x84u8, 0x86, 0xFF, 0x00, 0x00, 0x00, 0x00, 0x00];
    let enc = encode_rgb565(&bgra, 2, 1, false);
    let profile = Profile {
        width: 2,
        height: 1,
        encoding: Encoding::Rgb565,
        frame_byte_length: 4,
        little_endian: true,
        ..Default::default()
    };
    let img = decode_rgb565(&enc, &profile, &AtomicBool::new(false)).unwrap();
    assert_eq!(img.data, vec![0x84, 0x86, 0xFF, 255, 0, 0, 0, 255]);
}

#[test]
fn rgb565_encoder_empty_image() {
    assert!(encode_rgb565(&[], 0, 5, false).is_empty());
}

#[test]
fn uyvy_encoder_averages_chroma_over_pairs() {
    let mut bgra = repeat(GRAY, 1);
    bgra.extend_from_slice(&RED);
    // Gray: Y=128, Cb=Cr=128. Red: Y=76, Cb=85, Cr=255.
    assert_eq!(encode_uyvy(&bgra, 2, 1), vec![106, 128, 191, 76]);
}

#[test]
fn uyvy_encoder_odd_width_pads_trailing_pixel() {
    assert_eq!(encode_uyvy(&repeat(GRAY, 3), 3, 1), vec![128, 128, 128, 128, 128, 128, 128, 0]);
    let out = encode_uyvy(&repeat(GRAY, 6), 3, 2);
    assert_eq!(out.len(), 16);
    assert_eq!(&out[..12], &[128u8; 12][..]);
    assert_eq!(&out[12..], &[0u8; 4][..]);
}

#[test]
fn clcl_encoder_packs_nibble_planes() {
    assert_eq!(encode_clcl(&repeat(GRAY, 3), 3, 1), vec![128, 128, 128, 0x88, 0x08, 0x88, 0x08]);
    // Red: Cb=85 (nibble 5), Cr=255 (nibble 15).
    assert_eq!(encode_clcl(&repeat(RED, 2), 2, 1), vec![76, 76, 0x55, 0xFF]);
}

#[test]
fn ycbcr420_encoder_plane_order_and_swap() {
    assert_eq!(encode_ycbcr420(&RED, 1, 1, false), vec![76, 85, 255]);
    assert_eq!(encode_ycbcr420(&RED, 1, 1, true), vec![76, 255, 85]);
    assert_eq!(encode_ycbcr420(&repeat(GRAY, 4), 2, 2, false), vec![128; 6]);
}

#[test]
fn ycbcr420_encoder_averages_partial_blocks() {
    // 3x1: block 0 holds a gray and a red pixel, block 1 a single gray one.
    let mut bgra = repeat(GRAY, 1);
    bgra.extend_from_slice(&RED);
    bgra.extend_from_slice(&GRAY);
    let out = encode_ycbcr420(&bgra, 3, 1, false);
    assert_eq!(out, vec![128, 76, 128, 106, 128, 191, 128]);
}

#[test]
fn uyvy_luma_bytes_are_the_cl_luma_plane() {
    let bgra: Vec<u8> = vec![10, 200, 30, 255, 250, 5, 90, 255, 0, 0, 0, 255, 255, 255, 255, 255];
    let uyvy = encode_uyvy(&bgra, 2, 2);
    let cl = encode_cl(&bgra, 2, 2);
    assert_eq!(uyvy.len(), 8);
    for i in 0..4 {
        assert_eq!(uyvy[2 * i + 1], cl[i]);
    }
}

#[test]
fn clcl_packs_even_pixel_low_odd_pixel_high() {
    let bgra: Vec<u8> = vec![255, 0, 0, 255, 0, 0, 255, 255, 0, 255, 0, 255];
    let out = encode_clcl(&bgra, 3, 1);
    let cl = encode_cl(&bgra, 3, 1);
    assert_eq!(out.len(), 3 + 2 + 2);
    // The CL chroma byte of a pixel is (Cr top nibble << 4) | Cb top nibble.
    let cb = |i: usize| cl[3 + i] & 0x0F;
    let cr = |i: usize| cl[3 + i] >> 4;
    assert_eq!(out[3] & 0x0F, cb(0));
    assert_eq!(out[3] >> 4, cb(1));
    assert_eq!(out[4] & 0x0F, cb(2));
    assert_eq!(out[4] >> 4, 0);
    assert_eq!(out[5] & 0x0F, cr(0));
    assert_eq!(out[5] >> 4, cr(1));
    assert_eq!(out[6] & 0x0F, cr(2));
}

#[test]
fn rgb555_decode_after_encode_keeps_top_five_bits() {
    let bgra: Vec<u8> = vec![0x12, 0x34, 0xF8, 0x80, 0xFF, 0x00, 0x7B, 0x10];
    let enc = encode_rgb555(&bgra, 2, 1, false, false);
    let profile = Profile { prefix: 9999, width: 2, height: 1, encoding: Encoding::Rgb555, frame_byte_length: 4, little_endian: true, ..Default::default() };
    let img = decode_rgb555(&enc, &profile, &AtomicBool::new(false)).unwrap();
    let widen = |v: u8| { let t = v >> 3; (t << 3) | (t >> 2) };
    assert_eq!(img.data, vec![widen(0x12), widen(0x34), widen(0xF8), 255, widen(0xFF), widen(0x00), widen(0x7B), 255]);
}
