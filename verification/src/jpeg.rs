//! JPEG detection and passthrough decoding: T-prefix files carry an embedded
//! JPEG stream, decoded by `zune-jpeg`, converted to BGRA and rotated as its
//! EXIF orientation asks.

use vstd::prelude::*;
use std::sync::atomic::AtomicBool;
use crate::decoder_helpers::decoded_as;
use crate::error::{DecodeError, DecodedImage, Fault};
use crate::exif::{extract_exif_orientation, exif_orientation, orientation_rotation, rotate_bgra};
use crate::model::{Bgra, Bitmap, px_bytes, quad, lemma_px_bytes_push, lemma_px_bytes_empty};
use crate::pixel_utils::{check_canceled, rotated, src_px, lemma_px_bytes_pixel};
use crate::post_process::rotated_bitmap;
use crate::profile::Profile;
use crate::text::{push_str, push_decimal, decimal, string_of};

verus! {

/// Decoded pixel-buffer budget for one JPEG, in bytes of the worst-case
/// `width × height × 11` (RGB output, BGRA conversion and rotation copy).
pub const MAX_JPEG_PIXEL_BYTES: u64 = 268435456;

/// The largest frame width or height the JPEG decoder is asked to accept.
pub const MAX_JPEG_DIMENSION: usize = 65535;

/// `src` starts with the JPEG start-of-image marker `FF D8`.
pub open spec fn soi(src: Seq<u8>) -> bool {
    src.len() >= 2 && src[0] == 0xFF && src[1] == 0xD8
}

/// Returns `true` if `src` starts with a JPEG SOI marker (`0xFF`, `0xD8`).
pub fn is_jpeg(src: &[u8]) -> (r: bool)
    ensures
        r == soi(src@),
{
    src.len() >= 2 && src[0] == 0xFF && src[1] == 0xD8
}

/// What `zune-jpeg` reports after parsing the headers of `src` with frame
/// dimensions limited to `max_dim`: `None` when the header parse fails,
/// `Some(None)` when it gives no image information, otherwise the frame's
/// width and height.
pub uninterp spec fn jpeg_headers(src: Seq<u8>, max_dim: usize) -> Option<Option<(u16, u16)>>;

/// Parses the JPEG headers of `src` with `zune_jpeg::JpegDecoder`
/// (`new_with_options` with `max_dim` as the width and height limit, then
/// `decode_headers` and `info`).
///
/// Trusted: the result is the named `jpeg_headers` of the arguments; the
/// error text is the decoder's own message, of which nothing is stated.
#[verifier::external_body]
fn read_jpeg_headers(src: &[u8], max_dim: usize) -> (r: Result<Option<(u16, u16)>, String>)
    ensures
        match r {
            Ok(x) => jpeg_headers(src@, max_dim) == Some(x),
            Err(_) => jpeg_headers(src@, max_dim) is None,
        },
{
    let options = zune_jpeg::zune_core::options::DecoderOptions::default().set_max_width(max_dim).set_max_height(
        max_dim,
    );
    let mut decoder = zune_jpeg::JpegDecoder::new_with_options(std::io::Cursor::new(src), options);
    match decoder.decode_headers() {
        Err(e) => Err(e.to_string()),
        Ok(()) => match decoder.info() {
            Some(info) => Ok(Some((info.width, info.height))),
            None => Ok(None),
        },
    }
}

/// Whether `zune-jpeg` decodes the pixels of `src` (frame dimensions
/// limited to `max_dim`) without error.
pub uninterp spec fn jpeg_decodes(src: Seq<u8>, max_dim: usize) -> bool;

/// Decodes the pixels of `src` with `zune_jpeg::JpegDecoder::decode`
/// (frame dimensions limited to `max_dim`), RGB, three bytes per pixel.
///
/// `decode` parses the headers again, allocates `width × height × 3` bytes
/// (its `output_buffer_size` for the default RGB output, unwrapped: the
/// frame must be within the decode budget so that the size fits a `usize`)
/// and fills them. Trusted: whether it succeeds is the named `jpeg_decodes`
/// of the arguments, and the pixels it returns are `width × height × 3`
/// bytes for the frame the headers give. The pixel values are left
/// unstated (the decoder picks SIMD or scalar code by the machine it runs
/// on), and so is the error text, the decoder's own message.
#[verifier::external_body]
fn decode_jpeg_pixels(src: &[u8], max_dim: usize) -> (r: Result<Vec<u8>, String>)
    requires
        jpeg_headers(src@, max_dim) matches Some(Some((w, h))) && within_budget(w, h),
    ensures
        r is Ok <==> jpeg_decodes(src@, max_dim),
        r matches Ok(v) ==> (jpeg_headers(src@, max_dim) matches Some(Some((w, h))) && v@.len() == w * h * 3),
{
    let options = zune_jpeg::zune_core::options::DecoderOptions::default().set_max_width(max_dim).set_max_height(
        max_dim,
    );
    let mut decoder = zune_jpeg::JpegDecoder::new_with_options(std::io::Cursor::new(src), options);
    match decoder.decode() {
        Ok(pixels) => Ok(pixels),
        Err(e) => Err(e.to_string()),
    }
}

/// A `w`×`h` frame stays within the decode budget.
pub open spec fn within_budget(w: u16, h: u16) -> bool {
    w * h * 11 <= MAX_JPEG_PIXEL_BYTES
}

/// The message of a frame over the decode budget.
pub open spec fn budget_message(w: u16, h: u16) -> Seq<char> {
    "JPEG dimensions "@ + decimal(w as nat) + "x"@ + decimal(h as nat) + " exceed the "@ + decimal(
        MAX_JPEG_PIXEL_BYTES as nat,
    ) + " byte decode budget"@
}

/// Pixel `i` of the BGRA conversion of RGB bytes: the RGB triple at `3i`
/// with opaque alpha, or all zeros past the end of the RGB data.
pub open spec fn rgb_px(px: Seq<u8>, i: int) -> Bgra {
    if 3 * i + 2 < px.len() {
        Bgra { b: px[3 * i + 2], g: px[3 * i + 1], r: px[3 * i], a: 255 }
    } else {
        Bgra { b: 0, g: 0, r: 0, a: 0 }
    }
}

/// The image a decoded JPEG gives: its `w`×`h` RGB pixels `px` in BGRA,
/// rotated as the EXIF orientation of `src` asks.
pub open spec fn jpeg_image(src: Seq<u8>, w: u16, h: u16, px: Seq<u8>) -> Bitmap {
    let base = Bitmap { data: px_bytes(w * h, |i: int| rgb_px(px, i)), width: w as u32, height: h as u32 };
    let o = exif_orientation(src);
    if o > 1 {
        rotated_bitmap(base, orientation_rotation(o))
    } else {
        base
    }
}

/// The image of a decoded JPEG is its `w × h` RGB pixels with the channels
/// in BGRA order and opaque alpha (pixel `k` has blue `px[3k+2]`, green
/// `px[3k+1]`, red `px[3k]`; pixels past the end of the RGB data are zero),
/// turned as the EXIF orientation of `src` asks.
pub proof fn lemma_jpeg_image_channels(src: Seq<u8>, w: u16, h: u16, px: Seq<u8>)
    ensures
        exists|b0: Bitmap|
            {
                &&& b0.width == w as u32
                &&& b0.height == h as u32
                &&& b0.data.len() == 4 * (w * h)
                &&& forall|k: int|
                    0 <= k < w * h ==> #[trigger] src_px(b0.data, k) == if 3 * k + 2 < px.len() {
                        Bgra { b: px[3 * k + 2], g: px[3 * k + 1], r: px[3 * k], a: 255 }
                    } else {
                        Bgra { b: 0, g: 0, r: 0, a: 0 }
                    }
                &&& jpeg_image(src, w, h, px) == if exif_orientation(src) > 1 {
                    rotated_bitmap(b0, orientation_rotation(exif_orientation(src)))
                } else {
                    b0
                }
            },
{
    let f = |i: int| rgb_px(px, i);
    let b0 = Bitmap { data: px_bytes(w * h, f), width: w as u32, height: h as u32 };
    assert forall|k: int| 0 <= k < w * h implies #[trigger] src_px(b0.data, k) == if 3 * k + 2 < px.len() {
        Bgra { b: px[3 * k + 2], g: px[3 * k + 1], r: px[3 * k], a: 255 }
    } else {
        Bgra { b: 0, g: 0, r: 0, a: 0 }
    } by {
        lemma_px_bytes_pixel(w * h, f, k);
    }
    assert(b0.data.len() == 4 * (w * h));
    assert(jpeg_image(src, w, h, px) == if exif_orientation(src) > 1 {
        rotated_bitmap(b0, orientation_rotation(exif_orientation(src)))
    } else {
        b0
    });
}

/// Builds the output image of a JPEG stream from its decoded RGB pixels:
/// converts `width × height` pixels to BGRA (pixels the RGB data does not
/// reach stay zero) and applies the EXIF orientation of `src`.
pub fn assemble_jpeg(src: &[u8], width: u16, height: u16, pixels: &[u8], canceled: &AtomicBool) -> (r: Result<
    DecodedImage,
    DecodeError,
>)
    requires
        within_budget(width, height),
    ensures
        decoded_as(r, Ok(jpeg_image(src@, width, height, pixels@))),
{
    let w = width as u32;
    let h = height as u32;
    let pixel_count = (w * h) as usize;
    let n = pixels.len();
    let ghost f = |i: int| rgb_px(pixels@, i);
    let mut data: Vec<u8> = Vec::new();
    proof {
        lemma_px_bytes_empty(f);
    }
    let mut i: usize = 0;
    while i < pixel_count
        invariant
            0 <= i <= pixel_count,
            pixel_count == width * height,
            pixel_count <= 268435456,
            n == pixels@.len(),
            f == (|i: int| rgb_px(pixels@, i)),
            data@ == px_bytes(i as int, f),
        decreases pixel_count - i,
    {
        check_canceled(canceled, "jpeg decode canceled")?;
        let px: [u8; 4] = if i < n / 3 {
            [pixels[3 * i + 2], pixels[3 * i + 1], pixels[3 * i], 255u8]
        } else {
            [0u8, 0u8, 0u8, 0u8]
        };
        data.push(px[0]);
        data.push(px[1]);
        data.push(px[2]);
        data.push(px[3]);
        proof {
            assert((i < n / 3) == (3 * i + 2 < n));
            assert(px@ =~= quad(f(i as int)));
            lemma_px_bytes_push(i as int, f);
            assert(data@ =~= px_bytes(i + 1, f));
        }
        i = i + 1;
    }
    let orientation = extract_exif_orientation(src);
    proof {
        assert(data@.len() == 4 * (w * h));
    }
    if orientation > 1 {
        let (rotated_data, rw, rh) = rotate_bgra(data.as_slice(), w, h, orientation);
        return Ok(DecodedImage { data: rotated_data, width: rw, height: rh });
    }
    Ok(DecodedImage { data, width: w, height: h })
}

/// What decoding a JPEG stream gives for each outcome of the header parse;
/// on success the image is the one `jpeg_image` builds from the
/// `width × height × 3` RGB bytes the decoder produced. Within the budget,
/// a decoder failure gives a `Jpeg` error, and once it has decoded, only a
/// cancellation stops the conversion.
pub open spec fn jpeg_decoded(src: Seq<u8>, r: Result<DecodedImage, DecodeError>) -> bool {
    if src.len() < 2 {
        r == Err::<DecodedImage, DecodeError>(DecodeError::BufferTooShort { expected: 2, actual: src.len() as usize })
    } else if !soi(src) {
        r matches Err(DecodeError::InvalidFormat(m)) && m@ == "not a JPEG stream"@
    } else {
        match jpeg_headers(src, MAX_JPEG_DIMENSION) {
            None => r matches Err(DecodeError::Jpeg(_)),
            Some(None) => r matches Err(DecodeError::Jpeg(m)) && m@ == "no JPEG metadata"@,
            Some(Some((w, h))) => if !within_budget(w, h) {
                r matches Err(DecodeError::Jpeg(m)) && m@ == budget_message(w, h)
            } else {
                match r {
                    Ok(img) => jpeg_decodes(src, MAX_JPEG_DIMENSION) && exists|px: Seq<u8>|
                        px.len() == w * h * 3 && img@ == jpeg_image(src, w, h, px),
                    Err(e) => if jpeg_decodes(src, MAX_JPEG_DIMENSION) {
                        e.fault() == Fault::Canceled
                    } else {
                        e.fault() == Fault::Jpeg
                    },
                }
            },
        }
    }
}

/// Decodes a JPEG stream to BGRA8 output, applying its EXIF orientation.
///
/// Errors: `BufferTooShort` if the input is shorter than the SOI marker,
/// `InvalidFormat` if it does not start with one, `Jpeg` if the decoder fails
/// or the frame exceeds the decode budget.
pub fn decode(src: &[u8], _profile: &Profile, canceled: &AtomicBool) -> (r: Result<DecodedImage, DecodeError>)
    ensures
        jpeg_decoded(src@, r),
{
    if src.len() < 2 {
        return Err(DecodeError::BufferTooShort { expected: 2, actual: src.len() });
    }
    if !is_jpeg(src) {
        return Err(DecodeError::InvalidFormat(string_of("not a JPEG stream")));
    }
    let header = match read_jpeg_headers(src, MAX_JPEG_DIMENSION) {
        Ok(h) => h,
        Err(e) => {
            return Err(DecodeError::Jpeg(e));
        },
    };
    let (w, h) = match header {
        Some(d) => d,
        None => {
            return Err(DecodeError::Jpeg(string_of("no JPEG metadata")));
        },
    };
    assert((w as u64) * (h as u64) * 11 <= 65535u64 * 65535u64 * 11) by (nonlinear_arith)
        requires
            w <= 65535,
            h <= 65535,
    ;
    let area: u64 = (w as u64) * (h as u64) * 11;
    if area > MAX_JPEG_PIXEL_BYTES {
        let mut msg = String::new();
        push_str(&mut msg, "JPEG dimensions ");
        push_decimal(&mut msg, w as u64);
        push_str(&mut msg, "x");
        push_decimal(&mut msg, h as u64);
        push_str(&mut msg, " exceed the ");
        push_decimal(&mut msg, MAX_JPEG_PIXEL_BYTES);
        push_str(&mut msg, " byte decode budget");
        return Err(DecodeError::Jpeg(msg));
    }
    let pixels = match decode_jpeg_pixels(src, MAX_JPEG_DIMENSION) {
        Ok(p) => p,
        Err(e) => {
            return Err(DecodeError::Jpeg(e));
        },
    };
    let r = assemble_jpeg(src, w, h, pixels.as_slice(), canceled);
    proof {
        if r is Ok {
            assert(r->Ok_0@ == jpeg_image(src@, w, h, pixels@));
            assert(pixels@.len() == w * h * 3);
        }
    }
    r
}

} // verus!
