//! The decode pipeline: reads the format prefix, picks the profile, runs the
//! decoder for its encoding (then its fallbacks) and post-processes the
//! frame.

use vstd::prelude::*;
use std::sync::atomic::AtomicBool;
use crate::config::{DecodeConfig, TransformConfig, TransformSpec, ConfigSpec, identity_transform, default_config, default_limits};
use crate::decoder_helpers::{decoded_as, validated};
use crate::error::{DecodeError, DecodedImage, Fault};
use crate::jpeg::{jpeg_decoded, jpeg_image, within_budget};
use crate::exif::{exif_orientation, orientation_rotation};
use crate::model::{Bitmap, Bgra, px_bytes};
use crate::post_process::{
    apply_post_process, apply_post_process_with_transform, post_processed, post_processed_with, well_formed,
    lemma_post_process_well_formed, lemma_identity_transform, rotated_bitmap, lemma_rotation_well_formed,
    swapped, cropped_opt, chosen_crop, profile_crop,
};
use crate::profile::{Encoding, Profile, ProfileSpec, default_profile, encoding_name};
use crate::rgb16::rgb16_spec;
use crate::reordered_rgb555::{reordered_spec, reordered_input_ok};
use crate::uyvy::uyvy_spec;
use crate::ycbcr420::ycbcr420_spec;
use crate::cl::cl_spec;
use crate::clcl::clcl_spec;
use crate::bytes::copy_range;
use crate::jpeg_scan::{scan_for_embedded_jpeg, embedded_jpeg, scan_limit, lemma_embedded_jpeg_range};
use crate::photodb::types::{u32_at, read_u32_be};
use crate::profile_db::{DbSpec, ProfileDb, builtin_db, resolved, frame_delta, ALTERNATE_TOLERANCE};
use crate::text::{push_str, push_signed_decimal, signed_decimal};
pub use crate::open::{open_ithmb, open_ithmb_with_config};

verus! {

/// The fallback encodings of a profile (none when absent).
pub open spec fn fallback_list(p: ProfileSpec) -> Seq<Encoding> {
    match p.fallback_encodings {
        Some(s) => s,
        None => seq![],
    }
}

/// The profile a fallback attempt uses: the same profile with the fallback
/// encoding and no fallbacks of its own.
pub open spec fn with_encoding(p: ProfileSpec, e: Encoding) -> ProfileSpec {
    ProfileSpec { encoding: e, fallback_encodings: None, ..p }
}

/// What a raw (non-JPEG) decoder gives for the profile's encoding: UYVY
/// frames with CLCL or CL chroma go to those decoders; a reordered RGB555
/// frame wider than 1024 or taller than 65536 pixels is refused.
pub open spec fn raw_bitmap(data: Seq<u8>, p: ProfileSpec, tol: nat) -> Result<Bitmap, Fault> {
    match p.encoding {
        Encoding::Rgb565 => rgb16_spec(data, p, tol, true),
        Encoding::Rgb555 => rgb16_spec(data, p, tol, false),
        Encoding::ReorderedRgb555 => if reordered_input_ok(data, p, tol) {
            reordered_spec(data, p, tol)
        } else {
            Err(Fault::InvalidFormat)
        },
        Encoding::Yuv422 => if p.clcl_chroma {
            clcl_spec(data, p, tol)
        } else if p.cl_chroma {
            cl_spec(data, p, tol)
        } else {
            uyvy_spec(data, p, tol)
        },
        Encoding::Ycbcr420 => ycbcr420_spec(data, p, tol),
        Encoding::Jpeg => Err(Fault::Jpeg),
    }
}

/// `r` is a possible result of decoding `data` with the profile's own
/// encoding.
pub open spec fn attempt(data: Seq<u8>, p: ProfileSpec, tol: nat, r: Result<DecodedImage, DecodeError>) -> bool {
    if p.encoding == Encoding::Jpeg {
        jpeg_decoded(data, r)
    } else {
        decoded_as(r, raw_bitmap(data, p, tol))
    }
}

/// Decoding `data` with the profile's own encoding can fail.
pub open spec fn failed_attempt(data: Seq<u8>, p: ProfileSpec, tol: nat) -> bool {
    exists|e: DecodeError| #[trigger] attempt(data, p, tol, Err(e))
}

/// `r` is a possible result of decoding with the profile's encoding and then,
/// if that fails, each fallback encoding in order: the first success, or the
/// first error when all fail.
pub open spec fn dispatched(data: Seq<u8>, p: ProfileSpec, tol: nat, r: Result<DecodedImage, DecodeError>) -> bool {
    let fb = fallback_list(p);
    exists|r0: Result<DecodedImage, DecodeError>|
        #[trigger] attempt(data, p, tol, r0) && {
            ||| r0 is Ok && r == r0
            ||| r0 is Err && r == r0 && forall|j: int|
                0 <= j < fb.len() ==> #[trigger] failed_attempt(data, with_encoding(p, fb[j]), tol)
            ||| r0 is Err && exists|i: int|
                0 <= i < fb.len() && r is Ok && #[trigger] attempt(data, with_encoding(p, fb[i]), tol, r)
                    && forall|j: int| 0 <= j < i ==> #[trigger] failed_attempt(data, with_encoding(p, fb[j]), tol)
        }
}

/// The index of the first success in `rs` from `i` on, or `rs.len()`.
pub open spec fn first_ok_from(rs: Seq<Result<DecodedImage, DecodeError>>, i: int) -> int
    decreases rs.len() - i,
{
    if i < 0 || i >= rs.len() {
        rs.len() as int
    } else if rs[i] is Ok {
        i
    } else {
        first_ok_from(rs, i + 1)
    }
}

/// The result the fallback order picks from the outcome `r0` of the
/// profile's own encoding and the outcomes `rs` of its fallbacks: `r0` when
/// it succeeds, else the first fallback success, else `r0`'s error.
pub open spec fn dispatch_pick(r0: Result<DecodedImage, DecodeError>, rs: Seq<Result<DecodedImage, DecodeError>>) -> Result<
    DecodedImage,
    DecodeError,
> {
    if r0 is Ok {
        r0
    } else if first_ok_from(rs, 0) < rs.len() {
        rs[first_ok_from(rs, 0)]
    } else {
        r0
    }
}

proof fn lemma_first_ok_from(rs: Seq<Result<DecodedImage, DecodeError>>, i: int)
    requires
        0 <= i <= rs.len(),
    ensures
        i <= first_ok_from(rs, i) <= rs.len(),
        first_ok_from(rs, i) < rs.len() ==> rs[first_ok_from(rs, i)] is Ok,
        forall|j: int| i <= j < first_ok_from(rs, i) ==> (#[trigger] rs[j]) is Err,
    decreases rs.len() - i,
{
    if i < rs.len() && rs[i] is Err {
        lemma_first_ok_from(rs, i + 1);
    }
}

/// The fallback order: whatever the profile's own encoding gives (`r0`) and
/// each fallback encoding gives (`rs`), the result that keeps `r0` when it
/// succeeds, else takes the first fallback that succeeds, else keeps `r0`'s
/// error, is a result of dispatching; without fallbacks the dispatched
/// results are exactly those of the profile's own encoding.
pub proof fn lemma_dispatch_order(
    data: Seq<u8>,
    p: ProfileSpec,
    tol: nat,
    r0: Result<DecodedImage, DecodeError>,
    rs: Seq<Result<DecodedImage, DecodeError>>,
)
    requires
        attempt(data, p, tol, r0),
        rs.len() == fallback_list(p).len(),
        forall|k: int| 0 <= k < rs.len() ==> #[trigger] attempt(data, with_encoding(p, fallback_list(p)[k]), tol, rs[k]),
    ensures
        dispatched(data, p, tol, dispatch_pick(r0, rs)),
        fallback_list(p).len() == 0 ==> forall|r: Result<DecodedImage, DecodeError>|
            #[trigger] dispatched(data, p, tol, r) == attempt(data, p, tol, r),
{
    let fb = fallback_list(p);
    lemma_first_ok_from(rs, 0);
    let i = first_ok_from(rs, 0);
    assert forall|j: int| 0 <= j < i implies #[trigger] failed_attempt(data, with_encoding(p, fb[j]), tol) by {
        assert(rs[j] is Err);
        assert(attempt(data, with_encoding(p, fb[j]), tol, Err(rs[j]->Err_0)));
    }
    if r0 is Err {
        if i < rs.len() {
            assert(attempt(data, with_encoding(p, fb[i]), tol, rs[i]));
        }
    }
    if fb.len() == 0 {
        assert forall|r: Result<DecodedImage, DecodeError>| #[trigger] dispatched(data, p, tol, r) == attempt(
            data,
            p,
            tol,
            r,
        ) by {
            if attempt(data, p, tol, r) {
                assert(r is Ok ==> (r is Ok && r == r));
            }
        }
    }
}

/// The widest frame, and the tallest, that the reordered RGB555 decoder takes.
pub const REORDERED_MAX_WIDTH: usize = 1024;
pub const REORDERED_MAX_HEIGHT: usize = 65536;

fn reordered_fits(data: &[u8], profile: &Profile, tolerance: usize) -> (r: bool)
    ensures
        r == reordered_input_ok(data@, profile@, tolerance as nat),
{
    let w = profile.width;
    let h = profile.height;
    if w <= 0 || h <= 0 {
        return true;
    }
    let wu = w as usize;
    let hu = h as usize;
    if wu <= REORDERED_MAX_WIDTH && hu <= REORDERED_MAX_HEIGHT {
        return true;
    }
    assert(w * h * 2 <= 0x7fff_ffff * 0x7fff_ffffu128 * 2) by (nonlinear_arith)
        requires
            0 < w <= 0x7fff_ffff,
            0 < h <= 0x7fff_ffff,
    ;
    let e: u128 = (w as u128) * (h as u128) * 2;
    if e > usize::MAX as u128 {
        return true;
    }
    let e = e as usize;
    let len = data.len();
    len < e && e - len > tolerance
}

/// Decodes with the profile's own encoding only.
fn try_decode(data: &[u8], profile: &Profile, canceled: &AtomicBool, tolerance: usize) -> (r: Result<
    DecodedImage,
    DecodeError,
>)
    ensures
        attempt(data@, profile@, tolerance as nat, r),
{
    match profile.encoding {
        Encoding::Rgb565 => crate::rgb565::decode_with_tolerance(data, profile, canceled, tolerance),
        Encoding::Rgb555 => crate::rgb555::decode_with_tolerance(data, profile, canceled, tolerance),
        Encoding::ReorderedRgb555 => {
            if reordered_fits(data, profile, tolerance) {
                crate::reordered_rgb555::decode_with_tolerance(data, profile, canceled, tolerance)
            } else {
                Err(crate::error::invalid_format("frame too large for reordered RGB555"))
            }
        },
        Encoding::Yuv422 => {
            if profile.clcl_chroma {
                crate::clcl::decode_with_tolerance(data, profile, canceled, tolerance)
            } else if profile.cl_chroma {
                crate::cl::decode_with_tolerance(data, profile, canceled, tolerance)
            } else {
                crate::uyvy::decode_with_tolerance(data, profile, canceled, tolerance)
            }
        },
        Encoding::Ycbcr420 => crate::ycbcr420::decode_with_tolerance(data, profile, canceled, tolerance),
        Encoding::Jpeg => crate::jpeg::decode(data, profile, canceled),
    }
}

fn fallback_profile(profile: &Profile, e: Encoding) -> (r: Profile)
    ensures
        r@ == with_encoding(profile@, e),
{
    let base = profile.clone();
    Profile { encoding: e, fallback_encodings: None, ..base }
}

/// Decodes `data` with the profile's encoding; if that fails, tries each
/// fallback encoding in order and returns the first success, else the
/// first error.
pub fn dispatch_decode(data: &[u8], profile: &Profile, canceled: &AtomicBool, tolerance: usize) -> (r: Result<
    DecodedImage,
    DecodeError,
>)
    ensures
        dispatched(data@, profile@, tolerance as nat, r),
{
    let ghost tol = tolerance as nat;
    let r0 = try_decode(data, profile, canceled, tolerance);
    if r0.is_ok() {
        return r0;
    }
    let ghost fb = fallback_list(profile@);
    match &profile.fallback_encodings {
        Some(fallbacks) => {
            assert(fallbacks@ == fb);
            let n = fallbacks.len();
            let mut i: usize = 0;
            while i < n
                invariant
                    0 <= i <= n,
                    n == fb.len(),
                    fallbacks@ == fb,
                    fb == fallback_list(profile@),
                    attempt(data@, profile@, tol, r0),
                    tol == tolerance as nat,
                    r0 is Err,
                    forall|j: int| 0 <= j < i ==> #[trigger] failed_attempt(data@, with_encoding(profile@, fb[j]), tol),
                decreases n - i,
            {
                let enc = fallbacks[i];
                let fp = fallback_profile(profile, enc);
                assert(fp@ == with_encoding(profile@, fb[i as int]));
                let r = try_decode(data, &fp, canceled, tolerance);
                if r.is_ok() {
                    assert(attempt(data@, with_encoding(profile@, fb[i as int]), tol, r));
                    return r;
                }
                assert(attempt(data@, with_encoding(profile@, fb[i as int]), tol, Err(r->Err_0)));
                assert(failed_attempt(data@, with_encoding(profile@, fb[i as int]), tol));
                i = i + 1;
            }
        },
        None => {},
    }
    r0
}

/// The post-processing a decode applies: the profile's, or the overrides'.
pub open spec fn post(b: Bitmap, p: ProfileSpec, t: Option<TransformSpec>) -> Bitmap {
    match t {
        Some(t) => post_processed_with(b, p, t),
        None => post_processed(b, p),
    }
}

/// The frame bytes of a file: all of it for JPEG, the bytes after the
/// 4-byte prefix otherwise.
pub open spec fn frame_of(src: Seq<u8>, p: ProfileSpec) -> Seq<u8> {
    if p.encoding == Encoding::Jpeg {
        src
    } else {
        src.subrange(4, src.len() as int)
    }
}

/// `r` is a possible result of decoding the file `src` with the profile
/// `p`: the prefix (for raw encodings) is stripped, the frame decoded, then
/// post-processed.
pub open spec fn profile_decoded(src: Seq<u8>, p: ProfileSpec, tol: nat, t: Option<TransformSpec>, r: Result<
    DecodedImage,
    DecodeError,
>) -> bool {
    if p.encoding != Encoding::Jpeg && src.len() < 4 {
        r == Err::<DecodedImage, DecodeError>(DecodeError::BufferTooShort { expected: 4, actual: src.len() as usize })
    } else {
        exists|d: Result<DecodedImage, DecodeError>|
            #[trigger] dispatched(frame_of(src, p), p, tol, d) && match d {
                Err(e) => r == Err::<DecodedImage, DecodeError>(e),
                Ok(img) => r is Ok && r->Ok_0@ == post(img@, p, t),
            }
    }
}

/// A successful decoder result is a well-formed image.
proof fn lemma_attempt_well_formed(data: Seq<u8>, p: ProfileSpec, tol: nat, r: Result<DecodedImage, DecodeError>)
    requires
        attempt(data, p, tol, r),
        r is Ok,
    ensures
        well_formed(r->Ok_0@),
{
    let b = r->Ok_0@;
    if p.encoding == Encoding::Jpeg {
        let (w, h) = jpeg_header_dims(data);
        let px = choose|px: Seq<u8>| b == jpeg_image(data, w, h, px);
        let base = Bitmap { data: px_bytes(w * h, |i: int| crate::jpeg::rgb_px(px, i)), width: w as u32, height: h as u32 };
        assert(well_formed(base)) by {
            assert(4 * (w * h) == 4 * w * h) by (nonlinear_arith);
        }
        let o = exif_orientation(data);
        if o > 1 {
            lemma_rotation_well_formed(base, orientation_rotation(o));
        }
    } else {
        let w = p.width;
        let h = p.height;
        assert(w > 0 && h > 0) by {
            match p.encoding {
                Encoding::Rgb565 | Encoding::Rgb555 | Encoding::ReorderedRgb555 => {
                    assert(validated(data, w, h, 2, tol) is Ok);
                },
                Encoding::Yuv422 => {
                    if !p.clcl_chroma && p.cl_chroma {
                        assert(validated(data, w, h, 2, tol) is Ok);
                    }
                },
                _ => {},
            }
        }
        assert(b.width == w as u32 && b.height == h as u32);
        assert(b.data.len() == 4 * (w * h));
        assert(4 * (w * h) == 4 * w * h) by (nonlinear_arith);
    }
}

/// The frame dimensions a JPEG decode reports (defined when the headers parse).
spec fn jpeg_header_dims(data: Seq<u8>) -> (u16, u16) {
    match crate::jpeg::jpeg_headers(data, crate::jpeg::MAX_JPEG_DIMENSION) {
        Some(Some(d)) => d,
        _ => (0, 0),
    }
}

proof fn lemma_dispatched_well_formed(data: Seq<u8>, p: ProfileSpec, tol: nat, r: Result<DecodedImage, DecodeError>)
    requires
        dispatched(data, p, tol, r),
        r is Ok,
    ensures
        well_formed(r->Ok_0@),
{
    let fb = fallback_list(p);
    let r0 = choose|r0: Result<DecodedImage, DecodeError>|
        #[trigger] attempt(data, p, tol, r0) && {
            ||| r0 is Ok && r == r0
            ||| r0 is Err && r == r0 && forall|j: int|
                0 <= j < fb.len() ==> #[trigger] failed_attempt(data, with_encoding(p, fb[j]), tol)
            ||| r0 is Err && exists|i: int|
                0 <= i < fb.len() && r is Ok && #[trigger] attempt(data, with_encoding(p, fb[i]), tol, r)
                    && forall|j: int| 0 <= j < i ==> #[trigger] failed_attempt(data, with_encoding(p, fb[j]), tol)
        };
    if r0 is Ok {
        lemma_attempt_well_formed(data, p, tol, r);
    } else {
        let i = choose|i: int|
            0 <= i < fb.len() && r is Ok && #[trigger] attempt(data, with_encoding(p, fb[i]), tol, r) && forall|j: int|
                0 <= j < i ==> #[trigger] failed_attempt(data, with_encoding(p, fb[j]), tol);
        lemma_attempt_well_formed(data, with_encoding(p, fb[i]), tol, r);
    }
}

/// Every image a decode hands back holds exactly four bytes per pixel:
/// its data is `4 · width · height` bytes long, whatever the format,
/// fallback encodings and post-processing involved.
pub proof fn lemma_decoded_image_well_formed(
    src: Seq<u8>,
    p: ProfileSpec,
    tol: nat,
    t: Option<TransformSpec>,
    img: DecodedImage,
)
    requires
        profile_decoded(src, p, tol, t, Ok(img)),
    ensures
        well_formed(img@),
{
    let r = Ok::<DecodedImage, DecodeError>(img);
    let d = choose|d: Result<DecodedImage, DecodeError>|
        #[trigger] dispatched(frame_of(src, p), p, tol, d) && match d {
            Err(e) => r == Err::<DecodedImage, DecodeError>(e),
            Ok(i) => r is Ok && r->Ok_0@ == post(i@, p, t),
        };
    lemma_dispatched_well_formed(frame_of(src, p), p, tol, d);
    let b = d->Ok_0@;
    match t {
        Some(tt) => lemma_post_process_well_formed(b, p, tt),
        None => {
            lemma_post_process_well_formed(b, p, identity_transform());
            lemma_identity_transform(b, p);
        },
    }
}

/// Every image `decode_ithmb` hands back holds exactly four bytes per pixel.
pub proof fn lemma_ithmb_image_well_formed(src: Seq<u8>, cfg: ConfigSpec, t: Option<TransformSpec>, img: DecodedImage)
    requires
        ithmb_decoded(src, cfg, t, Ok(img)),
    ensures
        well_formed(img@),
{
    let tol = cfg.trailing_padding_tolerance as nat;
    if src.len() >= 4 && src.len() <= cfg.max_raw_file_size {
        match builtin_db() {
            Ok(db) => {
                let prefix = be_prefix(src);
                let dl = (src.len() - 4) as usize;
                if src[0] == 0xFF && src[1] == 0xD8 {
                    let p = if db.table.contains_key(prefix) {
                        db.table[prefix]
                    } else {
                        fallback_jpeg()
                    };
                    lemma_decoded_image_well_formed(src, p, tol, t, img);
                } else {
                    match resolved(db, prefix, dl) {
                        Some(p) => lemma_decoded_image_well_formed(src, p, tol, t, img),
                        None => if none_near(db, dl) {
                            match embedded_jpeg(
                                src,
                                scan_limit(src.len() as int, cfg.jpeg_scan_limit),
                                cfg.jfif_exif_scan_window,
                                0,
                            ) {
                                Some((a, e)) => lemma_decoded_image_well_formed(
                                    src.subrange(a, e),
                                    fallback_jpeg(),
                                    tol,
                                    t,
                                    img,
                                ),
                                None => {},
                            }
                        } else {
                            let p = choose|p: ProfileSpec|
                                #[trigger] nearest_choice(db, dl, p) && profile_decoded(src, p, tol, t, Ok(img));
                            lemma_decoded_image_well_formed(src, p, tol, t, img);
                        },
                    }
                }
            },
            Err(_) => {},
        }
    }
}

/// The transform overrides, as the contracts see them.
pub open spec fn transform_view(t: Option<&TransformConfig>) -> Option<TransformSpec> {
    match t {
        Some(t) => Some(t@),
        None => None,
    }
}

/// Decodes a file with an explicit profile: strips the 4-byte prefix (raw
/// encodings), dispatches to the decoder, then post-processes with the
/// profile's fields or the overrides.
pub fn decode_inner(
    src: &[u8],
    profile: &Profile,
    canceled: &AtomicBool,
    config: &DecodeConfig,
    transform: Option<&TransformConfig>,
) -> (r: Result<DecodedImage, DecodeError>)
    ensures
        profile_decoded(src@, profile@, config@.trailing_padding_tolerance as nat, transform_view(transform), r),
{
    let tolerance = config.trailing_padding_tolerance();
    let owned: Vec<u8>;
    let frame: &[u8] = if profile.encoding == Encoding::Jpeg {
        src
    } else {
        if src.len() < 4 {
            return Err(DecodeError::BufferTooShort { expected: 4, actual: src.len() });
        }
        owned = copy_range(src, 4, src.len());
        owned.as_slice()
    };
    assert(frame@ == frame_of(src@, profile@));
    let d = dispatch_decode(frame, profile, canceled, tolerance);
    let img = match d {
        Ok(img) => img,
        Err(e) => {
            return Err(e);
        },
    };
    proof {
        lemma_dispatched_well_formed(frame@, profile@, tolerance as nat, Ok(img));
    }
    let out = match transform {
        Some(t) => {
            proof {
                lemma_post_process_well_formed(img@, profile@, t@);
            }
            apply_post_process_with_transform(img, profile, t)
        },
        None => {
            proof {
                lemma_post_process_well_formed(img@, profile@, identity_transform());
            }
            apply_post_process(img, profile)
        },
    };
    Ok(out)
}

/// The 4-byte big-endian format prefix of a file.
pub open spec fn be_prefix(src: Seq<u8>) -> i32 {
    u32_at(src, 0, false) as i32
}

/// The profile used for a JPEG stream whose prefix has no profile: JPEG,
/// prefix -1, dimensions from the container (`use_mhni_dimensions`).
pub open spec fn fallback_jpeg() -> ProfileSpec {
    ProfileSpec {
        prefix: -1i32,
        width: 0i32,
        height: 0i32,
        encoding: Encoding::Jpeg,
        use_mhni_dimensions: true,
        ..default_profile()
    }
}

/// Creates the profile used for JPEG streams whose prefix has no profile.
pub fn fallback_jpeg_profile() -> (r: Profile)
    ensures
        r@ == fallback_jpeg(),
{
    let mut p = Profile::default();
    p.prefix = -1;
    p.width = 0;
    p.height = 0;
    p.encoding = Encoding::Jpeg;
    p.use_mhni_dimensions = true;
    p
}

/// `p` is a profile of the database whose frame length is within 256 bytes
/// of `dl`, and no profile's is nearer.
pub open spec fn nearest_choice(db: DbSpec, dl: usize, p: ProfileSpec) -> bool {
    &&& db.table.values().contains(p)
    &&& frame_delta(dl, p) <= ALTERNATE_TOLERANCE
    &&& forall|k: i32| #[trigger] db.table.contains_key(k) ==> frame_delta(dl, p) <= frame_delta(dl, db.table[k])
}

/// No profile's frame length is within 256 bytes of `dl`.
pub open spec fn none_near(db: DbSpec, dl: usize) -> bool {
    forall|k: i32| #[trigger] db.table.contains_key(k) ==> frame_delta(dl, db.table[k]) > ALTERNATE_TOLERANCE
}

/// `r` is the error for an unknown prefix.
pub open spec fn unknown_prefix(r: Result<DecodedImage, DecodeError>, prefix: i32) -> bool {
    r matches Err(DecodeError::Unsupported(m)) && m@ == "unknown format prefix "@ + signed_decimal(prefix as int)
}

/// `r` is a possible result of decoding the file `src`: files shorter than
/// the prefix or over the size limit are refused; a JPEG stream is decoded
/// with its prefix's profile (or the JPEG fallback); otherwise the profile
/// is the prefix's (or a fitting alternate), else the profile whose frame
/// length is nearest to the data (within 256 bytes), else an embedded JPEG
/// stream found by scanning; else the prefix is unknown.
pub open spec fn ithmb_decoded(src: Seq<u8>, cfg: ConfigSpec, t: Option<TransformSpec>, r: Result<
    DecodedImage,
    DecodeError,
>) -> bool {
    let tol = cfg.trailing_padding_tolerance as nat;
    if src.len() < 4 {
        r == Err::<DecodedImage, DecodeError>(DecodeError::BufferTooShort { expected: 4, actual: src.len() as usize })
    } else if src.len() > cfg.max_raw_file_size {
        r == Err::<DecodedImage, DecodeError>(
            DecodeError::FileTooLarge { size: src.len() as usize, limit: cfg.max_raw_file_size },
        )
    } else {
        match builtin_db() {
            Err(_) => r is Err && r->Err_0 is Profile,
            Ok(db) => {
                let prefix = be_prefix(src);
                let dl = (src.len() - 4) as usize;
                if src[0] == 0xFF && src[1] == 0xD8 {
                    profile_decoded(
                        src,
                        if db.table.contains_key(prefix) {
                            db.table[prefix]
                        } else {
                            fallback_jpeg()
                        },
                        tol,
                        t,
                        r,
                    )
                } else {
                    match resolved(db, prefix, dl) {
                        Some(p) => profile_decoded(src, p, tol, t, r),
                        None => if none_near(db, dl) {
                            match embedded_jpeg(
                                src,
                                scan_limit(src.len() as int, cfg.jpeg_scan_limit),
                                cfg.jfif_exif_scan_window,
                                0,
                            ) {
                                Some((a, e)) => profile_decoded(src.subrange(a, e), fallback_jpeg(), tol, t, r)
                                    || unknown_prefix(r, prefix),
                                None => unknown_prefix(r, prefix),
                            }
                        } else {
                            exists|p: ProfileSpec| #[trigger] nearest_choice(db, dl, p) && profile_decoded(src, p, tol, t, r)
                        },
                    }
                }
            },
        }
    }
}

/// The shared core of the `decode_ithmb` entry points.
pub fn decode_ithmb_inner(
    src: &[u8],
    canceled: &AtomicBool,
    config: &DecodeConfig,
    transform: Option<&TransformConfig>,
) -> (r: Result<DecodedImage, DecodeError>)
    ensures
        ithmb_decoded(src@, config@, transform_view(transform), r),
{
    let len = src.len();
    if len < 4 {
        return Err(DecodeError::BufferTooShort { expected: 4, actual: len });
    }
    if len > config.max_raw_file_size() {
        return Err(DecodeError::FileTooLarge { size: len, limit: config.max_raw_file_size() });
    }
    let prefix = read_u32_be(src, 0) as i32;
    let db = match ProfileDb::load_builtin() {
        Ok(db) => db,
        Err(e) => {
            return Err(e);
        },
    };
    if src[0] == 0xFF && src[1] == 0xD8 {
        let profile = match db.get(prefix) {
            Some(p) => p.clone(),
            None => fallback_jpeg_profile(),
        };
        return decode_inner(src, &profile, canceled, config, transform);
    }
    let dl = len - 4;
    match db.resolve(prefix, dl) {
        Some(p) => {
            return decode_inner(src, &p, canceled, config, transform);
        },
        None => {},
    }
    match db.nearest_frame(dl) {
        Some(p) => {
            let r = decode_inner(src, &p, canceled, config, transform);
            assert(nearest_choice(db@, dl, p@));
            return r;
        },
        None => {},
    }
    match scan_for_embedded_jpeg(
        src,
        canceled,
        config.jpeg_scan_limit(),
        config.cancel_check_interval(),
        config.jfif_exif_scan_window(),
    ) {
        Some((a, e)) => {
            proof {
                lemma_embedded_jpeg_range(
                    src@,
                    scan_limit(src@.len() as int, config@.jpeg_scan_limit),
                    config@.jfif_exif_scan_window,
                    0,
                );
            }
            let jpeg_data = copy_range(src, a, e);
            let jp = fallback_jpeg_profile();
            decode_inner(jpeg_data.as_slice(), &jp, canceled, config, transform)
        },
        None => {
            let mut m = String::new();
            push_str(&mut m, "unknown format prefix ");
            push_signed_decimal(&mut m, prefix as i64);
            Err(DecodeError::Unsupported(m))
        },
    }
}

/// Decodes a complete `.ithmb` file with the default limits: reads the
/// 4-byte big-endian prefix, picks the profile (a JPEG stream falls back to
/// a JPEG profile), decodes and post-processes.
///
/// Errors: `BufferTooShort` for input under 4 bytes, `FileTooLarge` over the
/// size limit, `Unsupported` for an unknown prefix that is not a JPEG
/// stream, and the decoder's errors.
pub fn decode_ithmb(src: &[u8], canceled: &AtomicBool) -> (r: Result<DecodedImage, DecodeError>)
    ensures
        ithmb_decoded(src@, default_limits(), None, r),
{
    let config = default_config();
    decode_ithmb_with_config(src, canceled, &config)
}

/// Decodes a complete `.ithmb` file with custom limits.
pub fn decode_ithmb_with_config(src: &[u8], canceled: &AtomicBool, config: &DecodeConfig) -> (r: Result<
    DecodedImage,
    DecodeError,
>)
    ensures
        ithmb_decoded(src@, config@, None, r),
{
    decode_ithmb_inner(src, canceled, config, None)
}

/// Decodes a complete `.ithmb` file with custom limits and post-processing
/// overrides.
pub fn decode_ithmb_with_transform(
    src: &[u8],
    canceled: &AtomicBool,
    config: &DecodeConfig,
    transform: &TransformConfig,
) -> (r: Result<DecodedImage, DecodeError>)
    ensures
        ithmb_decoded(src@, config@, Some(transform@), r),
{
    decode_ithmb_inner(src, canceled, config, Some(transform))
}

/// Decodes an `.ithmb` file with an explicit profile (default limits).
///
/// Errors: `BufferTooShort` when a raw-format file is shorter than its
/// 4-byte prefix, and the decoder's errors.
pub fn decode_with_profile(src: &[u8], profile: &Profile, canceled: &AtomicBool) -> (r: Result<
    DecodedImage,
    DecodeError,
>)
    ensures
        profile_decoded(src@, profile@, 256, None, r),
{
    let config = default_config();
    decode_inner(src, profile, canceled, &config, None)
}

/// Decodes an `.ithmb` file with an explicit profile and custom limits.
pub fn decode_with_profile_with_config(
    src: &[u8],
    profile: &Profile,
    canceled: &AtomicBool,
    config: &DecodeConfig,
) -> (r: Result<DecodedImage, DecodeError>)
    ensures
        profile_decoded(src@, profile@, config@.trailing_padding_tolerance as nat, None, r),
{
    decode_inner(src, profile, canceled, config, None)
}

/// Decodes an `.ithmb` file with an explicit profile, custom limits and
/// post-processing overrides.
pub fn decode_with_profile_with_transform(
    src: &[u8],
    profile: &Profile,
    canceled: &AtomicBool,
    config: &DecodeConfig,
    transform: &TransformConfig,
) -> (r: Result<DecodedImage, DecodeError>)
    ensures
        profile_decoded(src@, profile@, config@.trailing_padding_tolerance as nat, Some(transform@), r),
{
    decode_inner(src, profile, canceled, config, Some(transform))
}

/// Decoding with overrides that override nothing (the default transform) has
/// exactly the results of decoding without overrides: the same image, or the
/// same error.
pub proof fn lemma_identity_transform_decode(src: Seq<u8>, p: ProfileSpec, tol: nat, r: Result<DecodedImage, DecodeError>)
    ensures
        profile_decoded(src, p, tol, Some(identity_transform()), r) == profile_decoded(src, p, tol, None, r),
{
    assert forall|d: Result<DecodedImage, DecodeError>|
        (#[trigger] dispatched(frame_of(src, p), p, tol, d) && match d {
            Err(e) => r == Err::<DecodedImage, DecodeError>(e),
            Ok(img) => r is Ok && r->Ok_0@ == post(img@, p, Some(identity_transform())),
        }) == (dispatched(frame_of(src, p), p, tol, d) && match d {
            Err(e) => r == Err::<DecodedImage, DecodeError>(e),
            Ok(img) => r is Ok && r->Ok_0@ == post(img@, p, None),
        }) by {
        if let Ok(img) = d {
            lemma_identity_transform(img@, p);
        }
    }
}

/// Decoding a whole file with the default transform has exactly the
/// results of decoding it without overrides.
pub proof fn lemma_identity_transform_ithmb(src: Seq<u8>, cfg: ConfigSpec, r: Result<DecodedImage, DecodeError>)
    ensures
        ithmb_decoded(src, cfg, Some(identity_transform()), r) == ithmb_decoded(src, cfg, None, r),
{
    assert forall|s: Seq<u8>, p: ProfileSpec, tol: nat, r2: Result<DecodedImage, DecodeError>|
        #[trigger] profile_decoded(s, p, tol, Some(identity_transform()), r2) == profile_decoded(s, p, tol, None, r2) by {
        lemma_identity_transform_decode(s, p, tol, r2);
    }
}

/// The transform that overrides only the rotation, with `rot`.
pub open spec fn rotation_only(rot: i32) -> TransformSpec {
    TransformSpec { rotation: Some(rot), ..identity_transform() }
}

/// A profile that neither swaps the dimensions, crops nor rotates.
pub open spec fn leaves_geometry(p: ProfileSpec) -> bool {
    &&& !p.swaps_dimensions
    &&& profile_crop(p) is None
    &&& p.rotation % 360 == 0
}

/// The rotation override wins over the profile's rotation: for a profile
/// that leaves the geometry alone, post-processing with only a rotation
/// override rotates what post-processing without overrides gives, and so a
/// decode with that override gives, for the same decoder outcome, the
/// rotated image of the decode without it (or the same error).
pub proof fn lemma_rotation_override_decode(src: Seq<u8>, p: ProfileSpec, tol: nat, rot: i32, r: Result<
    DecodedImage,
    DecodeError,
>)
    requires
        leaves_geometry(p),
    ensures
        forall|b: Bitmap| #[trigger] post(b, p, Some(rotation_only(rot))) == rotated_bitmap(post(b, p, None), rot as int),
        (p.encoding == Encoding::Jpeg || src.len() >= 4) ==> (profile_decoded(src, p, tol, Some(rotation_only(rot)), r)
            == exists|d: Result<DecodedImage, DecodeError>|
            #[trigger] dispatched(frame_of(src, p), p, tol, d) && match d {
                Err(e) => r == Err::<DecodedImage, DecodeError>(e),
                Ok(img) => r is Ok && r->Ok_0@ == rotated_bitmap(post(img@, p, None), rot as int),
            }),
{
    assert forall|b: Bitmap| #[trigger] post(b, p, Some(rotation_only(rot))) == rotated_bitmap(post(b, p, None), rot as int) by {
        assert(swapped(b, p) == b);
        assert(cropped_opt(b, chosen_crop(p, rotation_only(rot))) == b);
    }
}

/// Whether an image is a dispatched result depends on its value alone.
proof fn lemma_dispatched_image_determined(
    data: Seq<u8>,
    p: ProfileSpec,
    tol: nat,
    d: Result<DecodedImage, DecodeError>,
    r: Result<DecodedImage, DecodeError>,
)
    requires
        dispatched(data, p, tol, d),
        d is Ok,
        r is Ok,
        r->Ok_0@ == d->Ok_0@,
    ensures
        dispatched(data, p, tol, r),
{
    let fb = fallback_list(p);
    let r0 = choose|r0: Result<DecodedImage, DecodeError>|
        #[trigger] attempt(data, p, tol, r0) && {
            ||| r0 is Ok && d == r0
            ||| r0 is Err && d == r0 && forall|j: int|
                0 <= j < fb.len() ==> #[trigger] failed_attempt(data, with_encoding(p, fb[j]), tol)
            ||| r0 is Err && exists|i: int|
                0 <= i < fb.len() && d is Ok && #[trigger] attempt(data, with_encoding(p, fb[i]), tol, d)
                    && forall|j: int| 0 <= j < i ==> #[trigger] failed_attempt(data, with_encoding(p, fb[j]), tol)
        };
    if r0 is Ok {
        assert(attempt(data, p, tol, r));
    } else {
        let i = choose|i: int|
            0 <= i < fb.len() && d is Ok && #[trigger] attempt(data, with_encoding(p, fb[i]), tol, d) && forall|j: int|
                0 <= j < i ==> #[trigger] failed_attempt(data, with_encoding(p, fb[j]), tol);
        assert(attempt(data, with_encoding(p, fb[i]), tol, r));
    }
}

/// The decode entry points agree with the dispatcher: for a profile that
/// leaves the geometry alone, the results of decoding a file with it are
/// exactly the results of dispatching its frame (the bytes after the
/// prefix, or the whole stream for JPEG).
pub proof fn lemma_entry_matches_dispatch(src: Seq<u8>, p: ProfileSpec, tol: nat, r: Result<DecodedImage, DecodeError>)
    requires
        leaves_geometry(p),
        p.encoding == Encoding::Jpeg || src.len() >= 4,
    ensures
        profile_decoded(src, p, tol, None, r) == dispatched(frame_of(src, p), p, tol, r),
{
    if profile_decoded(src, p, tol, None, r) {
        let d = choose|d: Result<DecodedImage, DecodeError>|
            #[trigger] dispatched(frame_of(src, p), p, tol, d) && match d {
                Err(e) => r == Err::<DecodedImage, DecodeError>(e),
                Ok(img) => r is Ok && r->Ok_0@ == post(img@, p, None),
            };
        if let Ok(img) = d {
            assert(post(img@, p, None) == img@);
            lemma_dispatched_image_determined(frame_of(src, p), p, tol, d, r);
        }
    }
    if dispatched(frame_of(src, p), p, tol, r) {
        if let Ok(img) = r {
            assert(post(img@, p, None) == img@);
        }
    }
}

/// The display name of the encoding of a prefix's built-in profile, or
/// "Unknown format".
pub open spec fn prefix_encoding_name(prefix: i32) -> Seq<char> {
    match builtin_db() {
        Ok(db) => if db.table.contains_key(prefix) {
            encoding_name(db.table[prefix].encoding)
        } else {
            "Unknown format"@
        },
        Err(_) => "Unknown format"@,
    }
}

/// The human-readable encoding name for a format prefix; `"Unknown
/// format"` if the prefix has no built-in profile.
pub fn encoding_name_for_prefix(prefix: i32) -> (r: &'static str)
    ensures
        r@ == prefix_encoding_name(prefix),
{
    match ProfileDb::load_builtin() {
        Ok(db) => match db.get(prefix) {
            Some(p) => p.encoding.to_display_string(),
            None => "Unknown format",
        },
        Err(_) => "Unknown format",
    }
}

} // verus!
