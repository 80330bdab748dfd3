//! Post-processing of a decoded frame: dimension swap, crop and rotation, in
//! that order, with optional runtime overrides of the crop and the rotation.

use vstd::prelude::*;
use vstd::arithmetic::div_mod::lemma_fundamental_div_mod_converse;
use crate::config::{Crop, TransformConfig, TransformSpec, identity_transform};
use crate::error::DecodedImage;
use crate::model::{Bitmap, Bgra, bgra_byte, px_bytes, quad, lemma_px_bytes_push, lemma_px_bytes_empty, lemma_row_major, lemma_index_row_bound};
use crate::pixel_utils::{rotate_pixels, rotated, rem360, src_px, rotate_source_index, lemma_px_bytes_pixel};
use crate::profile::{Profile, ProfileSpec};

verus! {

/// The crop rectangle `(x, y, width, height)` that `c` selects in a `w`×`h`
/// image: negative offsets count as 0, a width or height of 0 means the rest
/// of the image from the offset, and everything is clamped to the image.
pub open spec fn crop_rect(w: int, h: int, c: Crop) -> (int, int, int, int) {
    let cx: int = if c.x > 0 { c.x as int } else { 0 };
    let cy: int = if c.y > 0 { c.y as int } else { 0 };
    let aw: int = if w > cx { w - cx } else { 0 };
    let ah: int = if h > cy { h - cy } else { 0 };
    let cw0: int = if c.width > 0 { c.width as int } else { aw };
    let ch0: int = if c.height > 0 { c.height as int } else { ah };
    let cw: int = if cw0 < aw { cw0 } else { aw };
    let ch: int = if ch0 < ah { ch0 } else { ah };
    (cx, cy, cw, ch)
}

/// The image holds every pixel of the crop rectangle of `c`.
pub open spec fn crop_fits(b: Bitmap, c: Crop) -> bool {
    let (cx, cy, cw, ch) = crop_rect(b.width as int, b.height as int, c);
    cw > 0 && ch > 0 ==> 4 * ((cy + ch - 1) * b.width + cx + cw) <= b.data.len()
}

/// `b` cropped to the rectangle `c` selects; an empty rectangle leaves it as it is.
pub open spec fn cropped(b: Bitmap, c: Crop) -> Bitmap {
    let (cx, cy, cw, ch) = crop_rect(b.width as int, b.height as int, c);
    if cw == 0 || ch == 0 {
        b
    } else {
        Bitmap {
            data: px_bytes(cw * ch, |i: int| src_px(b.data, (cy + i / cw) * b.width + cx + i % cw)),
            width: cw as u32,
            height: ch as u32,
        }
    }
}

/// The crop rectangle a profile asks for, if any of its crop fields is set.
pub open spec fn profile_crop(p: ProfileSpec) -> Option<Crop> {
    if p.crop_x != 0 || p.crop_y != 0 || p.crop_width != 0 || p.crop_height != 0 {
        Some(Crop { x: p.crop_x, y: p.crop_y, width: p.crop_width, height: p.crop_height })
    } else {
        None
    }
}

/// `b` cropped as an optional rectangle asks.
pub open spec fn cropped_opt(b: Bitmap, c: Option<Crop>) -> Bitmap {
    match c {
        Some(c) => cropped(b, c),
        None => b,
    }
}

/// The image holds every pixel an optional crop reads.
pub open spec fn crop_opt_fits(b: Bitmap, c: Option<Crop>) -> bool {
    match c {
        Some(c) => crop_fits(b, c),
        None => true,
    }
}

/// `b` rotated clockwise by `rot` degrees.
pub open spec fn rotated_bitmap(b: Bitmap, rot: int) -> Bitmap {
    let (d, w, h) = rotated(b.data, b.width, b.height, rot);
    Bitmap { data: d, width: w, height: h }
}

/// The image holds every pixel a rotation by `rot` reads.
pub open spec fn rotation_fits(b: Bitmap, rot: int) -> bool {
    let q = rem360(rot);
    (q == 90 || q == 180 || q == 270) ==> b.width * b.height * 4 <= b.data.len()
}

/// `b` with width and height exchanged when the profile asks for it (the
/// pixel data is left as it is).
pub open spec fn swapped(b: Bitmap, p: ProfileSpec) -> Bitmap {
    if p.swaps_dimensions {
        Bitmap { data: b.data, width: b.height, height: b.width }
    } else {
        b
    }
}

/// The crop that applies: the override if there is one, else the profile's.
pub open spec fn chosen_crop(p: ProfileSpec, t: TransformSpec) -> Option<Crop> {
    match t.crop {
        Some(c) => Some(c),
        None => profile_crop(p),
    }
}

/// The rotation that applies: the override if there is one, else the profile's.
pub open spec fn chosen_rotation(p: ProfileSpec, t: TransformSpec) -> int {
    match t.rotation {
        Some(r) => r as int,
        None => p.rotation as int,
    }
}

/// Swap, crop and rotate `b` as the profile and the overrides ask.
pub open spec fn post_processed_with(b: Bitmap, p: ProfileSpec, t: TransformSpec) -> Bitmap {
    rotated_bitmap(cropped_opt(swapped(b, p), chosen_crop(p, t)), chosen_rotation(p, t))
}

/// Swap, crop and rotate `b` as the profile asks.
pub open spec fn post_processed(b: Bitmap, p: ProfileSpec) -> Bitmap {
    let c = cropped_opt(swapped(b, p), profile_crop(p));
    if p.rotation % 360 == 0 {
        c
    } else {
        rotated_bitmap(c, p.rotation as int)
    }
}

/// The image holds every pixel that post-processing reads.
pub open spec fn post_process_fits(b: Bitmap, p: ProfileSpec, t: TransformSpec) -> bool {
    let s = swapped(b, p);
    &&& crop_opt_fits(s, chosen_crop(p, t))
    &&& rotation_fits(cropped_opt(s, chosen_crop(p, t)), chosen_rotation(p, t))
}

/// A bitmap whose data is exactly `width × height` BGRA pixels.
pub open spec fn well_formed(b: Bitmap) -> bool {
    b.data.len() == 4 * b.width * b.height
}

/// Crops the image to the rectangle `crop` selects (a width or height of 0
/// is the rest of the image from the offset; everything is clamped to the
/// image; an empty rectangle returns the image unchanged).
pub fn apply_crop_with(img: DecodedImage, crop: Crop) -> (r: DecodedImage)
    requires
        crop_fits(img@, crop),
    ensures
        r@ == cropped(img@, crop),
{
    let iw = img.width as usize;
    let ih = img.height as usize;
    let cx: usize = if crop.x > 0 { crop.x as usize } else { 0 };
    let cy: usize = if crop.y > 0 { crop.y as usize } else { 0 };
    let aw: usize = if iw > cx { iw - cx } else { 0 };
    let ah: usize = if ih > cy { ih - cy } else { 0 };
    let cw0: usize = if crop.width > 0 { crop.width as usize } else { aw };
    let ch0: usize = if crop.height > 0 { crop.height as usize } else { ah };
    let cw: usize = if cw0 < aw { cw0 } else { aw };
    let ch: usize = if ch0 < ah { ch0 } else { ah };
    if cw == 0 || ch == 0 {
        return img;
    }
    let ghost data = img.data@;
    let ghost f = |i: int| src_px(data, (cy + i / (cw as int)) * iw + cx + i % (cw as int));
    let len = img.data.len();
    let mut dst: Vec<u8> = Vec::new();
    proof {
        lemma_px_bytes_empty(f);
    }
    let mut y: usize = 0;
    while y < ch
        invariant
            0 <= y <= ch,
            0 < cw,
            0 < ch,
            cx + cw <= iw,
            4 * ((cy + ch - 1) * iw + cx + cw) <= len,
            len == img.data@.len(),
            data == img.data@,
            f == (|i: int| src_px(data, (cy + i / (cw as int)) * iw + cx + i % (cw as int))),
            dst@ == px_bytes(y * cw, f),
        decreases ch - y,
    {
        let mut x: usize = 0;
        while x < cw
            invariant
                0 <= y < ch,
                0 <= x <= cw,
                0 < cw,
                cx + cw <= iw,
                4 * ((cy + ch - 1) * iw + cx + cw) <= len,
                len == img.data@.len(),
                data == img.data@,
                f == (|i: int| src_px(data, (cy + i / (cw as int)) * iw + cx + i % (cw as int))),
                dst@ == px_bytes(y * cw + x, f),
            decreases cw - x,
        {
            proof {
                lemma_row_major(y as int, x as int, cw as int);
                assert((cy + y) * iw <= (cy + ch - 1) * iw && cy + y <= (cy + y) * iw) by (nonlinear_arith)
                    requires
                        y < ch,
                        iw >= 1,
                ;
                assert((cy + y) * iw + cx + x < (cy + ch - 1) * iw + cx + cw);
                assert(4 * ((cy + y) * iw + cx + x) + 3 < len);
            }
            let k = (cy + y) * iw + cx + x;
            let s = 4 * k;
            dst.push(img.data[s]);
            dst.push(img.data[s + 1]);
            dst.push(img.data[s + 2]);
            dst.push(img.data[s + 3]);
            proof {
                let i = y * cw + x;
                assert(f(i) == src_px(data, k as int));
                assert(quad(f(i)) =~= seq![data[4 * k], data[4 * k + 1], data[4 * k + 2], data[4 * k + 3]]);
                lemma_px_bytes_push(i as int, f);
                assert(dst@ =~= px_bytes(i + 1, f));
            }
            x = x + 1;
        }
        y = y + 1;
        assert(y * cw == (y - 1) * cw + cw) by (nonlinear_arith);
    }
    proof {
        assert(ch * cw == cw * ch) by (nonlinear_arith);
        let g = |i: int| src_px(img@.data, (cy + i / (cw as int)) * img@.width + cx + i % (cw as int));
        assert(f =~= g);
    }
    DecodedImage { data: dst, width: cw as u32, height: ch as u32 }
}

/// Crops the image to the region the profile's crop fields select; when all
/// of them are 0 the image is returned unchanged.
pub fn apply_crop(img: DecodedImage, profile: &Profile) -> (r: DecodedImage)
    requires
        crop_opt_fits(img@, profile_crop(profile@)),
    ensures
        r@ == cropped_opt(img@, profile_crop(profile@)),
{
    let needs_crop = profile.crop_x != 0 || profile.crop_y != 0 || profile.crop_width != 0
        || profile.crop_height != 0;
    if !needs_crop {
        return img;
    }
    apply_crop_with(
        img,
        Crop { x: profile.crop_x, y: profile.crop_y, width: profile.crop_width, height: profile.crop_height },
    )
}

/// Rotates clockwise by `rotation` degrees (0/90/180/270 after the remainder
/// by 360; any other angle leaves the image as it is).
pub fn apply_rotation_with(img: DecodedImage, rotation: i32) -> (r: DecodedImage)
    requires
        rotation_fits(img@, rotation as int),
    ensures
        r@ == rotated_bitmap(img@, rotation as int),
{
    let (data, width, height) = rotate_pixels(img.data.as_slice(), img.width, img.height, rotation);
    DecodedImage { data, width, height }
}

/// Rotates by the profile's rotation; a multiple of 360 returns the image
/// unchanged.
pub fn apply_rotation(img: DecodedImage, profile: &Profile) -> (r: DecodedImage)
    requires
        rotation_fits(img@, profile.rotation as int),
    ensures
        r@ == (if profile.rotation % 360 == 0 {
            img@
        } else {
            rotated_bitmap(img@, profile.rotation as int)
        }),
{
    if profile.rotation % 360 == 0 {
        return img;
    }
    apply_rotation_with(img, profile.rotation)
}

fn swap_dims(img: DecodedImage, profile: &Profile) -> (r: DecodedImage)
    ensures
        r@ == swapped(img@, profile@),
{
    if profile.swaps_dimensions {
        DecodedImage { data: img.data, width: img.height, height: img.width }
    } else {
        img
    }
}

/// Applies dimension swap, crop and rotation, in that order, as the profile asks.
pub fn apply_post_process(img: DecodedImage, profile: &Profile) -> (r: DecodedImage)
    requires
        post_process_fits(img@, profile@, identity_transform()),
    ensures
        r@ == post_processed(img@, profile@),
{
    let img = swap_dims(img, profile);
    let img = apply_crop(img, profile);
    proof {
        if rem360(profile.rotation as int) == 0 {
            assert(profile.rotation % 360 == 0);
        }
    }
    apply_rotation(img, profile)
}

/// Applies dimension swap, crop and rotation, in that order; the overrides in
/// `transform` take precedence over the profile's crop and rotation.
pub fn apply_post_process_with_transform(img: DecodedImage, profile: &Profile, transform: &TransformConfig) -> (r:
    DecodedImage)
    requires
        post_process_fits(img@, profile@, transform@),
    ensures
        r@ == post_processed_with(img@, profile@, transform@),
{
    let img = swap_dims(img, profile);
    let img = match transform.crop() {
        Some(c) => apply_crop_with(img, c),
        None => apply_crop(img, profile),
    };
    let rotation = match transform.rotation() {
        Some(r) => r,
        None => profile.rotation,
    };
    apply_rotation_with(img, rotation)
}

/// With no override, post-processing with a transform gives exactly what
/// post-processing by the profile alone gives.
pub proof fn lemma_identity_transform(b: Bitmap, p: ProfileSpec)
    ensures
        post_processed_with(b, p, identity_transform()) == post_processed(b, p),
        post_process_fits(b, p, identity_transform()) == (crop_opt_fits(swapped(b, p), profile_crop(p))
            && rotation_fits(cropped_opt(swapped(b, p), profile_crop(p)), p.rotation as int)),
{
    let c = cropped_opt(swapped(b, p), profile_crop(p));
    if p.rotation % 360 == 0 {
        assert(rem360(p.rotation as int) == 0);
    }
}

proof fn lemma_area(w: int, h: int)
    ensures
        4 * (w * h) == 4 * w * h,
        w * h * 4 == 4 * w * h,
        h * w == w * h,
        4 * h * w == 4 * w * h,
{
    assert(4 * (w * h) == 4 * w * h) by (nonlinear_arith);
    assert(w * h * 4 == 4 * w * h) by (nonlinear_arith);
    assert(h * w == w * h) by (nonlinear_arith);
    assert(4 * h * w == 4 * w * h) by (nonlinear_arith);
}

proof fn lemma_crop_rect_inside(w: int, h: int, c: Crop)
    requires
        0 <= w,
        0 <= h,
    ensures
        ({
            let (cx, cy, cw, ch) = crop_rect(w, h, c);
            0 <= cx && 0 <= cy && 0 <= cw && 0 <= ch && (cw > 0 ==> cx + cw <= w) && (ch > 0 ==> cy + ch <= h)
        }),
{
}

/// A well-formed image fits any crop, and its crop is well formed.
pub proof fn lemma_crop_well_formed(b: Bitmap, c: Crop)
    requires
        well_formed(b),
    ensures
        crop_fits(b, c),
        well_formed(cropped(b, c)),
{
    let w = b.width as int;
    let h = b.height as int;
    lemma_crop_rect_inside(w, h, c);
    let (cx, cy, cw, ch) = crop_rect(w, h, c);
    if cw > 0 && ch > 0 {
        assert((cy + ch - 1) * w + cx + cw <= w * h) by (nonlinear_arith)
            requires
                cy + ch <= h,
                cx + cw <= w,
                0 <= cx,
                0 <= cy,
                1 <= ch,
                0 <= w,
        ;
        lemma_area(w, h);
        lemma_area(cw, ch);
        assert(cw <= w && ch <= h);
        assert(cw as u32 == cw && ch as u32 == ch);
    }
}

/// A well-formed image fits every rotation, and stays well formed.
pub proof fn lemma_rotation_well_formed(b: Bitmap, rot: int)
    requires
        well_formed(b),
    ensures
        rotation_fits(b, rot),
        well_formed(rotated_bitmap(b, rot)),
{
    lemma_area(b.width as int, b.height as int);
}

/// A well-formed image fits every post-processing, and comes out well formed.
pub proof fn lemma_post_process_well_formed(b: Bitmap, p: ProfileSpec, t: TransformSpec)
    requires
        well_formed(b),
    ensures
        post_process_fits(b, p, t),
        well_formed(post_processed_with(b, p, t)),
{
    let s = swapped(b, p);
    lemma_area(b.width as int, b.height as int);
    assert(well_formed(s));
    match chosen_crop(p, t) {
        Some(c) => lemma_crop_well_formed(s, c),
        None => {},
    }
    let c = cropped_opt(s, chosen_crop(p, t));
    lemma_rotation_well_formed(c, chosen_rotation(p, t));
}

proof fn lemma_rotated_bytes(d: Seq<u8>, w: u32, h: u32, rot: int, k: int)
    requires
        rot == 90 || rot == 180 || rot == 270,
        0 <= k < 4 * (w * h),
    ensures
        rotated(d, w, h, rot).0[k] == d[4 * rotate_source_index(k / 4, w as int, h as int, rot) + k % 4],
{
    let s = rotate_source_index(k / 4, w as int, h as int, rot);
    let p = src_px(d, s);
    let j = k % 4;
    assert(0 <= j < 4);
    assert(bgra_byte(p, j) == d[4 * s + j]);
}

proof fn lemma_index_90_270(i: int, w: int, h: int)
    requires
        0 < w,
        0 < h,
        0 <= i < w * h,
    ensures
        0 <= rotate_source_index(i, h, w, 270) < w * h,
        rotate_source_index(rotate_source_index(i, h, w, 270), w, h, 90) == i,
{
    lemma_index_row_bound(i, w, h);
    let a = i % w;
    let b = h - 1 - i / w;
    let s = rotate_source_index(i, h, w, 270);
    assert(s == a * h + b);
    assert(0 <= b < h);
    lemma_fundamental_div_mod_converse(s, h, a, b);
    assert(s % h == b && s / h == a);
    assert(0 <= a * h + b < w * h) by (nonlinear_arith)
        requires
            0 <= a < w,
            0 <= b < h,
    ;
    assert(rotate_source_index(s, w, h, 90) == (i / w) * w + i % w);
    vstd::arithmetic::div_mod::lemma_fundamental_div_mod(i, w);
    assert(w * (i / w) == (i / w) * w) by (nonlinear_arith);
}

proof fn lemma_index_180_180(i: int, w: int, h: int)
    requires
        0 < w,
        0 < h,
        0 <= i < w * h,
    ensures
        0 <= rotate_source_index(i, w, h, 180) < w * h,
        rotate_source_index(rotate_source_index(i, w, h, 180), w, h, 180) == i,
{
    lemma_index_row_bound(i, w, h);
    let a = h - 1 - i / w;
    let b = w - 1 - i % w;
    let s = rotate_source_index(i, w, h, 180);
    assert(s == a * w + b);
    lemma_fundamental_div_mod_converse(s, w, a, b);
    assert(0 <= a * w + b < w * h) by (nonlinear_arith)
        requires
            0 <= a < h,
            0 <= b < w,
    ;
    vstd::arithmetic::div_mod::lemma_fundamental_div_mod(i, w);
    assert(w * (i / w) == (i / w) * w) by (nonlinear_arith);
}

/// Rotating a well-formed image by 90° and then by 270° gives it back.
pub proof fn lemma_rotate_90_then_270(b: Bitmap)
    requires
        well_formed(b),
    ensures
        rotated_bitmap(rotated_bitmap(b, 90), 270) == b,
{
    let w = b.width;
    let h = b.height;
    let r1 = rotated_bitmap(b, 90);
    let r2 = rotated_bitmap(r1, 270);
    assert(r1.width == h && r1.height == w);
    assert(rem360(90) == 90 && rem360(270) == 270);
    lemma_area(w as int, h as int);
    if w > 0 && h > 0 {
        assert forall|k: int| 0 <= k < r2.data.len() implies #[trigger] r2.data[k] == b.data[k] by {
            let i = k / 4;
            let j = k % 4;
            assert(0 <= i < w * h);
            lemma_rotated_bytes(r1.data, h, w, 270, k);
            let s = rotate_source_index(i, h as int, w as int, 270);
            lemma_index_90_270(i, w as int, h as int);
            assert(0 <= 4 * s + j < 4 * (w * h));
            lemma_rotated_bytes(b.data, w, h, 90, 4 * s + j);
            lemma_fundamental_div_mod_converse(4 * s + j, 4, s, j);
            lemma_fundamental_div_mod_converse(k, 4, i, j);
        }
        assert(r2.data =~= b.data);
    } else {
        assert(w * h == 0) by (nonlinear_arith)
            requires
                w == 0 || h == 0,
        ;
        assert(r2.data =~= b.data);
    }
}

/// Rotating a well-formed image by 180° twice gives it back.
pub proof fn lemma_rotate_180_twice(b: Bitmap)
    requires
        well_formed(b),
    ensures
        rotated_bitmap(rotated_bitmap(b, 180), 180) == b,
{
    let w = b.width;
    let h = b.height;
    let r1 = rotated_bitmap(b, 180);
    let r2 = rotated_bitmap(r1, 180);
    assert(rem360(180) == 180);
    lemma_area(w as int, h as int);
    if w > 0 && h > 0 {
        assert forall|k: int| 0 <= k < r2.data.len() implies #[trigger] r2.data[k] == b.data[k] by {
            let i = k / 4;
            let j = k % 4;
            assert(0 <= i < w * h);
            lemma_rotated_bytes(r1.data, w, h, 180, k);
            let s = rotate_source_index(i, w as int, h as int, 180);
            lemma_index_180_180(i, w as int, h as int);
            assert(0 <= 4 * s + j < 4 * (w * h));
            lemma_rotated_bytes(b.data, w, h, 180, 4 * s + j);
            lemma_fundamental_div_mod_converse(4 * s + j, 4, s, j);
            lemma_fundamental_div_mod_converse(k, 4, i, j);
        }
        assert(r2.data =~= b.data);
    } else {
        assert(w * h == 0) by (nonlinear_arith)
            requires
                w == 0 || h == 0,
        ;
        assert(r2.data =~= b.data);
    }
}

/// Cropping keeps exactly the pixels of the crop rectangle `(cx, cy, cw,
/// ch)` that `crop_rect` clamps out of the crop: the result is `cw × ch`,
/// and its pixel at column `x`, row `y` is the input's pixel at column
/// `cx + x`, row `cy + y`.
pub proof fn lemma_crop_pixels(b: Bitmap, c: Crop, x: int, y: int)
    requires
        crop_rect(b.width as int, b.height as int, c).2 > 0,
        crop_rect(b.width as int, b.height as int, c).3 > 0,
        0 <= x < crop_rect(b.width as int, b.height as int, c).2,
        0 <= y < crop_rect(b.width as int, b.height as int, c).3,
    ensures
        cropped(b, c).width == crop_rect(b.width as int, b.height as int, c).2,
        cropped(b, c).height == crop_rect(b.width as int, b.height as int, c).3,
        src_px(cropped(b, c).data, y * crop_rect(b.width as int, b.height as int, c).2 + x) == src_px(
            b.data,
            (crop_rect(b.width as int, b.height as int, c).1 + y) * b.width + crop_rect(
                b.width as int,
                b.height as int,
                c,
            ).0 + x,
        ),
{
    let (cx, cy, cw, ch) = crop_rect(b.width as int, b.height as int, c);
    let f = |i: int| src_px(b.data, (cy + i / cw) * b.width + cx + i % cw);
    crate::model::lemma_row_major(y, x, cw);
    assert(0 <= y * cw + x < cw * ch) by (nonlinear_arith)
        requires
            0 <= y < ch,
            0 <= x < cw,
    ;
    lemma_px_bytes_pixel(cw * ch, f, y * cw + x);
}

/// A crop rectangle that lies inside the image is cut out as it is: the
/// result is `c.width × c.height`, and its pixel at column `x`, row `y` is
/// the input's pixel at column `c.x + x`, row `c.y + y`.
pub proof fn lemma_crop_inside(b: Bitmap, c: Crop, x: int, y: int)
    requires
        c.x >= 0,
        c.y >= 0,
        c.width > 0,
        c.height > 0,
        c.x + c.width <= b.width,
        c.y + c.height <= b.height,
        0 <= x < c.width,
        0 <= y < c.height,
    ensures
        cropped(b, c).width == c.width,
        cropped(b, c).height == c.height,
        src_px(cropped(b, c).data, y * c.width + x) == src_px(b.data, (c.y + y) * b.width + c.x + x),
{
    let r = crop_rect(b.width as int, b.height as int, c);
    assert(r.0 == c.x && r.1 == c.y && r.2 == c.width && r.3 == c.height);
    lemma_crop_pixels(b, c, x, y);
}

} // verus!
