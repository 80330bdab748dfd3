//! RGB555 encoder: two bytes per pixel, five bits per channel, top bit
//! clear.

use vstd::prelude::*;
use crate::enc::helpers::{word_bytes, word_byte, split_word, lemma_word_bytes_push};
use crate::model::{Bgra, Bitmap, px_bytes};
use crate::profile::ProfileSpec;
use crate::error::Fault;
use crate::rgb16::{rgb16_spec, word_px, lemma_rgb16_reads_words};
use crate::pixel_utils::{src_px, px555, msb5};

verus! {

/// The RGB555 word of a pixel: `xRRRRRGGGGGBBBBB`, or `xBBBBBGGGGGRRRRR`
/// with `swap_rgb`, each channel cut to its top 5 bits.
pub open spec fn pack555(p: Bgra, swap_rgb: bool) -> u16 {
    if swap_rgb {
        ((p.b / 8) * 1024 + (p.g / 8) * 32 + p.r / 8) as u16
    } else {
        ((p.r / 8) * 1024 + (p.g / 8) * 32 + p.b / 8) as u16
    }
}

/// The RGB555 bytes of the first `n` pixels of a BGRA buffer.
pub open spec fn rgb555_encoded(bgra: Seq<u8>, n: int, big_endian: bool, swap_rgb: bool) -> Seq<u8> {
    word_bytes(n, |i: int| pack555(src_px(bgra, i), swap_rgb), big_endian)
}

/// Packs one pixel.
fn pack(b: u8, g: u8, r: u8, swap_rgb: bool) -> (w: u16)
    ensures
        w == pack555(Bgra { b, g, r, a: 0 }, swap_rgb),
{
    let r5 = (r as u32) >> 3u32;
    let g5 = (g as u32) >> 3u32;
    let b5 = (b as u32) >> 3u32;
    assert(r5 == (r as u32) / 8 && g5 == (g as u32) / 8 && b5 == (b as u32) / 8) by (bit_vector)
        requires
            r5 == (r as u32) >> 3u32,
            g5 == (g as u32) >> 3u32,
            b5 == (b as u32) >> 3u32,
    ;
    let (hi, lo) = if swap_rgb {
        (b5, r5)
    } else {
        (r5, b5)
    };
    let w = ((hi << 10u32) | (g5 << 5u32) | lo) as u16;
    assert(w == (hi * 1024 + g5 * 32 + lo) as u16) by (bit_vector)
        requires
            w == ((hi << 10u32) | (g5 << 5u32) | lo) as u16,
            hi < 32,
            g5 < 32,
            lo < 32,
    ;
    w
}

/// Encodes `w × h` BGRA pixels to RGB555, two bytes per pixel; alpha is
/// ignored. `big_endian` selects the byte order within each word and
/// `swap_rgb` the BGR15 layout.
pub fn encode_rgb555(bgra: &[u8], w: i32, h: i32, big_endian: bool, swap_rgb: bool) -> (r: Vec<u8>)
    requires
        w >= 0,
        h >= 0,
        4 * (w * h) <= bgra@.len(),
    ensures
        r@ == rgb555_encoded(bgra@, w * h, big_endian, swap_rgb),
{
    let len = bgra.len();
    assert((w as usize) as int * (h as usize) as int == w * h);
    let n = (w as usize) * (h as usize);
    let mut out: Vec<u8> = Vec::new();
    let ghost f = |i: int| pack555(src_px(bgra@, i), swap_rgb);
    let mut i: usize = 0;
    while i < n
        invariant
            0 <= i <= n,
            n == w * h,
            4 * n <= bgra@.len(),
            len == bgra@.len(),
            f == (|i: int| pack555(src_px(bgra@, i), swap_rgb)),
            out@ == word_bytes(i as int, f, big_endian),
        decreases n - i,
    {
        let px = i * 4;
        let word = pack(bgra[px], bgra[px + 1], bgra[px + 2], swap_rgb);
        assert(word == f(i as int));
        let (b0, b1) = split_word(word, big_endian);
        proof {
            lemma_word_bytes_push(i as int, f, big_endian);
        }
        out.push(b0);
        out.push(b1);
        i = i + 1;
    }
    out
}

/// The pixel an RGB555 decoder with the same layout reads back from an
/// encoded pixel: each channel cut to its top 5 bits and widened again by
/// repeating its top bits, alpha opaque.
pub proof fn lemma_rgb555_pixel_round_trip(p: Bgra, swap_rgb: bool)
    ensures
        px555(pack555(p, swap_rgb), swap_rgb) == (Bgra {
            b: msb5((p.b / 8) as u32),
            g: msb5((p.g / 8) as u32),
            r: msb5((p.r / 8) as u32),
            a: 255,
        }),
{
    let w = pack555(p, swap_rgb);
    if swap_rgb {
        assert(w as int == (p.b / 8) * 1024 + (p.g / 8) * 32 + p.r / 8);
        assert((w / 1024) % 32 == p.b / 8);
        assert(w % 32 == p.r / 8);
    } else {
        assert(w as int == (p.r / 8) * 1024 + (p.g / 8) * 32 + p.b / 8);
        assert((w / 1024) % 32 == p.r / 8);
        assert(w % 32 == p.b / 8);
    }
    assert((w / 32) % 32 == p.g / 8);
}

/// What an RGB555 decoder reads back of an encoded pixel: each channel cut
/// to its top 5 bits and widened again, alpha opaque.
pub open spec fn round555(q: Bgra) -> Bgra {
    Bgra { b: msb5((q.b / 8) as u32), g: msb5((q.g / 8) as u32), r: msb5((q.r / 8) as u32), a: 255 }
}

/// Decoding what the RGB555 encoder writes, with a profile of the same size,
/// byte order and channel order, gives the image back pixel by pixel as
/// `round555` says.
pub proof fn lemma_rgb555_frame_round_trip(bgra: Seq<u8>, p: ProfileSpec, tol: nat)
    requires
        p.width > 0,
        p.height > 0,
        2 * (p.width * p.height) <= usize::MAX,
    ensures
        rgb16_spec(
            rgb555_encoded(bgra, p.width * p.height, !p.little_endian, p.swap_rgb_channels),
            p,
            tol,
            false,
        ) == Ok::<Bitmap, Fault>(
            Bitmap {
                data: px_bytes(p.width * p.height, |i: int| round555(src_px(bgra, i))),
                width: p.width as u32,
                height: p.height as u32,
            },
        ),
{
    let n = p.width * p.height;
    let sw = p.swap_rgb_channels;
    let f = |i: int| pack555(src_px(bgra, i), sw);
    lemma_rgb16_reads_words(f, p, tol, false);
    assert(rgb555_encoded(bgra, n, !p.little_endian, sw) == word_bytes(n, f, !p.little_endian));
    let g1 = |i: int| word_px(f(i), sw, false);
    let g2 = |i: int| round555(src_px(bgra, i));
    assert forall|k: int| 0 <= k < 4 * n implies #[trigger] px_bytes(n, g1)[k] == px_bytes(n, g2)[k] by {
        lemma_rgb555_pixel_round_trip(src_px(bgra, k / 4), sw);
    }
    assert(px_bytes(n, g1) =~= px_bytes(n, g2));
}

} // verus!
