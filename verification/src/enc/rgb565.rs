//! RGB565 encoder: two bytes per pixel, `RRRRRGGGGGGBBBBB`.

use vstd::prelude::*;
use crate::enc::helpers::{word_bytes, word_byte, split_word, lemma_word_bytes_push};
use crate::model::{Bgra, Bitmap, px_bytes};
use crate::profile::ProfileSpec;
use crate::error::Fault;
use crate::rgb16::{rgb16_spec, word_px, lemma_rgb16_reads_words};
use crate::pixel_utils::{src_px, px565, msb5, msb6};

verus! {

/// The RGB565 word of a pixel: the top 5 bits of red, 6 of green, 5 of blue.
pub open spec fn pack565(p: Bgra) -> u16 {
    ((p.r / 8) * 2048 + (p.g / 4) * 32 + p.b / 8) as u16
}

/// The RGB565 bytes of the first `n` pixels of a BGRA buffer.
pub open spec fn rgb565_encoded(bgra: Seq<u8>, n: int, big_endian: bool) -> Seq<u8> {
    word_bytes(n, |i: int| pack565(src_px(bgra, i)), big_endian)
}

/// Packs one pixel.
fn pack(b: u8, g: u8, r: u8) -> (w: u16)
    ensures
        w == pack565(Bgra { b, g, r, a: 0 }),
{
    let b32 = b as u32;
    let g32 = g as u32;
    let r32 = r as u32;
    let w = (((r32 >> 3u32) << 11u32) | ((g32 >> 2u32) << 5u32) | (b32 >> 3u32)) as u16;
    assert(w == ((r32 / 8) * 2048 + (g32 / 4) * 32 + b32 / 8) as u16) by (bit_vector)
        requires
            w == (((r32 >> 3u32) << 11u32) | ((g32 >> 2u32) << 5u32) | (b32 >> 3u32)) as u16,
            r32 < 256,
            g32 < 256,
            b32 < 256,
    ;
    w
}

/// Encodes `w × h` BGRA pixels to RGB565, two bytes per pixel; alpha is
/// ignored. `big_endian` selects the byte order within each word.
pub fn encode_rgb565(bgra: &[u8], w: i32, h: i32, big_endian: bool) -> (r: Vec<u8>)
    requires
        w >= 0,
        h >= 0,
        4 * (w * h) <= bgra@.len(),
    ensures
        r@ == rgb565_encoded(bgra@, w * h, big_endian),
{
    let len = bgra.len();
    assert((w as usize) as int * (h as usize) as int == w * h);
    let n = (w as usize) * (h as usize);
    let mut out: Vec<u8> = Vec::new();
    let ghost f = |i: int| pack565(src_px(bgra@, i));
    let mut i: usize = 0;
    while i < n
        invariant
            0 <= i <= n,
            n == w * h,
            4 * n <= bgra@.len(),
            len == bgra@.len(),
            f == (|i: int| pack565(src_px(bgra@, i))),
            out@ == word_bytes(i as int, f, big_endian),
        decreases n - i,
    {
        let px = i * 4;
        let word = pack(bgra[px], bgra[px + 1], bgra[px + 2]);
        assert(word == f(i as int));
        let (b0, b1) = split_word(word, big_endian);
        proof {
            lemma_word_bytes_push(i as int, f, big_endian);
        }
        out.push(b0);
        out.push(b1);
        i = i + 1;
    }
    out
}

/// The pixel an RGB565 decoder reads back from an encoded pixel: each
/// channel cut to its top 5 (green: 6) bits and widened again by repeating
/// its top bits, alpha opaque.
pub proof fn lemma_rgb565_pixel_round_trip(p: Bgra)
    ensures
        px565(pack565(p), false) == (Bgra {
            b: msb5((p.b / 8) as u32),
            g: msb6((p.g / 4) as u32),
            r: msb5((p.r / 8) as u32),
            a: 255,
        }),
{
    let w = pack565(p);
    assert(w as int == (p.r / 8) * 2048 + (p.g / 4) * 32 + p.b / 8);
    assert(w / 2048 == p.r / 8);
    assert((w / 32) % 64 == p.g / 4);
    assert(w % 32 == p.b / 8);
}

/// What an RGB565 decoder reads back of an encoded pixel: each channel cut
/// to its top 5 (green: 6) bits and widened again, alpha opaque.
pub open spec fn round565(q: Bgra) -> Bgra {
    Bgra { b: msb5((q.b / 8) as u32), g: msb6((q.g / 4) as u32), r: msb5((q.r / 8) as u32), a: 255 }
}

/// Decoding what the RGB565 encoder writes, with a profile of the same size
/// and byte order and no channel swap, gives the image back pixel by pixel
/// as `round565` says.
pub proof fn lemma_rgb565_frame_round_trip(bgra: Seq<u8>, p: ProfileSpec, tol: nat)
    requires
        p.width > 0,
        p.height > 0,
        2 * (p.width * p.height) <= usize::MAX,
        !p.swap_rgb_channels,
    ensures
        rgb16_spec(rgb565_encoded(bgra, p.width * p.height, !p.little_endian), p, tol, true) == Ok::<Bitmap, Fault>(
            Bitmap {
                data: px_bytes(p.width * p.height, |i: int| round565(src_px(bgra, i))),
                width: p.width as u32,
                height: p.height as u32,
            },
        ),
{
    let n = p.width * p.height;
    let f = |i: int| pack565(src_px(bgra, i));
    lemma_rgb16_reads_words(f, p, tol, true);
    assert(rgb565_encoded(bgra, n, !p.little_endian) == word_bytes(n, f, !p.little_endian));
    let g1 = |i: int| word_px(f(i), p.swap_rgb_channels, true);
    let g2 = |i: int| round565(src_px(bgra, i));
    assert forall|k: int| 0 <= k < 4 * n implies #[trigger] px_bytes(n, g1)[k] == px_bytes(n, g2)[k] by {
        lemma_rgb565_pixel_round_trip(src_px(bgra, k / 4));
    }
    assert(px_bytes(n, g1) =~= px_bytes(n, g2));
}

} // verus!
