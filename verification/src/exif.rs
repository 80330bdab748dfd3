//! EXIF orientation extraction from a JPEG stream, and the BGRA rotation it
//! calls for.

use vstd::prelude::*;
use crate::pixel_utils::{rotate_pixels, rotated};

verus! {

/// Big-endian 16-bit value at `i`.
pub open spec fn be16_at(s: Seq<u8>, i: int) -> int {
    s[i] * 256 + s[i + 1]
}

/// 16-bit value at `i` in the given byte order.
pub open spec fn rd16_at(s: Seq<u8>, i: int, le: bool) -> int {
    if le {
        s[i] + s[i + 1] * 256
    } else {
        s[i] * 256 + s[i + 1]
    }
}

/// 32-bit value at `i` in the given byte order.
pub open spec fn rd32_at(s: Seq<u8>, i: int, le: bool) -> int {
    if le {
        s[i] + s[i + 1] * 256 + s[i + 2] * 65536 + s[i + 3] * 16777216
    } else {
        s[i] * 16777216 + s[i + 1] * 65536 + s[i + 2] * 256 + s[i + 3]
    }
}

/// JPEG markers that stand alone, with no length field after them.
pub open spec fn standalone_marker(m: u8) -> bool {
    m == 0x00 || (0xD0 <= m && m <= 0xD9) || m == 0x01
}

/// The identifier that opens an EXIF APP1 segment: `"Exif\0\0"`.
pub open spec fn exif_id() -> Seq<u8> {
    seq![0x45u8, 0x78u8, 0x69u8, 0x66u8, 0x00u8, 0x00u8]
}

/// Walks the entries of IFD0 (`n` entries starting at `base`) from entry `i`
/// on, looking for the orientation tag 0x0112; its value is capped at 8.
pub open spec fn ifd_orientation(t: Seq<u8>, le: bool, base: int, n: int, i: int) -> u8
    decreases n - i,
{
    if i >= n {
        1
    } else {
        let e = base + 12 * i;
        if e + 12 > t.len() {
            1
        } else if rd16_at(t, e, le) == 0x0112 {
            let v = rd16_at(t, e + 8, le);
            if v < 8 {
                v as u8
            } else {
                8
            }
        } else {
            ifd_orientation(t, le, base, n, i + 1)
        }
    }
}

/// The orientation a TIFF header and its IFD0 give; 1 when they are malformed
/// or carry no orientation tag.
pub open spec fn tiff_orientation(t: Seq<u8>) -> u8 {
    if t.len() < 8 {
        1
    } else if !((t[0] == 0x49 && t[1] == 0x49) || (t[0] == 0x4D && t[1] == 0x4D)) {
        1
    } else {
        let le = t[0] == 0x49;
        if rd16_at(t, 2, le) != 0x2A {
            1
        } else {
            let off = rd32_at(t, 4, le);
            if off + 2 > t.len() {
                1
            } else {
                ifd_orientation(t, le, off + 2, rd16_at(t, off, le), 0)
            }
        }
    }
}

/// Walks the marker segments from `pos` looking for the EXIF APP1 segment.
pub open spec fn exif_scan(s: Seq<u8>, pos: int) -> u8
    decreases s.len() - pos,
{
    if pos < 0 || pos + 4 > s.len() {
        1
    } else if s[pos] != 0xFF {
        1
    } else {
        let m = s[pos + 1];
        if m == 0xE1 {
            let seg = be16_at(s, pos + 2);
            if pos + 2 + seg > s.len() {
                1
            } else if seg < 14 {
                1
            } else if s.subrange(pos + 4, pos + 10) != exif_id() {
                1
            } else {
                tiff_orientation(s.subrange(pos + 10, s.len() as int))
            }
        } else if m == 0xD9 {
            1
        } else if standalone_marker(m) {
            exif_scan(s, pos + 2)
        } else {
            let next = pos + 2 + be16_at(s, pos + 2);
            if next > s.len() {
                1
            } else {
                exif_scan(s, next)
            }
        }
    }
}

/// The EXIF orientation (1..=8) of a JPEG stream; 1 (normal) when there is
/// no EXIF data or it cannot be parsed.
pub open spec fn exif_orientation(s: Seq<u8>) -> u8 {
    if s.len() < 20 {
        1
    } else if s[0] != 0xFF || s[1] != 0xD8 {
        1
    } else {
        exif_scan(s, 2)
    }
}

fn rd16(s: &[u8], i: usize, le: bool) -> (r: u16)
    requires
        i + 1 < s@.len(),
    ensures
        r == rd16_at(s@, i as int, le),
{
    let a = s[i] as u16;
    let b = s[i + 1] as u16;
    if le {
        a + b * 256
    } else {
        a * 256 + b
    }
}

fn rd32(s: &[u8], i: usize, le: bool) -> (r: u64)
    requires
        i + 3 < s@.len(),
    ensures
        r == rd32_at(s@, i as int, le),
{
    let a = s[i] as u64;
    let b = s[i + 1] as u64;
    let c = s[i + 2] as u64;
    let d = s[i + 3] as u64;
    if le {
        a + b * 256 + c * 65536 + d * 16777216
    } else {
        a * 16777216 + b * 65536 + c * 256 + d
    }
}

/// Parses the TIFF header that starts at `start` and walks IFD0 for the
/// orientation tag 0x0112 (its value capped at 8); 1 when there is none.
fn parse_tiff_orientation(src: &[u8], start: usize) -> (r: u8)
    requires
        start <= src@.len(),
    ensures
        r == tiff_orientation(src@.subrange(start as int, src@.len() as int)),
{
    let ghost t = src@.subrange(start as int, src@.len() as int);
    let len = src.len();
    if len - start < 8 {
        return 1;
    }
    assert(t[0] == src@[start as int] && t[1] == src@[start + 1]);
    let le = if src[start] == 0x49 && src[start + 1] == 0x49 {
        true
    } else if src[start] == 0x4D && src[start + 1] == 0x4D {
        false
    } else {
        return 1;
    };
    assert(le == (t[0] == 0x49));
    let magic = rd16(src, start + 2, le);
    assert(magic == rd16_at(t, 2, le));
    if magic != 0x2A {
        return 1;
    }
    let off = rd32(src, start + 4, le);
    assert(off == rd32_at(t, 4, le));
    if off + 2 > (len - start) as u64 {
        return 1;
    }
    let off = off as usize;
    let n = rd16(src, start + off, le) as u64;
    assert(n == rd16_at(t, off as int, le));
    let base: u64 = off as u64 + 2;
    let tl: u64 = (len - start) as u64;
    let mut i: u64 = 0;
    while i < n
        invariant
            0 <= i <= n <= 65535,
            base == off + 2,
            base <= tl,
            tl == t.len(),
            t == src@.subrange(start as int, src@.len() as int),
            start + tl == src@.len(),
            len == src@.len(),
            tiff_orientation(t) == ifd_orientation(t, le, base as int, n as int, i as int),
        decreases n - i,
    {
        let step: u64 = 12 * i;
        if step > tl - base {
            return 1;
        }
        let e: u64 = base + step;
        if tl < 12 || e > tl - 12 {
            return 1;
        }
        let ei = start + e as usize;
        let tag = rd16(src, ei, le);
        assert(tag == rd16_at(t, e as int, le));
        if tag == 0x0112 {
            let v = rd16(src, ei + 8, le);
            assert(v == rd16_at(t, e + 8, le));
            return if v < 8 {
                v as u8
            } else {
                8
            };
        }
        i = i + 1;
    }
    1
}

/// Extracts the EXIF orientation tag (0x0112) from a JPEG stream; returns 1
/// (normal) if no EXIF data is found or if parsing fails.
pub fn extract_exif_orientation(src: &[u8]) -> (r: u8)
    ensures
        r == exif_orientation(src@),
{
    let len = src.len();
    if len < 20 {
        return 1;
    }
    if src[0] != 0xFF || src[1] != 0xD8 {
        return 1;
    }
    let mut pos: usize = 2;
    loop
        invariant
            2 <= pos <= len,
            len == src@.len(),
            len >= 20,
            src@[0] == 0xFF && src@[1] == 0xD8,
            exif_orientation(src@) == exif_scan(src@, pos as int),
        decreases len - pos,
    {
        if len - pos < 4 {
            return 1;
        }
        if src[pos] != 0xFF {
            return 1;
        }
        let marker = src[pos + 1];
        if marker == 0xE1 {
            let seg_len = (src[pos + 2] as usize) * 256 + src[pos + 3] as usize;
            if seg_len > len - pos - 2 {
                return 1;
            }
            let exif_start = pos + 4;
            if seg_len < 6 + 8 {
                return 1;
            }
            let is_exif = src[exif_start] == 0x45 && src[exif_start + 1] == 0x78 && src[exif_start + 2] == 0x69
                && src[exif_start + 3] == 0x66 && src[exif_start + 4] == 0x00 && src[exif_start + 5] == 0x00;
            proof {
                let sub = src@.subrange(pos + 4, pos + 10);
                if is_exif {
                    assert(sub =~= exif_id());
                } else {
                    assert(sub != exif_id()) by {
                        if sub == exif_id() {
                            assert(sub[0] == src@[pos + 4]);
                            assert(sub[5] == src@[pos + 9]);
                        }
                    }
                }
            }
            if !is_exif {
                return 1;
            }
            return parse_tiff_orientation(src, exif_start + 6);
        }
        if marker == 0xD9 {
            return 1;
        }
        if marker == 0x00 || (marker >= 0xD0 && marker <= 0xD9) || marker == 0x01 {
            pos = pos + 2;
        } else {
            let seg_len = (src[pos + 2] as usize) * 256 + src[pos + 3] as usize;
            if seg_len > len - pos - 2 {
                return 1;
            }
            pos = pos + 2 + seg_len;
        }
    }
}

/// The clockwise rotation an EXIF orientation calls for: 3 → 180°, 6 → 90°,
/// 8 → 270°, anything else none.
pub open spec fn orientation_rotation(o: u8) -> int {
    if o == 3 {
        180
    } else if o == 6 {
        90
    } else if o == 8 {
        270
    } else {
        0
    }
}

/// Applies the rotation an EXIF orientation calls for to a BGRA buffer.
///
/// Returns `(rotated_data, new_width, new_height)`; orientations 6 and 8 swap
/// the dimensions, orientations other than 3, 6 and 8 return a copy.
pub fn rotate_bgra(data: &[u8], w: u32, h: u32, orientation: u8) -> (r: (Vec<u8>, u32, u32))
    requires
        (orientation == 3 || orientation == 6 || orientation == 8) ==> w * h * 4 <= data@.len(),
    ensures
        (r.0@, r.1, r.2) == rotated(data@, w, h, orientation_rotation(orientation)),
{
    let rotation: i32 = if orientation == 3 {
        180
    } else if orientation == 6 {
        90
    } else if orientation == 8 {
        270
    } else {
        0
    };
    rotate_pixels(data, w, h, rotation)
}

} // verus!
