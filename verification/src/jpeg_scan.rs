//! Embedded JPEG scanning: finds a JPEG stream (SOI to EOI) inside a buffer,
//! accepting an SOI only when a JFIF or Exif marker follows it closely.

use vstd::prelude::*;
use std::sync::atomic::AtomicBool;
use crate::pixel_utils::is_canceled;

verus! {

/// The bytes of the JFIF marker, null terminator included.
pub open spec fn jfif_marker() -> Seq<u8> {
    seq![0x4Au8, 0x46u8, 0x49u8, 0x46u8, 0x00u8]
}

/// The bytes of the Exif marker, nulls included.
pub open spec fn exif_marker() -> Seq<u8> {
    seq![0x45u8, 0x78u8, 0x69u8, 0x66u8, 0x00u8, 0x00u8]
}

/// `pat` occurs in `s` starting somewhere in `[a, e - pat.len()]`.
pub open spec fn occurs_in(s: Seq<u8>, a: int, e: int, pat: Seq<u8>) -> bool {
    exists|i: int| a <= i && i + pat.len() <= e && #[trigger] s.subrange(i, i + pat.len()) == pat
}

/// The end of the marker window after an SOI at `soi`: `window` bytes on,
/// cut at `lim`.
pub open spec fn window_end(soi: int, window: usize, lim: int) -> int {
    if soi + window < lim {
        soi + window
    } else {
        lim
    }
}

/// A JFIF or Exif marker lies in the window after the SOI at `soi`.
pub open spec fn marker_near(s: Seq<u8>, soi: int, window: usize, lim: int) -> bool {
    let e = window_end(soi, window, lim);
    occurs_in(s, soi, e, jfif_marker()) || occurs_in(s, soi, e, exif_marker())
}

/// The first position `i` at or after `from` with `s[i] == a` and
/// `s[i + 1] == b`, both below `lim`.
pub open spec fn find_pair(s: Seq<u8>, from: int, lim: int, a: u8, b: u8) -> Option<int>
    decreases lim - from,
{
    if from < 0 || from + 1 >= lim || lim > s.len() {
        None
    } else if s[from] == a && s[from + 1] == b {
        Some(from)
    } else {
        find_pair(s, from + 1, lim, a, b)
    }
}

/// A pair found by `find_pair` lies at or after `from`.
pub proof fn lemma_find_pair(s: Seq<u8>, from: int, lim: int, a: u8, b: u8)
    ensures
        find_pair(s, from, lim, a, b) matches Some(i) ==> from <= i && i + 1 < lim && s[i] == a && s[i + 1] == b,
    decreases lim - from,
{
    if !(from < 0 || from + 1 >= lim || lim > s.len()) && !(s[from] == a && s[from + 1] == b) {
        lemma_find_pair(s, from + 1, lim, a, b);
    }
}

/// The embedded JPEG stream found by scanning the first `lim` bytes from
/// `from` on: the range from an SOI (`FF D8`) with a marker in its window
/// to the end of the first EOI (`FF D9`) after it anywhere in `s`.
pub open spec fn embedded_jpeg(s: Seq<u8>, lim: int, window: usize, from: int) -> Option<(int, int)>
    decreases lim - from,
{
    match find_pair(s, from, lim, 0xFF, 0xD8) {
        None => None,
        Some(soi) => {
            proof {
                lemma_find_pair(s, from, lim, 0xFF, 0xD8);
            }
            let eoi = find_pair(s, soi + 2, s.len() as int, 0xFF, 0xD9);
            if marker_near(s, soi, window, lim) && eoi is Some {
                Some((soi, eoi->0 + 2))
            } else {
                embedded_jpeg(s, lim, window, soi + 2)
            }
        },
    }
}

/// A stream found by `embedded_jpeg` is a range of `s` at or after `from`
/// that starts with an SOI marker (with a JFIF or Exif marker close behind)
/// and ends with an EOI marker.
pub proof fn lemma_embedded_jpeg_range(s: Seq<u8>, lim: int, window: usize, from: int)
    ensures
        embedded_jpeg(s, lim, window, from) matches Some((a, e)) ==> {
            &&& from <= a
            &&& a + 4 <= e <= s.len()
            &&& s[a] == 0xFF && s[a + 1] == 0xD8
            &&& s[e - 2] == 0xFF && s[e - 1] == 0xD9
            &&& marker_near(s, a, window, lim)
        },
    decreases lim - from,
{
    lemma_find_pair(s, from, lim, 0xFF, 0xD8);
    match find_pair(s, from, lim, 0xFF, 0xD8) {
        None => {},
        Some(soi) => {
            lemma_find_pair(s, soi + 2, s.len() as int, 0xFF, 0xD9);
            lemma_embedded_jpeg_range(s, lim, window, soi + 2);
        },
    }
}

/// The number of SOI markers that the scan of the first `lim` bytes from
/// `from` on passes over (no marker in the window, or no EOI after them)
/// before it finds the stream or runs out of SOI markers.
pub open spec fn rejected_sois(s: Seq<u8>, lim: int, window: usize, from: int) -> nat
    decreases lim - from,
{
    match find_pair(s, from, lim, 0xFF, 0xD8) {
        None => 0,
        Some(soi) => {
            proof {
                lemma_find_pair(s, from, lim, 0xFF, 0xD8);
            }
            let eoi = find_pair(s, soi + 2, s.len() as int, 0xFF, 0xD9);
            if marker_near(s, soi, window, lim) && eoi is Some {
                0
            } else {
                1 + rejected_sois(s, lim, window, soi + 2)
            }
        },
    }
}

/// The scan reads the cancellation flag only after passing over SOI
/// markers, once every `interval` scanned bytes (two per SOI): with
/// `rejected` of them passed over before the stream, it reads the flag
/// before finding the stream exactly when this is false.
pub open spec fn found_before_flag_read(rejected: nat, interval: usize) -> bool {
    rejected == 0 || 2 * rejected < interval
}

/// The scan limit: the buffer length cut at `limit`.
pub open spec fn scan_limit(len: int, limit: usize) -> int {
    if len < limit {
        len
    } else {
        limit as int
    }
}

fn occurs_at(src: &[u8], i: usize, pat: &[u8]) -> (r: bool)
    requires
        i + pat@.len() <= src@.len(),
    ensures
        r == (src@.subrange(i as int, i + pat@.len()) == pat@),
{
    let n = pat.len();
    let len = src.len();
    let mut k: usize = 0;
    while k < n
        invariant
            0 <= k <= n,
            n == pat@.len(),
            len == src@.len(),
            i + n <= src@.len(),
            forall|j: int| 0 <= j < k ==> src@[i + j] == pat@[j],
        decreases n - k,
    {
        if src[i + k] != pat[k] {
            assert(src@.subrange(i as int, i + n)[k as int] != pat@[k as int]);
            return false;
        }
        k = k + 1;
    }
    assert(src@.subrange(i as int, i + n) =~= pat@);
    true
}

fn occurs_between(src: &[u8], a: usize, e: usize, pat: &[u8]) -> (r: bool)
    requires
        a <= e <= src@.len(),
        pat@.len() > 0,
    ensures
        r == occurs_in(src@, a as int, e as int, pat@),
{
    let n = pat.len();
    if e - a < n {
        return false;
    }
    let mut i = a;
    while i <= e - n
        invariant
            a <= i,
            n <= e,
            e <= src@.len(),
            n == pat@.len(),
            n > 0,
            forall|j: int| a <= j < i ==> #[trigger] src@.subrange(j, j + n) != pat@,
        decreases e - i,
    {
        if occurs_at(src, i, pat) {
            return true;
        }
        i = i + 1;
    }
    assert forall|j: int| a <= j && j + n <= e implies #[trigger] src@.subrange(j, j + n) != pat@ by {}
    false
}

/// Checks whether a JFIF or Exif marker lies within `jfif_exif_scan_window`
/// bytes after the SOI at `soi_pos` (cut at the end of `src`).
pub fn has_jpeg_marker(src: &[u8], soi_pos: usize, jfif_exif_scan_window: usize) -> (r: bool)
    requires
        soi_pos <= src@.len(),
    ensures
        r == marker_near(src@, soi_pos as int, jfif_exif_scan_window, src@.len() as int),
{
    has_jpeg_marker_within(src, soi_pos, jfif_exif_scan_window, src.len())
}

fn find_pair_from(src: &[u8], from: usize, lim: usize, a: u8, b: u8) -> (r: Option<usize>)
    requires
        lim <= src@.len(),
    ensures
        match find_pair(src@, from as int, lim as int, a, b) {
            Some(i) => r == Some(i as usize),
            None => r is None,
        },
{
    let mut i = from;
    while i < lim && lim - i >= 2
        invariant
            from <= i,
            lim <= src@.len(),
            find_pair(src@, from as int, lim as int, a, b) == find_pair(src@, i as int, lim as int, a, b),
        decreases lim - i,
    {
        if src[i] == a && src[i + 1] == b {
            return Some(i);
        }
        i = i + 1;
    }
    None
}

/// Scans the first `jpeg_scan_limit` bytes of `src` for an embedded JPEG
/// stream: an SOI (`FF D8`) with a JFIF or Exif marker within
/// `jfif_exif_scan_window` bytes, up to the end of the first EOI (`FF D9`)
/// after it. Returns the stream's range `(start, end)`.
///
/// The cancellation flag is read every `cancel_check_interval` scanned bytes;
/// once it is set the scan gives up and returns `None`. Where the stream is
/// reached before the flag is first read, it is always returned.
pub fn scan_for_embedded_jpeg(
    src: &[u8],
    canceled: &AtomicBool,
    jpeg_scan_limit: usize,
    cancel_check_interval: usize,
    jfif_exif_scan_window: usize,
) -> (r: Option<(usize, usize)>)
    ensures
        r matches Some((a, e)) ==> embedded_jpeg(
            src@,
            scan_limit(src@.len() as int, jpeg_scan_limit),
            jfif_exif_scan_window,
            0,
        ) == Some((a as int, e as int)),
        embedded_jpeg(src@, scan_limit(src@.len() as int, jpeg_scan_limit), jfif_exif_scan_window, 0) is None
            ==> r is None,
        found_before_flag_read(
            rejected_sois(src@, scan_limit(src@.len() as int, jpeg_scan_limit), jfif_exif_scan_window, 0),
            cancel_check_interval,
        ) ==> match embedded_jpeg(src@, scan_limit(src@.len() as int, jpeg_scan_limit), jfif_exif_scan_window, 0) {
            Some((a, e)) => r == Some((a as usize, e as usize)),
            None => r is None,
        },
{
    let len = src.len();
    let lim = if len < jpeg_scan_limit {
        len
    } else {
        jpeg_scan_limit
    };
    let ghost target = embedded_jpeg(src@, lim as int, jfif_exif_scan_window, 0);
    let ghost rejected_total = rejected_sois(src@, lim as int, jfif_exif_scan_window, 0);
    let mut search_start: usize = 0;
    let mut since_check: usize = 0;
    let ghost mut passed: nat = 0;
    loop
        invariant
            lim <= len,
            len == src@.len(),
            lim == scan_limit(src@.len() as int, jpeg_scan_limit),
            search_start <= lim,
            target == embedded_jpeg(src@, lim as int, jfif_exif_scan_window, 0),
            target == embedded_jpeg(src@, lim as int, jfif_exif_scan_window, search_start as int),
            rejected_total == rejected_sois(src@, lim as int, jfif_exif_scan_window, 0),
            rejected_total == passed + rejected_sois(src@, lim as int, jfif_exif_scan_window, search_start as int),
            since_check <= 2 * passed,
        decreases lim - search_start,
    {
        let soi = match find_pair_from(src, search_start, lim, 0xFF, 0xD8) {
            Some(s) => s,
            None => {
                return None;
            },
        };
        proof {
            lemma_find_pair(src@, search_start as int, lim as int, 0xFF, 0xD8);
        }
        let eoi = find_pair_from(src, soi + 2, len, 0xFF, 0xD9);
        proof {
            lemma_find_pair(src@, soi + 2, len as int, 0xFF, 0xD9);
        }
        if has_jpeg_marker_within(src, soi, jfif_exif_scan_window, lim) {
            match eoi {
                Some(e) => {
                    return Some((soi, e + 2));
                },
                None => {},
            }
        }
        search_start = soi + 2;
        proof {
            passed = passed + 1;
        }
        since_check = if since_check < usize::MAX - 2 { since_check + 2 } else { usize::MAX };
        if since_check >= cancel_check_interval {
            if is_canceled(canceled) {
                return None;
            }
            since_check = 0;
        }
    }
}

/// Checks for a JFIF or Exif marker after the SOI at `soi`, within the
/// first `lim` bytes of `src`.
fn has_jpeg_marker_within(src: &[u8], soi: usize, window: usize, lim: usize) -> (r: bool)
    requires
        soi <= lim <= src@.len(),
    ensures
        r == marker_near(src@, soi as int, window, lim as int),
{
    let end = if window < lim - soi {
        soi + window
    } else {
        lim
    };
    let jfif: [u8; 5] = [0x4A, 0x46, 0x49, 0x46, 0x00];
    let exif: [u8; 6] = [0x45, 0x78, 0x69, 0x66, 0x00, 0x00];
    assert(jfif@ =~= jfif_marker());
    assert(exif@ =~= exif_marker());
    occurs_between(src, soi, end, jfif.as_slice()) || occurs_between(src, soi, end, exif.as_slice())
}

} // verus!
