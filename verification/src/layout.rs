//! Frame layout of multi-frame `.ithmb` files: how many fixed-size frames a
//! file holds, where they start, and the bytes of each frame when it is
//! extracted to a file of its own.

use vstd::prelude::*;
use vstd::string::StrSliceExecFns;
use crate::bytes::{append_range, copy_range};
use crate::photodb::types::{read_u32_be, u32_at};
use crate::profile::{Profile, ProfileSpec, frame_size_of};
use crate::profile_db::{DbSpec, ProfileDb};
use crate::open::be_bytes;
use crate::text::{push_str, push_signed_decimal, signed_decimal, string_of};

verus! {

/// Whether a character is an ASCII digit.
pub open spec fn is_digit(c: char) -> bool {
    '0' <= c && c <= '9'
}

/// The number of ASCII digits in a row at the start of `s`.
pub open spec fn digit_run(s: Seq<char>) -> nat
    decreases s.len(),
{
    if s.len() > 0 && is_digit(s[0]) {
        1 + digit_run(s.drop_first())
    } else {
        0
    }
}

/// The value of a string of ASCII digits.
pub open spec fn digits_value(s: Seq<char>) -> int
    decreases s.len(),
{
    if s.len() == 0 {
        0
    } else {
        digits_value(s.drop_last()) * 10 + (s.last() as int - '0' as int)
    }
}

/// The format ID in a file name of the form `F<digits>…` (such as
/// `F1061_1.ithmb`): the decimal value of the digits after the `F`, if
/// there are any and it fits an `i32`.
pub open spec fn f_format_id(name: Seq<char>) -> Option<i32> {
    if name.len() >= 1 && name[0] == 'F' {
        let n = digit_run(name.drop_first());
        let v = digits_value(name.subrange(1, 1 + n as int));
        if n == 0 || v > i32::MAX {
            None
        } else {
            Some(v as i32)
        }
    } else {
        None
    }
}

proof fn lemma_digit_run(s: Seq<char>, k: int)
    requires
        0 <= k <= digit_run(s),
    ensures
        digit_run(s) <= s.len(),
        forall|j: int| 0 <= j < k ==> is_digit(#[trigger] s[j]),
        k < s.len() && !is_digit(s[k]) ==> digit_run(s) == k,
    decreases s.len(),
{
    if s.len() > 0 && is_digit(s[0]) {
        if k > 0 {
            lemma_digit_run(s.drop_first(), k - 1);
            assert forall|j: int| 0 <= j < k implies is_digit(#[trigger] s[j]) by {
                if j > 0 {
                    assert(s[j] == s.drop_first()[j - 1]);
                }
            }
        } else {
            lemma_digit_run(s.drop_first(), 0);
        }
    }
}

proof fn lemma_digit_run_exact(s: Seq<char>, k: int)
    requires
        0 <= k <= s.len(),
        forall|j: int| 0 <= j < k ==> is_digit(#[trigger] s[j]),
        k == s.len() || !is_digit(s[k]),
    ensures
        digit_run(s) == k,
    decreases k,
{
    if k > 0 {
        assert forall|j: int| 0 <= j < k - 1 implies is_digit(#[trigger] s.drop_first()[j]) by {
            assert(s.drop_first()[j] == s[j + 1]);
        }
        if k < s.len() {
            assert(s.drop_first()[k - 1] == s[k]);
        }
        lemma_digit_run_exact(s.drop_first(), k - 1);
    }
}

proof fn lemma_digits_value_grows(s: Seq<char>, a: int, b: int)
    requires
        0 <= a <= b <= s.len(),
        forall|j: int| 0 <= j < s.len() ==> is_digit(#[trigger] s[j]),
    ensures
        0 <= digits_value(s.subrange(0, a)) <= digits_value(s.subrange(0, b)),
    decreases b - a,
{
    if a < b {
        lemma_digits_value_grows(s, a, b - 1);
        assert(s.subrange(0, b).drop_last() =~= s.subrange(0, b - 1));
        assert(is_digit(s[b - 1]));
    } else {
        lemma_digits_nonneg(s.subrange(0, a));
    }
}

proof fn lemma_digits_nonneg(s: Seq<char>)
    requires
        forall|j: int| 0 <= j < s.len() ==> is_digit(#[trigger] s[j]),
    ensures
        digits_value(s) >= 0,
    decreases s.len(),
{
    if s.len() > 0 {
        assert forall|j: int| 0 <= j < s.drop_last().len() implies is_digit(#[trigger] s.drop_last()[j]) by {
            assert(s.drop_last()[j] == s[j]);
        }
        lemma_digits_nonneg(s.drop_last());
    }
}

/// Parses the format ID from an F-prefixed file name such as
/// `F1061_1.ithmb`: the digits right after the leading `F`. `None` when the
/// name does not start with `F`, no digit follows, or the number does not
/// fit an `i32`.
pub fn f_filename_format_id(name: &str) -> (r: Option<i32>)
    ensures
        r == f_format_id(name@),
{
    let len = name.unicode_len();
    if len < 1 || name.get_char(0) != 'F' {
        return None;
    }
    let ghost rest = name@.drop_first();
    let mut i: usize = 1;
    let mut v: i64 = 0;
    while i < len && '0' <= name.get_char(i) && name.get_char(i) <= '9'
        invariant
            1 <= i <= len,
            len == name@.len(),
            rest == name@.drop_first(),
            name@[0] == 'F',
            forall|j: int| 1 <= j < i ==> is_digit(#[trigger] name@[j]),
            v == digits_value(name@.subrange(1, i as int)),
            0 <= v <= i32::MAX,
        decreases len - i,
    {
        let c = name.get_char(i);
        let d = (c as u32 - '0' as u32) as i64;
        proof {
            assert(name@.subrange(1, i + 1).drop_last() =~= name@.subrange(1, i as int));
        }
        v = v * 10 + d;
        i = i + 1;
        if v > i32::MAX as i64 {
            proof {
                let k = i - 1;
                assert forall|j: int| 0 <= j < k implies is_digit(#[trigger] rest[j]) by {
                    assert(rest[j] == name@[j + 1]);
                }
                lemma_digit_run(rest, 0);
                if k < rest.len() {
                    lemma_full_run_value(name@, rest, k);
                } else {
                    lemma_digit_run_exact(rest, k);
                    assert(name@.subrange(1, 1 + k) =~= name@.subrange(1, i as int));
                }
            }
            return None;
        }
    }
    proof {
        let k = i - 1;
        assert forall|j: int| 0 <= j < k implies is_digit(#[trigger] rest[j]) by {
            assert(rest[j] == name@[j + 1]);
        }
        if k < rest.len() {
            assert(rest[k] == name@[i as int]);
        }
        lemma_digit_run_exact(rest, k);
    }
    if i == 1 {
        return None;
    }
    Some(v as i32)
}

proof fn lemma_full_run_value(name: Seq<char>, rest: Seq<char>, k: int)
    requires
        name.len() >= 1,
        rest == name.drop_first(),
        0 <= k < rest.len(),
        forall|j: int| 0 <= j < k ==> is_digit(#[trigger] rest[j]),
        digits_value(name.subrange(1, 1 + k)) > i32::MAX,
    ensures
        digits_value(name.subrange(1, 1 + digit_run(rest) as int)) > i32::MAX,
{
    let n = digit_run(rest);
    lemma_digit_run(rest, 0);
    lemma_run_at_least(rest, k);
    assert forall|j: int| 0 <= j < n implies is_digit(#[trigger] rest.subrange(0, n as int)[j]) by {
        lemma_digit_run(rest, n as int);
    }
    lemma_digits_value_grows(rest.subrange(0, n as int), k, n as int);
    assert(rest.subrange(0, n as int).subrange(0, k) =~= name.subrange(1, 1 + k));
    assert(rest.subrange(0, n as int).subrange(0, n as int) =~= name.subrange(1, 1 + n as int));
}

proof fn lemma_run_at_least(s: Seq<char>, k: int)
    requires
        0 <= k <= s.len(),
        forall|j: int| 0 <= j < k ==> is_digit(#[trigger] s[j]),
    ensures
        digit_run(s) >= k,
    decreases k,
{
    if k > 0 {
        assert forall|j: int| 0 <= j < k - 1 implies is_digit(#[trigger] s.drop_first()[j]) by {
            assert(s.drop_first()[j] == s[j + 1]);
        }
        lemma_run_at_least(s.drop_first(), k - 1);
    }
}

/// Why the frame layout of a file could not be determined.
#[derive(Debug, Clone, PartialEq, Eq)]
pub enum LayoutError {
    /// The file is shorter than its 4-byte prefix.
    TooShort,
    /// The F-filename names a format ID without a profile.
    UnknownFormatId(i32),
    /// Neither the prefix nor the file name identifies a profile.
    UnknownFormat { path: String, prefix: i32 },
    /// The profile declares a frame size of zero.
    NoFrameSize(i32),
    /// No payload byte follows the prefix.
    TooSmall,
}

impl LayoutError {
    /// The message of this error.
    pub open spec fn text(&self) -> Seq<char> {
        match self {
            LayoutError::TooShort => "file too short: expected at least 4 bytes"@,
            LayoutError::UnknownFormatId(id) => "unknown format prefix "@ + signed_decimal(*id as int)
                + " (from F-filename)"@,
            LayoutError::UnknownFormat { path, prefix } => "cannot determine format of '"@ + path@
                + "': unknown prefix "@ + signed_decimal(*prefix as int),
            LayoutError::NoFrameSize(p) => "profile "@ + signed_decimal(*p as int) + " has no frame size"@,
            LayoutError::TooSmall => "file too small to hold a full frame (0 payload bytes)"@,
        }
    }

    /// The message of this error as a `String`.
    pub fn display_string(&self) -> (r: String)
        ensures
            r@ == self.text(),
    {
        let mut s = String::new();
        match self {
            LayoutError::TooShort => push_str(&mut s, "file too short: expected at least 4 bytes"),
            LayoutError::UnknownFormatId(id) => {
                push_str(&mut s, "unknown format prefix ");
                push_signed_decimal(&mut s, *id as i64);
                push_str(&mut s, " (from F-filename)");
            },
            LayoutError::UnknownFormat { path, prefix } => {
                push_str(&mut s, "cannot determine format of '");
                push_str(&mut s, path.as_str());
                push_str(&mut s, "': unknown prefix ");
                push_signed_decimal(&mut s, *prefix as i64);
            },
            LayoutError::NoFrameSize(p) => {
                push_str(&mut s, "profile ");
                push_signed_decimal(&mut s, *p as i64);
                push_str(&mut s, " has no frame size");
            },
            LayoutError::TooSmall => push_str(&mut s, "file too small to hold a full frame (0 payload bytes)"),
        }
        s
    }
}

/// How the frames of an `.ithmb` file are laid out.
#[derive(Debug)]
pub struct FrameLayout {
    /// Number of frames in the file.
    pub count: usize,
    /// Byte offset of the first frame payload.
    pub data_offset: usize,
    /// Size in bytes of one frame payload.
    pub frame_size: usize,
    /// The 4-byte big-endian format prefix put before each extracted frame.
    pub prefix_bytes: Option<[u8; 4]>,
}

/// The frame payload starting at `start`.
pub open spec fn frame_at(data: Seq<u8>, start: int, size: int) -> Seq<u8> {
    data.subrange(start, start + size)
}

impl FrameLayout {
    /// Payload bytes of frame `index` within the file buffer.
    pub fn frame_bytes<'a>(&self, data: &'a [u8], index: usize) -> (r: &'a [u8])
        requires
            self.data_offset + (index + 1) * self.frame_size <= data@.len(),
        ensures
            r@ == frame_at(data@, self.data_offset + index * self.frame_size, self.frame_size as int),
    {
        let len = data.len();
        assert((index + 1) * self.frame_size == index * self.frame_size + self.frame_size) by (nonlinear_arith);
        assert(0 <= index * self.frame_size) by (nonlinear_arith);
        let start = self.data_offset + index * self.frame_size;
        &data[start..start + self.frame_size]
    }

    /// The bytes of frame `index` as a file of its own: the payload, behind
    /// the format prefix when the layout has one.
    pub fn extracted_bytes(&self, data: &[u8], index: usize) -> (r: Vec<u8>)
        requires
            self.data_offset + (index + 1) * self.frame_size <= data@.len(),
        ensures
            r@ == match self.prefix_bytes {
                Some(p) => p@ + frame_at(data@, self.data_offset + index * self.frame_size, self.frame_size as int),
                None => frame_at(data@, self.data_offset + index * self.frame_size, self.frame_size as int),
            },
    {
        let payload = self.frame_bytes(data, index);
        let n = payload.len();
        match self.prefix_bytes {
            Some(prefix) => {
                let mut out: Vec<u8> = Vec::new();
                out.push(prefix[0]);
                out.push(prefix[1]);
                out.push(prefix[2]);
                out.push(prefix[3]);
                append_range(&mut out, payload, 0, n);
                assert(payload@.subrange(0, n as int) =~= payload@);
                assert(out@ =~= prefix@ + payload@);
                out
            },
            None => {
                let out = copy_range(payload, 0, n);
                assert(payload@.subrange(0, n as int) =~= payload@);
                out
            },
        }
    }
}

/// The frame size a raw layout uses: the profile's, cut to the payload
/// (a negative size counts as unbounded).
pub open spec fn raw_frame_size(p: ProfileSpec, payload: int) -> int {
    let fs = frame_size_of(p);
    if fs < 0 || payload < fs {
        payload
    } else {
        fs as int
    }
}

/// `r` is the raw layout of a `len`-byte file whose frames start at `off`
/// under profile `p`: as many whole frames as fit, behind `p`'s prefix.
pub open spec fn raw_layout_result(p: ProfileSpec, len: int, off: int, r: Result<FrameLayout, LayoutError>) -> bool {
    if frame_size_of(p) == 0 {
        r matches Err(LayoutError::NoFrameSize(x)) && x == p.prefix
    } else if len - off == 0 {
        r matches Err(LayoutError::TooSmall)
    } else {
        let fs = raw_frame_size(p, len - off);
        &&& r is Ok
        &&& r->Ok_0.count == (len - off) / fs
        &&& r->Ok_0.data_offset == off
        &&& r->Ok_0.frame_size == fs
        &&& r->Ok_0.prefix_bytes matches Some(b) && b@ == be_bytes(p.prefix as u32)
    }
}

/// `r` is the frame layout of the file `data` named `name` (shown as
/// `path` in messages): a JPEG stream is one frame; a known 4-byte prefix
/// gives a raw layout after the prefix; otherwise an F-filename's format ID
/// gives a raw layout of prefix-less frames.
pub open spec fn layout_result(
    data: Seq<u8>,
    name: Seq<char>,
    path: Seq<char>,
    db: DbSpec,
    r: Result<FrameLayout, LayoutError>,
) -> bool {
    if data.len() < 4 {
        r matches Err(LayoutError::TooShort)
    } else {
        let prefix = u32_at(data, 0, false) as i32;
        if data[0] == 0xFF && data[1] == 0xD8 {
            &&& r is Ok
            &&& r->Ok_0.count == 1
            &&& r->Ok_0.data_offset == 0
            &&& r->Ok_0.frame_size == data.len()
            &&& r->Ok_0.prefix_bytes is None
        } else if db.table.contains_key(prefix) {
            raw_layout_result(db.table[prefix], data.len() as int, 4, r)
        } else {
            match f_format_id(name) {
                Some(id) => if db.table.contains_key(id) {
                    raw_layout_result(db.table[id], data.len() as int, 0, r)
                } else {
                    r matches Err(LayoutError::UnknownFormatId(x)) && x == id
                },
                None => r matches Err(LayoutError::UnknownFormat { path: p, prefix: q }) && p@ == path && q
                    == prefix,
            }
        }
    }
}

fn raw_layout(profile: &Profile, data: &[u8], data_offset: usize) -> (r: Result<FrameLayout, LayoutError>)
    requires
        data_offset <= data@.len(),
    ensures
        raw_layout_result(profile@, data@.len() as int, data_offset as int, r),
{
    let fs = profile.frame_size();
    if fs == 0 {
        return Err(LayoutError::NoFrameSize(profile.prefix));
    }
    let x = profile.prefix as u32;
    let prefix_bytes: [u8; 4] = [(x >> 24u32) as u8, (x >> 16u32) as u8, (x >> 8u32) as u8, x as u8];
    assert(prefix_bytes@ =~= be_bytes(x));
    let payload_len = data.len() - data_offset;
    if payload_len == 0 {
        return Err(LayoutError::TooSmall);
    }
    let frame_size: usize = if fs < 0 || payload_len < fs as usize {
        payload_len
    } else {
        fs as usize
    };
    let count = payload_len / frame_size;
    Ok(FrameLayout { count, data_offset, frame_size, prefix_bytes: Some(prefix_bytes) })
}

/// Works out how the frames of the file `data` are laid out: a JPEG
/// stream is a single frame; a 4-byte prefix with a profile gives frames
/// of the profile's size after the prefix; otherwise a file named
/// `F<format id>…` gives frames of that format's size from the first byte.
/// `file_name` is the file's name, `path` its path as shown in messages.
///
/// Errors: `TooShort` under 4 bytes, `UnknownFormatId` for an F-filename
/// whose format has no profile, `UnknownFormat` when nothing identifies the
/// format, `NoFrameSize` for a profile of frame size 0, `TooSmall` when no
/// payload byte remains.
pub fn resolve_frame_layout(data: &[u8], file_name: &str, path: &str, db: &ProfileDb) -> (r: Result<
    FrameLayout,
    LayoutError,
>)
    ensures
        layout_result(data@, file_name@, path@, db@, r),
{
    let len = data.len();
    if len < 4 {
        return Err(LayoutError::TooShort);
    }
    let prefix = read_u32_be(data, 0) as i32;
    if data[0] == 0xFF && data[1] == 0xD8 {
        return Ok(FrameLayout { count: 1, data_offset: 0, frame_size: len, prefix_bytes: None });
    }
    match db.get(prefix) {
        Some(profile) => {
            return raw_layout(profile, data, 4);
        },
        None => {},
    }
    match f_filename_format_id(file_name) {
        Some(format_id) => match db.get(format_id) {
            Some(profile) => raw_layout(profile, data, 0),
            None => Err(LayoutError::UnknownFormatId(format_id)),
        },
        None => Err(LayoutError::UnknownFormat { path: string_of(path), prefix }),
    }
}

} // verus!
