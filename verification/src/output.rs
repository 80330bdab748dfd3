//! Command-line decoding helpers: decoding one frame of a multi-frame file
//! and choosing the output format and path.

use vstd::prelude::*;
use vstd::string::StrSliceExecFns;
use std::path::Path;
use std::sync::atomic::AtomicBool;
use crate::bytes::{append_range, copy_range};
use crate::error::{DecodeError, DecodedImage};
use crate::photodb::types::{read_u32_be, u32_at};
use crate::pipeline::{decode_with_profile, profile_decoded};
use crate::profile::{frame_size_of, ProfileSpec};
use crate::profile_db::{DbSpec, ProfileDb};
use crate::profile_parser::profile::lower_char;
use crate::text::{decimal, push_decimal, push_signed_decimal, push_str, signed_decimal};

verus! {

/// Output format selection.
#[derive(Debug, Clone, Copy, PartialEq, Eq)]
pub enum OutputFormat {
    /// Chosen from the output file's extension.
    Auto,
    /// Raw BGRA bytes.
    Bin,
    /// A PNG image.
    Png,
}

/// Why one frame of a file could not be decoded.
#[derive(Debug, Clone, PartialEq, Eq)]
pub enum FrameError {
    /// The file is shorter than its 4-byte prefix.
    TooShort,
    /// A frame past the first was asked of a JPEG stream.
    JpegSingleFrame(usize),
    /// The prefix has no profile.
    UnknownPrefix(i32),
    /// The frame lies past the end of the file.
    OutOfRange { frame: usize, max_frames: usize },
    /// The decoder failed on the frame.
    Decode(DecodeError),
}

impl FrameError {
    /// The message of this error.
    pub open spec fn text(&self) -> Seq<char> {
        match self {
            FrameError::TooShort => "buffer too short: expected at least 4 bytes"@,
            FrameError::JpegSingleFrame(f) => "frame index "@ + decimal(*f as nat)
                + " out of range (JPEG files are single-frame)"@,
            FrameError::UnknownPrefix(p) => "unknown format prefix "@ + signed_decimal(*p as int),
            FrameError::OutOfRange { frame, max_frames } => "frame index "@ + decimal(*frame as nat)
                + " out of range: file has at most "@ + decimal(*max_frames as nat) + " frame(s)"@,
            FrameError::Decode(e) => e.text(),
        }
    }

    /// The message of this error as a `String`.
    pub fn display_string(&self) -> (r: String)
        ensures
            r@ == self.text(),
    {
        match self {
            FrameError::Decode(e) => e.to_display_string(),
            _ => {
                let mut s = String::new();
                match self {
                    FrameError::TooShort => push_str(&mut s, "buffer too short: expected at least 4 bytes"),
                    FrameError::JpegSingleFrame(f) => {
                        push_str(&mut s, "frame index ");
                        push_decimal(&mut s, *f as u64);
                        push_str(&mut s, " out of range (JPEG files are single-frame)");
                    },
                    FrameError::UnknownPrefix(p) => {
                        push_str(&mut s, "unknown format prefix ");
                        push_signed_decimal(&mut s, *p as i64);
                    },
                    FrameError::OutOfRange { frame, max_frames } => {
                        push_str(&mut s, "frame index ");
                        push_decimal(&mut s, *frame as u64);
                        push_str(&mut s, " out of range: file has at most ");
                        push_decimal(&mut s, *max_frames as u64);
                        push_str(&mut s, " frame(s)");
                    },
                    FrameError::Decode(_) => {},
                }
                s
            },
        }
    }
}

/// The most frames of size `fs` a file of `len` bytes holds after its
/// prefix (0 for a size that is not positive).
pub open spec fn max_frames_of(len: int, fs: int) -> int {
    if fs <= 0 {
        0
    } else {
        (len - 4) / fs
    }
}

/// What the decoder is handed for frame `frame` of size `fs`: the file's
/// prefix, then the frame's payload.
pub open spec fn frame_input(data: Seq<u8>, frame: int, fs: int) -> Seq<u8> {
    data.subrange(0, 4) + data.subrange(4 + frame * fs, 4 + (frame + 1) * fs)
}

/// `r` is a possible result of decoding frame `frame` of the file `data`
/// with the profile of its prefix.
pub open spec fn frame_decoded(data: Seq<u8>, frame: usize, db: DbSpec, r: Result<DecodedImage, FrameError>) -> bool {
    if data.len() < 4 {
        r matches Err(FrameError::TooShort)
    } else if data[0] == 0xFF && data[1] == 0xD8 {
        r matches Err(FrameError::JpegSingleFrame(f)) && f == frame
    } else {
        let prefix = u32_at(data, 0, false) as i32;
        if !db.table.contains_key(prefix) {
            r matches Err(FrameError::UnknownPrefix(p)) && p == prefix
        } else {
            let p = db.table[prefix];
            let fs = frame_size_of(p) as int;
            if fs < 0 || 4 + (frame + 1) * fs > data.len() {
                r matches Err(FrameError::OutOfRange { frame: f, max_frames: m }) && f == frame && m
                    == max_frames_of(data.len() as int, fs)
            } else {
                let input = frame_input(data, frame as int, fs);
                match r {
                    Ok(img) => profile_decoded(input, p, 256, None, Ok(img)),
                    Err(FrameError::Decode(e)) => profile_decoded(input, p, 256, None, Err(e)),
                    Err(_) => false,
                }
            }
        }
    }
}

/// Decodes frame `frame` of a multi-frame raw file with the profile of its
/// prefix: the frame's payload behind the file's 4-byte prefix.
///
/// Errors: `TooShort` under 4 bytes, `JpegSingleFrame` for a JPEG stream,
/// `UnknownPrefix` for a prefix without a profile, `OutOfRange` for a frame
/// past the end of the file, and the decoder's errors.
pub fn decode_frame(data: &[u8], frame: usize, db: &ProfileDb) -> (r: Result<DecodedImage, FrameError>)
    ensures
        frame_decoded(data@, frame, db@, r),
{
    let len = data.len();
    if len < 4 {
        return Err(FrameError::TooShort);
    }
    if data[0] == 0xFF && data[1] == 0xD8 {
        return Err(FrameError::JpegSingleFrame(frame));
    }
    let prefix = read_u32_be(data, 0) as i32;
    let profile = match db.get(prefix) {
        Some(p) => p.clone(),
        None => {
            return Err(FrameError::UnknownPrefix(prefix));
        },
    };
    let fs_signed = profile.frame_size();
    if fs_signed < 0 {
        return Err(FrameError::OutOfRange { frame, max_frames: 0 });
    }
    let fs = fs_signed as usize;
    let max_frames = if fs == 0 {
        0
    } else {
        (len - 4) / fs
    };
    assert((frame + 1) * fs == frame * fs + fs) by (nonlinear_arith);
    assert(0 <= frame * fs) by (nonlinear_arith);
    let start = match frame.checked_mul(fs) {
        Some(m) => m.checked_add(4),
        None => None,
    };
    let end = match start {
        Some(o) => o.checked_add(fs),
        None => None,
    };
    let end = match end {
        Some(e) => {
            if e > len {
                return Err(FrameError::OutOfRange { frame, max_frames });
            }
            e
        },
        None => {
            return Err(FrameError::OutOfRange { frame, max_frames });
        },
    };
    let offset = end - fs;
    let mut frame_buf = copy_range(data, 0, 4);
    append_range(&mut frame_buf, data, offset, end);
    let canceled = AtomicBool::new(false);
    match decode_with_profile(frame_buf.as_slice(), &profile, &canceled) {
        Ok(img) => Ok(img),
        Err(e) => Err(FrameError::Decode(e)),
    }
}

/// The frame count `--info` reports for a file of `len` bytes and a
/// profile frame size `fs`: the whole frames after the 4-byte prefix, at
/// least 1 (and 1 for a size that is not positive).
pub open spec fn info_frames(len: int, fs: int) -> int {
    let payload = if len > 4 {
        len - 4
    } else {
        0
    };
    if fs <= 0 || payload / fs < 1 {
        1
    } else {
        payload / fs
    }
}

/// The number of frames `--info` reports for a file of `data_len` bytes
/// under a profile of frame size `frame_size`.
pub fn info_frame_count(data_len: usize, frame_size: i32) -> (r: usize)
    ensures
        r == info_frames(data_len as int, frame_size as int),
{
    let payload = if data_len > 4 {
        data_len - 4
    } else {
        0
    };
    if frame_size <= 0 {
        return 1;
    }
    let q = payload / (frame_size as usize);
    if q < 1 {
        1
    } else {
        q
    }
}

/// The extension is `png` in any letter case.
pub open spec fn png_extension(ext: Seq<char>) -> bool {
    ext.len() == 3 && lower_char(ext[0]) == 'p' && lower_char(ext[1]) == 'n' && lower_char(ext[2]) == 'g'
}

/// Whether an output file extension asks for PNG (`png` in any case).
pub fn is_png_extension(ext: &str) -> (r: bool)
    ensures
        r == png_extension(ext@),
{
    if ext.unicode_len() != 3 {
        return false;
    }
    let a = lower_ascii_char(ext.get_char(0));
    let b = lower_ascii_char(ext.get_char(1));
    let c = lower_ascii_char(ext.get_char(2));
    a == 'p' && b == 'n' && c == 'g'
}

fn lower_ascii_char(c: char) -> (r: char)
    ensures
        r == lower_char(c),
{
    if 'A' <= c && c <= 'Z' {
        ((c as u8) + 32) as char
    } else {
        c
    }
}

/// The index of the last `c` in `s`, or -1.
pub open spec fn last_index(s: Seq<char>, c: char) -> int
    decreases s.len(),
{
    if s.len() == 0 {
        -1
    } else if s.last() == c {
        s.len() - 1
    } else {
        last_index(s.drop_last(), c)
    }
}

/// Where the last component of a path starts: after its last `/`.
pub open spec fn name_start(p: Seq<char>) -> int {
    last_index(p, '/') + 1
}

/// The last component of a path.
pub open spec fn file_name_of(p: Seq<char>) -> Seq<char> {
    p.subrange(name_start(p), p.len() as int)
}

/// The extension of a path: the text after the last `.` of its last
/// component, unless there is none or that dot starts the component.
pub open spec fn ext_of(p: Seq<char>) -> Option<Seq<char>> {
    let name = file_name_of(p);
    let d = last_index(name, '.');
    if d <= 0 {
        None
    } else {
        Some(name.subrange(d + 1, name.len() as int))
    }
}

/// The path with the extension of its last component replaced by `ext`
/// (or `ext` added where it has none): the text before that extension's
/// dot, then `.` and `ext`.
pub open spec fn with_ext_of(p: Seq<char>, ext: Seq<char>) -> Seq<char> {
    let name = file_name_of(p);
    let d = last_index(name, '.');
    let stem_len = if d <= 0 {
        name.len() as int
    } else {
        d
    };
    p.subrange(0, name_start(p) + stem_len) + seq!['.'] + ext
}

/// `Path::extension`: the part of the path's file name after its last
/// dot, if any.
///
/// Trusted: as the documentation of `Path::extension` states, the extension
/// is the part of the file name after its last `.`, and there is none when
/// the file name has no `.` or only a leading one; a path without any dot
/// has none. For a `plain_file_path` the file name is the text after the
/// last `/` on every platform, so the result there is `ext_of`; for other
/// paths, what counts as the file name depends on the platform's path
/// syntax and is left unstated.
#[verifier::external_body]
fn path_extension(path: &str) -> (r: Option<String>)
    ensures
        !path@.contains('.') ==> r is None,
        plain_file_path(path@) ==> match r {
            Some(e) => ext_of(path@) == Some(e@),
            None => ext_of(path@) is None,
        },
{
    Path::new(path).extension().and_then(|e| e.to_str()).map(|e| e.to_owned())
}

/// A path whose last component is plainly a file name on every platform:
/// non-empty, ending in an ASCII letter or digit, with no drive or prefix
/// syntax (`:`, `\\`) and not starting with `//`.
pub open spec fn plain_file_path(p: Seq<char>) -> bool {
    &&& p.len() > 0
    &&& is_ascii_alnum(p.last())
    &&& !p.contains(':')
    &&& !p.contains('\\')
    &&& !(p.len() >= 2 && p[0] == '/' && p[1] == '/')
}

/// An ASCII letter or digit.
pub open spec fn is_ascii_alnum(c: char) -> bool {
    ('a' <= c && c <= 'z') || ('A' <= c && c <= 'Z') || ('0' <= c && c <= '9')
}

/// `Path::with_extension`: the path with its file name's extension
/// replaced (or added).
///
/// `PathBuf::set_extension` panics when the extension holds a path
/// separator, so none may occur in `ext`. Trusted: as the documentation of
/// `with_extension` / `set_extension` states, the path is cut after its file
/// stem (the file name without its extension) and `.` and `ext` are
/// appended. For a `plain_file_path` the file name is the text after the
/// last `/` on every platform, so the result there is `with_ext_of`; for
/// other paths it depends on the platform's path syntax and is left
/// unstated.
#[verifier::external_body]
fn path_with_extension(path: &str, ext: &str) -> (r: String)
    requires
        ext@.len() > 0,
        !ext@.contains('/'),
        !ext@.contains('\\'),
    ensures
        plain_file_path(path@) ==> r@ == with_ext_of(path@, ext@),
{
    Path::new(path).with_extension(ext).to_string_lossy().into_owned()
}

/// The format choice for a known output extension: never PNG for raw
/// output, always for `Png`, never for `Bin`, and for `Auto` only when the
/// extension is `png` (in any case).
pub open spec fn png_chosen(ext: Option<Seq<char>>, format: OutputFormat, raw: bool) -> bool {
    if raw {
        false
    } else {
        match format {
            OutputFormat::Png => true,
            OutputFormat::Bin => false,
            OutputFormat::Auto => ext matches Some(e) && png_extension(e),
        }
    }
}

/// Decides from the output file's extension whether PNG encoding is used.
pub fn use_png_for_extension(ext: Option<&str>, format: OutputFormat, raw: bool) -> (r: bool)
    ensures
        r == png_chosen(
            match ext {
                Some(e) => Some(e@),
                None => None,
            },
            format,
            raw,
        ),
{
    if raw {
        return false;
    }
    match format {
        OutputFormat::Png => true,
        OutputFormat::Bin => false,
        OutputFormat::Auto => match ext {
            Some(e) => is_png_extension(e),
            None => false,
        },
    }
}

/// Decides whether the output at `output` (if known) is PNG-encoded:
/// never for raw output, always for `Png`, never for `Bin`, and for `Auto`
/// when the output path's extension is `png` in any case.
pub fn should_use_png(output: Option<&str>, format: OutputFormat, raw: bool) -> (r: bool)
    ensures
        output is None ==> r == png_chosen(None, format, raw),
        output matches Some(o) && !o@.contains('.') ==> r == png_chosen(None, format, raw),
        match output {
            Some(o) => plain_file_path(o@) ==> r == png_chosen(ext_of(o@), format, raw),
            None => true,
        },
        exists|ext: Option<Seq<char>>| r == #[trigger] png_chosen(ext, format, raw),
        raw ==> !r,
        !raw && format == OutputFormat::Png ==> r,
        format == OutputFormat::Bin ==> !r,
{
    let ext = match output {
        Some(p) => path_extension(p),
        None => None,
    };
    let r = match &ext {
        Some(e) => use_png_for_extension(Some(e.as_str()), format, raw),
        None => use_png_for_extension(None, format, raw),
    };
    assert(r == png_chosen(
        match ext {
            Some(e) => Some(e@),
            None => None,
        },
        format,
        raw,
    ));
    r
}

/// The extension of an output file written without an output path:
/// `png` where PNG is chosen without one, else `bin`.
pub open spec fn default_output_extension(format: OutputFormat, raw: bool) -> Seq<char> {
    if png_chosen(None, format, raw) {
        "png"@
    } else {
        "bin"@
    }
}

/// The extension given to the input path when no output path is given:
/// `png` where [`should_use_png`] chooses PNG without an output path, else
/// `bin`.
pub fn output_extension(format: OutputFormat, raw: bool) -> (r: &'static str)
    ensures
        r@ == default_output_extension(format, raw),
{
    if should_use_png(None, format, raw) {
        "png"
    } else {
        "bin"
    }
}

/// The output path: the one given, else the input path with its extension
/// replaced by `png` or `bin` as [`should_use_png`] decides without an
/// output path.
pub fn resolve_output_path(input: &str, output: Option<&str>, format: OutputFormat, raw: bool) -> (r: String)
    ensures
        output matches Some(o) ==> r@ == o@,
        output is None && plain_file_path(input@) ==> r@ == with_ext_of(input@, default_output_extension(format, raw)),
{
    match output {
        Some(o) => crate::text::string_of(o),
        None => {
            let ext = output_extension(format, raw);
            proof {
                reveal_strlit("png");
                reveal_strlit("bin");
                assert(ext@.len() == 3 && !ext@.contains('/') && !ext@.contains('\\')) by {
                    if ext@ == "png"@ {
                        assert(ext@ =~= seq!['p', 'n', 'g']);
                    } else {
                        assert(ext@ =~= seq!['b', 'i', 'n']);
                    }
                }
            }
            path_with_extension(input, ext)
        },
    }
}

} // verus!
