//! The profile-JSON grammar as mathematical functions over the input bytes:
//! each takes the bytes and a position and gives the value read and the
//! position after it, or an error.

use vstd::prelude::*;
use vstd::utf8::{valid_first_scalar, length_of_first_scalar, decode_first_scalar};
use crate::profile::{Encoding, ProfileSpec, default_profile};

verus! {

/// Why a profile document was rejected.
pub enum JsonError {
    /// The text does not follow the grammar (or a number does not fit).
    Syntax,
    /// The array holds more than the maximum number of profile objects.
    TooManyProfiles,
}

/// Maximum number of profile objects in one document.
pub const MAX_PROFILES: usize = 100;

/// The byte at `p`, if `p` is inside the input.
pub open spec fn byte_at(b: Seq<u8>, p: int) -> Option<u8> {
    if 0 <= p < b.len() {
        Some(b[p])
    } else {
        None
    }
}

/// JSON whitespace: space, tab, newline, carriage return.
pub open spec fn is_ws(c: u8) -> bool {
    c == 0x20 || c == 0x09 || c == 0x0A || c == 0x0D
}

/// The first position at or after `p` that does not hold whitespace.
pub open spec fn ws_end(b: Seq<u8>, p: int) -> int
    decreases b.len() - p,
{
    if 0 <= p < b.len() && is_ws(b[p]) {
        ws_end(b, p + 1)
    } else {
        p
    }
}

/// Skipping whitespace moves forward and stays inside the input.
pub proof fn lemma_ws_end(b: Seq<u8>, p: int)
    ensures
        ws_end(b, p) >= p,
        p <= b.len() ==> ws_end(b, p) <= b.len(),
    decreases b.len() - p,
{
    if 0 <= p < b.len() && is_ws(b[p]) {
        lemma_ws_end(b, p + 1);
    }
}

/// The value of a hexadecimal digit (either case).
pub open spec fn hex_digit(c: u8) -> Option<u32> {
    if 0x30 <= c <= 0x39 {
        Some((c - 0x30) as u32)
    } else if 0x61 <= c <= 0x66 {
        Some((c - 0x61 + 10) as u32)
    } else if 0x41 <= c <= 0x46 {
        Some((c - 0x41 + 10) as u32)
    } else {
        None
    }
}

/// Four hexadecimal digits at `p`.
pub open spec fn hex4_at(b: Seq<u8>, p: int) -> Result<(u32, int), JsonError> {
    if p < 0 || p + 4 > b.len() {
        Err(JsonError::Syntax)
    } else {
        match (hex_digit(b[p]), hex_digit(b[p + 1]), hex_digit(b[p + 2]), hex_digit(b[p + 3])) {
            (Some(h0), Some(h1), Some(h2), Some(h3)) => Ok(((h0 * 4096 + h1 * 256 + h2 * 16 + h3) as u32, p + 4)),
            _ => Err(JsonError::Syntax),
        }
    }
}

/// The character of a one-letter escape (`\"`, `\\`, `\/`, `\b`, `\f`, `\n`,
/// `\r`, `\t`).
pub open spec fn simple_escape(e: u8) -> Option<char> {
    if e == 0x22 {
        Some('"')
    } else if e == 0x5C {
        Some('\\')
    } else if e == 0x2F {
        Some('/')
    } else if e == 0x62 {
        Some('\u{0008}')
    } else if e == 0x66 {
        Some('\u{000C}')
    } else if e == 0x6E {
        Some('\n')
    } else if e == 0x72 {
        Some('\r')
    } else if e == 0x74 {
        Some('\t')
    } else {
        None
    }
}

/// The character with code point `code`, if it is a Unicode scalar value.
pub open spec fn scalar_of(code: u32) -> Option<char> {
    if code < 0xD800 || (0xE000 <= code && code <= 0x10FFFF) {
        Some(code as char)
    } else {
        None
    }
}

/// A single-byte character allowed unescaped in a string: printable ASCII.
/// (Bytes from 0x80 up start a UTF-8 sequence, kept as the character it
/// encodes.)
pub open spec fn plain_string_byte(c: u8) -> bool {
    0x20 <= c && c <= 0x7E
}

/// The rest of a string from `p` (after the opening quote), with the
/// characters read so far `acc`: the characters and the position after the
/// closing quote.
pub open spec fn string_body(b: Seq<u8>, p: int, acc: Seq<char>) -> Result<(Seq<char>, int), JsonError>
    decreases b.len() - p,
{
    if p < 0 || p >= b.len() {
        Err(JsonError::Syntax)
    } else {
        let c = b[p];
        if c == 0x22 {
            Ok((acc, p + 1))
        } else if c == 0x5C {
            if p + 1 >= b.len() {
                Err(JsonError::Syntax)
            } else {
                let e = b[p + 1];
                match simple_escape(e) {
                    Some(ch) => string_body(b, p + 2, acc.push(ch)),
                    None => if e == 0x75 {
                        match hex4_at(b, p + 2) {
                            Ok((code, q)) => match scalar_of(code) {
                                Some(ch) => string_body(b, q, acc.push(ch)),
                                None => Err(JsonError::Syntax),
                            },
                            Err(x) => Err(x),
                        }
                    } else {
                        Err(JsonError::Syntax)
                    },
                }
            }
        } else if plain_string_byte(c) {
            string_body(b, p + 1, acc.push(c as char))
        } else if c >= 0x80 {
            let rest = b.subrange(p, b.len() as int);
            if valid_first_scalar(rest) {
                string_body(b, p + length_of_first_scalar(rest), acc.push(decode_first_scalar(rest) as char))
            } else {
                Err(JsonError::Syntax)
            }
        } else {
            Err(JsonError::Syntax)
        }
    }
}

/// A string at `p` (starting with its opening quote).
pub open spec fn json_string(b: Seq<u8>, p: int) -> Result<(Seq<char>, int), JsonError> {
    if byte_at(b, p) == Some(0x22u8) {
        string_body(b, p + 1, seq![])
    } else {
        Err(JsonError::Syntax)
    }
}

/// An ASCII decimal digit.
pub open spec fn is_digit(c: u8) -> bool {
    0x30 <= c && c <= 0x39
}

/// The first position at or after `q` that does not hold a digit.
pub open spec fn digits_end(b: Seq<u8>, q: int) -> int
    decreases b.len() - q,
{
    if 0 <= q < b.len() && is_digit(b[q]) {
        digits_end(b, q + 1)
    } else {
        q
    }
}

/// The decimal value of the digits in `[q, e)`.
pub open spec fn digits_value(b: Seq<u8>, q: int, e: int) -> int
    decreases e - q,
{
    if e <= q {
        0
    } else {
        digits_value(b, q, e - 1) * 10 + (b[e - 1] - 0x30)
    }
}

/// An integer at `p` after whitespace: an optional minus sign and at least
/// one digit, whose value fits an `i32`.
pub open spec fn json_number(b: Seq<u8>, p: int) -> Result<(i32, int), JsonError> {
    let s = ws_end(b, p);
    if s < 0 || s >= b.len() {
        Err(JsonError::Syntax)
    } else {
        let neg = b[s] == 0x2D;
        let q = if neg {
            s + 1
        } else {
            s
        };
        if !(q < b.len() && is_digit(b[q])) {
            Err(JsonError::Syntax)
        } else {
            let e = digits_end(b, q);
            let m = digits_value(b, q, e);
            let v = if neg {
                -m
            } else {
                m
            };
            if i32::MIN <= v && v <= i32::MAX {
                Ok((v as i32, e))
            } else {
                Err(JsonError::Syntax)
            }
        }
    }
}

/// The bytes `w` occur at `p`.
pub open spec fn word_at(b: Seq<u8>, p: int, w: Seq<u8>) -> bool {
    0 <= p && p + w.len() <= b.len() && b.subrange(p, p + w.len()) == w
}

/// The bytes of `true`.
pub open spec fn true_word() -> Seq<u8> {
    seq![0x74u8, 0x72u8, 0x75u8, 0x65u8]
}

/// The bytes of `false`.
pub open spec fn false_word() -> Seq<u8> {
    seq![0x66u8, 0x61u8, 0x6Cu8, 0x73u8, 0x65u8]
}

/// The bytes of `null`.
pub open spec fn null_word() -> Seq<u8> {
    seq![0x6Eu8, 0x75u8, 0x6Cu8, 0x6Cu8]
}

/// A boolean at `p` after whitespace.
pub open spec fn json_bool(b: Seq<u8>, p: int) -> Result<(bool, int), JsonError> {
    let s = ws_end(b, p);
    if s >= b.len() {
        Err(JsonError::Syntax)
    } else if word_at(b, s, true_word()) {
        Ok((true, s + 4))
    } else if word_at(b, s, false_word()) {
        Ok((false, s + 5))
    } else {
        Err(JsonError::Syntax)
    }
}

/// A `null` at `p` after whitespace.
pub open spec fn json_null(b: Seq<u8>, p: int) -> Result<int, JsonError> {
    let s = ws_end(b, p);
    if word_at(b, s, null_word()) {
        Ok(s + 4)
    } else {
        Err(JsonError::Syntax)
    }
}

/// Skipping any value at `p` after whitespace: the position after it.
pub open spec fn skip_value_at(b: Seq<u8>, p: int) -> Result<int, JsonError>
    decreases b.len() - p, 1int,
{
    if p < 0 || p > b.len() {
        Err(JsonError::Syntax)
    } else {
        let s = ws_end(b, p);
        proof {
            lemma_ws_end(b, p);
        }
        match byte_at(b, s) {
            None => Err(JsonError::Syntax),
            Some(c) => if c == 0x22 {
                match json_string(b, s) {
                    Ok((_, q)) => Ok(q),
                    Err(e) => Err(e),
                }
            } else if c == 0x74 || c == 0x66 {
                match json_bool(b, s) {
                    Ok((_, q)) => Ok(q),
                    Err(e) => Err(e),
                }
            } else if c == 0x6E {
                json_null(b, s)
            } else if c == 0x5B {
                skip_array_at(b, s)
            } else if c == 0x7B {
                skip_object_at(b, s)
            } else if c == 0x2D || is_digit(c) {
                match json_number(b, s) {
                    Ok((_, q)) => Ok(q),
                    Err(e) => Err(e),
                }
            } else {
                Err(JsonError::Syntax)
            },
        }
    }
}

/// The position after an optional comma at `t`.
pub open spec fn after_comma(b: Seq<u8>, t: int) -> int {
    if byte_at(b, t) == Some(0x2Cu8) {
        t + 1
    } else {
        t
    }
}

/// Skipping an array at `p` (starting with its `[`).
pub open spec fn skip_array_at(b: Seq<u8>, p: int) -> Result<int, JsonError>
    decreases b.len() - p, 0int,
{
    if p < 0 || p >= b.len() || b[p] != 0x5B {
        Err(JsonError::Syntax)
    } else {
        skip_array_items(b, p + 1)
    }
}

/// Skipping the rest of an array from `p`: values, each optionally followed
/// by a comma, up to the closing `]`.
pub open spec fn skip_array_items(b: Seq<u8>, p: int) -> Result<int, JsonError>
    decreases b.len() - p, 2int,
{
    if p < 0 || p > b.len() {
        Err(JsonError::Syntax)
    } else {
        let s = ws_end(b, p);
        proof {
            lemma_ws_end(b, p);
        }
        if byte_at(b, s) == Some(0x5Du8) {
            Ok(s + 1)
        } else {
            match skip_value_at(b, s) {
                Err(e) => Err(e),
                Ok(q) => if q <= p || q > b.len() {
                    Err(JsonError::Syntax)
                } else {
                    proof {
                        lemma_ws_end(b, q);
                    }
                    skip_array_items(b, after_comma(b, ws_end(b, q)))
                },
            }
        }
    }
}

/// Skipping an object at `p` (starting with its `{`).
pub open spec fn skip_object_at(b: Seq<u8>, p: int) -> Result<int, JsonError>
    decreases b.len() - p, 0int,
{
    if p < 0 || p >= b.len() || b[p] != 0x7B {
        Err(JsonError::Syntax)
    } else {
        skip_object_items(b, p + 1)
    }
}

/// Skipping the rest of an object from `p`: `"key": value` members, each
/// optionally followed by a comma, up to the closing `}`.
pub open spec fn skip_object_items(b: Seq<u8>, p: int) -> Result<int, JsonError>
    decreases b.len() - p, 2int,
{
    if p < 0 || p > b.len() {
        Err(JsonError::Syntax)
    } else {
        let s = ws_end(b, p);
        proof {
            lemma_ws_end(b, p);
        }
        if byte_at(b, s) == Some(0x7Du8) {
            Ok(s + 1)
        } else {
            match json_string(b, s) {
                Err(e) => Err(e),
                Ok((_, q)) => if q <= s || q > b.len() {
                    Err(JsonError::Syntax)
                } else {
                    let t = ws_end(b, q);
                    proof {
                        lemma_ws_end(b, q);
                    }
                    if byte_at(b, t) != Some(0x3Au8) {
                        Err(JsonError::Syntax)
                    } else {
                        match skip_value_at(b, t + 1) {
                            Err(e) => Err(e),
                            Ok(q2) => if q2 <= p || q2 > b.len() {
                                Err(JsonError::Syntax)
                            } else {
                                proof {
                                    lemma_ws_end(b, q2);
                                }
                                skip_object_items(b, after_comma(b, ws_end(b, q2)))
                            },
                        }
                    }
                },
            }
        }
    }
}

/// ASCII letters of `s` in lower case; other characters unchanged.
pub open spec fn ascii_lower(s: Seq<char>) -> Seq<char> {
    s.map_values(|c: char| if 'A' <= c && c <= 'Z' { ((c as u32) + 32) as char } else { c })
}

/// The encoding an encoding name (any ASCII case) stands for.
pub open spec fn encoding_named(s: Seq<char>) -> Option<Encoding> {
    let l = ascii_lower(s);
    if l == "rgb565"@ {
        Some(Encoding::Rgb565)
    } else if l == "rgb555"@ {
        Some(Encoding::Rgb555)
    } else if l == "reorderedrgb555"@ {
        Some(Encoding::ReorderedRgb555)
    } else if l == "yuv422"@ {
        Some(Encoding::Yuv422)
    } else if l == "ycbcr420"@ {
        Some(Encoding::Ycbcr420)
    } else if l == "jpeg"@ {
        Some(Encoding::Jpeg)
    } else {
        None
    }
}

/// An encoding name string at `p`.
pub open spec fn json_encoding(b: Seq<u8>, p: int) -> Result<(Encoding, int), JsonError> {
    match json_string(b, p) {
        Err(e) => Err(e),
        Ok((s, q)) => match encoding_named(s) {
            Some(e) => Ok((e, q)),
            None => Err(JsonError::Syntax),
        },
    }
}

/// The rest of an encoding array from `p`, with the encodings read so far.
pub open spec fn encoding_items(b: Seq<u8>, p: int, acc: Seq<Encoding>) -> Result<(Seq<Encoding>, int), JsonError>
    decreases b.len() - p,
{
    if p < 0 || p > b.len() {
        Err(JsonError::Syntax)
    } else {
        let s = ws_end(b, p);
        if byte_at(b, s) == Some(0x5Du8) {
            Ok((acc, s + 1))
        } else {
            let q = if acc.len() == 0 {
                Some(s)
            } else if byte_at(b, s) == Some(0x2Cu8) {
                Some(ws_end(b, s + 1))
            } else {
                None
            };
            match q {
                None => Err(JsonError::Syntax),
                Some(q) => match json_encoding(b, q) {
                    Err(e) => Err(e),
                    Ok((e, r)) => if r <= p || r > b.len() {
                        Err(JsonError::Syntax)
                    } else {
                        encoding_items(b, r, acc.push(e))
                    },
                },
            }
        }
    }
}

/// An array of encoding names at `p` (starting with its `[`).
pub open spec fn json_encoding_array(b: Seq<u8>, p: int) -> Result<(Seq<Encoding>, int), JsonError> {
    if byte_at(b, p) == Some(0x5Bu8) {
        encoding_items(b, p + 1, seq![])
    } else {
        Err(JsonError::Syntax)
    }
}

/// An integer field read into a profile.
pub open spec fn int_field(key: Seq<char>, pr: ProfileSpec, v: i32) -> Option<ProfileSpec> {
    if key == "prefix"@ {
        Some(ProfileSpec { prefix: v, ..pr })
    } else if key == "width"@ {
        Some(ProfileSpec { width: v, ..pr })
    } else if key == "height"@ {
        Some(ProfileSpec { height: v, ..pr })
    } else if key == "frame_byte_length"@ {
        Some(ProfileSpec { frame_byte_length: v, ..pr })
    } else if key == "rotation"@ {
        Some(ProfileSpec { rotation: v, ..pr })
    } else if key == "crop_x"@ {
        Some(ProfileSpec { crop_x: v, ..pr })
    } else if key == "crop_y"@ {
        Some(ProfileSpec { crop_y: v, ..pr })
    } else if key == "crop_width"@ {
        Some(ProfileSpec { crop_width: v, ..pr })
    } else if key == "crop_height"@ {
        Some(ProfileSpec { crop_height: v, ..pr })
    } else if key == "slot_size"@ {
        Some(ProfileSpec { slot_size: v, ..pr })
    } else {
        None
    }
}

/// The integer-valued field names.
pub open spec fn is_int_key(key: Seq<char>) -> bool {
    key == "prefix"@ || key == "width"@ || key == "height"@ || key == "frame_byte_length"@ || key
        == "rotation"@ || key == "crop_x"@ || key == "crop_y"@ || key == "crop_width"@ || key == "crop_height"@
        || key == "slot_size"@
}

/// A boolean field read into a profile.
pub open spec fn bool_field(key: Seq<char>, pr: ProfileSpec, v: bool) -> Option<ProfileSpec> {
    if key == "swaps_dimensions"@ {
        Some(ProfileSpec { swaps_dimensions: v, ..pr })
    } else if key == "little_endian"@ {
        Some(ProfileSpec { little_endian: v, ..pr })
    } else if key == "is_padded"@ {
        Some(ProfileSpec { is_padded: v, ..pr })
    } else if key == "is_interlaced"@ {
        Some(ProfileSpec { is_interlaced: v, ..pr })
    } else if key == "clcl_chroma"@ {
        Some(ProfileSpec { clcl_chroma: v, ..pr })
    } else if key == "swap_chroma_planes"@ {
        Some(ProfileSpec { swap_chroma_planes: v, ..pr })
    } else if key == "cl_chroma"@ {
        Some(ProfileSpec { cl_chroma: v, ..pr })
    } else if key == "swap_rgb_channels"@ {
        Some(ProfileSpec { swap_rgb_channels: v, ..pr })
    } else if key == "use_mhni_dimensions"@ {
        Some(ProfileSpec { use_mhni_dimensions: v, ..pr })
    } else {
        None
    }
}

/// The boolean-valued field names.
pub open spec fn is_bool_key(key: Seq<char>) -> bool {
    key == "swaps_dimensions"@ || key == "little_endian"@ || key == "is_padded"@ || key == "is_interlaced"@
        || key == "clcl_chroma"@ || key == "swap_chroma_planes"@ || key == "cl_chroma"@ || key
        == "swap_rgb_channels"@ || key == "use_mhni_dimensions"@
}

/// Reading the value of field `key` at `p` into the profile `pr`: integers,
/// booleans, an encoding, an encoding array or `null` for the fallback
/// encodings; the value of an unknown key is skipped.
#[verifier::opaque]
pub open spec fn set_field_at(key: Seq<char>, b: Seq<u8>, p: int, pr: ProfileSpec) -> Result<
    (ProfileSpec, int),
    JsonError,
> {
    if is_int_key(key) {
        match json_number(b, p) {
            Ok((v, q)) => Ok((int_field(key, pr, v).unwrap(), q)),
            Err(e) => Err(e),
        }
    } else if key == "encoding"@ {
        match json_encoding(b, p) {
            Ok((e, q)) => Ok((ProfileSpec { encoding: e, ..pr }, q)),
            Err(e) => Err(e),
        }
    } else if is_bool_key(key) {
        match json_bool(b, p) {
            Ok((v, q)) => Ok((bool_field(key, pr, v).unwrap(), q)),
            Err(e) => Err(e),
        }
    } else if key == "fallback_encodings"@ {
        if byte_at(b, p) == Some(0x6Eu8) {
            match json_null(b, p) {
                Ok(q) => Ok((pr, q)),
                Err(e) => Err(e),
            }
        } else {
            match json_encoding_array(b, p) {
                Ok((es, q)) => Ok((ProfileSpec { fallback_encodings: Some(es), ..pr }, q)),
                Err(e) => Err(e),
            }
        }
    } else {
        match skip_value_at(b, p) {
            Ok(q) => Ok((pr, q)),
            Err(e) => Err(e),
        }
    }
}

/// The rest of a profile object from `p`, with the profile read so far: a
/// member whose key is not a string is skipped as a value.
pub open spec fn object_items(b: Seq<u8>, p: int, pr: ProfileSpec) -> Result<(ProfileSpec, int), JsonError>
    decreases b.len() - p,
{
    if p < 0 || p > b.len() {
        Err(JsonError::Syntax)
    } else {
        let s = ws_end(b, p);
        if byte_at(b, s) == Some(0x7Du8) {
            Ok((pr, s + 1))
        } else if byte_at(b, s) != Some(0x22u8) {
            match skip_value_at(b, s) {
                Err(e) => Err(e),
                Ok(q) => if q <= p || q > b.len() {
                    Err(JsonError::Syntax)
                } else {
                    object_items(b, q, pr)
                },
            }
        } else {
            match json_string(b, s) {
                Err(e) => Err(e),
                Ok((k, q)) => {
                    let t = ws_end(b, q);
                    if byte_at(b, t) != Some(0x3Au8) {
                        Err(JsonError::Syntax)
                    } else {
                        match set_field_at(k, b, t + 1, pr) {
                            Err(e) => Err(e),
                            Ok((pr2, q2)) => if q2 <= p || q2 > b.len() {
                                Err(JsonError::Syntax)
                            } else {
                                proof {
                                    lemma_ws_end(b, q2);
                                }
                                object_items(b, after_comma(b, ws_end(b, q2)), pr2)
                            },
                        }
                    }
                },
            }
        }
    }
}

/// A profile object at `p` (starting with its `{`); absent fields keep
/// their defaults.
#[verifier::opaque]
pub open spec fn json_object(b: Seq<u8>, p: int) -> Result<(ProfileSpec, int), JsonError> {
    if byte_at(b, p) == Some(0x7Bu8) {
        object_items(b, p + 1, default_profile())
    } else {
        Err(JsonError::Syntax)
    }
}

/// The rest of the profile array from `p`, with the profiles read so far;
/// objects after the first must be preceded by a comma, and at most
/// `MAX_PROFILES` objects are accepted.
pub open spec fn array_items(b: Seq<u8>, p: int, acc: Seq<ProfileSpec>) -> Result<
    (Seq<ProfileSpec>, int),
    JsonError,
>
    decreases b.len() - p,
{
    if p < 0 || p > b.len() {
        Err(JsonError::Syntax)
    } else {
        let s = ws_end(b, p);
        if byte_at(b, s) == Some(0x5Du8) {
            Ok((acc, s + 1))
        } else if acc.len() >= MAX_PROFILES {
            Err(JsonError::TooManyProfiles)
        } else {
            let q = if acc.len() == 0 {
                Some(s)
            } else if byte_at(b, s) == Some(0x2Cu8) {
                Some(ws_end(b, s + 1))
            } else {
                None
            };
            match q {
                None => Err(JsonError::Syntax),
                Some(q) => match json_object(b, q) {
                    Err(_) => Err(JsonError::Syntax),
                    Ok((pr, r)) => if r <= p || r > b.len() {
                        Err(JsonError::Syntax)
                    } else {
                        array_items(b, r, acc.push(pr))
                    },
                },
            }
        }
    }
}

proof fn lemma_array_items_bounded(b: Seq<u8>, p: int, acc: Seq<ProfileSpec>)
    requires
        acc.len() <= MAX_PROFILES,
    ensures
        array_items(b, p, acc) matches Ok((ps, _)) ==> ps.len() <= MAX_PROFILES,
    decreases b.len() - p,
{
    if !(p < 0 || p > b.len()) {
        let s = ws_end(b, p);
        if byte_at(b, s) != Some(0x5Du8) && acc.len() < MAX_PROFILES {
            let q = if acc.len() == 0 {
                Some(s)
            } else if byte_at(b, s) == Some(0x2Cu8) {
                Some(ws_end(b, s + 1))
            } else {
                None
            };
            match q {
                None => {},
                Some(q) => match json_object(b, q) {
                    Err(_) => {},
                    Ok((pr, r)) => if !(r <= p || r > b.len()) {
                        lemma_array_items_bounded(b, r, acc.push(pr));
                    },
                },
            }
        }
    }
}

/// A document is accepted only with at most `MAX_PROFILES` (100) profile
/// objects.
pub proof fn lemma_profile_count_bounded(b: Seq<u8>)
    ensures
        profiles_json(b) matches Ok(ps) ==> ps.len() <= MAX_PROFILES,
{
    let p = ws_end(b, 0);
    if byte_at(b, p) == Some(0x5Bu8) {
        lemma_array_items_bounded(b, p + 1, seq![]);
    }
}

/// The profile array at `p` (starting with its `[`).
pub open spec fn json_array(b: Seq<u8>, p: int) -> Result<(Seq<ProfileSpec>, int), JsonError> {
    if byte_at(b, p) == Some(0x5Bu8) {
        array_items(b, p + 1, seq![])
    } else {
        Err(JsonError::Syntax)
    }
}

/// The profiles a document holds: an array of profile objects after
/// leading whitespace (what follows the array is ignored).
pub open spec fn profiles_json(b: Seq<u8>) -> Result<Seq<ProfileSpec>, JsonError> {
    match json_array(b, ws_end(b, 0)) {
        Ok((ps, _)) => Ok(ps),
        Err(e) => Err(e),
    }
}

} // verus!
