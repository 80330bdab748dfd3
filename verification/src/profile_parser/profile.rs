//! Profile-specific reading: the profile array, profile objects, their
//! fields and encoding names.

use vstd::prelude::*;
use vstd::string::StrSliceExecFns;
use crate::error::DecodeError;
use crate::profile::{Encoding, Profile, ProfileSpec, default_profile};
use crate::profile_parser::json::{
    JsonError, MAX_PROFILES, byte_at, ws_end, lemma_ws_end, json_string, json_number, json_bool, json_null,
    skip_value_at, after_comma, ascii_lower, encoding_named, json_encoding, encoding_items, json_encoding_array,
    int_field, is_int_key, bool_field, is_bool_key, set_field_at, object_items, json_object, array_items, json_array,
};
use crate::profile_parser::parser::{Parser, read_as, profile_error};
use crate::text::{push_str, push_decimal};

verus! {

/// The values of a list of profiles.
pub open spec fn profiles_view(v: Seq<Profile>) -> Seq<ProfileSpec> {
    v.map_values(|p: Profile| p@)
}

/// Whether two strings hold the same characters.
pub fn text_eq(a: &str, b: &str) -> (r: bool)
    ensures
        r == (a@ == b@),
{
    let n = a.unicode_len();
    if n != b.unicode_len() {
        return false;
    }
    let mut i: usize = 0;
    while i < n
        invariant
            0 <= i <= n,
            n == a@.len(),
            n == b@.len(),
            forall|j: int| 0 <= j < i ==> a@[j] == b@[j],
        decreases n - i,
    {
        if a.get_char(i) != b.get_char(i) {
            return false;
        }
        i = i + 1;
    }
    assert(a@ =~= b@);
    true
}

/// A character with ASCII letters in lower case.
pub open spec fn lower_char(c: char) -> char {
    if 'A' <= c && c <= 'Z' {
        ((c as u32) + 32) as char
    } else {
        c
    }
}

fn to_lower_char(c: char) -> (r: char)
    ensures
        r == lower_char(c),
{
    if c >= 'A' && c <= 'Z' {
        let code: u8 = (c as u8) + 32;
        code as char
    } else {
        c
    }
}

/// Whether `a`, with ASCII letters in lower case, is `target`.
pub fn lower_eq(a: &str, target: &str) -> (r: bool)
    ensures
        r == (ascii_lower(a@) == target@),
{
    let n = a.unicode_len();
    if n != target.unicode_len() {
        return false;
    }
    let mut i: usize = 0;
    while i < n
        invariant
            0 <= i <= n,
            n == a@.len(),
            n == target@.len(),
            forall|j: int| 0 <= j < i ==> lower_char(a@[j]) == target@[j],
        decreases n - i,
    {
        if to_lower_char(a.get_char(i)) != target.get_char(i) {
            assert(ascii_lower(a@)[i as int] == lower_char(a@[i as int]));
            return false;
        }
        i = i + 1;
    }
    assert(ascii_lower(a@) =~= target@);
    true
}

fn set_int_field(key: &str, p: &mut Profile, v: i32)
    requires
        is_int_key(key@),
    ensures
        final(p)@ == int_field(key@, old(p)@, v).unwrap(),
{
    if text_eq(key, "prefix") {
        p.prefix = v;
    } else if text_eq(key, "width") {
        p.width = v;
    } else if text_eq(key, "height") {
        p.height = v;
    } else if text_eq(key, "frame_byte_length") {
        p.frame_byte_length = v;
    } else if text_eq(key, "rotation") {
        p.rotation = v;
    } else if text_eq(key, "crop_x") {
        p.crop_x = v;
    } else if text_eq(key, "crop_y") {
        p.crop_y = v;
    } else if text_eq(key, "crop_width") {
        p.crop_width = v;
    } else if text_eq(key, "crop_height") {
        p.crop_height = v;
    } else {
        p.slot_size = v;
    }
}

fn set_bool_field(key: &str, p: &mut Profile, v: bool)
    requires
        is_bool_key(key@),
    ensures
        final(p)@ == bool_field(key@, old(p)@, v).unwrap(),
{
    if text_eq(key, "swaps_dimensions") {
        p.swaps_dimensions = v;
    } else if text_eq(key, "little_endian") {
        p.little_endian = v;
    } else if text_eq(key, "is_padded") {
        p.is_padded = v;
    } else if text_eq(key, "is_interlaced") {
        p.is_interlaced = v;
    } else if text_eq(key, "clcl_chroma") {
        p.clcl_chroma = v;
    } else if text_eq(key, "swap_chroma_planes") {
        p.swap_chroma_planes = v;
    } else if text_eq(key, "cl_chroma") {
        p.cl_chroma = v;
    } else if text_eq(key, "swap_rgb_channels") {
        p.swap_rgb_channels = v;
    } else {
        p.use_mhni_dimensions = v;
    }
}

fn is_int_field(key: &str) -> (r: bool)
    ensures
        r == is_int_key(key@),
{
    text_eq(key, "prefix") || text_eq(key, "width") || text_eq(key, "height") || text_eq(key, "frame_byte_length")
        || text_eq(key, "rotation") || text_eq(key, "crop_x") || text_eq(key, "crop_y") || text_eq(key, "crop_width")
        || text_eq(key, "crop_height") || text_eq(key, "slot_size")
}

fn is_bool_field(key: &str) -> (r: bool)
    ensures
        r == is_bool_key(key@),
{
    text_eq(key, "swaps_dimensions") || text_eq(key, "little_endian") || text_eq(key, "is_padded") || text_eq(
        key,
        "is_interlaced",
    ) || text_eq(key, "clcl_chroma") || text_eq(key, "swap_chroma_planes") || text_eq(key, "cl_chroma") || text_eq(
        key,
        "swap_rgb_channels",
    ) || text_eq(key, "use_mhni_dimensions")
}

impl<'a> Parser<'a> {
    /// Reads an encoding name string (any ASCII case: `Rgb565`, `Rgb555`,
    /// `ReorderedRgb555`, `Yuv422`, `Ycbcr420`, `Jpeg`).
    ///
    /// Errors: `Profile` on a malformed string or an unknown name.
    pub fn parse_encoding(&mut self) -> (r: Result<Encoding, DecodeError>)
        ensures
            final(self).bytes == old(self).bytes,
            read_as(json_encoding(old(self).bytes@, old(self).pos as int), r, final(self).pos as int),
            r is Ok ==> old(self).pos < final(self).pos <= old(self).bytes@.len(),
    {
        let s = match self.parse_string() {
            Ok(s) => s,
            Err(e) => {
                return Err(e);
            },
        };
        let t = s.as_str();
        if lower_eq(t, "rgb565") {
            Ok(Encoding::Rgb565)
        } else if lower_eq(t, "rgb555") {
            Ok(Encoding::Rgb555)
        } else if lower_eq(t, "reorderedrgb555") {
            Ok(Encoding::ReorderedRgb555)
        } else if lower_eq(t, "yuv422") {
            Ok(Encoding::Yuv422)
        } else if lower_eq(t, "ycbcr420") {
            Ok(Encoding::Ycbcr420)
        } else if lower_eq(t, "jpeg") {
            Ok(Encoding::Jpeg)
        } else {
            let mut m = String::new();
            push_str(&mut m, "unknown encoding: '");
            push_str(&mut m, t);
            push_str(&mut m, "'");
            Err(DecodeError::Profile(m))
        }
    }

    /// Reads an array of encoding names (starting with its `[`); names after
    /// the first are separated by commas.
    ///
    /// Errors: `Profile` on a malformed array or an unknown name.
    pub fn parse_encoding_array(&mut self) -> (r: Result<Vec<Encoding>, DecodeError>)
        ensures
            final(self).bytes == old(self).bytes,
            match json_encoding_array(old(self).bytes@, old(self).pos as int) {
                Ok((es, q)) => r is Ok && r->Ok_0@ == es && final(self).pos == q && old(self).pos < q <= old(
                    self,
                ).bytes@.len(),
                Err(_) => r is Err && r->Err_0 is Profile,
            },
    {
        let ghost b = self.bytes@;
        let ghost target = json_encoding_array(b, self.pos as int);
        match self.expect(0x5B) {
            Ok(()) => {},
            Err(e) => {
                return Err(e);
            },
        }
        let len = self.bytes.len();
        let mut encodings: Vec<Encoding> = Vec::new();
        loop
            invariant
                self.bytes == old(self).bytes,
                b == self.bytes@,
                len == b.len(),
                old(self).pos < self.pos <= len,
                target == json_encoding_array(b, old(self).pos as int),
                target == encoding_items(b, self.pos as int, encodings@),
            decreases len - self.pos,
        {
            let ghost p = self.pos as int;
            self.skip_ws();
            proof {
                lemma_ws_end(b, p);
            }
            if self.peek() == Some(0x5Du8) {
                self.pos = self.pos + 1;
                return Ok(encodings);
            }
            if encodings.len() > 0 {
                match self.expect(0x2C) {
                    Ok(()) => {},
                    Err(e) => {
                        return Err(e);
                    },
                }
                let ghost s1 = self.pos as int;
                self.skip_ws();
                proof {
                    lemma_ws_end(b, s1);
                }
            }
            let e = match self.parse_encoding() {
                Ok(e) => e,
                Err(err) => {
                    return Err(err);
                },
            };
            encodings.push(e);
        }
    }

    /// Reads the value of field `key` into `p`: integer, boolean and
    /// encoding fields by their names, `fallback_encodings` as an encoding
    /// array or `null`; the value of any other key is skipped.
    ///
    /// Errors: `Profile` when the value does not have the field's type.
    pub fn set_field(&mut self, key: &str, p: &mut Profile) -> (r: Result<(), DecodeError>)
        requires
            old(self).pos <= old(self).bytes@.len(),
        ensures
            final(self).bytes == old(self).bytes,
            match set_field_at(key@, old(self).bytes@, old(self).pos as int, old(p)@) {
                Ok((pr, q)) => r is Ok && final(p)@ == pr && final(self).pos == q && old(self).pos < q <= old(
                    self,
                ).bytes@.len(),
                Err(_) => r is Err && r->Err_0 is Profile,
            },
    {
        proof {
            reveal(set_field_at);
        }
        if is_int_field(key) {
            let v = match self.parse_number_i32() {
                Ok(v) => v,
                Err(e) => {
                    return Err(e);
                },
            };
            set_int_field(key, p, v);
            Ok(())
        } else if text_eq(key, "encoding") {
            let e = match self.parse_encoding() {
                Ok(e) => e,
                Err(err) => {
                    return Err(err);
                },
            };
            p.encoding = e;
            Ok(())
        } else if is_bool_field(key) {
            let v = match self.parse_bool() {
                Ok(v) => v,
                Err(e) => {
                    return Err(e);
                },
            };
            set_bool_field(key, p, v);
            Ok(())
        } else if text_eq(key, "fallback_encodings") {
            if self.peek() == Some(0x6Eu8) {
                match self.parse_null() {
                    Ok(()) => {},
                    Err(e) => {
                        return Err(e);
                    },
                }
            } else {
                let es = match self.parse_encoding_array() {
                    Ok(es) => es,
                    Err(e) => {
                        return Err(e);
                    },
                };
                p.fallback_encodings = Some(es);
            }
            Ok(())
        } else {
            self.skip_value()
        }
    }

    /// Reads a profile object (starting with its `{`); fields absent from it
    /// keep their defaults, members whose key is not a string are skipped.
    ///
    /// Errors: `Profile` on malformed input or a field of the wrong type.
    pub fn parse_object(&mut self) -> (r: Result<Profile, DecodeError>)
        ensures
            final(self).bytes == old(self).bytes,
            match json_object(old(self).bytes@, old(self).pos as int) {
                Ok((pr, q)) => r is Ok && r->Ok_0@ == pr && final(self).pos == q && old(self).pos < q <= old(
                    self,
                ).bytes@.len(),
                Err(_) => r is Err && r->Err_0 is Profile,
            },
    {
        let ghost b = self.bytes@;
        let ghost target = json_object(b, self.pos as int);
        proof {
            reveal(json_object);
        }
        match self.expect(0x7B) {
            Ok(()) => {},
            Err(e) => {
                return Err(e);
            },
        }
        let len = self.bytes.len();
        let mut profile = Profile::default();
        loop
            invariant
                self.bytes == old(self).bytes,
                b == self.bytes@,
                len == b.len(),
                old(self).pos < self.pos <= len,
                target == json_object(b, old(self).pos as int),
                target == object_items(b, self.pos as int, profile@),
            decreases len - self.pos,
        {
            let ghost p = self.pos as int;
            self.skip_ws();
            proof {
                lemma_ws_end(b, p);
            }
            if self.peek() == Some(0x7Du8) {
                self.pos = self.pos + 1;
                return Ok(profile);
            }
            if self.peek() != Some(0x22u8) {
                match self.skip_value() {
                    Ok(()) => {},
                    Err(e) => {
                        return Err(e);
                    },
                }
                continue;
            }
            let key = match self.parse_string() {
                Ok(k) => k,
                Err(e) => {
                    return Err(e);
                },
            };
            let ghost q = self.pos as int;
            self.skip_ws();
            proof {
                lemma_ws_end(b, q);
            }
            match self.expect(0x3A) {
                Ok(()) => {},
                Err(e) => {
                    return Err(e);
                },
            }
            match self.set_field(key.as_str(), &mut profile) {
                Ok(()) => {},
                Err(e) => {
                    return Err(e);
                },
            }
            let ghost q2 = self.pos as int;
            self.skip_ws();
            proof {
                lemma_ws_end(b, q2);
            }
            if self.peek() == Some(0x2Cu8) {
                self.pos = self.pos + 1;
            }
        }
    }

    /// Reads the profile array (starting with its `[`): profile objects,
    /// separated by commas, at most `MAX_PROFILES` of them.
    ///
    /// Errors: `Profile` on malformed input, or with the text "profile array
    /// exceeds the maximum of 100 objects" for a longer array.
    pub fn parse_array(&mut self) -> (r: Result<Vec<Profile>, DecodeError>)
        ensures
            final(self).bytes == old(self).bytes,
            match json_array(old(self).bytes@, old(self).pos as int) {
                Ok((ps, q)) => r is Ok && profiles_view(r->Ok_0@) == ps && final(self).pos == q,
                Err(JsonError::TooManyProfiles) => r matches Err(DecodeError::Profile(m)) && m@
                    == "profile array exceeds the maximum of 100 objects"@,
                Err(JsonError::Syntax) => r is Err && r->Err_0 is Profile,
            },
    {
        let ghost b = self.bytes@;
        let ghost target = json_array(b, self.pos as int);
        match self.expect(0x5B) {
            Ok(()) => {},
            Err(e) => {
                return Err(e);
            },
        }
        let len = self.bytes.len();
        let mut profiles: Vec<Profile> = Vec::new();
        assert(profiles_view(profiles@) =~= Seq::<ProfileSpec>::empty());
        loop
            invariant
                self.bytes == old(self).bytes,
                b == self.bytes@,
                len == b.len(),
                old(self).pos < self.pos <= len,
                target == json_array(b, old(self).pos as int),
                target == array_items(b, self.pos as int, profiles_view(profiles@)),
            decreases len - self.pos,
        {
            let ghost p = self.pos as int;
            self.skip_ws();
            proof {
                lemma_ws_end(b, p);
            }
            if self.peek() == Some(0x5Du8) {
                self.pos = self.pos + 1;
                return Ok(profiles);
            }
            if profiles.len() >= MAX_PROFILES {
                return Err(profile_error("profile array exceeds the maximum of 100 objects"));
            }
            if profiles.len() > 0 {
                match self.expect(0x2C) {
                    Ok(()) => {},
                    Err(e) => {
                        return Err(e);
                    },
                }
                let ghost s1 = self.pos as int;
                self.skip_ws();
                proof {
                    lemma_ws_end(b, s1);
                }
            }
            let prof = match self.parse_object() {
                Ok(pr) => pr,
                Err(e) => {
                    return Err(e);
                },
            };
            proof {
                assert(profiles_view(profiles@.push(prof)) =~= profiles_view(profiles@).push(prof@));
            }
            profiles.push(prof);
        }
    }
}

} // verus!
