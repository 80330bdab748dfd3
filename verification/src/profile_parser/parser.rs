//! Cursor-based reader for the profile JSON: low-level helpers and value
//! parsers.

use vstd::prelude::*;
use crate::error::DecodeError;
use crate::profile_parser::json::{
    JsonError, byte_at, is_ws, ws_end, lemma_ws_end, hex_digit, hex4_at, simple_escape, scalar_of,
    plain_string_byte, string_body, json_string, is_digit, digits_end, digits_value, json_number, word_at,
    true_word, false_word, null_word, json_bool, json_null, skip_value_at, after_comma, skip_array_at,
    skip_array_items, skip_object_at, skip_object_items,
};
use crate::text::{push_char, push_str, push_decimal, string_of};
use vstd::utf8::{valid_first_scalar, length_of_first_scalar, decode_first_scalar};

verus! {

/// A reader over the bytes of a profile document.
pub struct Parser<'a> {
    /// The document.
    pub bytes: &'a [u8],
    /// The current byte offset.
    pub pos: usize,
}

/// The result `r` of a reader method, with the reader at `pos` afterwards,
/// agrees with what the grammar gives: the value and the position after
/// it, or an error of kind `Profile`.
pub open spec fn read_as<T>(s: Result<(T, int), JsonError>, r: Result<T, DecodeError>, pos: int) -> bool {
    match s {
        Ok((v, q)) => r == Ok::<T, DecodeError>(v) && pos == q,
        Err(_) => r is Err && r->Err_0 is Profile,
    }
}

/// The result of a skipping method agrees with what the grammar gives.
pub open spec fn skipped_as(s: Result<int, JsonError>, r: Result<(), DecodeError>, pos: int) -> bool {
    match s {
        Ok(q) => r is Ok && pos == q,
        Err(_) => r is Err && r->Err_0 is Profile,
    }
}

/// An error of kind `Profile` carrying `msg`.
pub fn profile_error(msg: &str) -> (e: DecodeError)
    ensures
        e matches DecodeError::Profile(m) && m@ == msg@,
{
    DecodeError::Profile(string_of(msg))
}

/// The upper-case hexadecimal digit of `d` (`0`-`9`, `A`-`F`).
pub open spec fn hex_char_of(d: u32) -> char {
    if d < 10 {
        (48 + d) as char
    } else {
        (55 + d) as char
    }
}

/// The low `n` hexadecimal digits of `v`, most significant first.
pub open spec fn hex_digits(v: u32, n: nat) -> Seq<char>
    decreases n,
{
    if n == 0 {
        Seq::empty()
    } else {
        hex_digits(v / 16, (n - 1) as nat).push(hex_char_of(v % 16))
    }
}

fn hex_char(d: u32) -> (c: char)
    requires
        d < 16,
    ensures
        c == hex_char_of(d),
{
    if d < 10 {
        ((48 + d) as u8) as char
    } else {
        ((55 + d) as u8) as char
    }
}

/// Appends the low `n` hexadecimal digits of `v` (upper case).
fn push_hex(s: &mut String, v: u32, n: u32)
    requires
        n <= 8,
    ensures
        final(s)@ == old(s)@ + hex_digits(v, n as nat),
    decreases n,
{
    if n > 0 {
        let ghost before = s@;
        push_hex(s, v / 16, n - 1);
        let c = hex_char(v % 16);
        push_char(s, c);
        assert(s@ =~= before + hex_digits(v / 16, (n - 1) as nat).push(c));
    }
}

fn offset_error(what: &str, offset: usize) -> (e: DecodeError)
    ensures
        e is Profile,
{
    let mut m = String::new();
    push_str(&mut m, what);
    push_str(&mut m, " at offset ");
    push_decimal(&mut m, offset as u64);
    DecodeError::Profile(m)
}

/// The character a code point names (`char::from_u32`).
///
/// Trusted: `char::from_u32` returns the character exactly when the code is
/// a Unicode scalar value (not a surrogate, at most 0x10FFFF), as its
/// documentation states.
#[verifier::external_body]
fn char_from_code(code: u32) -> (r: Option<char>)
    ensures
        r == scalar_of(code),
{
    char::from_u32(code)
}

/// The first UTF-8 encoded character of `b` from `p` on, with the number of
/// bytes it takes; `None` where no well-formed encoding of a scalar starts
/// there.
fn utf8_scalar_at(b: &[u8], p: usize) -> (r: Option<(char, usize)>)
    requires
        p < b@.len(),
    ensures
        match r {
            Some((c, n)) => valid_first_scalar(b@.subrange(p as int, b@.len() as int)) && c == decode_first_scalar(
                b@.subrange(p as int, b@.len() as int),
            ) as char && n == length_of_first_scalar(b@.subrange(p as int, b@.len() as int)),
            None => !valid_first_scalar(b@.subrange(p as int, b@.len() as int)),
        },
{
    let ghost rest = b@.subrange(p as int, b@.len() as int);
    let len = b.len();
    let b0 = b[p];
    assert(rest[0] == b0);
    let (cp, n): (u32, usize) = if b0 <= 0x7F {
        let cp = (b0 & 0x7F) as u32;
        assert(cp <= 0x7F) by (bit_vector)
            requires
                cp == (b0 & 0x7F) as u32,
        ;
        (cp, 1)
    } else if 0xC0 <= b0 && b0 <= 0xDF {
        if len - p < 2 {
            return None;
        }
        let b1 = b[p + 1];
        assert(rest[1] == b1);
        if !(0x80 <= b1 && b1 <= 0xBF) {
            return None;
        }
        let cp = ((b0 & 0x1F) as u32) << 6 | (b1 & 0x3F) as u32;
        assert(cp <= 0x7FF) by (bit_vector)
            requires
                cp == ((b0 & 0x1F) as u32) << 6 | (b1 & 0x3F) as u32,
        ;
        if cp < 0x80 {
            return None;
        }
        (cp, 2)
    } else if 0xE0 <= b0 && b0 <= 0xEF {
        if len - p < 3 {
            return None;
        }
        let b1 = b[p + 1];
        let b2 = b[p + 2];
        assert(rest[1] == b1 && rest[2] == b2);
        if !(0x80 <= b1 && b1 <= 0xBF && 0x80 <= b2 && b2 <= 0xBF) {
            return None;
        }
        let cp = ((b0 & 0x0F) as u32) << 12 | ((b1 & 0x3F) as u32) << 6 | (b2 & 0x3F) as u32;
        assert(cp <= 0xFFFF) by (bit_vector)
            requires
                cp == ((b0 & 0x0F) as u32) << 12 | ((b1 & 0x3F) as u32) << 6 | (b2 & 0x3F) as u32,
        ;
        if cp < 0x800 || (0xD800 <= cp && cp <= 0xDFFF) {
            return None;
        }
        (cp, 3)
    } else if 0xF0 <= b0 && b0 <= 0xF7 {
        if len - p < 4 {
            return None;
        }
        let b1 = b[p + 1];
        let b2 = b[p + 2];
        let b3 = b[p + 3];
        assert(rest[1] == b1 && rest[2] == b2 && rest[3] == b3);
        if !(0x80 <= b1 && b1 <= 0xBF && 0x80 <= b2 && b2 <= 0xBF && 0x80 <= b3 && b3 <= 0xBF) {
            return None;
        }
        let cp = ((b0 & 0x07) as u32) << 18 | ((b1 & 0x3F) as u32) << 12 | ((b2 & 0x3F) as u32) << 6 | (b3
            & 0x3F) as u32;
        if cp < 0x10000 || cp > 0x10FFFF {
            return None;
        }
        (cp, 4)
    } else {
        return None;
    };
    assert(valid_first_scalar(rest));
    assert(cp == decode_first_scalar(rest));
    match char_from_code(cp) {
        Some(c) => Some((c, n)),
        None => None,
    }
}

impl<'a> Parser<'a> {
    /// The byte at the current position, if any.
    pub fn peek(&self) -> (r: Option<u8>)
        ensures
            r == byte_at(self.bytes@, self.pos as int),
    {
        if self.pos < self.bytes.len() {
            Some(self.bytes[self.pos])
        } else {
            None
        }
    }

    /// Reads the byte at the current position and moves past it.
    ///
    /// Errors: `Profile` at the end of the input.
    pub fn advance(&mut self) -> (r: Result<u8, DecodeError>)
        ensures
            final(self).bytes == old(self).bytes,
            match byte_at(old(self).bytes@, old(self).pos as int) {
                Some(c) => r == Ok::<u8, DecodeError>(c) && final(self).pos == old(self).pos + 1,
                None => r is Err && r->Err_0 is Profile && final(self).pos == old(self).pos,
            },
    {
        if self.pos < self.bytes.len() {
            let b = self.bytes[self.pos];
            self.pos = self.pos + 1;
            Ok(b)
        } else {
            Err(profile_error("unexpected end of input"))
        }
    }

    /// Reads the byte `want` at the current position and moves past it.
    ///
    /// Errors: `Profile` at the end of the input or on another byte.
    pub fn expect(&mut self, want: u8) -> (r: Result<(), DecodeError>)
        ensures
            final(self).bytes == old(self).bytes,
            byte_at(old(self).bytes@, old(self).pos as int) == Some(want) ==> r is Ok && final(self).pos == old(
                self,
            ).pos + 1,
            byte_at(old(self).bytes@, old(self).pos as int) != Some(want) ==> r is Err && r->Err_0 is Profile,
    {
        let got = match self.advance() {
            Ok(g) => g,
            Err(e) => {
                return Err(e);
            },
        };
        if got != want {
            let mut m = String::new();
            push_str(&mut m, "expected '");
            push_char(&mut m, want as char);
            push_str(&mut m, "' (0x");
            push_hex(&mut m, want as u32, 2);
            push_str(&mut m, "), got '");
            push_char(&mut m, got as char);
            push_str(&mut m, "' (0x");
            push_hex(&mut m, got as u32, 2);
            push_str(&mut m, ") at offset ");
            push_decimal(&mut m, (self.pos - 1) as u64);
            return Err(DecodeError::Profile(m));
        }
        Ok(())
    }

    /// Moves past whitespace (space, tab, newline, carriage return).
    pub fn skip_ws(&mut self)
        ensures
            final(self).bytes == old(self).bytes,
            final(self).pos == ws_end(old(self).bytes@, old(self).pos as int),
    {
        let len = self.bytes.len();
        while self.pos < len && (self.bytes[self.pos] == 0x20 || self.bytes[self.pos] == 0x09 || self.bytes[self.pos]
            == 0x0A || self.bytes[self.pos] == 0x0D)
            invariant
                len == self.bytes@.len(),
                self.bytes == old(self).bytes,
                ws_end(self.bytes@, self.pos as int) == ws_end(old(self).bytes@, old(self).pos as int),
            decreases len - self.pos,
        {
            self.pos = self.pos + 1;
        }
    }

    /// Reads a string (with its quotes) and decodes its escapes, `\uXXXX`
    /// included; UTF-8 encoded characters are kept as written.
    ///
    /// Errors: `Profile` on a missing quote, a control byte, a bad escape, a
    /// malformed UTF-8 sequence or the end of the input.
    pub fn parse_string(&mut self) -> (r: Result<String, DecodeError>)
        ensures
            final(self).bytes == old(self).bytes,
            match json_string(old(self).bytes@, old(self).pos as int) {
                Ok((s, q)) => r is Ok && r->Ok_0@ == s && final(self).pos == q && q > old(self).pos && q
                    <= old(self).bytes@.len(),
                Err(_) => r is Err && r->Err_0 is Profile,
            },
    {
        let ghost b = self.bytes@;
        let ghost p0 = self.pos as int;
        match self.expect(0x22) {
            Ok(()) => {},
            Err(e) => {
                return Err(e);
            },
        }
        let len = self.bytes.len();
        let mut s = String::new();
        loop
            invariant
                self.bytes == old(self).bytes,
                b == self.bytes@,
                len == b.len(),
                p0 == old(self).pos,
                p0 < self.pos <= len,
                json_string(b, p0) == string_body(b, self.pos as int, s@),
            decreases len - self.pos,
        {
            let c = match self.advance() {
                Ok(c) => c,
                Err(e) => {
                    return Err(e);
                },
            };
            if c == 0x22 {
                return Ok(s);
            } else if c == 0x5C {
                let e = match self.advance() {
                    Ok(e) => e,
                    Err(err) => {
                        return Err(err);
                    },
                };
                if e == 0x22 {
                    push_char(&mut s, '"');
                } else if e == 0x5C {
                    push_char(&mut s, '\\');
                } else if e == 0x2F {
                    push_char(&mut s, '/');
                } else if e == 0x62 {
                    push_char(&mut s, '\u{0008}');
                } else if e == 0x66 {
                    push_char(&mut s, '\u{000C}');
                } else if e == 0x6E {
                    push_char(&mut s, '\n');
                } else if e == 0x72 {
                    push_char(&mut s, '\r');
                } else if e == 0x74 {
                    push_char(&mut s, '\t');
                } else if e == 0x75 {
                    let code = match self.parse_hex4() {
                        Ok(c) => c,
                        Err(err) => {
                            return Err(err);
                        },
                    };
                    match char_from_code(code) {
                        Some(ch) => push_char(&mut s, ch),
                        None => {
                            let mut m = String::new();
                            push_str(&mut m, "invalid unicode escape: \\u");
                            push_hex(&mut m, code, 4);
                            return Err(DecodeError::Profile(m));
                        },
                    }
                } else {
                    let mut m = String::new();
                    push_str(&mut m, "invalid escape sequence: \\");
                    push_char(&mut m, e as char);
                    return Err(DecodeError::Profile(m));
                }
            } else if c >= 0x20 && c <= 0x7E {
                push_char(&mut s, c as char);
            } else if c >= 0x80 {
                let start = self.pos - 1;
                match utf8_scalar_at(self.bytes, start) {
                    Some((ch, n)) => {
                        push_char(&mut s, ch);
                        self.pos = start + n;
                    },
                    None => {
                        let mut m = String::new();
                        push_str(&mut m, "invalid character in string: 0x");
                        push_hex(&mut m, c as u32, 2);
                        return Err(DecodeError::Profile(m));
                    },
                }
            } else {
                let mut m = String::new();
                push_str(&mut m, "invalid character in string: 0x");
                push_hex(&mut m, c as u32, 2);
                return Err(DecodeError::Profile(m));
            }
        }
    }

    /// Reads four hexadecimal digits (either case) as a number.
    ///
    /// Errors: `Profile` on a non-hex byte or the end of the input.
    pub fn parse_hex4(&mut self) -> (r: Result<u32, DecodeError>)
        ensures
            final(self).bytes == old(self).bytes,
            read_as(hex4_at(old(self).bytes@, old(self).pos as int), r, final(self).pos as int),
    {
        let ghost b = self.bytes@;
        let ghost p0 = self.pos as int;
        let d0 = match self.hex_digit_next() {
            Ok(d) => d,
            Err(e) => {
                return Err(e);
            },
        };
        let d1 = match self.hex_digit_next() {
            Ok(d) => d,
            Err(e) => {
                return Err(e);
            },
        };
        let d2 = match self.hex_digit_next() {
            Ok(d) => d,
            Err(e) => {
                return Err(e);
            },
        };
        let d3 = match self.hex_digit_next() {
            Ok(d) => d,
            Err(e) => {
                return Err(e);
            },
        };
        Ok(d0 * 4096 + d1 * 256 + d2 * 16 + d3)
    }

    /// Reads one hexadecimal digit.
    fn hex_digit_next(&mut self) -> (r: Result<u32, DecodeError>)
        ensures
            final(self).bytes == old(self).bytes,
            match byte_at(old(self).bytes@, old(self).pos as int) {
                Some(c) => match hex_digit(c) {
                    Some(d) => r == Ok::<u32, DecodeError>(d) && final(self).pos == old(self).pos + 1,
                    None => r is Err && r->Err_0 is Profile,
                },
                None => r is Err && r->Err_0 is Profile,
            },
            r is Ok ==> r->Ok_0 < 16,
    {
        let c = match self.advance() {
            Ok(c) => c,
            Err(e) => {
                return Err(e);
            },
        };
        if c >= 0x30 && c <= 0x39 {
            Ok((c - 0x30) as u32)
        } else if c >= 0x61 && c <= 0x66 {
            Ok((c - 0x61 + 10) as u32)
        } else if c >= 0x41 && c <= 0x46 {
            Ok((c - 0x41 + 10) as u32)
        } else {
            let mut m = String::new();
            push_str(&mut m, "invalid hex digit: '");
            push_char(&mut m, c as char);
            push_str(&mut m, "'");
            Err(DecodeError::Profile(m))
        }
    }

    /// Reads an integer after whitespace: an optional minus sign and at least
    /// one digit, whose value must fit an `i32`.
    ///
    /// Errors: `Profile` when there is no digit or the value does not fit.
    pub fn parse_number_i32(&mut self) -> (r: Result<i32, DecodeError>)
        ensures
            final(self).bytes == old(self).bytes,
            read_as(json_number(old(self).bytes@, old(self).pos as int), r, final(self).pos as int),
            r is Ok ==> old(self).pos < final(self).pos <= old(self).bytes@.len(),
    {
        let ghost b = self.bytes@;
        self.skip_ws();
        proof {
            lemma_ws_end(b, old(self).pos as int);
        }
        let start = self.pos;
        let len = self.bytes.len();
        if self.pos >= len {
            return Err(offset_error("expected number", self.pos));
        }
        let neg = self.bytes[self.pos] == 0x2D;
        if neg {
            self.pos = self.pos + 1;
        }
        if !(self.pos < len && self.bytes[self.pos] >= 0x30 && self.bytes[self.pos] <= 0x39) {
            return Err(offset_error("expected number", start));
        }
        let q = self.pos;
        let mut v: u64 = 0;
        while self.pos < len && self.bytes[self.pos] >= 0x30 && self.bytes[self.pos] <= 0x39
            invariant
                self.bytes == old(self).bytes,
                b == self.bytes@,
                len == b.len(),
                q <= self.pos <= len,
                digits_end(b, q as int) == digits_end(b, self.pos as int),
                digits_value(b, q as int, self.pos as int) >= 0,
                v == (if digits_value(b, q as int, self.pos as int) < 4294967296 {
                    digits_value(b, q as int, self.pos as int)
                } else {
                    4294967296
                }),
            decreases len - self.pos,
        {
            let d = (self.bytes[self.pos] - 0x30) as u64;
            let ghost x = digits_value(b, q as int, self.pos as int);
            v = v * 10 + d;
            if v > 4294967296 {
                v = 4294967296;
            }
            self.pos = self.pos + 1;
            assert(digits_value(b, q as int, self.pos as int) == x * 10 + d);
        }
        let limit: u64 = if neg {
            2147483648
        } else {
            2147483647
        };
        if v > limit {
            let mut m = String::new();
            push_str(&mut m, "invalid number '");
            let mut i = start;
            while i < self.pos
                invariant
                    start <= i <= self.pos <= len,
                    len == self.bytes@.len(),
                decreases self.pos - i,
            {
                push_char(&mut m, self.bytes[i] as char);
                i = i + 1;
            }
            if neg {
                push_str(&mut m, "': number too small to fit in target type");
            } else {
                push_str(&mut m, "': number too large to fit in target type");
            }
            return Err(DecodeError::Profile(m));
        }
        let value: i32 = if neg {
            (0i64 - (v as i64)) as i32
        } else {
            v as i32
        };
        Ok(value)
    }

    /// Reads `true` or `false` after whitespace.
    ///
    /// Errors: `Profile` on anything else.
    pub fn parse_bool(&mut self) -> (r: Result<bool, DecodeError>)
        ensures
            final(self).bytes == old(self).bytes,
            read_as(json_bool(old(self).bytes@, old(self).pos as int), r, final(self).pos as int),
            r is Ok ==> old(self).pos < final(self).pos <= old(self).bytes@.len(),
    {
        let ghost b = self.bytes@;
        self.skip_ws();
        proof {
            lemma_ws_end(b, old(self).pos as int);
        }
        let len = self.bytes.len();
        let p = self.pos;
        if p >= len {
            return Err(offset_error("expected bool", p));
        }
        if self.starts_with_at(p, 0x74, 0x72, 0x75, 0x65, None) {
            self.pos = p + 4;
            Ok(true)
        } else if self.starts_with_at(p, 0x66, 0x61, 0x6C, 0x73, Some(0x65)) {
            self.pos = p + 5;
            Ok(false)
        } else {
            Err(offset_error("expected bool", p))
        }
    }

    /// The four (or five) given bytes occur at `p`.
    fn starts_with_at(&self, p: usize, c0: u8, c1: u8, c2: u8, c3: u8, c4: Option<u8>) -> (r: bool)
        ensures
            r ==> p + (if c4 is Some { 5int } else { 4int }) <= self.bytes@.len(),
            r == word_at(
                self.bytes@,
                p as int,
                match c4 {
                    Some(c) => seq![c0, c1, c2, c3, c],
                    None => seq![c0, c1, c2, c3],
                },
            ),
    {
        let len = self.bytes.len();
        let n: usize = match c4 {
            Some(_) => 5,
            None => 4,
        };
        if p > len || len - p < n {
            return false;
        }
        let ok4 = self.bytes[p] == c0 && self.bytes[p + 1] == c1 && self.bytes[p + 2] == c2 && self.bytes[p + 3]
            == c3;
        let ok = match c4 {
            Some(c) => ok4 && self.bytes[p + 4] == c,
            None => ok4,
        };
        proof {
            let w = match c4 {
                Some(c) => seq![c0, c1, c2, c3, c],
                None => seq![c0, c1, c2, c3],
            };
            let sub = self.bytes@.subrange(p as int, p + w.len());
            if ok {
                assert(sub =~= w);
            } else {
                assert(sub != w) by {
                    if sub == w {
                        assert(sub[0] == w[0] && sub[1] == w[1] && sub[2] == w[2] && sub[3] == w[3]);
                        if c4 is Some {
                            assert(sub[4] == w[4]);
                        }
                    }
                }
            }
        }
        ok
    }

    /// Reads `null` after whitespace.
    ///
    /// Errors: `Profile` on anything else.
    pub fn parse_null(&mut self) -> (r: Result<(), DecodeError>)
        requires
            old(self).pos <= old(self).bytes@.len(),
        ensures
            final(self).bytes == old(self).bytes,
            skipped_as(json_null(old(self).bytes@, old(self).pos as int), r, final(self).pos as int),
            r is Ok ==> old(self).pos < final(self).pos <= old(self).bytes@.len(),
    {
        let ghost b = self.bytes@;
        self.skip_ws();
        proof {
            lemma_ws_end(b, old(self).pos as int);
        }
        let p = self.pos;
        let len = self.bytes.len();
        if self.starts_with_at(p, 0x6E, 0x75, 0x6C, 0x6C, None) {
            self.pos = p + 4;
            Ok(())
        } else {
            Err(offset_error("expected null", p))
        }
    }

    /// Skips one value of any kind after whitespace (string, boolean,
    /// `null`, array, object or number).
    ///
    /// Errors: `Profile` when no value can be read.
    pub fn skip_value(&mut self) -> (r: Result<(), DecodeError>)
        ensures
            final(self).bytes == old(self).bytes,
            skipped_as(skip_value_at(old(self).bytes@, old(self).pos as int), r, final(self).pos as int),
            r is Ok ==> old(self).pos < final(self).pos <= old(self).bytes@.len(),
        decreases old(self).bytes@.len() - old(self).pos, 1int,
    {
        let ghost b = self.bytes@;
        let ghost p0 = self.pos as int;
        if self.pos > self.bytes.len() {
            return Err(profile_error("unexpected end of input"));
        }
        self.skip_ws();
        proof {
            lemma_ws_end(b, p0);
        }
        match self.peek() {
            Some(c) => {
                if c == 0x22 {
                    match self.parse_string() {
                        Ok(_) => {},
                        Err(e) => {
                            return Err(e);
                        },
                    }
                } else if c == 0x74 || c == 0x66 {
                    match self.parse_bool() {
                        Ok(_) => {},
                        Err(e) => {
                            return Err(e);
                        },
                    }
                    proof {
                        lemma_ws_end(b, self.pos as int);
                    }
                } else if c == 0x6E {
                    match self.parse_null() {
                        Ok(_) => {},
                        Err(e) => {
                            return Err(e);
                        },
                    }
                } else if c == 0x5B {
                    match self.skip_array() {
                        Ok(_) => {},
                        Err(e) => {
                            return Err(e);
                        },
                    }
                } else if c == 0x7B {
                    match self.skip_object() {
                        Ok(_) => {},
                        Err(e) => {
                            return Err(e);
                        },
                    }
                } else if c == 0x2D || (c >= 0x30 && c <= 0x39) {
                    match self.parse_number_i32() {
                        Ok(_) => {},
                        Err(e) => {
                            return Err(e);
                        },
                    }
                } else {
                    let mut m = String::new();
                    push_str(&mut m, "unexpected character '");
                    push_decimal(&mut m, c as u64);
                    push_str(&mut m, "' at offset ");
                    push_decimal(&mut m, self.pos as u64);
                    return Err(DecodeError::Profile(m));
                }
            },
            None => {
                return Err(profile_error("unexpected end of input"));
            },
        }
        Ok(())
    }

    /// Skips an array (starting with its `[`): values, each optionally
    /// followed by a comma, up to the closing `]`.
    ///
    /// Errors: `Profile` when the array is malformed or unterminated.
    pub fn skip_array(&mut self) -> (r: Result<(), DecodeError>)
        ensures
            final(self).bytes == old(self).bytes,
            skipped_as(skip_array_at(old(self).bytes@, old(self).pos as int), r, final(self).pos as int),
            r is Ok ==> old(self).pos < final(self).pos <= old(self).bytes@.len(),
        decreases old(self).bytes@.len() - old(self).pos, 0int,
    {
        let ghost b = self.bytes@;
        let ghost target = skip_array_at(b, self.pos as int);
        match self.expect(0x5B) {
            Ok(()) => {},
            Err(e) => {
                return Err(e);
            },
        }
        let len = self.bytes.len();
        loop
            invariant
                self.bytes == old(self).bytes,
                b == self.bytes@,
                len == b.len(),
                old(self).pos < self.pos <= len,
                target == skip_array_at(b, old(self).pos as int),
                target == skip_array_items(b, self.pos as int),
            decreases len - self.pos,
        {
            let ghost p = self.pos as int;
            self.skip_ws();
            proof {
                lemma_ws_end(b, p);
            }
            if self.peek() == Some(0x5Du8) {
                self.pos = self.pos + 1;
                return Ok(());
            }
            match self.skip_value() {
                Ok(()) => {},
                Err(e) => {
                    return Err(e);
                },
            }
            let ghost q = self.pos as int;
            self.skip_ws();
            proof {
                lemma_ws_end(b, q);
            }
            if self.peek() == Some(0x2Cu8) {
                self.pos = self.pos + 1;
            }
        }
    }

    /// Skips an object (starting with its `{`): `"key": value` members, each
    /// optionally followed by a comma, up to the closing `}`.
    ///
    /// Errors: `Profile` when the object is malformed or unterminated.
    pub fn skip_object(&mut self) -> (r: Result<(), DecodeError>)
        ensures
            final(self).bytes == old(self).bytes,
            skipped_as(skip_object_at(old(self).bytes@, old(self).pos as int), r, final(self).pos as int),
            r is Ok ==> old(self).pos < final(self).pos <= old(self).bytes@.len(),
        decreases old(self).bytes@.len() - old(self).pos, 0int,
    {
        let ghost b = self.bytes@;
        let ghost target = skip_object_at(b, self.pos as int);
        match self.expect(0x7B) {
            Ok(()) => {},
            Err(e) => {
                return Err(e);
            },
        }
        let len = self.bytes.len();
        loop
            invariant
                self.bytes == old(self).bytes,
                b == self.bytes@,
                len == b.len(),
                old(self).pos < self.pos <= len,
                target == skip_object_at(b, old(self).pos as int),
                target == skip_object_items(b, self.pos as int),
            decreases len - self.pos,
        {
            let ghost p = self.pos as int;
            self.skip_ws();
            proof {
                lemma_ws_end(b, p);
            }
            if self.peek() == Some(0x7Du8) {
                self.pos = self.pos + 1;
                return Ok(());
            }
            match self.parse_string() {
                Ok(_) => {},
                Err(e) => {
                    return Err(e);
                },
            }
            let ghost q = self.pos as int;
            self.skip_ws();
            proof {
                lemma_ws_end(b, q);
            }
            match self.expect(0x3A) {
                Ok(()) => {},
                Err(e) => {
                    return Err(e);
                },
            }
            match self.skip_value() {
                Ok(()) => {},
                Err(e) => {
                    return Err(e);
                },
            }
            let ghost q2 = self.pos as int;
            self.skip_ws();
            proof {
                lemma_ws_end(b, q2);
            }
            if self.peek() == Some(0x2Cu8) {
                self.pos = self.pos + 1;
            }
        }
    }
}

} // verus!
