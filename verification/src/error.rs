//! Error type and decoded-image container.

use vstd::prelude::*;
use crate::model::Bitmap;
use crate::text::{push_str, push_decimal, string_of, decimal};

verus! {

/// A fully decoded bitmap: BGRA bytes (blue, green, red, alpha) row by row.
#[derive(Clone, Debug, PartialEq, Eq)]
pub struct DecodedImage {
    /// Raw pixel data in BGRA 8-bit order.
    pub data: Vec<u8>,
    /// Image width in pixels.
    pub width: u32,
    /// Image height in pixels.
    pub height: u32,
}

impl View for DecodedImage {
    type V = Bitmap;

    open spec fn view(&self) -> Bitmap {
        Bitmap { data: self.data@, width: self.width, height: self.height }
    }
}

/// Errors that can occur while decoding an `.ithmb` thumbnail.
#[derive(Clone, Debug, PartialEq, Eq)]
pub enum DecodeError {
    /// An I/O-level failure.
    Io(String),
    /// A JPEG decode failure.
    Jpeg(String),
    /// The file format is invalid or unrecognized.
    InvalidFormat(String),
    /// The format is recognized but not supported.
    Unsupported(String),
    /// The input ended before the expected amount of data.
    BufferTooShort {
        /// Number of bytes expected.
        expected: usize,
        /// Number of bytes available.
        actual: usize,
    },
    /// A profile mismatch or profile parse error.
    Profile(String),
    /// The operation was canceled by the caller.
    Canceled(String),
    /// The input exceeds the maximum allowed size.
    FileTooLarge {
        /// Actual size in bytes.
        size: usize,
        /// Maximum size in bytes.
        limit: usize,
    },
}

/// The kind of an error, with its numeric fields: what contracts speak of.
pub enum Fault {
    Io,
    Jpeg,
    InvalidFormat,
    Unsupported,
    BufferTooShort(usize, usize),
    Profile,
    Canceled,
    FileTooLarge(usize, usize),
}

impl DecodeError {
    /// The kind of this error.
    pub open spec fn fault(&self) -> Fault {
        match self {
            DecodeError::Io(_) => Fault::Io,
            DecodeError::Jpeg(_) => Fault::Jpeg,
            DecodeError::InvalidFormat(_) => Fault::InvalidFormat,
            DecodeError::Unsupported(_) => Fault::Unsupported,
            DecodeError::BufferTooShort { expected, actual } => Fault::BufferTooShort(*expected, *actual),
            DecodeError::Profile(_) => Fault::Profile,
            DecodeError::Canceled(_) => Fault::Canceled,
            DecodeError::FileTooLarge { size, limit } => Fault::FileTooLarge(*size, *limit),
        }
    }

    /// The human-readable text of this error.
    pub open spec fn text(&self) -> Seq<char> {
        match self {
            DecodeError::Io(d) => "I/O error: "@ + d@,
            DecodeError::Jpeg(d) => "JPEG error: "@ + d@,
            DecodeError::InvalidFormat(d) => "Invalid format: "@ + d@,
            DecodeError::Unsupported(d) => "Unsupported format: "@ + d@,
            DecodeError::BufferTooShort { expected, actual } => "Buffer too short: expected "@
                + decimal(*expected as nat) + " bytes, got "@ + decimal(*actual as nat),
            DecodeError::Profile(d) => "Profile error: "@ + d@,
            DecodeError::Canceled(d) => "Canceled: "@ + d@,
            DecodeError::FileTooLarge { size, limit } => "File too large: "@ + decimal(*size as nat)
                + " bytes exceeds limit of "@ + decimal(*limit as nat) + " bytes"@,
        }
    }

    /// The human-readable message of this error (e.g. `"Invalid format: bad"`).
    pub fn to_display_string(&self) -> (r: String)
        ensures
            r@ == self.text(),
    {
        let mut s = String::new();
        match self {
            DecodeError::Io(d) => {
                push_str(&mut s, "I/O error: ");
                push_str(&mut s, d.as_str());
            },
            DecodeError::Jpeg(d) => {
                push_str(&mut s, "JPEG error: ");
                push_str(&mut s, d.as_str());
            },
            DecodeError::InvalidFormat(d) => {
                push_str(&mut s, "Invalid format: ");
                push_str(&mut s, d.as_str());
            },
            DecodeError::Unsupported(d) => {
                push_str(&mut s, "Unsupported format: ");
                push_str(&mut s, d.as_str());
            },
            DecodeError::BufferTooShort { expected, actual } => {
                push_str(&mut s, "Buffer too short: expected ");
                push_decimal(&mut s, *expected as u64);
                push_str(&mut s, " bytes, got ");
                push_decimal(&mut s, *actual as u64);
            },
            DecodeError::Profile(d) => {
                push_str(&mut s, "Profile error: ");
                push_str(&mut s, d.as_str());
            },
            DecodeError::Canceled(d) => {
                push_str(&mut s, "Canceled: ");
                push_str(&mut s, d.as_str());
            },
            DecodeError::FileTooLarge { size, limit } => {
                push_str(&mut s, "File too large: ");
                push_decimal(&mut s, *size as u64);
                push_str(&mut s, " bytes exceeds limit of ");
                push_decimal(&mut s, *limit as u64);
                push_str(&mut s, " bytes");
            },
        }
        s
    }
}

/// Builds an error carrying the text `msg`.
pub fn invalid_format(msg: &str) -> (e: DecodeError)
    ensures
        e matches DecodeError::InvalidFormat(m) && m@ == msg@,
{
    DecodeError::InvalidFormat(string_of(msg))
}

/// Builds a cancellation error carrying the text `msg`.
pub fn canceled(msg: &str) -> (e: DecodeError)
    ensures
        e matches DecodeError::Canceled(m) && m@ == msg@,
{
    DecodeError::Canceled(string_of(msg))
}

impl DecodedImage {
    /// Summary text: `"DecodedImage { data: N bytes, width: W, height: H }"`.
    pub fn display_string(&self) -> (r: String)
        ensures
            r@ == "DecodedImage { data: "@ + decimal(self.data.len() as nat) + " bytes, width: "@
                + decimal(self.width as nat) + ", height: "@ + decimal(self.height as nat) + " }"@,
    {
        let mut s = String::new();
        push_str(&mut s, "DecodedImage { data: ");
        push_decimal(&mut s, self.data.len() as u64);
        push_str(&mut s, " bytes, width: ");
        push_decimal(&mut s, self.width as u64);
        push_str(&mut s, ", height: ");
        push_decimal(&mut s, self.height as u64);
        push_str(&mut s, " }");
        s
    }
}

} // verus!
