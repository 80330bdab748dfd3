//! PhotoDB/ArtworkDB chunk types: magic constants, endian-aware reads and the
//! chunk header structs with their parsers.

use vstd::prelude::*;
use crate::error::{DecodeError, Fault};
use crate::exif::{rd16_at, rd32_at};

verus! {

/// `"mhfd"` read as a little-endian `u32`.
pub const MHFD: u32 = 0x6466686d;
/// `"mhsd"` read as a little-endian `u32`.
pub const MHSD: u32 = 0x6473686d;
/// `"mhli"` read as a little-endian `u32` (the photo-list magic).
pub const MHL: u32 = 0x696c686d;
/// `"mhii"` read as a little-endian `u32`.
pub const MHII: u32 = 0x6969686d;
/// `"mhni"` read as a little-endian `u32`.
pub const MHNI: u32 = 0x696e686d;
/// `"mhba"` read as a little-endian `u32`.
pub const MHBA: u32 = 0x6162686d;
/// `"mhia"` read as a little-endian `u32`.
pub const MHIA: u32 = 0x6169686d;
/// `"mhif"` read as a little-endian `u32`.
pub const MHIF: u32 = 0x6669686d;
/// `"mhod"` read as a little-endian `u32`.
pub const MHOD: u32 = 0x646f686d;

/// `magic` is one of the nine known chunk magics.
pub open spec fn known_magic(magic: u32) -> bool {
    magic == MHFD || magic == MHSD || magic == MHL || magic == MHII || magic == MHNI || magic == MHBA
        || magic == MHIA || magic == MHIF || magic == MHOD
}

/// Returns `true` if `magic` is a known PhotoDB/ArtworkDB chunk magic.
pub fn is_known_magic(magic: u32) -> (r: bool)
    ensures
        r == known_magic(magic),
{
    magic == MHFD || magic == MHSD || magic == MHL || magic == MHII || magic == MHNI || magic == MHBA
        || magic == MHIA || magic == MHIF || magic == MHOD
}

/// The `u16` at byte `i` in the given byte order.
pub open spec fn u16_at(d: Seq<u8>, i: int, le: bool) -> u16 {
    rd16_at(d, i, le) as u16
}

/// The `u32` at byte `i` in the given byte order.
pub open spec fn u32_at(d: Seq<u8>, i: int, le: bool) -> u32 {
    rd32_at(d, i, le) as u32
}

/// The number of bytes from `off` to the end of a buffer of length `len`
/// (0 past the end).
pub open spec fn remaining(len: int, off: int) -> int {
    if len > off {
        len - off
    } else {
        0
    }
}

/// Reads a little-endian `u32` at `offset`.
pub fn read_u32_le(data: &[u8], offset: usize) -> (r: u32)
    requires
        offset + 4 <= data@.len(),
    ensures
        r == u32_at(data@, offset as int, true),
{
    let a = data[offset] as u32;
    let b = data[offset + 1] as u32;
    let c = data[offset + 2] as u32;
    let d = data[offset + 3] as u32;
    a + b * 256 + c * 65536 + d * 16777216
}

/// Reads a big-endian `u32` at `offset`.
pub fn read_u32_be(data: &[u8], offset: usize) -> (r: u32)
    requires
        offset + 4 <= data@.len(),
    ensures
        r == u32_at(data@, offset as int, false),
{
    let a = data[offset] as u32;
    let b = data[offset + 1] as u32;
    let c = data[offset + 2] as u32;
    let d = data[offset + 3] as u32;
    a * 16777216 + b * 65536 + c * 256 + d
}

/// Reads a `u32` at `offset` in the given byte order.
pub fn read_u32(data: &[u8], offset: usize, little_endian: bool) -> (r: u32)
    requires
        offset + 4 <= data@.len(),
    ensures
        r == u32_at(data@, offset as int, little_endian),
{
    if little_endian {
        read_u32_le(data, offset)
    } else {
        read_u32_be(data, offset)
    }
}

/// Reads an `i32` (the bits of the `u32`) at `offset` in the given byte order.
pub fn read_i32(data: &[u8], offset: usize, little_endian: bool) -> (r: i32)
    requires
        offset + 4 <= data@.len(),
    ensures
        r == u32_at(data@, offset as int, little_endian) as i32,
{
    read_u32(data, offset, little_endian) as i32
}

/// Reads a `u16` at `offset` in the given byte order.
pub fn read_u16(data: &[u8], offset: usize, little_endian: bool) -> (r: u16)
    requires
        offset + 2 <= data@.len(),
    ensures
        r == u16_at(data@, offset as int, little_endian),
{
    let a = data[offset] as u16;
    let b = data[offset + 1] as u16;
    if little_endian {
        a + b * 256
    } else {
        a * 256 + b
    }
}

/// The header-too-short error of a parser that needs `size` bytes.
fn too_short(size: usize, data_len: usize, offset: usize) -> (e: DecodeError)
    ensures
        e == (DecodeError::BufferTooShort { expected: size, actual: remaining(data_len as int, offset as int) as usize }),
{
    let rem = if data_len > offset {
        data_len - offset
    } else {
        0
    };
    DecodeError::BufferTooShort { expected: size, actual: rem }
}

/// MHFD: the 12-byte file header at the root of the database.
#[derive(Debug, Clone, PartialEq, Eq)]
pub struct MhfdHeader {
    pub magic: u32,
    /// Always 12 (the size of this header).
    pub header_size: u32,
    /// Number of top-level MHSD sections.
    pub entry_count: u32,
}

/// MHSD: a 16-byte section descriptor.
#[derive(Debug, Clone, PartialEq, Eq)]
pub struct MhsdHeader {
    pub magic: u32,
    /// Total section size including child entries.
    pub header_size: u32,
    /// Section index within the parent.
    pub index: u16,
    /// Type of records: 1 = photos, 4 = thumbnails, ...
    pub record_type: u16,
    /// Number of records in this section.
    pub entry_count: u32,
}

/// MHL: a 12-byte photo list entry.
#[derive(Debug, Clone, PartialEq, Eq)]
pub struct MhlHeader {
    pub magic: u32,
    pub header_size: u32,
    /// Number of child items.
    pub count: u32,
}

/// MHII: a 12-byte photo item.
#[derive(Debug, Clone, PartialEq, Eq)]
pub struct MhiiHeader {
    pub magic: u32,
    pub header_size: u32,
    /// Unique photo identifier.
    pub photo_id: u32,
}

/// MHBA: a 12-byte album container.
#[derive(Debug, Clone, PartialEq, Eq)]
pub struct MhbaHeader {
    pub magic: u32,
    pub header_size: u32,
    /// Unique album identifier.
    pub album_id: u32,
}

/// MHIA: a 12-byte album item container.
#[derive(Debug, Clone, PartialEq, Eq)]
pub struct MhiaHeader {
    pub magic: u32,
    pub header_size: u32,
    /// Unique artwork identifier.
    pub artwork_id: u32,
}

/// MHIF: a 12-byte file info container.
#[derive(Debug, Clone, PartialEq, Eq)]
pub struct MhifHeader {
    pub magic: u32,
    pub header_size: u32,
    /// Type of file info.
    pub info_type: u32,
}

/// MHOD: the 4-byte header of a variable-length data record; tag 1 is a
/// null-terminated string (see [`MhodString`]).
#[derive(Debug, Clone, PartialEq, Eq)]
pub struct MhodHeader {
    /// Record kind; 1 = string.
    pub tag: u16,
    /// Size of the data following this header.
    pub size: u16,
}

/// MHNI: thumbnail info entry, 36 bytes (iPod Classic, inline data) or 76
/// bytes (Apple TV / Animal, external data); maps a format ID to a byte range
/// of an `.ithmb` file.
#[derive(Debug, Clone, PartialEq, Eq)]
pub struct MhniHeader {
    pub magic: u32,
    /// 36 (classic) or 76 (Apple TV / Animal).
    pub header_size: u32,
    /// Matches profile keys (e.g. 1019).
    pub format_id: i32,
    /// Byte count of the `.ithmb` data blob.
    pub image_size: i32,
    /// Byte offset into the `.ithmb` file; -1 for external data.
    pub ithmb_offset: i32,
    /// Image width in pixels.
    pub width: i32,
    /// Image height in pixels.
    pub height: i32,
    /// Horizontal padding (alignment).
    pub h_padding: i32,
    /// Vertical padding (alignment).
    pub v_padding: i32,
}

/// The raw bytes of a null-terminated string record (MHOD tag 1).
#[derive(Debug, Clone, PartialEq, Eq)]
pub struct MhodString {
    /// The payload bytes, including the terminator when the source has one.
    pub raw: Vec<u8>,
}

/// Size in bytes of the MHFD header.
pub const MHFD_SIZE: usize = 12;
/// Size in bytes of the MHSD header.
pub const MHSD_SIZE: usize = 16;
/// Size in bytes of the MHL, MHII, MHBA, MHIA and MHIF headers.
pub const MH12_SIZE: usize = 12;
/// Size in bytes of the MHOD header.
pub const MHOD_SIZE: usize = 4;
/// Size in bytes of the classic (inline) MHNI header.
pub const MHNI_SIZE_CLASSIC: usize = 36;
/// Size in bytes of the extended (external) MHNI header.
pub const MHNI_SIZE_EXTENDED: usize = 76;

/// The MHFD header fields at `off`.
pub open spec fn mhfd_at(d: Seq<u8>, off: int, le: bool) -> MhfdHeader {
    MhfdHeader { magic: u32_at(d, off, le), header_size: u32_at(d, off + 4, le), entry_count: u32_at(d, off + 8, le) }
}

/// The MHSD header fields at `off`.
pub open spec fn mhsd_at(d: Seq<u8>, off: int, le: bool) -> MhsdHeader {
    MhsdHeader {
        magic: u32_at(d, off, le),
        header_size: u32_at(d, off + 4, le),
        index: u16_at(d, off + 8, le),
        record_type: u16_at(d, off + 10, le),
        entry_count: u32_at(d, off + 12, le),
    }
}

/// The outcome of parsing a header of `size` bytes at `off`: the header if
/// enough bytes remain, else `BufferTooShort`.
pub open spec fn short_of(d: Seq<u8>, off: int, size: usize) -> DecodeError {
    DecodeError::BufferTooShort { expected: size, actual: remaining(d.len() as int, off) as usize }
}

impl MhfdHeader {
    /// Parses an MHFD header at `*offset` and advances `*offset` past it.
    ///
    /// Errors: `BufferTooShort` if fewer than 12 bytes remain.
    pub fn parse(data: &[u8], offset: &mut usize, little_endian: bool) -> (r: Result<Self, DecodeError>)
        ensures
            remaining(data@.len() as int, *old(offset) as int) < 12 ==> r == Err::<Self, DecodeError>(
                short_of(data@, *old(offset) as int, 12),
            ) && *final(offset) == *old(offset),
            remaining(data@.len() as int, *old(offset) as int) >= 12 ==> r == Ok::<Self, DecodeError>(
                mhfd_at(data@, *old(offset) as int, little_endian),
            ) && *final(offset) == *old(offset) + 12,
    {
        let off = *offset;
        if data.len() < off || data.len() - off < MHFD_SIZE {
            return Err(too_short(MHFD_SIZE, data.len(), off));
        }
        let magic = read_u32(data, off, little_endian);
        let header_size = read_u32(data, off + 4, little_endian);
        let entry_count = read_u32(data, off + 8, little_endian);
        *offset = off + MHFD_SIZE;
        Ok(MhfdHeader { magic, header_size, entry_count })
    }
}

impl MhsdHeader {
    /// Parses an MHSD header at `*offset` and advances `*offset` past it.
    ///
    /// Errors: `BufferTooShort` if fewer than 16 bytes remain.
    pub fn parse(data: &[u8], offset: &mut usize, little_endian: bool) -> (r: Result<Self, DecodeError>)
        ensures
            remaining(data@.len() as int, *old(offset) as int) < 16 ==> r == Err::<Self, DecodeError>(
                short_of(data@, *old(offset) as int, 16),
            ) && *final(offset) == *old(offset),
            remaining(data@.len() as int, *old(offset) as int) >= 16 ==> r == Ok::<Self, DecodeError>(
                mhsd_at(data@, *old(offset) as int, little_endian),
            ) && *final(offset) == *old(offset) + 16,
    {
        let off = *offset;
        if data.len() < off || data.len() - off < MHSD_SIZE {
            return Err(too_short(MHSD_SIZE, data.len(), off));
        }
        let magic = read_u32(data, off, little_endian);
        let header_size = read_u32(data, off + 4, little_endian);
        let index = read_u16(data, off + 8, little_endian);
        let record_type = read_u16(data, off + 10, little_endian);
        let entry_count = read_u32(data, off + 12, little_endian);
        *offset = off + MHSD_SIZE;
        Ok(MhsdHeader { magic, header_size, index, record_type, entry_count })
    }
}

/// The three `u32` fields of a 12-byte header at `off`.
pub open spec fn triple_at(d: Seq<u8>, off: int, le: bool) -> (u32, u32, u32) {
    (u32_at(d, off, le), u32_at(d, off + 4, le), u32_at(d, off + 8, le))
}

fn parse_triple(data: &[u8], offset: &mut usize, little_endian: bool) -> (r: Result<(u32, u32, u32), DecodeError>)
    ensures
        remaining(data@.len() as int, *old(offset) as int) < 12 ==> r == Err::<(u32, u32, u32), DecodeError>(
            short_of(data@, *old(offset) as int, 12),
        ) && *final(offset) == *old(offset),
        remaining(data@.len() as int, *old(offset) as int) >= 12 ==> r == Ok::<(u32, u32, u32), DecodeError>(
            triple_at(data@, *old(offset) as int, little_endian),
        ) && *final(offset) == *old(offset) + 12,
{
    let off = *offset;
    if data.len() < off || data.len() - off < MH12_SIZE {
        return Err(too_short(MH12_SIZE, data.len(), off));
    }
    let a = read_u32(data, off, little_endian);
    let b = read_u32(data, off + 4, little_endian);
    let c = read_u32(data, off + 8, little_endian);
    *offset = off + MH12_SIZE;
    Ok((a, b, c))
}

impl MhlHeader {
    /// Parses an MHL header at `*offset` and advances `*offset` past it.
    ///
    /// Errors: `BufferTooShort` if fewer than 12 bytes remain.
    pub fn parse(data: &[u8], offset: &mut usize, little_endian: bool) -> (r: Result<Self, DecodeError>)
        ensures
            remaining(data@.len() as int, *old(offset) as int) < 12 ==> r == Err::<Self, DecodeError>(
                short_of(data@, *old(offset) as int, 12),
            ) && *final(offset) == *old(offset),
            remaining(data@.len() as int, *old(offset) as int) >= 12 ==> ({
                let (a, b, c) = triple_at(data@, *old(offset) as int, little_endian);
                r == Ok::<Self, DecodeError>(MhlHeader { magic: a, header_size: b, count: c })
            }) && *final(offset) == *old(offset) + 12,
    {
        let (magic, header_size, count) = parse_triple(data, offset, little_endian)?;
        Ok(MhlHeader { magic, header_size, count })
    }
}

impl MhiiHeader {
    /// Parses an MHII header at `*offset` and advances `*offset` past it.
    ///
    /// Errors: `BufferTooShort` if fewer than 12 bytes remain.
    pub fn parse(data: &[u8], offset: &mut usize, little_endian: bool) -> (r: Result<Self, DecodeError>)
        ensures
            remaining(data@.len() as int, *old(offset) as int) < 12 ==> r == Err::<Self, DecodeError>(
                short_of(data@, *old(offset) as int, 12),
            ) && *final(offset) == *old(offset),
            remaining(data@.len() as int, *old(offset) as int) >= 12 ==> ({
                let (a, b, c) = triple_at(data@, *old(offset) as int, little_endian);
                r == Ok::<Self, DecodeError>(MhiiHeader { magic: a, header_size: b, photo_id: c })
            }) && *final(offset) == *old(offset) + 12,
    {
        let (magic, header_size, photo_id) = parse_triple(data, offset, little_endian)?;
        Ok(MhiiHeader { magic, header_size, photo_id })
    }
}

impl MhbaHeader {
    /// Parses an MHBA header at `*offset` and advances `*offset` past it.
    ///
    /// Errors: `BufferTooShort` if fewer than 12 bytes remain.
    pub fn parse(data: &[u8], offset: &mut usize, little_endian: bool) -> (r: Result<Self, DecodeError>)
        ensures
            remaining(data@.len() as int, *old(offset) as int) < 12 ==> r == Err::<Self, DecodeError>(
                short_of(data@, *old(offset) as int, 12),
            ) && *final(offset) == *old(offset),
            remaining(data@.len() as int, *old(offset) as int) >= 12 ==> ({
                let (a, b, c) = triple_at(data@, *old(offset) as int, little_endian);
                r == Ok::<Self, DecodeError>(MhbaHeader { magic: a, header_size: b, album_id: c })
            }) && *final(offset) == *old(offset) + 12,
    {
        let (magic, header_size, album_id) = parse_triple(data, offset, little_endian)?;
        Ok(MhbaHeader { magic, header_size, album_id })
    }
}

impl MhiaHeader {
    /// Parses an MHIA header at `*offset` and advances `*offset` past it.
    ///
    /// Errors: `BufferTooShort` if fewer than 12 bytes remain.
    pub fn parse(data: &[u8], offset: &mut usize, little_endian: bool) -> (r: Result<Self, DecodeError>)
        ensures
            remaining(data@.len() as int, *old(offset) as int) < 12 ==> r == Err::<Self, DecodeError>(
                short_of(data@, *old(offset) as int, 12),
            ) && *final(offset) == *old(offset),
            remaining(data@.len() as int, *old(offset) as int) >= 12 ==> ({
                let (a, b, c) = triple_at(data@, *old(offset) as int, little_endian);
                r == Ok::<Self, DecodeError>(MhiaHeader { magic: a, header_size: b, artwork_id: c })
            }) && *final(offset) == *old(offset) + 12,
    {
        let (magic, header_size, artwork_id) = parse_triple(data, offset, little_endian)?;
        Ok(MhiaHeader { magic, header_size, artwork_id })
    }
}

impl MhifHeader {
    /// Parses an MHIF header at `*offset` and advances `*offset` past it.
    ///
    /// Errors: `BufferTooShort` if fewer than 12 bytes remain.
    pub fn parse(data: &[u8], offset: &mut usize, little_endian: bool) -> (r: Result<Self, DecodeError>)
        ensures
            remaining(data@.len() as int, *old(offset) as int) < 12 ==> r == Err::<Self, DecodeError>(
                short_of(data@, *old(offset) as int, 12),
            ) && *final(offset) == *old(offset),
            remaining(data@.len() as int, *old(offset) as int) >= 12 ==> ({
                let (a, b, c) = triple_at(data@, *old(offset) as int, little_endian);
                r == Ok::<Self, DecodeError>(MhifHeader { magic: a, header_size: b, info_type: c })
            }) && *final(offset) == *old(offset) + 12,
    {
        let (magic, header_size, info_type) = parse_triple(data, offset, little_endian)?;
        Ok(MhifHeader { magic, header_size, info_type })
    }
}

impl MhodHeader {
    /// Parses an MHOD header at `*offset` and advances `*offset` past it.
    ///
    /// Errors: `BufferTooShort` if fewer than 4 bytes remain.
    pub fn parse(data: &[u8], offset: &mut usize, little_endian: bool) -> (r: Result<Self, DecodeError>)
        ensures
            remaining(data@.len() as int, *old(offset) as int) < 4 ==> r == Err::<Self, DecodeError>(
                short_of(data@, *old(offset) as int, 4),
            ) && *final(offset) == *old(offset),
            remaining(data@.len() as int, *old(offset) as int) >= 4 ==> r == Ok::<Self, DecodeError>(
                MhodHeader {
                    tag: u16_at(data@, *old(offset) as int, little_endian),
                    size: u16_at(data@, *old(offset) + 2, little_endian),
                },
            ) && *final(offset) == *old(offset) + 4,
    {
        let off = *offset;
        if data.len() < off || data.len() - off < MHOD_SIZE {
            return Err(too_short(MHOD_SIZE, data.len(), off));
        }
        let tag = read_u16(data, off, little_endian);
        let size = read_u16(data, off + 2, little_endian);
        *offset = off + MHOD_SIZE;
        Ok(MhodHeader { tag, size })
    }
}

/// The data of an MHNI header at `start` lies inside the buffer (the
/// iPod Classic layout): a non-negative offset and a positive size whose sum
/// does not pass the buffer's length.
pub open spec fn mhni_inline(d: Seq<u8>, start: int, le: bool) -> bool {
    let off = u32_at(d, start + 20, le) as i32;
    let sz = u32_at(d, start + 24, le) as i32;
    off >= 0 && sz > 0 && off + sz <= (d.len() as i64)
}

/// What parsing an MHNI header at `start` gives: the header and the offset
/// past it, or `BufferTooShort` when fewer bytes remain than the detected
/// layout takes.
pub open spec fn mhni_parsed(d: Seq<u8>, start: int, le: bool) -> Result<(MhniHeader, int), DecodeError> {
    let rem = remaining(d.len() as int, start);
    if rem < 28 {
        Err(short_of(d, start, 28))
    } else if mhni_inline(d, start, le) {
        if rem < 36 {
            Err(short_of(d, start, 36))
        } else {
            Ok(
                (
                    MhniHeader {
                        magic: u32_at(d, start, le),
                        header_size: u32_at(d, start + 4, le),
                        format_id: u32_at(d, start + 16, le) as i32,
                        image_size: u32_at(d, start + 24, le) as i32,
                        ithmb_offset: u32_at(d, start + 20, le) as i32,
                        width: u16_at(d, start + 34, le) as i32,
                        height: u16_at(d, start + 32, le) as i32,
                        h_padding: 0i32,
                        v_padding: 0i32,
                    },
                    start + 36,
                ),
            )
        }
    } else if rem < 76 {
        Err(short_of(d, start, 76))
    } else {
        let packed = u32_at(d, start + 20, le);
        Ok(
            (
                MhniHeader {
                    magic: u32_at(d, start, le),
                    header_size: u32_at(d, start + 4, le),
                    format_id: u32_at(d, start + 16, le) as i32,
                    image_size: 0i32,
                    ithmb_offset: -1i32,
                    width: (packed % 65536) as i32,
                    height: (packed / 65536) as i32,
                    h_padding: 0i32,
                    v_padding: 0i32,
                },
                start + 76,
            ),
        )
    }
}

impl MhniHeader {
    /// Parses an MHNI header at `*offset` and advances `*offset` past it,
    /// detecting the inline (36-byte) or external (76-byte) layout: inline
    /// when the data offset at +20 is non-negative, the size at +24 positive,
    /// and their sum within `data`; width and height then come from the
    /// `u16`s at +34 and +32. Otherwise the `u32` at +20 packs the width (low
    /// 16 bits) and height (high 16 bits), the offset is -1 and the size 0.
    ///
    /// Errors: `BufferTooShort` if fewer than 28 bytes remain, or fewer than
    /// 36 for the inline layout, or fewer than 76 for the external layout.
    pub fn parse(data: &[u8], offset: &mut usize, little_endian: bool) -> (r: Result<Self, DecodeError>)
        requires
            *old(offset) + 76 <= usize::MAX,
        ensures
            match mhni_parsed(data@, *old(offset) as int, little_endian) {
                Ok((h, next)) => r == Ok::<Self, DecodeError>(h) && *final(offset) == next,
                Err(e) => r == Err::<Self, DecodeError>(e) && *final(offset) == *old(offset),
            },
    {
        let start = *offset;
        let len = data.len();
        if len < start || len - start < 28 {
            return Err(too_short(28, len, start));
        }
        let magic = read_u32(data, start, little_endian);
        let header_size = read_u32(data, start + 4, little_endian);
        let format_id = read_i32(data, start + 16, little_endian);
        let ithmb_off = read_i32(data, start + 20, little_endian);
        let img_size = read_i32(data, start + 24, little_endian);
        let is_inline = ithmb_off >= 0 && img_size > 0 && (ithmb_off as i64) + (img_size as i64) <= (len as i64);
        if is_inline {
            if len - start < MHNI_SIZE_CLASSIC {
                return Err(too_short(MHNI_SIZE_CLASSIC, len, start));
            }
            let width = read_u16(data, start + 34, little_endian) as i32;
            let height = read_u16(data, start + 32, little_endian) as i32;
            *offset = start + MHNI_SIZE_CLASSIC;
            Ok(
                MhniHeader {
                    magic,
                    header_size,
                    format_id,
                    image_size: img_size,
                    ithmb_offset: ithmb_off,
                    width,
                    height,
                    h_padding: 0,
                    v_padding: 0,
                },
            )
        } else {
            if len - start < MHNI_SIZE_EXTENDED {
                return Err(too_short(MHNI_SIZE_EXTENDED, len, start));
            }
            let packed = read_u32(data, start + 20, little_endian);
            let width = (packed % 65536) as i32;
            let height = (packed / 65536) as i32;
            *offset = start + MHNI_SIZE_EXTENDED;
            Ok(
                MhniHeader {
                    magic,
                    header_size,
                    format_id,
                    image_size: 0,
                    ithmb_offset: -1,
                    width,
                    height,
                    h_padding: 0,
                    v_padding: 0,
                },
            )
        }
    }
}

impl MhodString {
    /// Reads `byte_count` bytes at `*offset` as a string record and advances
    /// `*offset` past them.
    ///
    /// Errors: `BufferTooShort` if fewer than `byte_count` bytes remain.
    pub fn parse(data: &[u8], offset: &mut usize, byte_count: usize) -> (r: Result<Self, DecodeError>)
        requires
            byte_count > 0 || *old(offset) <= data@.len(),
        ensures
            remaining(data@.len() as int, *old(offset) as int) < byte_count ==> r == Err::<Self, DecodeError>(
                short_of(data@, *old(offset) as int, byte_count),
            ) && *final(offset) == *old(offset),
            remaining(data@.len() as int, *old(offset) as int) >= byte_count ==> r is Ok && r->Ok_0.raw@
                == data@.subrange(*old(offset) as int, *old(offset) + byte_count) && *final(offset) == *old(
                offset,
            ) + byte_count,
    {
        let off = *offset;
        let len = data.len();
        if len < off || len - off < byte_count {
            return Err(too_short(byte_count, len, off));
        }
        let raw = crate::bytes::copy_range(data, off, off + byte_count);
        *offset = off + byte_count;
        Ok(MhodString { raw })
    }
}

} // verus!
