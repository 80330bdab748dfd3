//! PhotoDB/ArtworkDB tree walker: extracts the MHNI thumbnail entries, with
//! the MHOD/MHIF metadata that follows them, from the binary chunk tree.

use vstd::prelude::*;
use vstd::utf8::{valid_utf8, decode_utf8};
use crate::bytes::copy_range;
use crate::error::DecodeError;
use crate::profile::Encoding;
use crate::profile_db::{DbSpec, ProfileDb, builtin_db};
use crate::text::{push_str, push_signed_decimal, signed_decimal, string_of};
use crate::photodb::types::{
    MhniHeader, MhodHeader, MhodString, known_magic, is_known_magic, read_u32, remaining, short_of, u16_at, u32_at,
    mhni_parsed, MHFD, MHSD, MHL, MHII, MHNI, MHBA, MHIA, MHIF, MHOD, MHFD_SIZE, MHSD_SIZE, MH12_SIZE, MHOD_SIZE,
};
use crate::photodb::types::MhfdHeader;
use crate::photodb::tree::{ChunkStep, chunk_step, walk_from, walk_spec, lemma_chunk_step_unfold, lemma_walk_from_unfold, lemma_walk_spec_unfold, keeps_entries, lemma_walk_spec_keeps};

verus! {

/// Maximum recursion depth when walking the chunk tree.
pub const MAX_DEPTH: u32 = 64;

/// How a PhotoDB entry carries its pixel data.
#[derive(Debug, Clone, Copy, PartialEq, Eq, Structural)]
pub enum PhotoDbEntryKind {
    /// Pixel data is embedded inline in [`PhotoDbEntry::data`].
    Inline,
    /// The entry references an external `.ithmb` file (`ithmb_offset == -1`,
    /// `image_size > 0`).
    ExternalReference,
    /// No pixel data is available for this entry.
    NoData,
}

/// Metadata captured from the MHOD/MHIF chunks that follow an entry.
#[derive(Debug, Clone, Default)]
pub struct PhotoDbMetadata {
    /// Decoded MHOD null-terminated strings (e.g. album names, photo dates).
    pub mhod_strings: Vec<String>,
    /// Raw bytes of the last-seen MHIF file-info data.
    pub mhif_data: Vec<u8>,
    /// Info type from the MHIF header, if any MHIF was seen.
    pub mhif_info_type: Option<u32>,
}

/// The value of a [`PhotoDbMetadata`].
pub struct MetadataSpec {
    pub mhod_strings: Seq<Seq<char>>,
    pub mhif_data: Seq<u8>,
    pub mhif_info_type: Option<u32>,
}

impl View for PhotoDbMetadata {
    type V = MetadataSpec;

    open spec fn view(&self) -> MetadataSpec {
        MetadataSpec {
            mhod_strings: self.mhod_strings@.map_values(|s: String| s@),
            mhif_data: self.mhif_data@,
            mhif_info_type: self.mhif_info_type,
        }
    }
}

/// A thumbnail entry extracted from a PhotoDB/ArtworkDB file.
#[derive(Debug, Clone)]
pub struct PhotoDbEntry {
    /// Format identifier matching a profile prefix (e.g. 1019).
    pub format_id: i32,
    /// Raw thumbnail pixel data (empty for external references).
    pub data: Vec<u8>,
    /// Byte offset of the pixel data; -1 for external entries.
    pub ithmb_offset: i32,
    /// Byte size of the image data.
    pub image_size: i32,
    /// Image width in pixels.
    pub width: i32,
    /// Image height in pixels.
    pub height: i32,
    /// How this entry carries its pixel data.
    pub kind: PhotoDbEntryKind,
    /// Path of the external `.ithmb` file (external references only).
    pub ithmb_path: String,
    /// Metadata captured from the MHOD/MHIF chunks that follow the entry.
    pub metadata: PhotoDbMetadata,
}

/// The value of a [`PhotoDbEntry`].
pub struct EntrySpec {
    pub format_id: i32,
    pub data: Seq<u8>,
    pub ithmb_offset: i32,
    pub image_size: i32,
    pub width: i32,
    pub height: i32,
    pub kind: PhotoDbEntryKind,
    pub ithmb_path: Seq<char>,
    pub metadata: MetadataSpec,
}

impl View for PhotoDbEntry {
    type V = EntrySpec;

    open spec fn view(&self) -> EntrySpec {
        EntrySpec {
            format_id: self.format_id,
            data: self.data@,
            ithmb_offset: self.ithmb_offset,
            image_size: self.image_size,
            width: self.width,
            height: self.height,
            kind: self.kind,
            ithmb_path: self.ithmb_path@,
            metadata: self.metadata@,
        }
    }
}

/// The values of a list of entries.
pub open spec fn entries_view(v: Seq<PhotoDbEntry>) -> Seq<EntrySpec> {
    v.map_values(|e: PhotoDbEntry| e@)
}

/// Detects the byte order of a PhotoDB file from its first four bytes:
/// `Some(true)` for `"mhfd"` (little-endian), `Some(false)` for `"dfhm"`
/// (big-endian), `None` otherwise.
pub open spec fn endianness(d: Seq<u8>) -> Option<bool> {
    if d.len() < 4 {
        None
    } else if d[0] == 0x6d && d[1] == 0x68 && d[2] == 0x66 && d[3] == 0x64 {
        Some(true)
    } else if d[0] == 0x64 && d[1] == 0x66 && d[2] == 0x68 && d[3] == 0x6d {
        Some(false)
    } else {
        None
    }
}

/// Detects the byte order of a PhotoDB/ArtworkDB file from its first four
/// bytes: `Some(true)` for little-endian (`"mhfd"`), `Some(false)` for
/// big-endian (`"dfhm"`), `None` if neither.
pub fn detect_endianness(data: &[u8]) -> (r: Option<bool>)
    ensures
        r == endianness(data@),
{
    if data.len() < 4 {
        return None;
    }
    if data[0] == 0x6d && data[1] == 0x68 && data[2] == 0x66 && data[3] == 0x64 {
        return Some(true);
    }
    if data[0] == 0x64 && data[1] == 0x66 && data[2] == 0x68 && data[3] == 0x6d {
        return Some(false);
    }
    None
}

/// Returns `true` if `data` starts with the PhotoDB magic in either byte order.
pub fn can_open_photodb(data: &[u8]) -> (r: bool)
    ensures
        r == endianness(data@) is Some,
{
    detect_endianness(data).is_some()
}

/// A valid child chunk starts at `start`: an 8-byte header fits before both
/// `end` and the end of the data, its size field is at least 8 and its
/// magic is known.
pub open spec fn child_chunk_at(d: Seq<u8>, start: int, end: int, le: bool) -> bool {
    start + 8 <= end && start + 8 <= d.len() && u32_at(d, start + 4, le) >= 8 && known_magic(u32_at(d, start, le))
}

/// Checks whether a valid child chunk starts at `start` within `[start, end)`.
pub fn has_child_chunks(data: &[u8], start: usize, end: usize, little_endian: bool) -> (r: bool)
    ensures
        r == child_chunk_at(data@, start as int, end as int, little_endian),
{
    if end < 8 || start > end - 8 || data.len() < 8 || start > data.len() - 8 {
        return false;
    }
    let hdr_size = read_u32(data, start + 4, little_endian);
    if hdr_size < 8 {
        return false;
    }
    let magic = read_u32(data, start, little_endian);
    is_known_magic(magic)
}

/// Metadata with nothing in it.
pub open spec fn empty_metadata() -> MetadataSpec {
    MetadataSpec { mhod_strings: Seq::empty(), mhif_data: Seq::empty(), mhif_info_type: None }
}

/// The entry an MHNI header makes: inline data is copied out of `d` when it
/// lies inside; an offset of -1 with a positive size is an external reference.
pub open spec fn mhni_entry(h: MhniHeader, d: Seq<u8>) -> EntrySpec {
    let inline = h.ithmb_offset >= 0 && h.image_size > 0;
    let fits = h.ithmb_offset + h.image_size <= d.len();
    EntrySpec {
        format_id: h.format_id,
        data: if inline && fits {
            d.subrange(h.ithmb_offset as int, h.ithmb_offset + h.image_size)
        } else {
            Seq::empty()
        },
        ithmb_offset: h.ithmb_offset,
        image_size: h.image_size,
        width: h.width,
        height: h.height,
        kind: if inline && fits {
            PhotoDbEntryKind::Inline
        } else if !inline && h.ithmb_offset == -1 && h.image_size > 0 {
            PhotoDbEntryKind::ExternalReference
        } else {
            PhotoDbEntryKind::NoData
        },
        ithmb_path: Seq::empty(),
        metadata: empty_metadata(),
    }
}

/// Decodes bytes as UTF-8 (`String::from_utf8`).
///
/// Trusted: `String::from_utf8` succeeds exactly on valid UTF-8, and the
/// string then holds the characters the bytes encode, as its documentation
/// states.
#[verifier::external_body]
fn string_from_utf8(bytes: Vec<u8>) -> (r: Option<String>)
    ensures
        match r {
            Some(s) => valid_utf8(bytes@) && s@ == decode_utf8(bytes@),
            None => !valid_utf8(bytes@),
        },
{
    match String::from_utf8(bytes) {
        Ok(s) => Some(s),
        Err(_) => None,
    }
}

/// Position of the first zero byte of `b` at or after `i` (its length if none).
pub open spec fn first_nul(b: Seq<u8>, i: int) -> int
    decreases b.len() - i,
{
    if i < 0 || i >= b.len() {
        b.len() as int
    } else if b[i] == 0 {
        i
    } else {
        first_nul(b, i + 1)
    }
}

/// The entry with an MHOD string attached: it becomes the path of an
/// external reference that has none yet, and is appended to the strings.
pub open spec fn with_mhod_string(e: EntrySpec, s: Seq<char>) -> EntrySpec {
    EntrySpec {
        ithmb_path: if e.kind == PhotoDbEntryKind::ExternalReference && e.ithmb_path.len() == 0 {
            s
        } else {
            e.ithmb_path
        },
        metadata: MetadataSpec { mhod_strings: e.metadata.mhod_strings.push(s), ..e.metadata },
        ..e
    }
}

/// What an MHOD chunk at `pos` (ending at `ce`) does to the entries: a tag-1
/// record of positive size is read as a null-terminated UTF-8 string and
/// attached to the last entry; a record running past the data is
/// `BufferTooShort`.
pub open spec fn mhod_effect(d: Seq<u8>, pos: int, ce: int, le: bool, acc: Seq<EntrySpec>) -> Result<
    Seq<EntrySpec>,
    DecodeError,
> {
    let ms = pos + 8;
    if acc.len() == 0 || ms + 4 > ce {
        Ok(acc)
    } else {
        let tag = u16_at(d, ms, le);
        let size = u16_at(d, ms + 2, le);
        if tag == 1 && size > 0 {
            if remaining(d.len() as int, ms + 4) < size {
                Err(short_of(d, ms + 4, size as usize))
            } else {
                let raw = d.subrange(ms + 4, ms + 4 + size);
                let text = raw.subrange(0, first_nul(raw, 0));
                if valid_utf8(text) {
                    Ok(acc.update(acc.len() - 1, with_mhod_string(acc.last(), decode_utf8(text))))
                } else {
                    Ok(acc)
                }
            }
        } else {
            Ok(acc)
        }
    }
}

/// What an MHIF chunk at `pos` (ending at `ce`) does to the entries: its info
/// type, and the bytes after its 12-byte header when there are any, go to
/// the last entry.
pub open spec fn mhif_effect(d: Seq<u8>, pos: int, ce: int, le: bool, acc: Seq<EntrySpec>) -> Seq<EntrySpec> {
    let ds = pos + 12;
    if acc.len() == 0 || ds > ce {
        acc
    } else {
        let e = acc.last();
        let md = if ds < ce {
            d.subrange(ds, ce)
        } else {
            e.metadata.mhif_data
        };
        acc.update(
            acc.len() - 1,
            EntrySpec {
                metadata: MetadataSpec { mhif_info_type: Some(u32_at(d, pos + 8, le)), mhif_data: md, ..e.metadata },
                ..e
            },
        )
    }
}

/// What a leaf chunk (MHNI, MHOD, MHIF) at `pos` does to the entries.
pub open spec fn leaf_effect(d: Seq<u8>, pos: int, ce: int, le: bool, acc: Seq<EntrySpec>, magic: u32) -> Result<
    Seq<EntrySpec>,
    DecodeError,
> {
    if magic == MHNI {
        match mhni_parsed(d, pos, le) {
            Err(e) => Err(e),
            Ok((h, _)) => Ok(acc.push(mhni_entry(h, d))),
        }
    } else if magic == MHOD {
        mhod_effect(d, pos, ce, le, acc)
    } else {
        Ok(mhif_effect(d, pos, ce, le, acc))
    }
}

/// The size of the header of a container chunk with this magic.
pub open spec fn container_header(magic: u32) -> int {
    if magic == MHSD {
        16
    } else {
        12
    }
}

proof fn lemma_view_push(v: Seq<PhotoDbEntry>, e: PhotoDbEntry)
    ensures
        entries_view(v.push(e)) == entries_view(v).push(e@),
{
    assert(entries_view(v.push(e)) =~= entries_view(v).push(e@));
}

proof fn lemma_view_pop(v: Seq<PhotoDbEntry>)
    requires
        v.len() > 0,
    ensures
        entries_view(v.drop_last()) == entries_view(v).drop_last(),
        entries_view(v).last() == v.last()@,
        entries_view(v).len() == v.len(),
{
    assert(entries_view(v.drop_last()) =~= entries_view(v).drop_last());
}

fn push_mhni(data: &[u8], pos: usize, little_endian: bool, entries: &mut Vec<PhotoDbEntry>) -> (r: Result<
    (),
    DecodeError,
>)
    requires
        pos + 76 <= usize::MAX,
    ensures
        match leaf_effect(data@, pos as int, 0, little_endian, entries_view(old(entries)@), MHNI) {
            Ok(s) => r is Ok && entries_view(final(entries)@) == s,
            Err(e) => r == Err::<(), DecodeError>(e),
        },
{
    let mut mhni_pos = pos;
    let mhni = MhniHeader::parse(data, &mut mhni_pos, little_endian)?;
    let inline = mhni.ithmb_offset >= 0 && mhni.image_size > 0;
    let len = data.len();
    let fits = inline && (mhni.ithmb_offset as u64) + (mhni.image_size as u64) <= len as u64;
    let (entry_data, kind) = if fits {
        let off = mhni.ithmb_offset as usize;
        let sz = mhni.image_size as usize;
        (copy_range(data, off, off + sz), PhotoDbEntryKind::Inline)
    } else if !inline && mhni.ithmb_offset == -1 && mhni.image_size > 0 {
        (Vec::new(), PhotoDbEntryKind::ExternalReference)
    } else {
        (Vec::new(), PhotoDbEntryKind::NoData)
    };
    let entry = PhotoDbEntry {
        format_id: mhni.format_id,
        data: entry_data,
        ithmb_offset: mhni.ithmb_offset,
        image_size: mhni.image_size,
        width: mhni.width,
        height: mhni.height,
        kind,
        ithmb_path: String::new(),
        metadata: PhotoDbMetadata { mhod_strings: Vec::new(), mhif_data: Vec::new(), mhif_info_type: None },
    };
    proof {
        lemma_view_push(entries@, entry);
        assert(entry@.metadata.mhod_strings =~= Seq::<Seq<char>>::empty());
        assert(entry@ == mhni_entry(mhni, data@));
    }
    entries.push(entry);
    Ok(())
}

fn attach_mhod(data: &[u8], pos: usize, ce: usize, little_endian: bool, entries: &mut Vec<PhotoDbEntry>) -> (r:
    Result<(), DecodeError>)
    requires
        pos < ce <= data@.len(),
    ensures
        match mhod_effect(data@, pos as int, ce as int, little_endian, entries_view(old(entries)@)) {
            Ok(s) => r is Ok && entries_view(final(entries)@) == s,
            Err(e) => r == Err::<(), DecodeError>(e),
        },
{
    if entries.len() == 0 || ce < 12 || pos > ce - 12 {
        return Ok(());
    }
    let mut mhod_pos = pos + 8;
    let hdr = MhodHeader::parse(data, &mut mhod_pos, little_endian)?;
    if !(hdr.tag == 1 && hdr.size > 0) {
        return Ok(());
    }
    let s = MhodString::parse(data, &mut mhod_pos, hdr.size as usize)?;
    let raw = s.raw;
    let n = raw.len();
    let mut k: usize = 0;
    while k < n && raw[k] != 0
        invariant
            0 <= k <= n,
            n == raw@.len(),
            first_nul(raw@, 0) == first_nul(raw@, k as int),
        decreases n - k,
    {
        k = k + 1;
    }
    let trimmed = copy_range(raw.as_slice(), 0, k);
    let text = match string_from_utf8(trimmed) {
        Some(t) => t,
        None => {
            return Ok(());
        },
    };
    let mut last = entries.pop().unwrap();
    proof {
        lemma_view_pop(old(entries)@);
    }
    if last.kind == PhotoDbEntryKind::ExternalReference && last.ithmb_path.as_str().is_empty() {
        last.ithmb_path = text.clone();
    }
    last.metadata.mhod_strings.push(text);
    proof {
        let m = last.metadata.mhod_strings@;
        assert(m.map_values(|s: String| s@) =~= old(entries)@.last().metadata.mhod_strings@.map_values(
            |s: String| s@,
        ).push(text@));
        lemma_view_push(entries@, last);
    }
    entries.push(last);
    proof {
        let a = entries_view(old(entries)@);
        assert(entries_view(entries@) =~= a.update(a.len() - 1, with_mhod_string(a.last(), text@)));
    }
    Ok(())
}

fn attach_mhif(data: &[u8], pos: usize, ce: usize, little_endian: bool, entries: &mut Vec<PhotoDbEntry>)
    requires
        pos < ce <= data@.len(),
    ensures
        entries_view(final(entries)@) == mhif_effect(data@, pos as int, ce as int, little_endian, entries_view(
            old(entries)@,
        )),
{
    if entries.len() == 0 || ce < 12 || pos > ce - 12 {
        return;
    }
    let ds = pos + 12;
    let info_type = read_u32(data, pos + 8, little_endian);
    let mut last = entries.pop().unwrap();
    proof {
        lemma_view_pop(old(entries)@);
    }
    last.metadata.mhif_info_type = Some(info_type);
    if ds < ce {
        last.metadata.mhif_data = copy_range(data, ds, ce);
    }
    proof {
        lemma_view_push(entries@, last);
    }
    entries.push(last);
    proof {
        let a = entries_view(old(entries)@);
        assert(entries_view(entries@) =~= mhif_effect(data@, pos as int, ce as int, little_endian, a));
    }
}

/// The result of handling one chunk agrees with the step the walk takes there.
pub open spec fn step_agrees(
    d: Seq<u8>,
    pos: int,
    end: int,
    le: bool,
    acc: Seq<EntrySpec>,
    depth: int,
    r: Result<Option<usize>, DecodeError>,
    after: Seq<EntrySpec>,
) -> bool {
    match r {
        Err(e) => chunk_step(d, pos, end, le, acc, depth) == ChunkStep::Fail(e),
        Ok(None) => chunk_step(d, pos, end, le, acc, depth) == ChunkStep::Stop(after),
        Ok(Some(next)) => pos < next <= d.len() && chunk_step(d, pos, end, le, acc, depth) == ChunkStep::Next(
            next as int,
            after,
        ),
    }
}

/// Handles the chunk at `pos`: returns the position of the next chunk, or
/// `None` where the walk stops.
fn walk_chunk(
    data: &[u8],
    pos: usize,
    end: usize,
    little_endian: bool,
    entries: &mut Vec<PhotoDbEntry>,
    depth: u32,
) -> (r: Result<Option<usize>, DecodeError>)
    requires
        data@.len() + 76 <= usize::MAX,
        depth <= 64,
        pos < end,
        pos < data@.len(),
    ensures
        step_agrees(
            data@,
            pos as int,
            end as int,
            little_endian,
            entries_view(old(entries)@),
            depth as int,
            r,
            entries_view(final(entries)@),
        ),
    decreases 65 - depth, 0int,
{
    proof {
        lemma_chunk_step_unfold(data@, pos as int, end as int, little_endian, entries_view(entries@), depth as int);
    }
    let len = data.len();
    if len < 8 || end < 8 || pos > len - 8 || pos > end - 8 {
        return Ok(None);
    }
    let magic = read_u32(data, pos, little_endian);
    let hdr_size = read_u32(data, pos + 4, little_endian);
    if !is_known_magic(magic) || hdr_size < 8 {
        return Ok(None);
    }
    let hs = hdr_size as usize;
    let chunk_end = if hs < len - pos {
        pos + hs
    } else {
        len
    };
    if magic == MHII {
        if len - pos < MH12_SIZE {
            return Err(DecodeError::BufferTooShort { expected: MH12_SIZE, actual: len - pos });
        }
        let total = read_u32(data, pos + 8, little_endian) as usize;
        let child_end = if total < len - pos {
            pos + total
        } else {
            len
        };
        if child_end <= pos {
            return Ok(None);
        }
        if pos + MH12_SIZE < child_end {
            if let Err(e) = walk_entries(data, pos + MH12_SIZE, child_end, little_endian, entries, depth + 1) {
                return Err(e);
            }
        }
        Ok(Some(child_end))
    } else if magic == MHNI {
        if let Err(e) = push_mhni(data, pos, little_endian, entries) {
            return Err(e);
        }
        Ok(Some(chunk_end))
    } else if magic == MHOD {
        if let Err(e) = attach_mhod(data, pos, chunk_end, little_endian, entries) {
            return Err(e);
        }
        Ok(Some(chunk_end))
    } else if magic == MHIF {
        attach_mhif(data, pos, chunk_end, little_endian, entries);
        Ok(Some(chunk_end))
    } else {
        let hsz = if magic == MHSD {
            MHSD_SIZE
        } else {
            MH12_SIZE
        };
        if len - pos < hsz {
            return Err(DecodeError::BufferTooShort { expected: hsz, actual: len - pos });
        }
        let cs = pos + hsz;
        let descend = if magic == MHFD {
            true
        } else if magic == MHSD {
            cs < chunk_end && has_child_chunks(data, cs, chunk_end, little_endian)
        } else {
            cs < chunk_end
        };
        if descend {
            if let Err(e) = walk_entries(data, cs, chunk_end, little_endian, entries, depth + 1) {
                return Err(e);
            }
        }
        Ok(Some(chunk_end))
    }
}

/// Recursively walks the chunk tree within `[start, end)`, appending the
/// MHNI entries it finds to `entries` and attaching MHOD strings and MHIF
/// data to the last entry. Stops at recursion depths above [`MAX_DEPTH`],
/// at the first unknown magic or header size below 8, and at an MHII whose
/// total length does not advance.
///
/// Errors: `BufferTooShort` when a chunk header runs past the data.
pub fn walk_entries(
    data: &[u8],
    start: usize,
    end: usize,
    little_endian: bool,
    entries: &mut Vec<PhotoDbEntry>,
    depth: u32,
) -> (r: Result<(), DecodeError>)
    requires
        data@.len() + 76 <= usize::MAX,
    ensures
        match walk_spec(data@, start as int, end as int, little_endian, entries_view(old(entries)@), depth as int) {
            Ok(s) => r is Ok && entries_view(final(entries)@) == s,
            Err(e) => r == Err::<(), DecodeError>(e),
        },
    decreases 65 - depth, 1int,
{
    proof {
        lemma_walk_spec_unfold(data@, start as int, end as int, little_endian, entries_view(entries@), depth as int);
    }
    let len = data.len();
    if depth > MAX_DEPTH {
        return Ok(());
    }
    if start >= end || start >= len {
        return Ok(());
    }
    let ghost d = data@;
    let ghost target = walk_spec(d, start as int, end as int, little_endian, entries_view(entries@), depth as int);
    let mut pos = start;
    while pos < end && pos < len
        invariant
            depth <= 64,
            len == d.len(),
            d == data@,
            len + 76 <= usize::MAX,
            target == walk_spec(d, start as int, end as int, little_endian, entries_view(old(entries)@), depth as int),
            target == walk_from(d, pos as int, end as int, little_endian, entries_view(entries@), depth as int),
        decreases len - pos,
    {
        let ghost before = entries_view(entries@);
        proof {
            lemma_walk_from_unfold(d, pos as int, end as int, little_endian, before, depth as int);
        }
        match walk_chunk(data, pos, end, little_endian, entries, depth) {
            Err(e) => {
                return Err(e);
            },
            Ok(None) => {
                return Ok(());
            },
            Ok(Some(next)) => {
                pos = next;
            },
        }
    }
    proof {
        lemma_walk_from_unfold(d, pos as int, end as int, little_endian, entries_view(entries@), depth as int);
    }
    Ok(())
}

/// Position of the last EOI marker (`FF D9`) starting at or before `i`, or
/// -1 if there is none.
pub open spec fn last_eoi(d: Seq<u8>, i: int) -> int
    decreases i + 1,
{
    if i < 0 || i + 1 >= d.len() {
        -1
    } else if d[i] == 0xFF && d[i + 1] == 0xD9 {
        i
    } else {
        last_eoi(d, i - 1)
    }
}

/// A JPEG buffer cut after its last EOI marker; unchanged when it has none
/// or is shorter than two bytes.
pub open spec fn jpeg_trimmed(d: Seq<u8>) -> Seq<u8> {
    if d.len() < 2 {
        d
    } else {
        let k = last_eoi(d, d.len() - 2);
        if k < 0 {
            d
        } else {
            d.subrange(0, k + 2)
        }
    }
}

proof fn lemma_last_eoi(d: Seq<u8>, i: int)
    ensures
        last_eoi(d, i) >= -1,
        last_eoi(d, i) >= 0 ==> last_eoi(d, i) <= i && last_eoi(d, i) + 1 < d.len() && d[last_eoi(d, i)] == 0xFF && d[last_eoi(d, i) + 1]
            == 0xD9,
    decreases i + 1,
{
    if !(i < 0 || i + 1 >= d.len()) && !(d[i] == 0xFF && d[i + 1] == 0xD9) {
        lemma_last_eoi(d, i - 1);
    }
}

/// Trimming is idempotent: a trimmed buffer that was cut ends with its EOI
/// marker, and trimming it again changes nothing.
pub proof fn lemma_trim_idempotent(d: Seq<u8>)
    ensures
        jpeg_trimmed(jpeg_trimmed(d)) == jpeg_trimmed(d),
        jpeg_trimmed(d) != d ==> ({
            let t = jpeg_trimmed(d);
            t.len() >= 2 && t[t.len() - 2] == 0xFF && t[t.len() - 1] == 0xD9
        }),
{
    if d.len() >= 2 {
        lemma_last_eoi(d, d.len() - 2);
        let k = last_eoi(d, d.len() - 2);
        if k >= 0 {
            let t = d.subrange(0, k + 2);
            assert(t[k] == 0xFF && t[k + 1] == 0xD9);
            assert(last_eoi(t, t.len() - 2) == k);
            assert(t.subrange(0, k + 2) =~= t);
        }
    }
}

/// Cuts a JPEG buffer after the last EOI marker (`0xFF`, `0xD9`), searching
/// backwards from the end; trailing bytes after the JPEG stream are dropped.
pub fn trim_jpeg(data: &mut Vec<u8>)
    ensures
        final(data)@ == jpeg_trimmed(old(data)@),
{
    let n = data.len();
    if n < 2 {
        return;
    }
    let mut i = n - 2;
    loop
        invariant
            i + 2 <= n,
            n == data@.len(),
            data@ == old(data)@,
            last_eoi(data@, (n - 2) as int) == last_eoi(data@, i as int),
        decreases i,
    {
        if data[i] == 0xFF && data[i + 1] == 0xD9 {
            data.truncate(i + 2);
            return;
        }
        if i == 0 {
            assert(last_eoi(data@, -1) == -1);
            return;
        }
        i = i - 1;
    }
}

/// The entry with its data cut after the last EOI marker when it has no
/// profile in `db` and its data starts with a JPEG SOI marker.
pub open spec fn trimmed_entry(e: EntrySpec, db: Option<DbSpec>) -> EntrySpec {
    let has_profile = match db {
        Some(t) => t.table.contains_key(e.format_id),
        None => false,
    };
    if !has_profile && e.data.len() >= 2 && e.data[0] == 0xFF && e.data[1] == 0xD8 {
        EntrySpec { data: jpeg_trimmed(e.data), ..e }
    } else {
        e
    }
}

/// The built-in database, if it loads.
pub open spec fn builtin_db_opt() -> Option<DbSpec> {
    match builtin_db() {
        Ok(d) => Some(d),
        Err(_) => None,
    }
}

/// Why a buffer could not be parsed as a PhotoDB.
pub enum PhotoDbFault {
    /// It does not start with the PhotoDB magic in either byte order.
    NotPhotoDb,
    /// The root header's magic is not MHFD.
    WrongMagic,
    /// A header ran past the data.
    Truncated(DecodeError),
}

/// `es` with each entry from index `from` on trimmed as `trimmed_entry` says.
pub open spec fn trimmed_after(es: Seq<EntrySpec>, from: int, db: Option<DbSpec>) -> Seq<EntrySpec> {
    Seq::new(es.len(), |i: int| if i < from { es[i] } else { trimmed_entry(es[i], db) })
}

/// What parsing a PhotoDB/ArtworkDB buffer does to the entries `acc`: the
/// entries after walking the chunk tree below the MHFD header, of those it
/// appended the ones holding JPEG data without a built-in profile trimmed
/// after their EOI; or why it failed.
pub open spec fn photodb_parsed(d: Seq<u8>, acc: Seq<EntrySpec>) -> Result<Seq<EntrySpec>, PhotoDbFault> {
    match endianness(d) {
        None => Err(PhotoDbFault::NotPhotoDb),
        Some(le) => if u32_at(d, 0, le) != MHFD {
            Err(PhotoDbFault::WrongMagic)
        } else if d.len() < 12 {
            Err(PhotoDbFault::Truncated(short_of(d, 0, 12)))
        } else {
            match walk_spec(d, 12, d.len() as int, le, acc, 0) {
                Err(e) => Err(PhotoDbFault::Truncated(e)),
                Ok(es) => Ok(trimmed_after(es, acc.len() as int, builtin_db_opt())),
            }
        },
    }
}

/// Parses a PhotoDB/ArtworkDB buffer and appends its MHNI thumbnail entries
/// to `entries`; afterwards every appended entry whose data is a JPEG stream
/// and whose format ID has no built-in profile is cut after its last EOI
/// marker. The entries already in `entries` keep their place, format ID and
/// data (an MHOD or MHIF chunk met before any MHNI annotates the last of
/// them).
///
/// Errors: `InvalidFormat` ("not a valid PhotoDB/ArtworkDB file") without the
/// PhotoDB magic, `BufferTooShort` for a truncated header (the error of the
/// header parse, as the chunk walk reports it), `InvalidFormat` ("MHFD header
/// has wrong magic") when the root magic is not MHFD.
pub fn try_parse_photodb(data: &[u8], entries: &mut Vec<PhotoDbEntry>) -> (r: Result<(), DecodeError>)
    requires
        data@.len() + 76 <= usize::MAX,
    ensures
        match photodb_parsed(data@, entries_view(old(entries)@)) {
            Ok(es) => r is Ok && entries_view(final(entries)@) == es,
            Err(PhotoDbFault::NotPhotoDb) => r matches Err(DecodeError::InvalidFormat(m)) && m@
                == "not a valid PhotoDB/ArtworkDB file"@,
            Err(PhotoDbFault::WrongMagic) => r matches Err(DecodeError::InvalidFormat(m)) && m@
                == "MHFD header has wrong magic"@,
            Err(PhotoDbFault::Truncated(e)) => r == Err::<(), DecodeError>(e),
        },
        r is Ok ==> keeps_entries(entries_view(old(entries)@), entries_view(final(entries)@)),
{
    let little_endian = match detect_endianness(data) {
        Some(le) => le,
        None => {
            return Err(DecodeError::InvalidFormat(string_of("not a valid PhotoDB/ArtworkDB file")));
        },
    };
    let mut offset: usize = 0;
    let mhfd = match MhfdHeader::parse(data, &mut offset, little_endian) {
        Ok(h) => h,
        Err(e) => {
            proof {
                assert(u32_at(data@, 0, little_endian) == MHFD || u32_at(data@, 0, little_endian) != MHFD);
            }
            return Err(e);
        },
    };
    if mhfd.magic != MHFD {
        return Err(DecodeError::InvalidFormat(string_of("MHFD header has wrong magic")));
    }
    let before = entries.len();
    let ghost acc = entries_view(entries@);
    match walk_entries(data, offset, data.len(), little_endian, entries, 0) {
        Ok(()) => {},
        Err(e) => {
            return Err(e);
        },
    }
    let db = match ProfileDb::load_builtin() {
        Ok(db) => Some(db),
        Err(_) => None,
    };
    let ghost dbv: Option<DbSpec> = if db is Some {
        Some(db->Some_0@)
    } else {
        None
    };
    assert(dbv == builtin_db_opt());
    proof {
        lemma_walk_spec_keeps(data@, 12, data@.len() as int, little_endian, acc, 0);
    }
    let ghost walked = entries_view(entries@);
    trim_jpeg_entries(entries, before, &db);
    proof {
        assert forall|i: int| 0 <= i < acc.len() implies #[trigger] entries_view(entries@)[i] == walked[i] by {}
    }
    Ok(())
}

fn has_profile(db: &Option<ProfileDb>, format_id: i32) -> (r: bool)
    ensures
        r == match db {
            Some(x) => x@.table.contains_key(format_id),
            None => false,
        },
{
    match db {
        Some(x) => x.get(format_id).is_some(),
        None => false,
    }
}

fn trim_jpeg_entries(entries: &mut Vec<PhotoDbEntry>, from: usize, db: &Option<ProfileDb>)
    ensures
        entries_view(final(entries)@) == trimmed_after(
            entries_view(old(entries)@),
            from as int,
            match db {
                Some(x) => Some(x@),
                None => None,
            },
        ),
{
    let ghost dbv: Option<DbSpec> = match db {
        Some(x) => Some(x@),
        None => None,
    };
    let ghost orig = entries_view(entries@);
    let ghost n = entries@.len();
    let mut tmp: Vec<PhotoDbEntry> = Vec::new();
    while entries.len() > 0
        invariant
            entries@.len() + tmp@.len() == n,
            entries_view(entries@) == orig.subrange(0, entries@.len() as int),
            forall|j: int| 0 <= j < tmp@.len() ==> (#[trigger] tmp@[j])@ == orig[n - 1 - j],
            n == orig.len(),
        decreases entries@.len(),
    {
        let ghost before = entries@;
        proof {
            lemma_view_pop(before);
        }
        let e = entries.pop().unwrap();
        proof {
            assert(before.drop_last() =~= entries@);
            assert(entries_view(before)[before.len() - 1] == orig[before.len() - 1]);
            assert(e@ == orig[before.len() - 1]);
            assert(entries_view(entries@) =~= orig.subrange(0, entries@.len() as int));
        }
        tmp.push(e);
    }
    let ghost target = trimmed_after(orig, from as int, dbv);
    while tmp.len() > 0
        invariant
            entries@.len() + tmp@.len() == n,
            entries_view(entries@) == target.subrange(0, entries@.len() as int),
            forall|j: int| 0 <= j < tmp@.len() ==> (#[trigger] tmp@[j])@ == orig[n - 1 - j],
            n == orig.len(),
            target == trimmed_after(orig, from as int, dbv),
            dbv == match db {
                Some(x) => Some(x@),
                None => None,
            },
        decreases tmp@.len(),
    {
        let ghost k = entries@.len();
        let mut e = tmp.pop().unwrap();
        assert(e@ == orig[k as int]);
        let is_jpeg = e.data.len() >= 2 && e.data[0] == 0xFF && e.data[1] == 0xD8;
        if entries.len() >= from && !has_profile(db, e.format_id) && is_jpeg {
            trim_jpeg(&mut e.data);
        }
        assert(e@ == target[k as int]);
        proof {
            lemma_view_push(entries@, e);
        }
        entries.push(e);
        assert(entries_view(entries@) =~= target.subrange(0, entries@.len() as int));
    }
    assert(target.subrange(0, n as int) =~= target);
}

/// The lower-case name of an encoding, as its variant name is written.
pub open spec fn encoding_lower_name(e: Encoding) -> Seq<char> {
    match e {
        Encoding::Rgb565 => "rgb565"@,
        Encoding::Rgb555 => "rgb555"@,
        Encoding::ReorderedRgb555 => "reorderedrgb555"@,
        Encoding::Yuv422 => "yuv422"@,
        Encoding::Ycbcr420 => "ycbcr420"@,
        Encoding::Jpeg => "jpeg"@,
    }
}

fn encoding_lower(e: Encoding) -> (r: &'static str)
    ensures
        r@ == encoding_lower_name(e),
{
    match e {
        Encoding::Rgb565 => "rgb565",
        Encoding::Rgb555 => "rgb555",
        Encoding::ReorderedRgb555 => "reorderedrgb555",
        Encoding::Yuv422 => "yuv422",
        Encoding::Ycbcr420 => "ycbcr420",
        Encoding::Jpeg => "jpeg",
    }
}

/// The display name of a format ID: `F<prefix>.<width>x<height> <encoding>`
/// for a built-in profile, `F<id> (unknown)` for an unknown ID, `F<id> (no
/// profile db)` if the built-in database does not load.
pub open spec fn format_id_name(format_id: i32) -> Seq<char> {
    match builtin_db() {
        Err(_) => "F"@ + signed_decimal(format_id as int) + " (no profile db)"@,
        Ok(db) => if db.table.contains_key(format_id) {
            let p = db.table[format_id];
            "F"@ + signed_decimal(p.prefix as int) + "."@ + signed_decimal(p.width as int) + "x"@
                + signed_decimal(p.height as int) + " "@ + encoding_lower_name(p.encoding)
        } else {
            "F"@ + signed_decimal(format_id as int) + " (unknown)"@
        },
    }
}

/// A display name for a format ID from the built-in profile database, e.g.
/// `"F1019.720x480 yuv422"`; unknown IDs give `"F<id> (unknown)"`.
pub fn get_format_id_name(format_id: i32) -> (r: String)
    ensures
        r@ == format_id_name(format_id),
{
    let mut s = String::new();
    push_str(&mut s, "F");
    match ProfileDb::load_builtin() {
        Ok(db) => match db.get(format_id) {
            Some(p) => {
                push_signed_decimal(&mut s, p.prefix as i64);
                push_str(&mut s, ".");
                push_signed_decimal(&mut s, p.width as i64);
                push_str(&mut s, "x");
                push_signed_decimal(&mut s, p.height as i64);
                push_str(&mut s, " ");
                push_str(&mut s, encoding_lower(p.encoding));
            },
            None => {
                push_signed_decimal(&mut s, format_id as i64);
                push_str(&mut s, " (unknown)");
            },
        },
        Err(_) => {
            push_signed_decimal(&mut s, format_id as i64);
            push_str(&mut s, " (no profile db)");
        },
    }
    s
}

} // verus!
