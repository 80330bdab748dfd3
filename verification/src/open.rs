//! Opening `.ithmb` files that may be PhotoDB/ArtworkDB containers: a
//! container is parsed and each of its thumbnail entries decoded with the
//! profile of its format ID; any other file is decoded as one bare frame.

use vstd::prelude::*;
use std::sync::atomic::AtomicBool;
use crate::bytes::append_range;
use crate::config::{ConfigSpec, DecodeConfig, default_config, default_limits};
use crate::device_profiles::{DeviceFormatInfo, device_table, find_device, first_matching, format_ids};
use crate::error::{DecodeError, DecodedImage};
use crate::photodb::parser::{
    EntrySpec,
    PhotoDbEntry,
    PhotoDbFault,
    can_open_photodb,
    endianness,
    entries_view,
    photodb_parsed,
    try_parse_photodb,
};
use crate::pipeline::{
    decode_ithmb_with_config,
    decode_with_profile_with_config,
    fallback_jpeg,
    fallback_jpeg_profile,
    ithmb_decoded,
    lemma_decoded_image_well_formed,
    lemma_ithmb_image_well_formed,
    profile_decoded,
};
use crate::profile::{Encoding, ProfileSpec};
use crate::profile_db::{DbSpec, ProfileDb, builtin_db};
use crate::post_process::well_formed;
use crate::profile_parser::json::JsonError;

verus! {

/// The value of an optional device name.
pub open spec fn name_view(name: Option<&str>) -> Option<Seq<char>> {
    match name {
        Some(s) => Some(s@),
        None => None,
    }
}

/// The format IDs a device name admits: `None` (every ID) without a name or
/// when no known device matches it, else the first matching device's IDs.
pub open spec fn device_filter(name: Option<Seq<char>>) -> Option<Seq<i32>> {
    match name {
        None => None,
        Some(n) => match first_matching(device_table(), n, 0) {
            Some(d) => Some(d.ids),
            None => None,
        },
    }
}

/// An entry is decoded only if it holds data and the device filter admits
/// its format ID.
pub open spec fn admitted(filter: Option<Seq<i32>>, e: EntrySpec) -> bool {
    &&& e.data.len() > 0
    &&& (filter matches Some(ids) ==> ids.contains(e.format_id))
}

/// The data starts with a JPEG SOI marker.
pub open spec fn starts_jpeg(d: Seq<u8>) -> bool {
    d.len() >= 2 && d[0] == 0xFF && d[1] == 0xD8
}

/// The profile an entry is decoded with: its format ID's built-in profile
/// (with the entry's dimensions where the profile takes them from the
/// container), else the JPEG fallback with the entry's dimensions when the
/// data is a JPEG stream, else none (the entry is skipped).
pub open spec fn entry_profile(db: DbSpec, e: EntrySpec) -> Option<ProfileSpec> {
    if db.table.contains_key(e.format_id) {
        let p = db.table[e.format_id];
        if p.use_mhni_dimensions {
            Some(ProfileSpec { width: e.width, height: e.height, ..p })
        } else {
            Some(p)
        }
    } else if starts_jpeg(e.data) {
        Some(ProfileSpec { width: e.width, height: e.height, ..fallback_jpeg() })
    } else {
        None
    }
}

/// The profile an entry is decoded with, or `None` if it is skipped.
pub open spec fn selected(db: DbSpec, filter: Option<Seq<i32>>, e: EntrySpec) -> Option<ProfileSpec> {
    if admitted(filter, e) {
        entry_profile(db, e)
    } else {
        None
    }
}

/// The four big-endian bytes of `x`.
pub open spec fn be_bytes(x: u32) -> Seq<u8> {
    seq![(x >> 24u32) as u8, (x >> 16u32) as u8, (x >> 8u32) as u8, x as u8]
}

/// What the decoder is handed for an entry: JPEG data as it is, raw data
/// behind the profile's 4-byte big-endian prefix.
pub open spec fn entry_input(p: ProfileSpec, data: Seq<u8>) -> Seq<u8> {
    if p.encoding == Encoding::Jpeg {
        data
    } else {
        be_bytes(p.prefix as u32) + data
    }
}

/// Decoding the entries `es` in order gives the images `imgs`: one image for
/// each entry that is not skipped, each a possible result of decoding that
/// entry with its profile.
pub open spec fn decoded_all(
    db: DbSpec,
    filter: Option<Seq<i32>>,
    es: Seq<EntrySpec>,
    tol: nat,
    imgs: Seq<DecodedImage>,
) -> bool
    decreases es.len(),
{
    if es.len() == 0 {
        imgs.len() == 0
    } else {
        let e = es.last();
        match selected(db, filter, e) {
            None => decoded_all(db, filter, es.drop_last(), tol, imgs),
            Some(p) => {
                &&& imgs.len() > 0
                &&& profile_decoded(entry_input(p, e.data), p, tol, None, Ok(imgs.last()))
                &&& decoded_all(db, filter, es.drop_last(), tol, imgs.drop_last())
            },
        }
    }
}

/// Decoding the entries `es` in order stops at the error `err`: the entries
/// before some decoded entry decode, and that entry's decoding gives `err`.
pub open spec fn failed_at(
    db: DbSpec,
    filter: Option<Seq<i32>>,
    es: Seq<EntrySpec>,
    tol: nat,
    err: DecodeError,
) -> bool {
    exists|i: int, imgs: Seq<DecodedImage>|
        0 <= i < es.len() && #[trigger] decoded_all(db, filter, es.take(i), tol, imgs) && match selected(
            db,
            filter,
            es[i],
        ) {
            Some(p) => profile_decoded(entry_input(p, es[i].data), p, tol, None, Err(err)),
            None => false,
        }
}

/// `r` is a possible result of opening the file `src`: a file over the size
/// limit is refused; a file without the PhotoDB magic is decoded as one bare
/// frame; a container is parsed (its parse errors returned) and its entries
/// decoded in order, the first decoder error ending the whole.
pub open spec fn opened(
    src: Seq<u8>,
    cfg: ConfigSpec,
    device: Option<Seq<char>>,
    r: Result<Vec<DecodedImage>, DecodeError>,
) -> bool {
    let tol = cfg.trailing_padding_tolerance as nat;
    if src.len() > cfg.max_raw_file_size {
        r == Err::<Vec<DecodedImage>, DecodeError>(
            DecodeError::FileTooLarge { size: src.len() as usize, limit: cfg.max_raw_file_size },
        )
    } else if endianness(src) is None {
        match r {
            Ok(v) => v@.len() == 1 && ithmb_decoded(src, cfg, None, Ok(v@[0])),
            Err(e) => ithmb_decoded(src, cfg, None, Err(e)),
        }
    } else {
        match photodb_parsed(src, Seq::empty()) {
            Err(PhotoDbFault::NotPhotoDb) => r matches Err(DecodeError::InvalidFormat(m)) && m@
                == "not a valid PhotoDB/ArtworkDB file"@,
            Err(PhotoDbFault::WrongMagic) => r matches Err(DecodeError::InvalidFormat(m)) && m@
                == "MHFD header has wrong magic"@,
            Err(PhotoDbFault::Truncated(e)) => r == Err::<Vec<DecodedImage>, DecodeError>(e),
            Ok(es) => match builtin_db() {
                Err(_) => r is Err && r->Err_0 is Profile,
                Ok(db) => match r {
                    Ok(v) => decoded_all(db, device_filter(device), es, tol, v@),
                    Err(e) => failed_at(db, device_filter(device), es, tol, e),
                },
            },
        }
    }
}

/// A device name that matches no known device applies no filter: opening a
/// container with it has exactly the results of opening it without a name.
pub proof fn lemma_unknown_device_no_filter(
    src: Seq<u8>,
    cfg: ConfigSpec,
    name: Seq<char>,
    r: Result<Vec<DecodedImage>, DecodeError>,
)
    requires
        first_matching(device_table(), name, 0) is None,
    ensures
        opened(src, cfg, Some(name), r) == opened(src, cfg, None, r),
{
    assert(device_filter(Some(name)) == device_filter(None));
}

/// Every image of a successful run over a container's entries holds
/// exactly four bytes per pixel.
pub proof fn lemma_decoded_all_well_formed(
    db: DbSpec,
    filter: Option<Seq<i32>>,
    es: Seq<EntrySpec>,
    tol: nat,
    imgs: Seq<DecodedImage>,
)
    requires
        decoded_all(db, filter, es, tol, imgs),
    ensures
        forall|i: int| 0 <= i < imgs.len() ==> well_formed(#[trigger] imgs[i]@),
    decreases es.len(),
{
    if es.len() > 0 {
        let e = es.last();
        match selected(db, filter, e) {
            None => lemma_decoded_all_well_formed(db, filter, es.drop_last(), tol, imgs),
            Some(p) => {
                lemma_decoded_all_well_formed(db, filter, es.drop_last(), tol, imgs.drop_last());
                lemma_decoded_image_well_formed(entry_input(p, e.data), p, tol, None, imgs.last());
                assert forall|i: int| 0 <= i < imgs.len() implies well_formed(#[trigger] imgs[i]@) by {
                    if i < imgs.len() - 1 {
                        assert(imgs[i] == imgs.drop_last()[i]);
                    }
                }
            },
        }
    }
}

/// Every image that opening a file hands back, from a container or a bare
/// frame, holds exactly four bytes per pixel.
pub proof fn lemma_opened_images_well_formed(
    src: Seq<u8>,
    cfg: ConfigSpec,
    device: Option<Seq<char>>,
    imgs: Vec<DecodedImage>,
)
    requires
        opened(src, cfg, device, Ok(imgs)),
    ensures
        forall|i: int| 0 <= i < imgs@.len() ==> well_formed(#[trigger] imgs@[i]@),
{
    if src.len() <= cfg.max_raw_file_size {
        if endianness(src) is None {
            lemma_ithmb_image_well_formed(src, cfg, None, imgs@[0]);
        } else {
            match photodb_parsed(src, Seq::empty()) {
                Ok(es) => match builtin_db() {
                    Ok(db) => lemma_decoded_all_well_formed(
                        db,
                        device_filter(device),
                        es,
                        cfg.trailing_padding_tolerance as nat,
                        imgs@,
                    ),
                    Err(_) => {},
                },
                Err(_) => {},
            }
        }
    }
}

fn format_id_list(v: &Vec<DeviceFormatInfo>) -> (r: Vec<i32>)
    ensures
        r@ == format_ids(v@),
{
    let mut r: Vec<i32> = Vec::new();
    let n = v.len();
    let mut i: usize = 0;
    while i < n
        invariant
            0 <= i <= n,
            n == v@.len(),
            r@ == format_ids(v@.take(i as int)),
        decreases n - i,
    {
        r.push(v[i].format_id);
        proof {
            assert(v@.take(i + 1) == v@.take(i as int).push(v@[i as int]));
            assert(format_ids(v@.take(i + 1)) =~= format_ids(v@.take(i as int)).push(v@[i as int].format_id));
        }
        i = i + 1;
    }
    assert(v@.take(n as int) =~= v@);
    r
}

fn allowed_formats(device_name: Option<&str>) -> (r: Option<Vec<i32>>)
    ensures
        match r {
            Some(v) => device_filter(name_view(device_name)) == Some(v@),
            None => device_filter(name_view(device_name)) is None,
        },
{
    match device_name {
        None => None,
        Some(name) => match find_device(name) {
            Some(d) => Some(format_id_list(&d.formats)),
            None => None,
        },
    }
}

fn contains_id(ids: &Vec<i32>, id: i32) -> (r: bool)
    ensures
        r == ids@.contains(id),
{
    let n = ids.len();
    let mut i: usize = 0;
    while i < n
        invariant
            0 <= i <= n,
            n == ids@.len(),
            forall|j: int| 0 <= j < i ==> ids@[j] != id,
        decreases n - i,
    {
        if ids[i] == id {
            assert(ids@[i as int] == id);
            return true;
        }
        i = i + 1;
    }
    false
}

fn be_prefixed(x: u32, data: &[u8]) -> (r: Vec<u8>)
    ensures
        r@ == be_bytes(x) + data@,
{
    let mut r: Vec<u8> = Vec::new();
    r.push((x >> 24u32) as u8);
    r.push((x >> 16u32) as u8);
    r.push((x >> 8u32) as u8);
    r.push(x as u8);
    append_range(&mut r, data, 0, data.len());
    assert(data@.subrange(0, data@.len() as int) =~= data@);
    assert(r@ =~= be_bytes(x) + data@);
    r
}

/// Opens an `.ithmb` file with the default limits: a PhotoDB/ArtworkDB
/// container has all its thumbnail entries decoded; any other file is
/// decoded as one bare frame.
///
/// With a device name, only entries whose format ID belongs to the first
/// device whose name contains it (case-insensitively) are decoded; without
/// one, or when no device matches, every entry is. Entries without data,
/// and entries with neither a profile nor JPEG data, are skipped.
pub fn open_ithmb(src: &[u8], canceled: &AtomicBool, device_name: Option<&str>) -> (r: Result<
    Vec<DecodedImage>,
    DecodeError,
>)
    requires
        src@.len() <= isize::MAX,
    ensures
        opened(src@, default_limits(), name_view(device_name), r),
{
    let config = default_config();
    open_ithmb_with_config(src, canceled, device_name, &config)
}

/// Opens an `.ithmb` file (container or bare frame) with custom limits.
///
/// Errors: `FileTooLarge` over the size limit, the container's parse errors,
/// the bare decoder's errors, and the first error of an entry's decoder.
pub fn open_ithmb_with_config(
    src: &[u8],
    canceled: &AtomicBool,
    device_name: Option<&str>,
    config: &DecodeConfig,
) -> (r: Result<Vec<DecodedImage>, DecodeError>)
    requires
        src@.len() <= isize::MAX,
    ensures
        opened(src@, config@, name_view(device_name), r),
{
    let len = src.len();
    if len > config.max_raw_file_size() {
        return Err(DecodeError::FileTooLarge { size: len, limit: config.max_raw_file_size() });
    }
    if !can_open_photodb(src) {
        return match decode_ithmb_with_config(src, canceled, config) {
            Ok(img) => {
                let mut v: Vec<DecodedImage> = Vec::new();
                v.push(img);
                Ok(v)
            },
            Err(e) => Err(e),
        };
    }
    let mut entries: Vec<PhotoDbEntry> = Vec::new();
    assert(entries_view(entries@) =~= Seq::<EntrySpec>::empty());
    match try_parse_photodb(src, &mut entries) {
        Ok(()) => {},
        Err(e) => {
            return Err(e);
        },
    }
    let allowed = allowed_formats(device_name);
    let db = match ProfileDb::load_builtin() {
        Ok(db) => db,
        Err(e) => {
            return Err(e);
        },
    };
    let ghost filter = device_filter(name_view(device_name));
    let ghost es = entries_view(entries@);
    let ghost tol = config@.trailing_padding_tolerance as nat;
    let mut results: Vec<DecodedImage> = Vec::new();
    let n = entries.len();
    let mut i: usize = 0;
    assert(es.take(0) =~= Seq::<EntrySpec>::empty());
    while i < n
        invariant
            0 <= i <= n,
            n == entries@.len(),
            es == entries_view(entries@),
            tol == config@.trailing_padding_tolerance as nat,
            match allowed {
                Some(v) => filter == Some(v@),
                None => filter is None,
            },
            decoded_all(db@, filter, es.take(i as int), tol, results@),
            src@.len() <= config@.max_raw_file_size,
            endianness(src@) is Some,
            photodb_parsed(src@, Seq::empty()) == Ok::<Seq<EntrySpec>, PhotoDbFault>(es),
            builtin_db() == Ok::<DbSpec, JsonError>(db@),
            filter == device_filter(name_view(device_name)),
        decreases n - i,
    {
        let entry = &entries[i];
        let ghost e = es[i as int];
        proof {
            assert(e == entry@);
            assert(es.take(i + 1).drop_last() =~= es.take(i as int));
            assert(es.take(i + 1).last() == e);
        }
        let permitted = match &allowed {
            Some(ids) => contains_id(ids, entry.format_id),
            None => true,
        };
        if entry.data.len() > 0 && permitted {
            let found = db.get(entry.format_id);
            let decoded = match found {
                Some(p0) => {
                    let mut profile = p0.clone();
                    if profile.use_mhni_dimensions {
                        profile.width = entry.width;
                        profile.height = entry.height;
                    }
                    assert(selected(db@, filter, e) == Some(profile@));
                    if profile.encoding == Encoding::Jpeg {
                        Some((decode_with_profile_with_config(entry.data.as_slice(), &profile, canceled, config), Ghost(profile@)))
                    } else {
                        let prefixed = be_prefixed(profile.prefix as u32, entry.data.as_slice());
                        Some((decode_with_profile_with_config(prefixed.as_slice(), &profile, canceled, config), Ghost(profile@)))
                    }
                },
                None => {
                    if entry.data.len() >= 2 && entry.data[0] == 0xFF && entry.data[1] == 0xD8 {
                        let mut profile = fallback_jpeg_profile();
                        profile.width = entry.width;
                        profile.height = entry.height;
                        assert(selected(db@, filter, e) == Some(profile@));
                        Some((decode_with_profile_with_config(entry.data.as_slice(), &profile, canceled, config), Ghost(profile@)))
                    } else {
                        assert(selected(db@, filter, e) is None);
                        None
                    }
                },
            };
            match decoded {
                Some((Ok(img), gp)) => {
                    let ghost p = gp@;
                    proof {
                        assert(selected(db@, filter, e) == Some(p));
                        assert(profile_decoded(entry_input(p, e.data), p, tol, None, Ok(img)));
                    }
                    let ghost before = results@;
                    results.push(img);
                    proof {
                        assert(results@.drop_last() =~= before);
                        assert(results@.last() == img);
                    }
                },
                Some((Err(err), gp)) => {
                    let ghost p = gp@;
                    proof {
                        assert(selected(db@, filter, es[i as int]) == Some(p));
                        assert(decoded_all(db@, filter, es.take(i as int), tol, results@));
                    }
                    return Err(err);
                },
                None => {},
            }
        } else {
            assert(selected(db@, filter, e) is None);
        }
        i = i + 1;
    }
    proof {
        assert(es.take(n as int) =~= es);
    }
    Ok(results)
}

} // verus!
