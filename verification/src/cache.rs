//! A least-recently-used cache of decoded frames, keyed by a hash of the raw
//! input bytes: a hit returns the stored image without decoding again, a
//! miss decodes with `decode_with_profile` and stores the result.
//!
//! Each entry holds the image as flat bytes: the width and the height as
//! 4-byte little-endian words, then the BGRA pixel data.

use vstd::prelude::*;
use std::collections::hash_map::DefaultHasher;
use std::hash::Hasher;
use vstd::std_specs::hash::DefaultHasherAdditionalSpecFns;
use std::num::NonZeroUsize;
use std::sync::atomic::AtomicBool;
use lru::LruCache;
use crate::bytes::append_range;
use crate::error::{DecodeError, DecodedImage};
use crate::exif::rd32_at;
use crate::model::Bitmap;
use crate::photodb::types::{read_u32_le, u32_at};
use crate::pipeline::{decode_with_profile, profile_decoded};
use crate::profile::{Profile, ProfileSpec};

verus! {

#[verifier::external_type_specification]
#[verifier::external_body]
#[verifier::reject_recursive_types(K)]
#[verifier::reject_recursive_types(V)]
#[verifier::reject_recursive_types(S)]
pub struct ExLruCache<K, V, S>(LruCache<K, V, S>);

#[verifier::external_type_specification]
#[verifier::external_body]
pub struct ExLruHasher(lru::DefaultHasher);

/// The key-value pairs an LRU cache holds.
pub uninterp spec fn cache_entries(c: LruCache<u64, Vec<u8>>) -> Map<u64, Seq<u8>>;

/// The capacity an LRU cache was created with.
pub uninterp spec fn cache_capacity(c: LruCache<u64, Vec<u8>>) -> nat;

/// The keys of an LRU cache in recency order, from the most recently used
/// to the least recently used.
pub uninterp spec fn cache_order(c: LruCache<u64, Vec<u8>>) -> Seq<u64>;

/// A recency order fits the entries: it lists every stored key once and
/// nothing else.
pub open spec fn order_fits(order: Seq<u64>, entries: Map<u64, Seq<u8>>) -> bool {
    &&& order.no_duplicates()
    &&& forall|k: u64| #[trigger] order.contains(k) <==> entries.contains_key(k)
}

/// The recency order after `key` is used: `key` first, then the other keys
/// in their order.
pub open spec fn touched(order: Seq<u64>, key: u64) -> Seq<u64> {
    seq![key] + order.filter(|k: u64| k != key)
}

/// What `LruCache::put` does to the entries and the recency order: a
/// present key, or any key while the cache is below capacity, is set and
/// becomes the most recently used; a new key in a full cache replaces the
/// least recently used entry (the last of the order) and goes first.
pub open spec fn put_result(
    old: Map<u64, Seq<u8>>,
    old_order: Seq<u64>,
    cap: nat,
    key: u64,
    v: Seq<u8>,
    new: Map<u64, Seq<u8>>,
    new_order: Seq<u64>,
) -> bool {
    if !old.contains_key(key) && old.len() == cap {
        &&& new == old.remove(old_order.last()).insert(key, v)
        &&& new_order == seq![key] + old_order.drop_last()
    } else {
        &&& new == old.insert(key, v)
        &&& new_order == touched(old_order, key)
    }
}

/// The entries of an empty cache.
pub open spec fn no_entries() -> Map<u64, Seq<u8>> {
    Map::empty()
}

/// `LruCache::new`: an empty cache holding at most `cap` entries.
#[verifier::external_body]
fn lru_new(cap: usize) -> (c: LruCache<u64, Vec<u8>>)
    requires
        cap > 0,
    ensures
        cache_entries(c) == no_entries(),
        cache_order(c) == Seq::<u64>::empty(),
        cache_capacity(c) == cap,
{
    LruCache::new(NonZeroUsize::new(cap).unwrap())
}

/// `LruCache::get`: the value stored under `key`, if any (copied out). A
/// hit moves the key to the front of the recency order; nothing else
/// changes.
#[verifier::external_body]
fn lru_get(c: &mut LruCache<u64, Vec<u8>>, key: u64) -> (r: Option<Vec<u8>>)
    ensures
        cache_entries(*final(c)) == cache_entries(*old(c)),
        cache_capacity(*final(c)) == cache_capacity(*old(c)),
        order_fits(cache_order(*final(c)), cache_entries(*final(c))),
        match r {
            Some(v) => cache_entries(*old(c)).contains_key(key) && v@ == cache_entries(*old(c))[key]
                && cache_order(*final(c)) == touched(cache_order(*old(c)), key),
            None => !cache_entries(*old(c)).contains_key(key) && cache_order(*final(c)) == cache_order(*old(c)),
        },
{
    c.get(&key).cloned()
}

/// `LruCache::put`: stores `value` under `key` as the most recently used
/// entry, evicting the least recently used entry when a new key meets a
/// full cache.
#[verifier::external_body]
fn lru_put(c: &mut LruCache<u64, Vec<u8>>, key: u64, value: Vec<u8>)
    ensures
        cache_capacity(*final(c)) == cache_capacity(*old(c)),
        order_fits(cache_order(*final(c)), cache_entries(*final(c))),
        put_result(
            cache_entries(*old(c)),
            cache_order(*old(c)),
            cache_capacity(*old(c)),
            key,
            value@,
            cache_entries(*final(c)),
            cache_order(*final(c)),
        ),
{
    c.put(key, value);
}

/// `LruCache::len`: the number of entries.
#[verifier::external_body]
fn lru_len(c: &LruCache<u64, Vec<u8>>) -> (r: usize)
    ensures
        r == cache_entries(*c).len(),
{
    c.len()
}

/// `LruCache::clear`: removes every entry.
#[verifier::external_body]
fn lru_clear(c: &mut LruCache<u64, Vec<u8>>)
    ensures
        cache_entries(*final(c)) == no_entries(),
        cache_order(*final(c)) == Seq::<u64>::empty(),
        cache_capacity(*final(c)) == cache_capacity(*old(c)),
{
    c.clear();
}

/// The cache key of raw input bytes: the SipHash of writing them once to a
/// fresh `DefaultHasher`.
pub open spec fn content_key(data: Seq<u8>) -> u64 {
    DefaultHasher::spec_finish(Seq::<Seq<u8>>::empty().push(data))
}

/// Computes the cache key of raw input bytes.
fn key_of(data: &[u8]) -> (r: u64)
    ensures
        r == content_key(data@),
{
    let mut hasher = DefaultHasher::new();
    hasher.write(data);
    hasher.finish()
}

/// One lookup of `key` for the input `data`: a hit returns the stored
/// image, leaves the entries as they were and makes `key` the most recently
/// used; a miss returns the decoder's result for `data` and `profile` and,
/// on success, stores the image under `key` as `LruCache::put` does (a full
/// cache gives up its least recently used entry for it); a failed decode
/// changes nothing.
pub open spec fn cache_step(
    old: Map<u64, Seq<u8>>,
    old_order: Seq<u64>,
    key: u64,
    data: Seq<u8>,
    profile: ProfileSpec,
    r: Result<DecodedImage, DecodeError>,
    new: Map<u64, Seq<u8>>,
    new_order: Seq<u64>,
) -> bool {
    if old.contains_key(key) {
        &&& r is Ok
        &&& r->Ok_0@ == entry_image(old[key])
        &&& new == old
        &&& new_order == touched(old_order, key)
    } else {
        &&& profile_decoded(data, profile, 256, None, r)
        &&& match r {
            Ok(img) => put_result(old, old_order, CACHE_CAPACITY as nat, key, entry_bytes(img@), new, new_order),
            Err(_) => new == old && new_order == old_order,
        }
    }
}

/// The number of entries a cache holds.
pub const CACHE_CAPACITY: usize = 64;

/// The four little-endian bytes of `x`.
pub open spec fn le_bytes(x: u32) -> Seq<u8> {
    seq![(x % 256) as u8, ((x / 256) % 256) as u8, ((x / 65536) % 256) as u8, (x / 16777216) as u8]
}

/// The stored form of an image: width, height, then the pixel data.
pub open spec fn entry_bytes(b: Bitmap) -> Seq<u8> {
    le_bytes(b.width) + le_bytes(b.height) + b.data
}

/// The image read back from a stored entry of at least 8 bytes.
pub open spec fn entry_image(e: Seq<u8>) -> Bitmap {
    Bitmap { width: u32_at(e, 0, true), height: u32_at(e, 4, true), data: e.subrange(8, e.len() as int) }
}

/// Reading the four little-endian bytes of `x` gives `x` back.
pub proof fn lemma_le_bytes_round_trip(x: u32)
    ensures
        rd32_at(le_bytes(x), 0, true) == x,
{
    let b0: u32 = x % 256;
    let b1: u32 = (x / 256) % 256;
    let b2: u32 = (x / 65536) % 256;
    let b3: u32 = x / 16777216;
    assert(b0 + b1 * 256 + b2 * 65536 + b3 * 16777216 == x) by (bit_vector)
        requires
            b0 == x % 256,
            b1 == (x / 256) % 256,
            b2 == (x / 65536) % 256,
            b3 == x / 16777216,
    ;
    assert(b3 < 256) by (bit_vector)
        requires
            b3 == x / 16777216,
    ;
}

/// Storing an image and reading the entry back gives the same image.
pub proof fn lemma_entry_round_trip(b: Bitmap)
    ensures
        entry_image(entry_bytes(b)) == b,
{
    let e = entry_bytes(b);
    lemma_le_bytes_round_trip(b.width);
    lemma_le_bytes_round_trip(b.height);
    assert(e.subrange(0, 4) =~= le_bytes(b.width));
    assert(e.subrange(4, 8) =~= le_bytes(b.height));
    assert(rd32_at(e, 0, true) == rd32_at(le_bytes(b.width), 0, true));
    assert(rd32_at(e, 4, true) == rd32_at(le_bytes(b.height), 0, true));
    assert(e.subrange(8, e.len() as int) =~= b.data);
}

/// Encodes an image as a flat cache entry: 4-byte little-endian width,
/// 4-byte little-endian height, then the BGRA pixel data.
pub fn serialize_entry(img: &DecodedImage) -> (r: Vec<u8>)
    ensures
        r@ == entry_bytes(img@),
{
    let w = img.width;
    let h = img.height;
    let mut buf: Vec<u8> = Vec::new();
    buf.push((w % 256) as u8);
    buf.push(((w / 256) % 256) as u8);
    buf.push(((w / 65536) % 256) as u8);
    buf.push((w / 16777216) as u8);
    buf.push((h % 256) as u8);
    buf.push(((h / 256) % 256) as u8);
    buf.push(((h / 65536) % 256) as u8);
    buf.push((h / 16777216) as u8);
    append_range(&mut buf, img.data.as_slice(), 0, img.data.len());
    assert(img.data@.subrange(0, img.data@.len() as int) =~= img.data@);
    assert(buf@ =~= entry_bytes(img@));
    buf
}

/// Decodes an image from a flat cache entry written by [`serialize_entry`].
pub fn deserialize_entry(entry: &[u8]) -> (r: DecodedImage)
    requires
        entry@.len() >= 8,
    ensures
        r@ == entry_image(entry@),
{
    let width = read_u32_le(entry, 0);
    let height = read_u32_le(entry, 4);
    let n = entry.len();
    let mut data: Vec<u8> = Vec::new();
    append_range(&mut data, entry, 8, n);
    DecodedImage { data, width, height }
}

/// A least-recently-used cache of decoded frames, keyed by a hash of the
/// raw input bytes.
pub struct CachedDecoder {
    cache: LruCache<u64, Vec<u8>>,
}

impl CachedDecoder {
    /// The stored entries, by key.
    pub closed spec fn entries(&self) -> Map<u64, Seq<u8>> {
        cache_entries(self.cache)
    }

    /// The stored keys from the most to the least recently used.
    pub closed spec fn order(&self) -> Seq<u64> {
        cache_order(self.cache)
    }

    /// The cache's internal invariant: it was made with room for 64
    /// entries, holds no more, its recency order lists exactly the stored
    /// keys, and every entry is a stored image.
    pub closed spec fn wf(&self) -> bool {
        &&& cache_capacity(self.cache) == CACHE_CAPACITY
        &&& order_fits(self.order(), self.entries())
        &&& self.entries().dom().finite()
        &&& self.entries().len() <= CACHE_CAPACITY
        &&& forall|k: u64| #[trigger] self.entries().contains_key(k) ==> self.entries()[k].len() >= 8
    }

    /// Creates an empty cache with room for 64 entries.
    pub fn new() -> (r: Self)
        ensures
            r.wf(),
            r.entries() == no_entries(),
            r.order() == Seq::<u64>::empty(),
    {
        CachedDecoder { cache: lru_new(CACHE_CAPACITY) }
    }

    /// Looks `key` up, decoding `data` with `profile` on a miss: a hit
    /// returns the stored image and leaves the entries as they were; a miss
    /// returns the decoder's result and, on success, stores the image under
    /// `key` (a full cache gives up one entry for it).
    pub fn decode_keyed(&mut self, key: u64, profile: &Profile, data: &[u8], canceled: &AtomicBool) -> (r: Result<
        DecodedImage,
        DecodeError,
    >)
        requires
            old(self).wf(),
        ensures
            final(self).wf(),
            cache_step(
                old(self).entries(),
                old(self).order(),
                key,
                data@,
                profile@,
                r,
                final(self).entries(),
                final(self).order(),
            ),
    {
        match lru_get(&mut self.cache, key) {
            Some(entry) => {
                return Ok(deserialize_entry(entry.as_slice()));
            },
            None => {},
        }
        let image = match decode_with_profile(data, profile, canceled) {
            Ok(img) => img,
            Err(e) => {
                return Err(e);
            },
        };
        let ghost before = self.entries();
        let ghost before_order = self.order();
        let bytes = serialize_entry(&image);
        lru_put(&mut self.cache, key, bytes);
        proof {
            let after = self.entries();
            if !before.contains_key(key) && before.len() == CACHE_CAPACITY {
                let k0 = before.dom().choose();
                assert(before.dom().contains(k0));
                assert(before_order.contains(k0));
                assert(before_order.len() > 0);
                let k = before_order.last();
                assert(before_order.contains(k));
                assert(before.contains_key(k));
                assert(before.remove(k).len() == before.len() - 1);
            }
            assert forall|k: u64| #[trigger] after.contains_key(k) implies after[k].len() >= 8 by {
                if k != key {
                    assert(before.contains_key(k));
                }
            }
        }
        Ok(image)
    }

    /// Decodes `data` with `profile`, consulting the cache first (see
    /// [`CachedDecoder::decode_keyed`]); the key is the SipHash of `data`.
    ///
    /// Errors: those of `decode_with_profile`; a failed decode stores
    /// nothing.
    pub fn decode_with_cache(&mut self, profile: &Profile, data: &[u8], canceled: &AtomicBool) -> (r: Result<
        DecodedImage,
        DecodeError,
    >)
        requires
            old(self).wf(),
        ensures
            final(self).wf(),
            cache_step(
                old(self).entries(),
                old(self).order(),
                content_key(data@),
                data@,
                profile@,
                r,
                final(self).entries(),
                final(self).order(),
            ),
    {
        let key = key_of(data);
        self.decode_keyed(key, profile, data, canceled)
    }

    /// Removes every entry.
    pub fn clear(&mut self)
        requires
            old(self).wf(),
        ensures
            final(self).wf(),
            final(self).entries() == no_entries(),
            final(self).order() == Seq::<u64>::empty(),
    {
        lru_clear(&mut self.cache);
    }

    /// The number of entries.
    pub fn len(&self) -> (r: usize)
        ensures
            r == self.entries().len(),
    {
        lru_len(&self.cache)
    }

    /// Whether the cache holds no entry.
    pub fn is_empty(&self) -> (r: bool)
        ensures
            r == (self.entries().len() == 0),
    {
        self.len() == 0
    }
}

impl Default for CachedDecoder {
    fn default() -> (r: Self)
        ensures
            r.wf(),
            r.entries() == no_entries(),
            r.order() == Seq::<u64>::empty(),
    {
        Self::new()
    }
}

/// A hit after a successful miss: once a decode has stored an image under
/// a key, that key is the most recently used and looking it up again
/// returns that very image.
pub proof fn lemma_hit_returns_stored_image(
    old_entries: Map<u64, Seq<u8>>,
    old_order: Seq<u64>,
    key: u64,
    img: Bitmap,
    new_entries: Map<u64, Seq<u8>>,
    new_order: Seq<u64>,
)
    requires
        put_result(old_entries, old_order, CACHE_CAPACITY as nat, key, entry_bytes(img), new_entries, new_order),
    ensures
        new_entries.contains_key(key),
        entry_image(new_entries[key]) == img,
        new_order.len() > 0 && new_order[0] == key,
{
    lemma_entry_round_trip(img);
}

/// Eviction takes the least recently used entry: when a new key is stored
/// in a full cache whose order fits its entries, the last key of the
/// recency order leaves, every other entry stays, and the cache stays full.
pub proof fn lemma_put_evicts_least_recent(
    old_entries: Map<u64, Seq<u8>>,
    old_order: Seq<u64>,
    key: u64,
    v: Seq<u8>,
    new_entries: Map<u64, Seq<u8>>,
    new_order: Seq<u64>,
)
    requires
        old_entries.dom().finite(),
        order_fits(old_order, old_entries),
        !old_entries.contains_key(key),
        old_entries.len() == CACHE_CAPACITY,
        put_result(old_entries, old_order, CACHE_CAPACITY as nat, key, v, new_entries, new_order),
    ensures
        old_order.len() > 0,
        !new_entries.contains_key(old_order.last()),
        forall|k: u64| #[trigger] old_entries.contains_key(k) && k != old_order.last() ==> new_entries.contains_key(k)
            && new_entries[k] == old_entries[k],
        new_entries.len() == CACHE_CAPACITY,
{
    let k0 = old_entries.dom().choose();
    assert(old_entries.dom().contains(k0));
    assert(old_order.contains(k0));
    let last = old_order.last();
    assert(old_order.contains(last));
    assert(old_entries.remove(last).len() == old_entries.len() - 1);
}

} // verus!
