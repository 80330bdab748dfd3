use ithmb_core::cache::{deserialize_entry, serialize_entry, CachedDecoder};
use ithmb_core::error::{DecodeError, DecodedImage};
use ithmb_core::profile::{Encoding, Profile};
use std::sync::atomic::AtomicBool;

/// Build a valid 1×1 RGB565 frame payload (`prefix` + 2 pixel bytes) whose
/// little-endian pixel value is `pixel`. Distinct `pixel` values yield
/// distinct cache keys.
fn rgb565_payload(pixel: u8) -> (Profile, Vec<u8>) {
    let profile = Profile {
        prefix: 0x1000_0001,
        width: 1,
        height: 1,
        encoding: Encoding::Rgb565,
        frame_byte_length: 2,
        little_endian: true,
        ..Default::default()
    };
    let mut data = profile.prefix.to_be_bytes().to_vec();
    data.extend_from_slice(&[pixel, pixel]);
    (profile, data)
}

#[test]
#[allow(clippy::unwrap_used)]
fn decode_with_cache_miss_then_hit_returns_identical_image() {
    let mut decoder = CachedDecoder::new();
    let canceled = AtomicBool::new(false);
    let (profile, data) = rgb565_payload(0xFF);

    // Miss: decodes through the pipeline and stores the result.
    let first = decoder
        .decode_with_cache(&profile, &data, &canceled)
        .expect("first decode should succeed");
    assert_eq!(first.width, 1);
    assert_eq!(first.height, 1);
    assert_eq!(first.data, vec![255, 255, 255, 255], "0xFFFF RGB565 is white");
    assert_eq!(decoder.len(), 1);
    assert!(!decoder.is_empty());

    // Hit: same input must return the identical image without re-decoding.
    let second = decoder
        .decode_with_cache(&profile, &data, &canceled)
        .expect("cache hit should succeed");
    assert_eq!(second, first, "cache hit must return the identical image");
    assert_eq!(decoder.len(), 1, "a hit must not add a second entry");
}

#[test]
#[allow(clippy::unwrap_used)]
fn distinct_inputs_are_distinct_entries() {
    let mut decoder = CachedDecoder::new();
    let canceled = AtomicBool::new(false);
    let (profile_a, data_a) = rgb565_payload(0x11);
    let (profile_b, data_b) = rgb565_payload(0x22);
    decoder
        .decode_with_cache(&profile_a, &data_a, &canceled)
        .expect("decode a");
    decoder
        .decode_with_cache(&profile_b, &data_b, &canceled)
        .expect("decode b");
    assert_eq!(decoder.len(), 2);
    assert!(!decoder.is_empty());
}

#[test]
#[allow(clippy::unwrap_used)]
fn clear_evicts_all_entries_and_cache_stays_usable() {
    let mut decoder = CachedDecoder::new();
    let canceled = AtomicBool::new(false);
    let (profile, data) = rgb565_payload(0x00);
    let image = decoder.decode_with_cache(&profile, &data, &canceled).expect("decode");
    assert_eq!(decoder.len(), 1);

    decoder.clear();
    assert_eq!(decoder.len(), 0);
    assert!(decoder.is_empty());

    // A subsequent decode must still work after clear().
    let again = decoder
        .decode_with_cache(&profile, &data, &canceled)
        .expect("decode after clear");
    assert_eq!(again, image);
}

#[test]
#[allow(clippy::unwrap_used)]
fn lru_evicts_down_to_capacity() {
    let mut decoder = CachedDecoder::new();
    let canceled = AtomicBool::new(false);
    // Capacity is 64; insert 65 distinct frames so exactly one is evicted.
    for pixel in 0_u8..65 {
        let (profile, data) = rgb565_payload(pixel);
        decoder.decode_with_cache(&profile, &data, &canceled).expect("decode");
    }
    assert_eq!(decoder.len(), 64, "LRU must evict down to capacity");
}

#[test]
fn decode_with_cache_propagates_errors_without_caching() {
    let mut decoder = CachedDecoder::new();
    let canceled = AtomicBool::new(false);
    let result = decoder.decode_with_cache(&Profile::default(), b"", &canceled);
    assert!(matches!(
        result,
        Err(DecodeError::BufferTooShort { .. } | DecodeError::InvalidFormat(..))
    ));
    assert_eq!(decoder.len(), 0, "failed decodes must not be cached");
    assert!(decoder.is_empty());
}

#[test]
fn entry_serialization_roundtrips_identity() {
    let img = DecodedImage {
        data: vec![1, 2, 3, 4, 5, 6, 7, 8],
        width: 2,
        height: 1,
    };
    assert_eq!(deserialize_entry(&serialize_entry(&img)), img);
}

#[test]
fn entry_serialization_roundtrips_empty_and_max_dimensions() {
    let empty = DecodedImage {
        data: vec![],
        width: 0,
        height: 0,
    };
    assert_eq!(deserialize_entry(&serialize_entry(&empty)), empty);
    let max_dims = DecodedImage {
        data: vec![0u8; 4],
        width: u32::MAX,
        height: u32::MAX,
    };
    assert_eq!(deserialize_entry(&serialize_entry(&max_dims)), max_dims);
}


#[test]
fn serialized_entry_layout_is_le_dims_then_pixels() {
    let img = DecodedImage {
        data: vec![9, 8],
        width: 0x0102_0304,
        height: 5,
    };
    assert_eq!(serialize_entry(&img), vec![4, 3, 2, 1, 5, 0, 0, 0, 9, 8]);
}

#[test]
fn default_cache_starts_empty() {
    let decoder = CachedDecoder::default();
    assert_eq!(decoder.len(), 0);
    assert!(decoder.is_empty());
}

#[test]
fn full_cache_evicts_the_least_recently_used_key() {
    let mut decoder = CachedDecoder::new();
    let canceled = AtomicBool::new(false);
    let (profile, data) = rgb565_payload(0x33);
    for key in 0u64..64 {
        assert!(decoder.decode_keyed(key, &profile, &data, &canceled).is_ok());
    }
    assert_eq!(decoder.len(), 64);
    // Using key 0 makes key 1 the least recently used.
    assert!(decoder.decode_keyed(0, &profile, &[], &canceled).is_ok());
    assert!(decoder.decode_keyed(100, &profile, &data, &canceled).is_ok());
    assert_eq!(decoder.len(), 64);
    // A stored key is a hit even with input that cannot be decoded; an evicted one is not.
    assert!(decoder.decode_keyed(0, &profile, &[], &canceled).is_ok());
    assert!(decoder.decode_keyed(1, &profile, &[], &canceled).is_err());
    assert!(decoder.decode_keyed(2, &profile, &[], &canceled).is_ok());
}
