use ithmb_core::photodb::parser::{
    PhotoDbEntry, PhotoDbEntryKind, PhotoDbMetadata, can_open_photodb, detect_endianness, get_format_id_name, has_child_chunks, trim_jpeg, try_parse_photodb,
    walk_entries, MAX_DEPTH,
};

// -- detect_endianness ---------------------------------------------------

#[test]
fn detect_endianness_le() {
    let data = b"mhfd\x0c\x00\x00\x00";
    assert_eq!(detect_endianness(data), Some(true));
}

#[test]
fn detect_endianness_be() {
    let data: &[u8] = &[0x64, 0x66, 0x68, 0x6d, 0x00, 0x00, 0x00, 0x0c];
    assert_eq!(detect_endianness(data), Some(false));
}

#[test]
fn detect_endianness_invalid() {
    assert_eq!(detect_endianness(b"xxxx"), None);
}

#[test]
fn detect_endianness_too_short() {
    assert_eq!(detect_endianness(b"abc"), None);
    assert_eq!(detect_endianness(b""), None);
}

// -- can_open_photodb ----------------------------------------------------

#[test]
fn can_open_photodb_le() {
    assert!(can_open_photodb(b"mhfd..."));
}

#[test]
fn can_open_photodb_be() {
    let data: &[u8] = &[0x64, 0x66, 0x68, 0x6d];
    assert!(can_open_photodb(data));
}

#[test]
fn can_open_photodb_invalid() {
    assert!(!can_open_photodb(b"xxxx"));
    assert!(!can_open_photodb(b""));
}

// -- has_child_chunks ----------------------------------------------------

#[test]
fn parser_has_child_chunks_recognises_mhsd() {
    // Simulate a valid MHSD header at `start`.
    let mut data = vec![0u8; 32];
    data[0..4].copy_from_slice(b"mhsd");
    // header_size at +4 = 16
    data[4..8].copy_from_slice(&[16, 0, 0, 0]);
    assert!(has_child_chunks(&data, 0, 32, true));
}

#[test]
fn parser_has_child_chunks_rejects_short_buffer() {
    let data = b"mhsd";
    assert!(!has_child_chunks(data, 0, 4, true));
}

#[test]
fn parser_has_child_chunks_rejects_unknown_magic() {
    let mut data = vec![0u8; 16];
    data[0..4].copy_from_slice(b"xxxx");
    data[4..8].copy_from_slice(&[16, 0, 0, 0]);
    assert!(!has_child_chunks(&data, 0, 16, true));
}

#[test]
fn parser_has_child_chunks_rejects_tiny_header_size() {
    let mut data = vec![0u8; 16];
    data[0..4].copy_from_slice(b"mhsd");
    data[4..8].copy_from_slice(&[4, 0, 0, 0]); // hdr_size < 8
    assert!(!has_child_chunks(&data, 0, 16, true));
}

// -- try_parse_photodb / walk_entries ------------------------------------

/// Build a minimal LE PhotoDB with one MHSD section containing one MHL
/// containing one MHII containing one MHNI (classic inline).
fn build_minimal_photodb_le() -> Vec<u8> {
    // Layout:
    //   MHFD  (12 bytes)
    //   MHSD  (16 bytes)
    //   MHL   (12 bytes, magic "mhli")
    //   MHII  (12 bytes)
    //   MHNI  (36 bytes classic inline)
    // We place the inline pixel data right after the chunk tree.
    // The MHNI's ithmb_offset points to that trailing data.
    let tree_size = 12 + 16 + 12 + 12 + 36;
    let pixel_data: &[u8] = &[
        0xFF, 0xD8, 0xFF, 0xE0, 0x00, 0x10, 0x4A, 0x46, 0x49, 0x46, 0x00, 0x01, 0x01, 0x00, 0x00, 0x01, 0x00, 0x01,
        0x00, 0x00, 0xFF, 0xD9, // JPEG EOI
        0xCC, 0xCC, 0xCC, 0xCC,
    ]; // trailing garbage
    let pixel_offset = tree_size;

    let mut data = vec![0u8; tree_size + pixel_data.len()];

    let mut off = 0usize;

    // MHFD: magic(4) + header_size(4, 12) + entry_count(4, 1)
    data[off..off + 4].copy_from_slice(b"mhfd");
    data[off + 4..off + 8].copy_from_slice(&[12, 0, 0, 0]); // hdr_size = 12
    data[off + 8..off + 12].copy_from_slice(&[1, 0, 0, 0]); // entry_count = 1
    off += 12;

    // MHSD: magic(4) + hdr_size(4, 16) + index(2, 0) + rec_type(2, 4) +
    //        entry_count(4, 1)
    // total section size = 16 + 12 + 12 + 36 = 76
    let mhsd_total: u32 = 16 + 12 + 12 + 36;
    data[off..off + 4].copy_from_slice(b"mhsd");
    data[off + 4..off + 8].copy_from_slice(&mhsd_total.to_le_bytes());
    data[off + 8..off + 10].copy_from_slice(&[0, 0]); // index = 0
    data[off + 10..off + 12].copy_from_slice(&[4, 0]); // record_type = 4
    data[off + 12..off + 16].copy_from_slice(&[1, 0, 0, 0]); // entry_count = 1
    off += 16;

    // MHL: magic "mhli"(4) + hdr_size(4, 12) + count(4, 1)
    data[off..off + 4].copy_from_slice(b"mhli");
    data[off + 4..off + 8].copy_from_slice(&[12, 0, 0, 0]); // hdr_size = 12
    data[off + 8..off + 12].copy_from_slice(&[1, 0, 0, 0]); // count = 1
    off += 12;

    // MHII: magic(4) + hdr_size(4, 12) + total_len(4, 12 + 36 = 48)
    let mhii_total: u32 = 12 + 36;
    data[off..off + 4].copy_from_slice(b"mhii");
    data[off + 4..off + 8].copy_from_slice(&[12, 0, 0, 0]); // hdr_size = 12
    data[off + 8..off + 12].copy_from_slice(&mhii_total.to_le_bytes()); // total_len = 48
    off += 12;

    // MHNI: classic inline, 36 bytes
    // format_id at +16 = 1019, ithmb_offset at +20 = pixel_offset,
    // image_size at +24 = 22 (JPEG until EOI), width at +34 = 16,
    // height at +32 = 16
    let img_size = 22i32; // just the JPEG SOI..EOI part
    data[off..off + 4].copy_from_slice(b"mhni");
    data[off + 4..off + 8].copy_from_slice(&[36, 0, 0, 0]); // hdr_size = 36
    // +8..+16 padding (zeros)
    data[off + 16..off + 20].copy_from_slice(&[0xFB, 0x03, 0, 0]); // format_id = 1019 LE
    data[off + 20..off + 24].copy_from_slice(&i32::try_from(pixel_offset).unwrap().to_le_bytes()); // ithmb_offset
    data[off + 24..off + 28].copy_from_slice(&img_size.to_le_bytes()); // image_size
    // +28..+32 reserved / padding
    data[off + 32..off + 34].copy_from_slice(&[16, 0]); // height = 16 LE u16
    data[off + 34..off + 36].copy_from_slice(&[16, 0]); // width = 16 LE u16
    off += 36;

    // Pixel data follows the chunk tree.
    data[off..off + pixel_data.len()].copy_from_slice(pixel_data);

    data
}

#[test]
fn try_parse_photodb_extracts_inline_mhni() {
    let photodb = build_minimal_photodb_le();
    let mut entries = Vec::new();
    try_parse_photodb(&photodb, &mut entries).unwrap();

    assert_eq!(entries.len(), 1);
    let entry = &entries[0];
    assert_eq!(entry.format_id, 1019);
    assert_eq!(entry.ithmb_offset, 88);
    // off after tree (12+16+12+12+36 = 88)
    let pixel_offset: usize = 12 + 16 + 12 + 12 + 36;
    assert_eq!(entry.ithmb_offset as usize, pixel_offset);
    // image_size is 22, but JPEG trimming with no profile will cut at EOI
    // profile 1019 exists in the built-in DB, so trimming should NOT happen.
    assert_eq!(entry.image_size, 22);
    assert_eq!(entry.width, 16);
    assert_eq!(entry.height, 16);
    // Since 1019 exists in profiles, data should NOT be trimmed
    assert_eq!(entry.data.len(), 22);
}

#[test]
fn try_parse_photodb_invalid_magic() {
    let data = b"xxxx";
    let mut entries = Vec::new();
    let result = try_parse_photodb(data, &mut entries);
    assert!(result.is_err());
}

#[test]
fn try_parse_photodb_empty() {
    let data = b"";
    let mut entries = Vec::new();
    let result = try_parse_photodb(data, &mut entries);
    assert!(result.is_err());
}

#[test]
fn try_parse_photodb_trims_jpeg_for_unknown_profile() {
    // Build a minimal PhotoDB where the MHNI uses an unknown format_id
    // (e.g. 9999) and the data starts with JPEG SOI. The post-process
    // should trim trailing garbage at EOI.
    let mut photodb = build_minimal_photodb_le();
    // Overwrite the format_id to 9999 (unknown).
    // MHNI is at offset 12 + 16 + 12 + 12 = 52
    let mhni_offset = 52usize;
    photodb[mhni_offset + 16..mhni_offset + 20].copy_from_slice(&[0x0F, 0x27, 0, 0]); // 9999 LE

    let mut entries = Vec::new();
    try_parse_photodb(&photodb, &mut entries).unwrap();

    assert_eq!(entries.len(), 1);
    let entry = &entries[0];
    assert_eq!(entry.format_id, 9999);
    // Data should be trimmed to just JPEG SOI..EOI (22 bytes)
    assert_eq!(entry.data.len(), 22);
    assert_eq!(&entry.data[..2], &[0xFF, 0xD8]);
    assert_eq!(&entry.data[entry.data.len() - 2..], &[0xFF, 0xD9]);
}

// -- has_child_chunks (additional) ---------------------------------------

#[test]
fn parser_has_child_chunks_outside_end_range() {
    let mut data = vec![0u8; 16];
    data[0..4].copy_from_slice(b"mhsd");
    data[4..8].copy_from_slice(&[16, 0, 0, 0]);
    // `end` is before the header
    assert!(!has_child_chunks(&data, 0, 7, true));
}

// -- Depth limit ---------------------------------------------------------

#[test]
fn parser_walk_entries_depth_limit_returns_early() {
    // Depth > MAX_DEPTH should return Ok(()) without processing.
    let data = b"mhfd\x0c\x00\x00\x00\x00\x00\x00\x00";
    let mut entries = Vec::new();
    let result = walk_entries(data, 0, data.len(), true, &mut entries, MAX_DEPTH + 1);
    assert!(result.is_ok());
    assert!(entries.is_empty());
}

#[test]
fn parser_walk_entries_empty_range() {
    let data = b"";
    let mut entries = Vec::new();
    let result = walk_entries(data, 0, 0, true, &mut entries, 0);
    assert!(result.is_ok());
    assert!(entries.is_empty());
}

// -- get_format_id_name --------------------------------------------------

#[test]
fn get_format_id_name_known() {
    let name = get_format_id_name(1007);
    assert!(name.contains("1007"));
    assert!(name.contains("480"));
    assert!(name.contains("864"));
}

#[test]
fn get_format_id_name_unknown() {
    let name = get_format_id_name(9999);
    assert!(name.contains("unknown") || name.contains("9999"));
}

// -- trim_jpeg -----------------------------------------------------------

#[test]
fn trim_jpeg_finds_eoi() {
    let mut data = vec![0xFF, 0xD8, 0x00, 0x00, 0xFF, 0xD9, 0xCC, 0xCC, 0xCC];
    trim_jpeg(&mut data);
    assert_eq!(data.len(), 6);
    assert_eq!(&data[4..6], &[0xFF, 0xD9]);
}

#[test]
fn trim_jpeg_no_eoi() {
    let mut data = vec![0xFF, 0xD8, 0x00, 0x00, 0x00, 0x00];
    trim_jpeg(&mut data);
    assert_eq!(data.len(), 6); // unchanged
}

#[test]
fn trim_jpeg_short_buffer() {
    let mut data = vec![0xFF];
    trim_jpeg(&mut data);
    assert_eq!(data.len(), 1); // unchanged
}

// -- has_child_chunks ----------------------------------------------------

#[test]
fn walk_has_child_chunks_recognises_mhsd() {
    // Simulate a valid MHSD header at `start`.
    let mut data = vec![0u8; 32];
    data[0..4].copy_from_slice(b"mhsd");
    // header_size at +4 = 16
    data[4..8].copy_from_slice(&[16, 0, 0, 0]);
    assert!(has_child_chunks(&data, 0, 32, true));
}

#[test]
fn walk_has_child_chunks_rejects_short_buffer() {
    let data = b"mhsd";
    assert!(!has_child_chunks(data, 0, 4, true));
}

#[test]
fn walk_has_child_chunks_rejects_unknown_magic() {
    let mut data = vec![0u8; 16];
    data[0..4].copy_from_slice(b"xxxx");
    data[4..8].copy_from_slice(&[16, 0, 0, 0]);
    assert!(!has_child_chunks(&data, 0, 16, true));
}

#[test]
fn walk_has_child_chunks_rejects_tiny_header_size() {
    let mut data = vec![0u8; 16];
    data[0..4].copy_from_slice(b"mhsd");
    data[4..8].copy_from_slice(&[4, 0, 0, 0]); // hdr_size < 8
    assert!(!has_child_chunks(&data, 0, 16, true));
}

#[test]
fn walk_has_child_chunks_outside_end_range() {
    let mut data = vec![0u8; 16];
    data[0..4].copy_from_slice(b"mhsd");
    data[4..8].copy_from_slice(&[16, 0, 0, 0]);
    // `end` is before the header
    assert!(!has_child_chunks(&data, 0, 7, true));
}

// -- Depth limit ---------------------------------------------------------

#[test]
fn walk_walk_entries_depth_limit_returns_early() {
    // Depth > MAX_DEPTH should return Ok(()) without processing.
    let data = b"mhfd\x0c\x00\x00\x00\x00\x00\x00\x00";
    let mut entries = Vec::new();
    let result = walk_entries(data, 0, data.len(), true, &mut entries, MAX_DEPTH + 1);
    assert!(result.is_ok());
    assert!(entries.is_empty());
}

#[test]
fn walk_walk_entries_empty_range() {
    let data = b"";
    let mut entries = Vec::new();
    let result = walk_entries(data, 0, 0, true, &mut entries, 0);
    assert!(result.is_ok());
    assert!(entries.is_empty());
}

#[test]
fn trim_jpeg_twice_changes_nothing_more() {
    let mut data = vec![0xFF, 0xD8, 0xFF, 0xD9, 0x00, 0xFF, 0xD9, 0xCC];
    trim_jpeg(&mut data);
    assert_eq!(data, vec![0xFF, 0xD8, 0xFF, 0xD9, 0x00, 0xFF, 0xD9]);
    let once = data.clone();
    trim_jpeg(&mut data);
    assert_eq!(data, once);
}

#[test]
fn try_parse_photodb_leaves_existing_entries_untouched() {
    let e0 = PhotoDbEntry {
        format_id: 9999,
        data: vec![0xFF, 0xD8, 0x00, 0xFF, 0xD9, 0xCC],
        ithmb_offset: 0,
        image_size: 6,
        width: 1,
        height: 1,
        kind: PhotoDbEntryKind::Inline,
        ithmb_path: String::new(),
        metadata: PhotoDbMetadata::default(),
    };
    let mut entries = vec![e0];
    let mut data = b"mhfd".to_vec();
    data.extend_from_slice(&12u32.to_le_bytes());
    data.extend_from_slice(&0u32.to_le_bytes());
    assert!(try_parse_photodb(&data, &mut entries).is_ok());
    assert_eq!(entries.len(), 1);
    assert_eq!(entries[0].data, vec![0xFF, 0xD8, 0x00, 0xFF, 0xD9, 0xCC]);
}
