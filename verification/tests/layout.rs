use ithmb_core::layout::{f_filename_format_id, resolve_frame_layout, FrameLayout, LayoutError};
use ithmb_core::profile_db::ProfileDb;

fn builtin_db() -> ProfileDb {
    ProfileDb::load_builtin().expect("built-in profile database loads")
}

fn prefixed_buffer(prefix: i32, frame_size: usize, frames: usize) -> Vec<u8> {
    let mut buf = (prefix as u32).to_be_bytes().to_vec();
    buf.resize(4 + frame_size * frames, 0);
    buf
}

fn f_buffer(frame_size: usize, frames: usize) -> Vec<u8> {
    vec![0; frame_size * frames]
}

fn layout_of(data: &[u8], name: &str, db: &ProfileDb) -> Result<FrameLayout, LayoutError> {
    resolve_frame_layout(data, name, name, db)
}

#[test]
fn f_filename_format_id_parses_f_names() {
    assert_eq!(f_filename_format_id("F1061_1.ithmb"), Some(1061));
    assert_eq!(f_filename_format_id("F1019_1.ithmb"), Some(1019));
    assert_eq!(f_filename_format_id("F1055_1.ithmb"), Some(1055));
}

#[test]
fn f_filename_format_id_rejects_other_names() {
    assert_eq!(f_filename_format_id("sample.ithmb"), None);
    assert_eq!(f_filename_format_id("F.ithmb"), None);
    assert_eq!(f_filename_format_id("Fabc_1.ithmb"), None);
}

#[test]
fn f_filename_format_id_rejects_ids_past_i32() {
    assert_eq!(f_filename_format_id("F2147483647_1.ithmb"), Some(2147483647));
    assert_eq!(f_filename_format_id("F2147483648_1.ithmb"), None);
    assert_eq!(f_filename_format_id("F0001061"), Some(1061));
}

#[test]
fn prefixed_multi_frame_layout() {
    let data = prefixed_buffer(1061, 6160, 10);
    let layout = layout_of(&data, "F1061_1.ithmb", &builtin_db()).unwrap();
    assert_eq!(layout.count, 10);
    assert_eq!(layout.data_offset, 4);
    assert_eq!(layout.frame_size, 6160);
    assert_eq!(layout.prefix_bytes, Some(1061_u32.to_be_bytes()));
}

#[test]
fn prefixless_f_file_multi_frame_layout() {
    let data = f_buffer(6160, 10);
    let layout = layout_of(&data, "F1061_1.ithmb", &builtin_db()).unwrap();
    assert_eq!(layout.count, 10);
    assert_eq!(layout.data_offset, 0);
    assert_eq!(layout.frame_size, 6160);
    assert_eq!(layout.prefix_bytes, Some(1061_u32.to_be_bytes()));
}

#[test]
fn single_frame_layouts() {
    let db = builtin_db();
    let prefixed = layout_of(&prefixed_buffer(1024, 153_600, 1), "sample.ithmb", &db).unwrap();
    assert_eq!(prefixed.count, 1);

    let f_file = layout_of(&f_buffer(6160, 1), "F1061_1.ithmb", &db).unwrap();
    assert_eq!(f_file.count, 1);
}

#[test]
fn jpeg_stream_is_single_frame() {
    let mut data = vec![0xFF, 0xD8, 0xFF, 0xE0];
    data.extend_from_slice(&[0u8; 64]);
    let layout = layout_of(&data, "T1007.ithmb", &builtin_db()).unwrap();
    assert_eq!(layout.count, 1);
    assert_eq!(layout.data_offset, 0);
    assert_eq!(layout.frame_size, data.len());
    assert_eq!(layout.prefix_bytes, None);
}

#[test]
fn extracted_bytes_prepend_prefix() {
    let data = f_buffer(6160, 2);
    let layout = layout_of(&data, "F1061_1.ithmb", &builtin_db()).unwrap();
    let first = layout.extracted_bytes(&data, 0);
    let mut expected = 1061_u32.to_be_bytes().to_vec();
    expected.resize(4 + 6160, 0);
    assert_eq!(first, expected);
    assert_eq!(first.len(), 4 + 6160);
}

#[test]
fn jpeg_extracted_bytes_are_whole_file() {
    let mut data = vec![0xAA; 96];
    data[0] = 0xFF;
    data[1] = 0xD8;
    let layout = layout_of(&data, "T1007.ithmb", &builtin_db()).unwrap();
    assert_eq!(layout.extracted_bytes(&data, 0), data);
}

#[test]
fn unknown_format_errors() {
    let data = vec![0x12, 0x34, 0x56, 0x78, 0x00, 0x01, 0x02, 0x03];
    let err = layout_of(&data, "mystery.ithmb", &builtin_db()).expect_err("unknown prefix must fail");
    assert!(err.display_string().contains("cannot determine format"));
}

#[test]
fn unknown_format_message_names_path_and_prefix() {
    let data = vec![0x00, 0x00, 0x27, 0x0F, 0x00];
    let err = resolve_frame_layout(&data, "mystery.ithmb", "dir/mystery.ithmb", &builtin_db()).unwrap_err();
    assert_eq!(err.display_string(), "cannot determine format of 'dir/mystery.ithmb': unknown prefix 9999");
}

#[test]
fn unknown_f_filename_format_errors() {
    let data = vec![0x00, 0x00, 0x27, 0x0F, 0x00];
    let err = layout_of(&data, "F9999_1.ithmb", &builtin_db()).unwrap_err();
    assert_eq!(err, LayoutError::UnknownFormatId(9999));
    assert_eq!(err.display_string(), "unknown format prefix 9999 (from F-filename)");
}

#[test]
fn file_too_small_errors() {
    let db = builtin_db();
    let err = layout_of(&[0u8, 0, 4, 0x25], "F1061_1.ithmb", &db).expect_err("empty payload must fail");
    assert!(err.display_string().contains("too small"));

    let err = layout_of(&[0u8, 0, 0], "x.ithmb", &db).expect_err("buffer under 4 bytes must fail");
    assert!(err.display_string().contains("too short"));
}

#[test]
fn payload_smaller_than_frame_size_is_single_frame() {
    let mut buf = vec![0u8; 518_404];
    buf[..4].copy_from_slice(&1067_u32.to_be_bytes());
    let layout = layout_of(&buf, "ycbcr420.ithmb", &builtin_db()).unwrap();
    assert_eq!(layout.count, 1);
    assert_eq!(layout.frame_size, 518_400);
    assert_eq!(layout.extracted_bytes(&buf, 0), buf);
}

#[test]
fn frame_bytes_selects_the_indexed_frame() {
    let mut data = vec![0u8; 4 + 6160 * 3];
    data[..4].copy_from_slice(&1061_u32.to_be_bytes());
    data[4 + 6160] = 7;
    let layout = layout_of(&data, "x.ithmb", &builtin_db()).unwrap();
    assert_eq!(layout.count, 3);
    let second = layout.frame_bytes(&data, 1);
    assert_eq!(second.len(), 6160);
    assert_eq!(second[0], 7);
}

#[test]
fn zero_frame_size_profile_errors() {
    let mut db = builtin_db();
    db.merge_json(r#"[{"prefix":4242,"width":0,"height":0,"encoding":"Rgb565","frame_byte_length":0}]"#).unwrap();
    let data = vec![0x00, 0x00, 0x10, 0x92, 0x01];
    let err = layout_of(&data, "x.ithmb", &db).unwrap_err();
    assert_eq!(err, LayoutError::NoFrameSize(4242));
    assert_eq!(err.display_string(), "profile 4242 has no frame size");
}
