use ithmb_core::output::output_extension;
use ithmb_core::error::DecodeError;
use ithmb_core::output::{
    decode_frame, info_frame_count, is_png_extension, resolve_output_path, should_use_png, use_png_for_extension, FrameError,
    OutputFormat,
};
use ithmb_core::profile_db::ProfileDb;
use ithmb_core::status::{
    decode_status, fits_caller_buffer, prefix_dimensions, ITHMB_ERROR_CANCELED, ITHMB_ERROR_INVALID,
    ITHMB_ERROR_UNSUPPORTED,
};

fn db() -> ProfileDb {
    ProfileDb::load_builtin().unwrap()
}

#[test]
fn decode_frame_picks_the_requested_frame() {
    // Two 50x50 RGB565 (big-endian) frames of prefix 2002: black, then white.
    let mut buf = 2002i32.to_be_bytes().to_vec();
    buf.extend_from_slice(&[0u8; 5000]);
    buf.extend_from_slice(&[0xFFu8; 5000]);
    let img = decode_frame(&buf, 1, &db()).unwrap();
    assert_eq!((img.width, img.height), (50, 50));
    assert!(img.data.iter().all(|&b| b == 255));
}

#[test]
fn decode_frame_errors() {
    let db = db();
    assert_eq!(decode_frame(&[0, 0], 1, &db).unwrap_err(), FrameError::TooShort);
    assert_eq!(decode_frame(&[0xFF, 0xD8, 0, 0], 2, &db).unwrap_err(), FrameError::JpegSingleFrame(2));
    assert_eq!(decode_frame(&[0, 0, 0x27, 0x0F], 1, &db).unwrap_err(), FrameError::UnknownPrefix(9999));
    let mut buf = 2002i32.to_be_bytes().to_vec();
    buf.extend_from_slice(&[0u8; 5000]);
    let err = decode_frame(&buf, 1, &db).unwrap_err();
    assert_eq!(err, FrameError::OutOfRange { frame: 1, max_frames: 1 });
    assert_eq!(err.display_string(), "frame index 1 out of range: file has at most 1 frame(s)");
    assert_eq!(
        FrameError::JpegSingleFrame(3).display_string(),
        "frame index 3 out of range (JPEG files are single-frame)"
    );
    assert_eq!(
        FrameError::Decode(DecodeError::Canceled("x".into())).display_string(),
        "Canceled: x"
    );
}

#[test]
fn decode_frame_huge_index_is_out_of_range() {
    let mut buf = 2002i32.to_be_bytes().to_vec();
    buf.extend_from_slice(&[0u8; 5000]);
    assert!(matches!(decode_frame(&buf, usize::MAX, &db()), Err(FrameError::OutOfRange { .. })));
}

#[test]
fn png_choice() {
    assert!(!use_png_for_extension(Some("png"), OutputFormat::Png, true));
    assert!(use_png_for_extension(None, OutputFormat::Png, false));
    assert!(!use_png_for_extension(Some("png"), OutputFormat::Bin, false));
    assert!(use_png_for_extension(Some("PnG"), OutputFormat::Auto, false));
    assert!(!use_png_for_extension(Some("bin"), OutputFormat::Auto, false));
    assert!(!use_png_for_extension(None, OutputFormat::Auto, false));
    assert!(is_png_extension("PNG"));
    assert!(!is_png_extension("pngx"));
}

#[test]
fn should_use_png_reads_the_output_extension() {
    assert!(should_use_png(Some("out/thumb.PNG"), OutputFormat::Auto, false));
    assert!(!should_use_png(Some("out/thumb.bin"), OutputFormat::Auto, false));
    assert!(!should_use_png(None, OutputFormat::Auto, false));
    assert!(should_use_png(None, OutputFormat::Png, false));
    assert!(!should_use_png(Some("x.png"), OutputFormat::Png, true));
}

#[test]
fn output_path_defaults_to_input_with_new_extension() {
    assert_eq!(resolve_output_path("dir/F1061_1.ithmb", None, OutputFormat::Png, false), "dir/F1061_1.png");
    assert_eq!(resolve_output_path("dir/F1061_1.ithmb", None, OutputFormat::Auto, false), "dir/F1061_1.bin");
    assert_eq!(resolve_output_path("a.ithmb", Some("b.out"), OutputFormat::Png, false), "b.out");
}

#[test]
fn status_codes_of_errors() {
    assert_eq!(decode_status(&DecodeError::Canceled("x".into())), ITHMB_ERROR_CANCELED);
    assert_eq!(decode_status(&DecodeError::Profile("x".into())), ITHMB_ERROR_UNSUPPORTED);
    assert_eq!(decode_status(&DecodeError::Unsupported("x".into())), ITHMB_ERROR_UNSUPPORTED);
    assert_eq!(decode_status(&DecodeError::Jpeg("x".into())), ITHMB_ERROR_INVALID);
    assert_eq!(decode_status(&DecodeError::FileTooLarge { size: 1, limit: 0 }), -1);
}

#[test]
fn caller_buffer_area_check() {
    assert!(fits_caller_buffer(3, 2, 2, 3));
    assert!(!fits_caller_buffer(4, 2, 2, 3));
    assert!(fits_caller_buffer(u32::MAX, u32::MAX, u32::MAX, u32::MAX));
}

#[test]
fn prefix_dimensions_of_profiles() {
    assert_eq!(prefix_dimensions(1007), Ok((480, 864)));
    assert_eq!(prefix_dimensions(9999), Err(ITHMB_ERROR_UNSUPPORTED));
}

#[test]
fn info_frame_counts() {
    assert_eq!(info_frame_count(4 + 3 * 100, 100), 3);
    assert_eq!(info_frame_count(4 + 50, 100), 1);
    assert_eq!(info_frame_count(2, 100), 1);
    assert_eq!(info_frame_count(1000, 0), 1);
    assert_eq!(info_frame_count(1000, -5), 1);
}

#[test]
fn decode_frame_passes_decoder_errors() {
    let mut db = db();
    db.merge_json(r#"[{"prefix":4242,"width":0,"height":2,"encoding":"Rgb565","frame_byte_length":4}]"#).unwrap();
    let mut buf = 4242i32.to_be_bytes().to_vec();
    buf.extend_from_slice(&[0u8; 8]);
    assert!(matches!(
        decode_frame(&buf, 1, &db),
        Err(FrameError::Decode(DecodeError::InvalidFormat(_)))
    ));
}

#[test]
fn output_extension_follows_format() {
    assert_eq!(output_extension(OutputFormat::Png, false), "png");
    assert_eq!(output_extension(OutputFormat::Png, true), "bin");
    assert_eq!(output_extension(OutputFormat::Auto, false), "bin");
    assert_eq!(should_use_png(Some("noext"), OutputFormat::Auto, false), false);
}

#[test]
fn output_path_keeps_stem_and_replaces_extension() {
    assert_eq!(resolve_output_path("a.b/frame.1.ithmb", None, OutputFormat::Auto, false), "a.b/frame.1.bin");
    assert_eq!(resolve_output_path("dir/.hidden", None, OutputFormat::Png, false), "dir/.hidden.png");
    assert_eq!(resolve_output_path("dir/noext", None, OutputFormat::Bin, false), "dir/noext.bin");
    assert!(should_use_png(Some("out/x.PNG"), OutputFormat::Auto, false));
    assert!(!should_use_png(Some("out.png/x"), OutputFormat::Auto, false));
    assert!(!should_use_png(Some("out/.png"), OutputFormat::Auto, false));
}
