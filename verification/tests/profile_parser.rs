use ithmb_core::profile::Encoding;
use ithmb_core::profile_db::BUILTIN_PROFILES_JSON;
use ithmb_core::profile_parser::parse_profiles_json;
use ithmb_core::profile_parser::parser::Parser;

#[test]
fn parse_full_profiles_json() {
    let json = r#"[
        {"prefix":1007,"width":480,"height":864,"encoding":"Rgb565","frame_byte_length":829440},
        {"prefix":1019,"width":720,"height":480,"encoding":"Yuv422","frame_byte_length":691200,"is_interlaced":true}
    ]"#;
    let profiles = parse_profiles_json(json).unwrap();
    assert_eq!(profiles.len(), 2);
    assert_eq!(profiles[0].prefix, 1007);
    assert_eq!(profiles[0].width, 480);
    assert_eq!(profiles[0].height, 864);
    assert_eq!(profiles[0].encoding, Encoding::Rgb565);
    assert_eq!(profiles[0].frame_byte_length, 829_440);
    assert!(!profiles[0].is_interlaced);

    assert_eq!(profiles[1].prefix, 1019);
    assert_eq!(profiles[1].encoding, Encoding::Yuv422);
    assert!(profiles[1].is_interlaced);
}

#[test]
fn parse_with_fallback_encodings() {
    let json = r#"[
        {"prefix":1081,"width":640,"height":480,"encoding":"Rgb565","frame_byte_length":614400,"fallback_encodings":["Jpeg"]}
    ]"#;
    let profiles = parse_profiles_json(json).unwrap();
    assert_eq!(profiles.len(), 1);
    let fb = profiles[0].fallback_encodings.as_ref().unwrap();
    assert_eq!(fb.len(), 1);
    assert_eq!(fb[0], Encoding::Jpeg);
}

#[test]
fn parse_all_54_profiles() {
    let json = BUILTIN_PROFILES_JSON;
    let profiles = parse_profiles_json(json).unwrap();
    assert_eq!(profiles.len(), 54);
    let p1007 = profiles.iter().find(|p| p.prefix == 1007).unwrap();
    assert_eq!(p1007.width, 480);
    assert_eq!(p1007.height, 864);
    assert_eq!(p1007.encoding, Encoding::Rgb565);

    let p3004 = profiles.iter().find(|p| p.prefix == 3004).unwrap();
    assert!(p3004.is_padded);
    assert_eq!(p3004.slot_size, 8192);
    assert_eq!(p3004.encoding, Encoding::Rgb555);

    let p1042 = profiles.iter().find(|p| p.prefix == 1042).unwrap();
    assert_eq!(p1042.width, 320);

    let p1081 = profiles.iter().find(|p| p.prefix == 1081).unwrap();
    let fb = p1081.fallback_encodings.as_ref().unwrap();
    assert_eq!(fb.as_slice(), &[Encoding::Jpeg]);

    let p2002 = profiles.iter().find(|p| p.prefix == 2002).unwrap();
    assert!(!p2002.little_endian);
}

#[test]
fn parse_error_on_bad_json() {
    let result = parse_profiles_json("not json at all");
    assert!(result.is_err());
}

#[test]
fn skip_value_does_not_hang_on_unclosed_nested_brackets() {
    for input in ["[{[[", "[{ [\r", "[[", "[[[", "[{\r[", "[ \r[[", "["] {
        assert!(
            parse_profiles_json(input).is_err(),
            "expected a parse error for {input:?} instead of a hang",
        );
    }
}

#[test]
fn rejects_more_than_100_profile_objects() {
    let json = format!(
        "[{}]",
        (0..101)
            .map(|i| format!(r#"{{"prefix":{i}}}"#))
            .collect::<Vec<_>>()
            .join(","),
    );
    let err = parse_profiles_json(&json).unwrap_err();
    assert!(
        err.to_display_string().contains("100"),
        "error should mention the 100-object cap, got: {}",
        err.to_display_string(),
    );
}

#[test]
fn accepts_exactly_100_profile_objects() {
    let json = format!(
        "[{}]",
        (0..100)
            .map(|i| format!(r#"{{"prefix":{i}}}"#))
            .collect::<Vec<_>>()
            .join(","),
    );
    let profiles = parse_profiles_json(&json).unwrap();
    assert_eq!(profiles.len(), 100);
}

#[test]
fn parse_string_decodes_unicode_escapes() {
    let doc = br#""A\u0042\n\u00e9""#;
    let mut p = Parser { bytes: doc, pos: 0 };
    assert_eq!(p.parse_string().unwrap(), "AB\n\u{e9}");
    assert_eq!(p.pos, doc.len());
    let bad = br#""\ud800""#;
    let mut q = Parser { bytes: bad, pos: 0 };
    assert!(q.parse_string().is_err());
}

#[test]
fn accepted_documents_hold_at_most_100_profiles() {
    let json = format!(
        "[{}]",
        (0..100)
            .map(|i| format!(r#"{{"prefix":{i}}}"#))
            .collect::<Vec<_>>()
            .join(","),
    );
    assert!(parse_profiles_json(&json).unwrap().len() <= 100);
}

#[test]
fn parse_string_keeps_utf8_as_written() {
    let doc = "\"caf\u{e9}\"".as_bytes();
    let mut p = Parser { bytes: doc, pos: 0 };
    assert_eq!(p.parse_string().unwrap(), "caf\u{e9}");
    assert_eq!(p.pos, 7);
    let wide = "\"\u{1F600}x\"".as_bytes();
    let mut q = Parser { bytes: wide, pos: 0 };
    assert_eq!(q.parse_string().unwrap(), "\u{1F600}x");
    let bad: &[u8] = &[0x22, 0xC3, 0x22];
    let mut b = Parser { bytes: bad, pos: 0 };
    assert!(b.parse_string().is_err());
}
