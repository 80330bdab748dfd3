use ithmb_core::config::{default_config, Crop, DecodeConfig, TransformConfig};

#[test]
fn config_transform_config_default_is_identity() {
    let t = TransformConfig::default();
    assert_eq!(t.rotation(), None);
    assert_eq!(t.crop(), None);
    assert_eq!(t.swap_rgb_channels(), None);
    assert_eq!(t.swap_chroma_planes(), None);
    assert_eq!(t.clcl_chroma(), None);
    assert_eq!(t.cl_chroma(), None);
}

#[test]
fn config_builder_sets_single_field_others_remain_none() {
    let t = TransformConfig::default().with_rotation(90);
    assert_eq!(t.rotation(), Some(90));
    assert_eq!(t.crop(), None);
    assert_eq!(t.swap_rgb_channels(), None);
}

#[test]
fn config_crop_default_is_zero_and_roundtrips() {
    let c = Crop::default();
    assert_eq!((c.x, c.y, c.width, c.height), (0, 0, 0, 0));
    let built = Crop {
        x: 4,
        y: 2,
        width: 10,
        height: 20,
    };
    let t = TransformConfig::default().with_crop(built);
    assert_eq!(t.crop(), Some(built));
}

#[test]
fn transform_config_transform_config_default_is_identity() {
    let t = TransformConfig::default();
    assert_eq!(t.rotation(), None);
    assert_eq!(t.crop(), None);
    assert_eq!(t.swap_rgb_channels(), None);
    assert_eq!(t.swap_chroma_planes(), None);
    assert_eq!(t.clcl_chroma(), None);
    assert_eq!(t.cl_chroma(), None);
}

#[test]
fn transform_config_builder_sets_single_field_others_remain_none() {
    let t = TransformConfig::default().with_rotation(90);
    assert_eq!(t.rotation(), Some(90));
    assert_eq!(t.crop(), None);
    assert_eq!(t.swap_rgb_channels(), None);
}

#[test]
fn transform_config_crop_default_is_zero_and_roundtrips() {
    let c = Crop::default();
    assert_eq!((c.x, c.y, c.width, c.height), (0, 0, 0, 0));
    let built = Crop {
        x: 4,
        y: 2,
        width: 10,
        height: 20,
    };
    let t = TransformConfig::default().with_crop(built);
    assert_eq!(t.crop(), Some(built));
}


#[test]
fn decode_config_defaults_and_builders() {
    let c = default_config();
    assert_eq!(c.max_raw_file_size(), 8 * 1024 * 1024);
    assert_eq!(c.trailing_padding_tolerance(), 256);
    let d = DecodeConfig::default().with_max_raw_file_size(10).with_trailing_padding_tolerance(3);
    assert_eq!(d.max_raw_file_size(), 10);
    assert_eq!(d.trailing_padding_tolerance(), 3);
    assert_eq!(d.jpeg_scan_limit(), c.jpeg_scan_limit());
}

#[test]
fn decode_config_display_lists_fields() {
    assert_eq!(
        default_config().display_string(),
        "DecodeConfig { max_raw_file_size: 8388608, jpeg_scan_limit: 4194304, cancel_check_interval: 65536, \
         trailing_padding_tolerance: 256, jfif_exif_scan_window: 512 }"
    );
}
