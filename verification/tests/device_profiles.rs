use ithmb_core::device_profiles::{all_device_profiles, find_device, find_formats_by_id};

#[test]
fn device_profiles_has_18_device_profiles() {
    assert_eq!(all_device_profiles().len(), 18);
}

#[test]
fn device_profiles_find_classic_5g_by_name() {
    let device = find_device("iPod Classic 5G").expect("should find Classic 5G");
    assert_eq!(device.name, "iPod Classic 5G (Video)");
    assert_eq!(device.formats.len(), 7);
}

#[test]
fn device_profiles_find_case_insensitive() {
    let device = find_device("IPOD CLASSIC 5G").expect("case-insensitive");
    assert_eq!(device.name, "iPod Classic 5G (Video)");
}

#[test]
fn device_profiles_nano_7g_has_two_formats() {
    let device = find_device("iPod Nano 7G").expect("Nano 7G");
    assert_eq!(device.formats.len(), 2);
    assert!(device.formats.iter().any(|f| f.format_id == 1007));
}

#[test]
fn device_profiles_touch_3g_reuses_touch_array() {
    let t3 = find_device("iPod Touch 3G").expect("Touch 3G/4G");
    let t1 = find_device("iPod Touch 1G").expect("Touch 1G/2G");
    assert_eq!(t3.formats.len(), 8);
    assert!(
        t3.formats == t1.formats,
        "Touch devices must share format table"
    );
}

#[test]
fn device_profiles_iphone_3g_reuses_iphone_array() {
    let i1 = find_device("iPhone 1G").expect("iPhone 1G/2G");
    let i3 = find_device("iPhone 3G").expect("iPhone 3G/3GS");
    assert!(
        i1.formats == i3.formats,
        "iPhone devices must share format table"
    );
}

#[test]
fn device_profiles_video_5g_reuses_classic_5g_array() {
    let c5 = find_device("iPod Classic 5G").expect("Classic 5G");
    let v5 = find_device("iPod Video 5G").expect("Video 5G");
    assert!(
        c5.formats == v5.formats,
        "Video 5G must share Classic 5G table"
    );
}

#[test]
fn device_profiles_rokr_e1_has_two_formats() {
    let device = find_device("Motorola ROKR E1").expect("ROKR E1");
    assert_eq!(device.formats.len(), 2);
    assert!(device.formats.iter().any(|f| f.format_id == 2003));
}

#[test]
fn device_profiles_nonexistent_device_returns_none() {
    assert!(find_device("iPod Shuffle").is_none());
}

#[test]
fn device_profiles_find_1019_across_devices() {
    let results = find_formats_by_id(1019);
    assert!(!results.is_empty());
    assert!(results.iter().all(|f| f.format_id == 1019));
}

#[test]
fn device_profiles_find_3001_in_four_devices() {
    let results = find_formats_by_id(3001);
    assert_eq!(results.len(), 4);
}

#[test]
fn device_profiles_nonexistent_format_returns_empty() {
    assert!(find_formats_by_id(9999).is_empty());
}

#[test]
fn device_profiles_all_device_profiles_is_stable() {
    assert!(all_device_profiles() == all_device_profiles());
}

#[test]
fn device_profiles_nano_4g_has_most_formats() {
    let device = find_device("iPod Nano 4G").expect("Nano 4G");
    assert_eq!(device.formats.len(), 12);
}

#[test]
fn device_profiles_every_device_has_formats() {
    for p in all_device_profiles() {
        assert!(!p.formats.is_empty(), "{}", p.name);
    }
}

#[test]
fn device_profiles_every_format_has_description() {
    for p in all_device_profiles() {
        for f in p.formats.iter() {
            assert!(!f.description.is_empty());
        }
    }
}

#[test]
fn mod_has_18_device_profiles() {
    assert_eq!(all_device_profiles().len(), 18);
}

#[test]
fn mod_find_classic_5g_by_name() {
    let device = find_device("iPod Classic 5G").expect("should find Classic 5G");
    assert_eq!(device.name, "iPod Classic 5G (Video)");
    assert_eq!(device.formats.len(), 7);
}

#[test]
fn mod_find_case_insensitive() {
    let device = find_device("IPOD CLASSIC 5G").expect("case-insensitive");
    assert_eq!(device.name, "iPod Classic 5G (Video)");
}

#[test]
fn mod_nano_7g_has_two_formats() {
    let device = find_device("iPod Nano 7G").expect("Nano 7G");
    assert_eq!(device.formats.len(), 2);
    assert!(device.formats.iter().any(|f| f.format_id == 1007));
}

#[test]
fn mod_touch_3g_reuses_touch_array() {
    let t3 = find_device("iPod Touch 3G").expect("Touch 3G/4G");
    let t1 = find_device("iPod Touch 1G").expect("Touch 1G/2G");
    assert_eq!(t3.formats.len(), 8);
    assert!(
        t3.formats == t1.formats,
        "Touch devices must share format table"
    );
}

#[test]
fn mod_iphone_3g_reuses_iphone_array() {
    let i1 = find_device("iPhone 1G").expect("iPhone 1G/2G");
    let i3 = find_device("iPhone 3G").expect("iPhone 3G/3GS");
    assert!(
        i1.formats == i3.formats,
        "iPhone devices must share format table"
    );
}

#[test]
fn mod_video_5g_reuses_classic_5g_array() {
    let c5 = find_device("iPod Classic 5G").expect("Classic 5G");
    let v5 = find_device("iPod Video 5G").expect("Video 5G");
    assert!(
        c5.formats == v5.formats,
        "Video 5G must share Classic 5G table"
    );
}

#[test]
fn mod_rokr_e1_has_two_formats() {
    let device = find_device("Motorola ROKR E1").expect("ROKR E1");
    assert_eq!(device.formats.len(), 2);
    assert!(device.formats.iter().any(|f| f.format_id == 2003));
}

#[test]
fn mod_nonexistent_device_returns_none() {
    assert!(find_device("iPod Shuffle").is_none());
}

#[test]
fn mod_find_1019_across_devices() {
    let results = find_formats_by_id(1019);
    assert!(!results.is_empty());
    assert!(results.iter().all(|f| f.format_id == 1019));
}

#[test]
fn mod_find_3001_in_four_devices() {
    let results = find_formats_by_id(3001);
    assert_eq!(results.len(), 4);
}

#[test]
fn mod_nonexistent_format_returns_empty() {
    assert!(find_formats_by_id(9999).is_empty());
}

#[test]
fn mod_all_device_profiles_is_stable() {
    assert!(all_device_profiles() == all_device_profiles());
}

#[test]
fn mod_nano_4g_has_most_formats() {
    let device = find_device("iPod Nano 4G").expect("Nano 4G");
    assert_eq!(device.formats.len(), 12);
}

#[test]
fn mod_every_device_has_formats() {
    for p in all_device_profiles() {
        assert!(!p.formats.is_empty(), "{}", p.name);
    }
}

#[test]
fn mod_every_format_has_description() {
    for p in all_device_profiles() {
        for f in p.formats.iter() {
            assert!(!f.description.is_empty());
        }
    }
}
