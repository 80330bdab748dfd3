//! Device-to-format-ID lookup tables: the format IDs each known iPod/iPhone
//! generation writes to its thumbnail caches. A read-only reference, not
//! used during decoding.

use vstd::prelude::*;
use vstd::string::StrSliceExecFns;
use crate::profile_parser::json::ascii_lower;
use crate::profile_parser::profile::lower_char;

verus! {

/// A format entry known to a device generation.
#[derive(Debug, Clone, Copy, PartialEq, Eq)]
pub struct DeviceFormatInfo {
    /// Numeric format ID (the big-endian 4-byte prefix in `.ithmb` files).
    pub format_id: i32,
    /// Human-readable description (dimensions and encoding).
    pub description: &'static str,
}

/// A device generation and the format IDs it produces.
#[derive(Debug, Clone, PartialEq, Eq)]
pub struct DeviceProfile {
    /// Human-readable device name (e.g. "iPod Classic 5G (Video)").
    pub name: &'static str,
    /// The format entries known to this device.
    pub formats: Vec<DeviceFormatInfo>,
}

/// A device as the contracts see it: its name, and its format IDs and their
/// descriptions in order.
pub struct DeviceSpec {
    pub name: Seq<char>,
    pub ids: Seq<i32>,
    pub descriptions: Seq<Seq<char>>,
}

/// The format IDs of a list of entries.
pub open spec fn format_ids(v: Seq<DeviceFormatInfo>) -> Seq<i32> {
    v.map_values(|f: DeviceFormatInfo| f.format_id)
}

/// The descriptions of a list of entries.
pub open spec fn format_descriptions(v: Seq<DeviceFormatInfo>) -> Seq<Seq<char>> {
    v.map_values(|f: DeviceFormatInfo| f.description@)
}

/// The value of a device profile.
pub open spec fn device_view(d: DeviceProfile) -> DeviceSpec {
    DeviceSpec { name: d.name@, ids: format_ids(d.formats@), descriptions: format_descriptions(d.formats@) }
}

/// The values of a list of device profiles.
pub open spec fn devices_view(v: Seq<DeviceProfile>) -> Seq<DeviceSpec> {
    v.map_values(|d: DeviceProfile| device_view(d))
}

/// The format IDs of the `classic_5g` table.
pub open spec fn classic_5g_ids() -> Seq<i32> {
    seq![1019i32, 1024i32, 1027i32, 1028i32, 1029i32, 1031i32, 1032i32]
}

/// The format descriptions of the `classic_5g` table.
pub open spec fn classic_5g_descriptions() -> Seq<Seq<char>> {
    seq![
        "720×480 YUV422 interlaced full-screen"@,
        "320×240 RGB565 photo"@,
        "100×100 RGB565 cover art"@,
        "100×100 RGB565"@,
        "200×200 RGB565"@,
        "42×42 RGB565"@,
        "42×37 RGB565"@,
    ]
}

fn classic_5g_formats() -> (r: Vec<DeviceFormatInfo>)
    ensures
        format_ids(r@) == classic_5g_ids(),
        format_descriptions(r@) == classic_5g_descriptions(),
{
    let mut v: Vec<DeviceFormatInfo> = Vec::new();
    push_format(&mut v, 1019, "720×480 YUV422 interlaced full-screen");
    push_format(&mut v, 1024, "320×240 RGB565 photo");
    push_format(&mut v, 1027, "100×100 RGB565 cover art");
    push_format(&mut v, 1028, "100×100 RGB565");
    push_format(&mut v, 1029, "200×200 RGB565");
    push_format(&mut v, 1031, "42×42 RGB565");
    push_format(&mut v, 1032, "42×37 RGB565");
    assert(format_ids(v@) =~= classic_5g_ids());
    assert(format_descriptions(v@) =~= classic_5g_descriptions());
    v
}

/// The format IDs of the `classic_5_5g` table.
pub open spec fn classic_5_5g_ids() -> Seq<i32> {
    seq![1019i32, 1024i32, 1027i32, 1028i32, 1029i32, 1031i32, 1032i32, 1055i32, 1056i32]
}

/// The format descriptions of the `classic_5_5g` table.
pub open spec fn classic_5_5g_descriptions() -> Seq<Seq<char>> {
    seq![
        "720×480 YUV422 interlaced full-screen"@,
        "320×240 RGB565 photo"@,
        "100×100 RGB565 cover art"@,
        "100×100 RGB565"@,
        "200×200 RGB565"@,
        "42×42 RGB565"@,
        "42×37 RGB565"@,
        "128×128 RGB565 cover art medium"@,
        "80×80 RGB565"@,
    ]
}

fn classic_5_5g_formats() -> (r: Vec<DeviceFormatInfo>)
    ensures
        format_ids(r@) == classic_5_5g_ids(),
        format_descriptions(r@) == classic_5_5g_descriptions(),
{
    let mut v: Vec<DeviceFormatInfo> = Vec::new();
    push_format(&mut v, 1019, "720×480 YUV422 interlaced full-screen");
    push_format(&mut v, 1024, "320×240 RGB565 photo");
    push_format(&mut v, 1027, "100×100 RGB565 cover art");
    push_format(&mut v, 1028, "100×100 RGB565");
    push_format(&mut v, 1029, "200×200 RGB565");
    push_format(&mut v, 1031, "42×42 RGB565");
    push_format(&mut v, 1032, "42×37 RGB565");
    push_format(&mut v, 1055, "128×128 RGB565 cover art medium");
    push_format(&mut v, 1056, "80×80 RGB565");
    assert(format_ids(v@) =~= classic_5_5g_ids());
    assert(format_descriptions(v@) =~= classic_5_5g_descriptions());
    v
}

/// The format IDs of the `classic_6g` table.
pub open spec fn classic_6g_ids() -> Seq<i32> {
    seq![1024i32, 1055i32, 1060i32, 1061i32, 1066i32, 1067i32, 1068i32]
}

/// The format descriptions of the `classic_6g` table.
pub open spec fn classic_6g_descriptions() -> Seq<Seq<char>> {
    seq![
        "320×240 RGB565 photo"@,
        "128×128 RGB565 cover art"@,
        "320×320 RGB565 cover art large"@,
        "56×56 RGB565 cover art small"@,
        "64×64 RGB565 photo"@,
        "720×480 YCbCr420 padded full-screen"@,
        "128×128 RGB565 cover art"@,
    ]
}

fn classic_6g_formats() -> (r: Vec<DeviceFormatInfo>)
    ensures
        format_ids(r@) == classic_6g_ids(),
        format_descriptions(r@) == classic_6g_descriptions(),
{
    let mut v: Vec<DeviceFormatInfo> = Vec::new();
    push_format(&mut v, 1024, "320×240 RGB565 photo");
    push_format(&mut v, 1055, "128×128 RGB565 cover art");
    push_format(&mut v, 1060, "320×320 RGB565 cover art large");
    push_format(&mut v, 1061, "56×56 RGB565 cover art small");
    push_format(&mut v, 1066, "64×64 RGB565 photo");
    push_format(&mut v, 1067, "720×480 YCbCr420 padded full-screen");
    push_format(&mut v, 1068, "128×128 RGB565 cover art");
    assert(format_ids(v@) =~= classic_6g_ids());
    assert(format_descriptions(v@) =~= classic_6g_descriptions());
    v
}

/// The format IDs of the `nano_1g` table.
pub open spec fn nano_1g_ids() -> Seq<i32> {
    seq![1024i32, 1027i32]
}

/// The format descriptions of the `nano_1g` table.
pub open spec fn nano_1g_descriptions() -> Seq<Seq<char>> {
    seq![
        "320×240 RGB565"@,
        "100×100 RGB565"@,
    ]
}

fn nano_1g_formats() -> (r: Vec<DeviceFormatInfo>)
    ensures
        format_ids(r@) == nano_1g_ids(),
        format_descriptions(r@) == nano_1g_descriptions(),
{
    let mut v: Vec<DeviceFormatInfo> = Vec::new();
    push_format(&mut v, 1024, "320×240 RGB565");
    push_format(&mut v, 1027, "100×100 RGB565");
    assert(format_ids(v@) =~= nano_1g_ids());
    assert(format_descriptions(v@) =~= nano_1g_descriptions());
    v
}

/// The format IDs of the `nano_2g` table.
pub open spec fn nano_2g_ids() -> Seq<i32> {
    seq![1019i32, 1027i32, 1028i32, 1029i32, 1032i32]
}

/// The format descriptions of the `nano_2g` table.
pub open spec fn nano_2g_descriptions() -> Seq<Seq<char>> {
    seq![
        "720×480 YUV422"@,
        "100×100"@,
        "100×100"@,
        "200×200"@,
        "42×37"@,
    ]
}

fn nano_2g_formats() -> (r: Vec<DeviceFormatInfo>)
    ensures
        format_ids(r@) == nano_2g_ids(),
        format_descriptions(r@) == nano_2g_descriptions(),
{
    let mut v: Vec<DeviceFormatInfo> = Vec::new();
    push_format(&mut v, 1019, "720×480 YUV422");
    push_format(&mut v, 1027, "100×100");
    push_format(&mut v, 1028, "100×100");
    push_format(&mut v, 1029, "200×200");
    push_format(&mut v, 1032, "42×37");
    assert(format_ids(v@) =~= nano_2g_ids());
    assert(format_descriptions(v@) =~= nano_2g_descriptions());
    v
}

/// The format IDs of the `nano_3g` table.
pub open spec fn nano_3g_ids() -> Seq<i32> {
    seq![1066i32, 1067i32, 1068i32, 1071i32, 1073i32, 1074i32]
}

/// The format descriptions of the `nano_3g` table.
pub open spec fn nano_3g_descriptions() -> Seq<Seq<char>> {
    seq![
        "64×64 RGB565"@,
        "720×480 YCbCr420 padded"@,
        "128×128"@,
        "240×240"@,
        "240×240"@,
        "50×50"@,
    ]
}

fn nano_3g_formats() -> (r: Vec<DeviceFormatInfo>)
    ensures
        format_ids(r@) == nano_3g_ids(),
        format_descriptions(r@) == nano_3g_descriptions(),
{
    let mut v: Vec<DeviceFormatInfo> = Vec::new();
    push_format(&mut v, 1066, "64×64 RGB565");
    push_format(&mut v, 1067, "720×480 YCbCr420 padded");
    push_format(&mut v, 1068, "128×128");
    push_format(&mut v, 1071, "240×240");
    push_format(&mut v, 1073, "240×240");
    push_format(&mut v, 1074, "50×50");
    assert(format_ids(v@) =~= nano_3g_ids());
    assert(format_descriptions(v@) =~= nano_3g_descriptions());
    v
}

/// The format IDs of the `nano_4g` table.
pub open spec fn nano_4g_ids() -> Seq<i32> {
    seq![1071i32, 1073i32, 1074i32, 1078i32, 1079i32, 1083i32, 1084i32, 1085i32, 1087i32, 1089i32, 1092i32, 1093i32]
}

/// The format descriptions of the `nano_4g` table.
pub open spec fn nano_4g_descriptions() -> Seq<Seq<char>> {
    seq![
        "240×240"@,
        "240×240"@,
        "50×50"@,
        "80×80"@,
        "80×80"@,
        "240×320"@,
        "240×240"@,
        "88×88"@,
        "384×384"@,
        "58×58"@,
        "80×80"@,
        "512×512"@,
    ]
}

fn nano_4g_formats() -> (r: Vec<DeviceFormatInfo>)
    ensures
        format_ids(r@) == nano_4g_ids(),
        format_descriptions(r@) == nano_4g_descriptions(),
{
    let mut v: Vec<DeviceFormatInfo> = Vec::new();
    push_format(&mut v, 1071, "240×240");
    push_format(&mut v, 1073, "240×240");
    push_format(&mut v, 1074, "50×50");
    push_format(&mut v, 1078, "80×80");
    push_format(&mut v, 1079, "80×80");
    push_format(&mut v, 1083, "240×320");
    push_format(&mut v, 1084, "240×240");
    push_format(&mut v, 1085, "88×88");
    push_format(&mut v, 1087, "384×384");
    push_format(&mut v, 1089, "58×58");
    push_format(&mut v, 1092, "80×80");
    push_format(&mut v, 1093, "512×512");
    assert(format_ids(v@) =~= nano_4g_ids());
    assert(format_descriptions(v@) =~= nano_4g_descriptions());
    v
}

/// The format IDs of the `nano_5g` table.
pub open spec fn nano_5g_ids() -> Seq<i32> {
    seq![1087i32, 1092i32, 1093i32]
}

/// The format descriptions of the `nano_5g` table.
pub open spec fn nano_5g_descriptions() -> Seq<Seq<char>> {
    seq![
        "384×384 RGB565"@,
        "80×80"@,
        "512×512"@,
    ]
}

fn nano_5g_formats() -> (r: Vec<DeviceFormatInfo>)
    ensures
        format_ids(r@) == nano_5g_ids(),
        format_descriptions(r@) == nano_5g_descriptions(),
{
    let mut v: Vec<DeviceFormatInfo> = Vec::new();
    push_format(&mut v, 1087, "384×384 RGB565");
    push_format(&mut v, 1092, "80×80");
    push_format(&mut v, 1093, "512×512");
    assert(format_ids(v@) =~= nano_5g_ids());
    assert(format_descriptions(v@) =~= nano_5g_descriptions());
    v
}

/// The format IDs of the `nano_6g` table.
pub open spec fn nano_6g_ids() -> Seq<i32> {
    seq![1084i32, 1092i32, 1093i32]
}

/// The format descriptions of the `nano_6g` table.
pub open spec fn nano_6g_descriptions() -> Seq<Seq<char>> {
    seq![
        "240×240"@,
        "80×80"@,
        "512×512"@,
    ]
}

fn nano_6g_formats() -> (r: Vec<DeviceFormatInfo>)
    ensures
        format_ids(r@) == nano_6g_ids(),
        format_descriptions(r@) == nano_6g_descriptions(),
{
    let mut v: Vec<DeviceFormatInfo> = Vec::new();
    push_format(&mut v, 1084, "240×240");
    push_format(&mut v, 1092, "80×80");
    push_format(&mut v, 1093, "512×512");
    assert(format_ids(v@) =~= nano_6g_ids());
    assert(format_descriptions(v@) =~= nano_6g_descriptions());
    v
}

/// The format IDs of the `nano_7g` table.
pub open spec fn nano_7g_ids() -> Seq<i32> {
    seq![1007i32, 1010i32]
}

/// The format descriptions of the `nano_7g` table.
pub open spec fn nano_7g_descriptions() -> Seq<Seq<char>> {
    seq![
        "480×864 RGB565 full-res"@,
        "240×240 RGB565 cover art"@,
    ]
}

fn nano_7g_formats() -> (r: Vec<DeviceFormatInfo>)
    ensures
        format_ids(r@) == nano_7g_ids(),
        format_descriptions(r@) == nano_7g_descriptions(),
{
    let mut v: Vec<DeviceFormatInfo> = Vec::new();
    push_format(&mut v, 1007, "480×864 RGB565 full-res");
    push_format(&mut v, 1010, "240×240 RGB565 cover art");
    assert(format_ids(v@) =~= nano_7g_ids());
    assert(format_descriptions(v@) =~= nano_7g_descriptions());
    v
}

/// The format IDs of the `mini_1g_2g` table.
pub open spec fn mini_1g_2g_ids() -> Seq<i32> {
    seq![1024i32, 1027i32]
}

/// The format descriptions of the `mini_1g_2g` table.
pub open spec fn mini_1g_2g_descriptions() -> Seq<Seq<char>> {
    seq![
        "320×240 RGB565"@,
        "100×100"@,
    ]
}

fn mini_1g_2g_formats() -> (r: Vec<DeviceFormatInfo>)
    ensures
        format_ids(r@) == mini_1g_2g_ids(),
        format_descriptions(r@) == mini_1g_2g_descriptions(),
{
    let mut v: Vec<DeviceFormatInfo> = Vec::new();
    push_format(&mut v, 1024, "320×240 RGB565");
    push_format(&mut v, 1027, "100×100");
    assert(format_ids(v@) =~= mini_1g_2g_ids());
    assert(format_descriptions(v@) =~= mini_1g_2g_descriptions());
    v
}

/// The format IDs of the `photo_4g` table.
pub open spec fn photo_4g_ids() -> Seq<i32> {
    seq![1013i32, 1015i32, 1016i32, 1019i32]
}

/// The format descriptions of the `photo_4g` table.
pub open spec fn photo_4g_descriptions() -> Seq<Seq<char>> {
    seq![
        "220×176 RGB565 big-endian"@,
        "130×88 RGB565"@,
        "140×140"@,
        "720×480 YUV422"@,
    ]
}

fn photo_4g_formats() -> (r: Vec<DeviceFormatInfo>)
    ensures
        format_ids(r@) == photo_4g_ids(),
        format_descriptions(r@) == photo_4g_descriptions(),
{
    let mut v: Vec<DeviceFormatInfo> = Vec::new();
    push_format(&mut v, 1013, "220×176 RGB565 big-endian");
    push_format(&mut v, 1015, "130×88 RGB565");
    push_format(&mut v, 1016, "140×140");
    push_format(&mut v, 1019, "720×480 YUV422");
    assert(format_ids(v@) =~= photo_4g_ids());
    assert(format_descriptions(v@) =~= photo_4g_descriptions());
    v
}

/// The format IDs of the `touch` table.
pub open spec fn touch_ids() -> Seq<i32> {
    seq![3001i32, 3002i32, 3003i32, 3004i32, 3005i32, 3008i32, 3009i32, 3011i32]
}

/// The format descriptions of the `touch` table.
pub open spec fn touch_descriptions() -> Seq<Seq<char>> {
    seq![
        "256×256 RGB555"@,
        "128×128 RGB555"@,
        "64×64 RGB555"@,
        "56×55 RGB555"@,
        "320×320 RGB555"@,
        "640×480 RGB555"@,
        "160×120 RGB555"@,
        "80×79 RGB555"@,
    ]
}

fn touch_formats() -> (r: Vec<DeviceFormatInfo>)
    ensures
        format_ids(r@) == touch_ids(),
        format_descriptions(r@) == touch_descriptions(),
{
    let mut v: Vec<DeviceFormatInfo> = Vec::new();
    push_format(&mut v, 3001, "256×256 RGB555");
    push_format(&mut v, 3002, "128×128 RGB555");
    push_format(&mut v, 3003, "64×64 RGB555");
    push_format(&mut v, 3004, "56×55 RGB555");
    push_format(&mut v, 3005, "320×320 RGB555");
    push_format(&mut v, 3008, "640×480 RGB555");
    push_format(&mut v, 3009, "160×120 RGB555");
    push_format(&mut v, 3011, "80×79 RGB555");
    assert(format_ids(v@) =~= touch_ids());
    assert(format_descriptions(v@) =~= touch_descriptions());
    v
}

/// The format IDs of the `iphone` table.
pub open spec fn iphone_ids() -> Seq<i32> {
    seq![3001i32, 3002i32, 3003i32, 3004i32, 3005i32, 3008i32, 3009i32, 3011i32]
}

/// The format descriptions of the `iphone` table.
pub open spec fn iphone_descriptions() -> Seq<Seq<char>> {
    seq![
        "256×256 RGB555"@,
        "128×128 RGB555"@,
        "64×64 RGB555"@,
        "56×55 RGB555"@,
        "320×320 RGB555"@,
        "640×480 RGB555"@,
        "160×120 RGB555"@,
        "80×79 RGB555"@,
    ]
}

fn iphone_formats() -> (r: Vec<DeviceFormatInfo>)
    ensures
        format_ids(r@) == iphone_ids(),
        format_descriptions(r@) == iphone_descriptions(),
{
    let mut v: Vec<DeviceFormatInfo> = Vec::new();
    push_format(&mut v, 3001, "256×256 RGB555");
    push_format(&mut v, 3002, "128×128 RGB555");
    push_format(&mut v, 3003, "64×64 RGB555");
    push_format(&mut v, 3004, "56×55 RGB555");
    push_format(&mut v, 3005, "320×320 RGB555");
    push_format(&mut v, 3008, "640×480 RGB555");
    push_format(&mut v, 3009, "160×120 RGB555");
    push_format(&mut v, 3011, "80×79 RGB555");
    assert(format_ids(v@) =~= iphone_ids());
    assert(format_descriptions(v@) =~= iphone_descriptions());
    v
}

/// The format IDs of the `rokr_e1` table.
pub open spec fn rokr_e1_ids() -> Seq<i32> {
    seq![2002i32, 2003i32]
}

/// The format descriptions of the `rokr_e1` table.
pub open spec fn rokr_e1_descriptions() -> Seq<Seq<char>> {
    seq![
        "50×50 RGB565 big-endian"@,
        "150×150 RGB565 big-endian"@,
    ]
}

fn rokr_e1_formats() -> (r: Vec<DeviceFormatInfo>)
    ensures
        format_ids(r@) == rokr_e1_ids(),
        format_descriptions(r@) == rokr_e1_descriptions(),
{
    let mut v: Vec<DeviceFormatInfo> = Vec::new();
    push_format(&mut v, 2002, "50×50 RGB565 big-endian");
    push_format(&mut v, 2003, "150×150 RGB565 big-endian");
    assert(format_ids(v@) =~= rokr_e1_ids());
    assert(format_descriptions(v@) =~= rokr_e1_descriptions());
    v
}

fn push_format(v: &mut Vec<DeviceFormatInfo>, format_id: i32, description: &'static str)
    ensures
        final(v)@ == old(v)@.push(DeviceFormatInfo { format_id, description }),
{
    v.push(DeviceFormatInfo { format_id, description });
}

/// The device table: each device's name and format IDs, in order.
pub open spec fn device_table() -> Seq<DeviceSpec> {
    seq![
        DeviceSpec { name: "iPod Classic 5G (Video)"@, ids: classic_5g_ids(), descriptions: classic_5g_descriptions() },
        DeviceSpec { name: "iPod Classic 5.5G (Enhanced)"@, ids: classic_5_5g_ids(), descriptions: classic_5_5g_descriptions() },
        DeviceSpec { name: "iPod Classic 6G (Thin)"@, ids: classic_6g_ids(), descriptions: classic_6g_descriptions() },
        DeviceSpec { name: "iPod Nano 1G"@, ids: nano_1g_ids(), descriptions: nano_1g_descriptions() },
        DeviceSpec { name: "iPod Nano 2G"@, ids: nano_2g_ids(), descriptions: nano_2g_descriptions() },
        DeviceSpec { name: "iPod Nano 3G"@, ids: nano_3g_ids(), descriptions: nano_3g_descriptions() },
        DeviceSpec { name: "iPod Nano 4G"@, ids: nano_4g_ids(), descriptions: nano_4g_descriptions() },
        DeviceSpec { name: "iPod Nano 5G"@, ids: nano_5g_ids(), descriptions: nano_5g_descriptions() },
        DeviceSpec { name: "iPod Nano 6G"@, ids: nano_6g_ids(), descriptions: nano_6g_descriptions() },
        DeviceSpec { name: "iPod Nano 7G"@, ids: nano_7g_ids(), descriptions: nano_7g_descriptions() },
        DeviceSpec { name: "iPod Video 5G"@, ids: classic_5g_ids(), descriptions: classic_5g_descriptions() },
        DeviceSpec { name: "iPod Mini 1G/2G"@, ids: mini_1g_2g_ids(), descriptions: mini_1g_2g_descriptions() },
        DeviceSpec { name: "iPod Photo 4G"@, ids: photo_4g_ids(), descriptions: photo_4g_descriptions() },
        DeviceSpec { name: "iPod Touch 1G/2G"@, ids: touch_ids(), descriptions: touch_descriptions() },
        DeviceSpec { name: "iPod Touch 3G/4G"@, ids: touch_ids(), descriptions: touch_descriptions() },
        DeviceSpec { name: "iPhone 1G/2G"@, ids: iphone_ids(), descriptions: iphone_descriptions() },
        DeviceSpec { name: "iPhone 3G/3GS"@, ids: iphone_ids(), descriptions: iphone_descriptions() },
        DeviceSpec { name: "Motorola ROKR E1"@, ids: rokr_e1_ids(), descriptions: rokr_e1_descriptions() },
    ]
}

fn push_device(v: &mut Vec<DeviceProfile>, name: &'static str, formats: Vec<DeviceFormatInfo>)
    ensures
        final(v)@ == old(v)@.push(DeviceProfile { name, formats }),
{
    v.push(DeviceProfile { name, formats });
}

/// All known device profiles, in table order.
pub fn all_device_profiles() -> (r: Vec<DeviceProfile>)
    ensures
        devices_view(r@) == device_table(),
{
    let mut v: Vec<DeviceProfile> = Vec::new();
    push_device(&mut v, "iPod Classic 5G (Video)", classic_5g_formats());
    push_device(&mut v, "iPod Classic 5.5G (Enhanced)", classic_5_5g_formats());
    push_device(&mut v, "iPod Classic 6G (Thin)", classic_6g_formats());
    push_device(&mut v, "iPod Nano 1G", nano_1g_formats());
    push_device(&mut v, "iPod Nano 2G", nano_2g_formats());
    push_device(&mut v, "iPod Nano 3G", nano_3g_formats());
    push_device(&mut v, "iPod Nano 4G", nano_4g_formats());
    push_device(&mut v, "iPod Nano 5G", nano_5g_formats());
    push_device(&mut v, "iPod Nano 6G", nano_6g_formats());
    push_device(&mut v, "iPod Nano 7G", nano_7g_formats());
    push_device(&mut v, "iPod Video 5G", classic_5g_formats());
    push_device(&mut v, "iPod Mini 1G/2G", mini_1g_2g_formats());
    push_device(&mut v, "iPod Photo 4G", photo_4g_formats());
    push_device(&mut v, "iPod Touch 1G/2G", touch_formats());
    push_device(&mut v, "iPod Touch 3G/4G", touch_formats());
    push_device(&mut v, "iPhone 1G/2G", iphone_formats());
    push_device(&mut v, "iPhone 3G/3GS", iphone_formats());
    push_device(&mut v, "Motorola ROKR E1", rokr_e1_formats());
    assert(devices_view(v@) =~= device_table());
    v
}

/// `needle` occurs in `hay` as a contiguous run.
pub open spec fn contains_text(hay: Seq<char>, needle: Seq<char>) -> bool {
    exists|i: int| 0 <= i && i + needle.len() <= hay.len() && #[trigger] hay.subrange(i, i + needle.len()) == needle
}

/// A device name matches a query: the query, ASCII lower-cased, occurs in
/// the lower-cased name.
pub open spec fn name_matches(name: Seq<char>, query: Seq<char>) -> bool {
    contains_text(ascii_lower(name), ascii_lower(query))
}

/// The first device of `t[i..]` whose name matches the query.
pub open spec fn first_matching(t: Seq<DeviceSpec>, query: Seq<char>, i: int) -> Option<DeviceSpec>
    decreases t.len() - i,
{
    if i < 0 || i >= t.len() {
        None
    } else if name_matches(t[i].name, query) {
        Some(t[i])
    } else {
        first_matching(t, query, i + 1)
    }
}

/// Whether the ASCII-lower-cased `query` occurs in the ASCII-lower-cased `name`.
fn name_contains(name: &str, query: &str) -> (r: bool)
    ensures
        r == name_matches(name@, query@),
{
    let n = name.unicode_len();
    let m = query.unicode_len();
    let ghost hay = ascii_lower(name@);
    let ghost needle = ascii_lower(query@);
    if m > n {
        assert forall|i: int| 0 <= i && i + needle.len() <= hay.len() implies #[trigger] hay.subrange(
            i,
            i + needle.len(),
        ) != needle by {}
        return false;
    }
    let mut i: usize = 0;
    while i <= n - m
        invariant
            m <= n,
            n == name@.len(),
            m == query@.len(),
            hay == ascii_lower(name@),
            needle == ascii_lower(query@),
            forall|j: int| 0 <= j < i ==> #[trigger] hay.subrange(j, j + m) != needle,
        decreases n - m + 1 - i,
    {
        let mut k: usize = 0;
        let mut same = true;
        while k < m
            invariant
                0 <= k <= m,
                i + m <= n,
                n == name@.len(),
                m == query@.len(),
                hay == ascii_lower(name@),
                needle == ascii_lower(query@),
                same == (forall|j: int| 0 <= j < k ==> hay[i + j] == needle[j]),
            decreases m - k,
        {
            let a = lower_ascii(name.get_char(i + k));
            let b = lower_ascii(query.get_char(k));
            assert(hay[i + k] == a && needle[k as int] == b);
            if a != b {
                same = false;
            }
            k = k + 1;
        }
        if same {
            assert(hay.subrange(i as int, i + m) =~= needle);
            return true;
        }
        assert(hay.subrange(i as int, i + m)[0] == hay[i as int]);
        assert(hay.subrange(i as int, i + m) != needle) by {
            let k0 = choose|j: int| 0 <= j < m && hay[i + j] != needle[j];
            assert(hay.subrange(i as int, i + m)[k0] == hay[i + k0]);
        }
        i = i + 1;
    }
    false
}

fn lower_ascii(c: char) -> (r: char)
    ensures
        r == lower_char(c),
{
    if c >= 'A' && c <= 'Z' {
        let code: u8 = (c as u8) + 32;
        code as char
    } else {
        c
    }
}

/// Finds the first device whose name contains `name` (ASCII
/// case-insensitive substring match).
pub fn find_device(name: &str) -> (r: Option<DeviceProfile>)
    ensures
        match r {
            Some(d) => first_matching(device_table(), name@, 0) == Some(device_view(d)),
            None => first_matching(device_table(), name@, 0) is None,
        },
{
    let all = all_device_profiles();
    let n = all.len();
    let mut i: usize = 0;
    while i < n
        invariant
            0 <= i <= n,
            n == all@.len(),
            devices_view(all@) == device_table(),
            first_matching(device_table(), name@, 0) == first_matching(device_table(), name@, i as int),
        decreases n - i,
    {
        assert(devices_view(all@)[i as int] == device_view(all@[i as int]));
        if name_contains(all[i].name, name) {
            return Some(DeviceProfile { name: all[i].name, formats: copy_formats(&all[i].formats) });
        }
        i = i + 1;
    }
    None
}

fn copy_formats(v: &Vec<DeviceFormatInfo>) -> (r: Vec<DeviceFormatInfo>)
    ensures
        r@ == v@,
{
    let mut r: Vec<DeviceFormatInfo> = Vec::new();
    let mut i: usize = 0;
    while i < v.len()
        invariant
            0 <= i <= v.len(),
            r@ == v@.subrange(0, i as int),
        decreases v.len() - i,
    {
        r.push(v[i]);
        i = i + 1;
        assert(r@ =~= v@.subrange(0, i as int));
    }
    assert(v@.subrange(0, v@.len() as int) =~= v@);
    r
}

/// The devices whose format list holds `id`.
pub open spec fn devices_with(id: i32) -> Seq<DeviceSpec> {
    device_table().filter(|d: DeviceSpec| d.ids.contains(id))
}

/// `desc` is the description of the first entry of `d` whose ID is `id`.
pub open spec fn first_entry_is(d: DeviceSpec, id: i32, desc: Seq<char>) -> bool {
    exists|k: int|
        #![trigger d.ids[k]]
        0 <= k < d.ids.len() && d.ids[k] == id && (forall|j: int| 0 <= j < k ==> d.ids[j] != id)
            && d.descriptions[k] == desc
}

/// Collects, across all devices, the first format entry of each device
/// whose ID is `format_id`, in device order.
pub fn find_formats_by_id(format_id: i32) -> (r: Vec<DeviceFormatInfo>)
    ensures
        r@.len() == devices_with(format_id).len(),
        forall|i: int|
            0 <= i < r@.len() ==> (#[trigger] r@[i]).format_id == format_id && first_entry_is(
                devices_with(format_id)[i],
                format_id,
                r@[i].description@,
            ),
{
    let all = all_device_profiles();
    let n = all.len();
    let ghost f = |d: DeviceSpec| d.ids.contains(format_id);
    let mut results: Vec<DeviceFormatInfo> = Vec::new();
    let mut i: usize = 0;
    while i < n
        invariant
            0 <= i <= n,
            n == all@.len(),
            devices_view(all@) == device_table(),
            f == (|d: DeviceSpec| d.ids.contains(format_id)),
            results@.len() == device_table().subrange(0, i as int).filter(f).len(),
            forall|j: int|
                0 <= j < results@.len() ==> (#[trigger] results@[j]).format_id == format_id && first_entry_is(
                    device_table().subrange(0, i as int).filter(f)[j],
                    format_id,
                    results@[j].description@,
                ),
        decreases n - i,
    {
        let fs = &all[i].formats;
        let ghost d = device_view(all@[i as int]);
        assert(devices_view(all@)[i as int] == d);
        let ghost prev = device_table().subrange(0, i as int).filter(f);
        let ghost before = results@;
        let m = fs.len();
        let mut k: usize = 0;
        let mut found = false;
        while k < m
            invariant
                0 <= k <= m,
                m == fs@.len(),
                d.ids == format_ids(fs@),
                d.descriptions == format_descriptions(fs@),
                !found ==> results@ == before,
                found ==> results@.len() == before.len() + 1 && results@.drop_last() == before && first_entry_is(
                    d,
                    format_id,
                    results@.last().description@,
                ) && results@.last().format_id == format_id,
                found ==> d.ids.contains(format_id),
                !found ==> forall|j: int| 0 <= j < k ==> d.ids[j] != format_id,
            decreases m - k,
        {
            if !found && fs[k].format_id == format_id {
                assert(d.ids[k as int] == format_id);
                assert(d.descriptions[k as int] == fs@[k as int].description@);
                results.push(fs[k]);
                found = true;
                assert(results@.drop_last() =~= before);
            }
            k = k + 1;
        }
        proof {
            let t = device_table();
            assert(t.subrange(0, i + 1) =~= t.subrange(0, i as int).push(t[i as int]));
            t.subrange(0, i as int).lemma_filter_push(t[i as int], f);
            assert(t[i as int] == d);
            let next = t.subrange(0, i + 1).filter(f);
            if found {
                assert(next == prev.push(d));
                assert forall|j: int| 0 <= j < results@.len() implies (#[trigger] results@[j]).format_id == format_id
                    && first_entry_is(next[j], format_id, results@[j].description@) by {
                    if j < before.len() {
                        assert(results@[j] == before[j]);
                        assert(next[j] == prev[j]);
                    } else {
                        assert(results@[j] == results@.last());
                        assert(next[j] == d);
                    }
                }
            } else {
                assert(!d.ids.contains(format_id));
                assert(next == prev);
            }
        }
        i = i + 1;
    }
    proof {
        assert(device_table().subrange(0, n as int) =~= device_table());
    }
    results
}

} // verus!
