//! Profile types: the pixel encoding, dimensions and post-processing of a raw frame format.

use vstd::prelude::*;

verus! {

/// Known encoding variants for raw `.ithmb` frames.
#[derive(Debug, Clone, Copy, PartialEq, Eq, Structural)]
pub enum Encoding {
    /// 16-bit RGB (5 bits red, 6 bits green, 5 bits blue).
    Rgb565,
    /// 15-bit RGB (5 bits per channel, 1 unused bit per pixel).
    Rgb555,
    /// RGB555 pixels stored in Morton (Z-order) sequence.
    ReorderedRgb555,
    /// UYVY 4:2:2 packed chroma subsampling.
    Yuv422,
    /// YCbCr 4:2:0 planar chroma subsampling.
    Ycbcr420,
    /// JPEG-compressed frame.
    Jpeg,
}

impl Encoding {
    /// Human-readable display name for the encoding variant.
    pub fn to_display_string(self) -> (r: &'static str)
        ensures
            r@ == encoding_name(self),
    {
        match self {
            Encoding::Rgb565 => "RGB565",
            Encoding::Rgb555 => "RGB555",
            Encoding::ReorderedRgb555 => "Reordered RGB555",
            Encoding::Yuv422 => "UYVY 4:2:2",
            Encoding::Ycbcr420 => "YCbCr 4:2:0",
            Encoding::Jpeg => "JPEG passthrough",
        }
    }
}

/// The display name of an encoding.
pub open spec fn encoding_name(e: Encoding) -> Seq<char> {
    match e {
        Encoding::Rgb565 => "RGB565"@,
        Encoding::Rgb555 => "RGB555"@,
        Encoding::ReorderedRgb555 => "Reordered RGB555"@,
        Encoding::Yuv422 => "UYVY 4:2:2"@,
        Encoding::Ycbcr420 => "YCbCr 4:2:0"@,
        Encoding::Jpeg => "JPEG passthrough"@,
    }
}

/// Decoding profile for a raw `.ithmb` frame format.
#[derive(Debug, PartialEq, Eq)]
pub struct Profile {
    /// Big-endian 4-byte prefix identifying this format.
    pub prefix: i32,
    /// Frame width in pixels.
    pub width: i32,
    /// Frame height in pixels.
    pub height: i32,
    /// Pixel encoding.
    pub encoding: Encoding,
    /// Number of bytes in one complete frame (not counting padding).
    pub frame_byte_length: i32,
    /// If true, width and height are swapped after decode.
    pub swaps_dimensions: bool,
    /// If false, 16-bit pixels are big-endian.
    pub little_endian: bool,
    /// If true, the frame occupies a fixed-size slot with padding.
    pub is_padded: bool,
    /// If true, even and odd scanlines are stored as separate fields.
    pub is_interlaced: bool,
    /// If true, chroma uses the CLCL shared-nibble layout.
    pub clcl_chroma: bool,
    /// If true, the Cb and Cr planes of YCbCr 4:2:0 are swapped.
    pub swap_chroma_planes: bool,
    /// If true, chroma uses the CL per-pixel nibble layout.
    pub cl_chroma: bool,
    /// If true, the R and B channels are swapped (BGR15).
    pub swap_rgb_channels: bool,
    /// Post-decode clockwise rotation in degrees (0, 90, 180, 270).
    pub rotation: i32,
    /// Visible-region X offset.
    pub crop_x: i32,
    /// Visible-region Y offset.
    pub crop_y: i32,
    /// Visible-region width (0 = full width).
    pub crop_width: i32,
    /// Visible-region height (0 = full height).
    pub crop_height: i32,
    /// Slot size in bytes for padded profiles.
    pub slot_size: i32,
    /// If true, width and height come from the PhotoDB MHNI chunk.
    pub use_mhni_dimensions: bool,
    /// Ordered list of fallback encodings to try if the primary decode fails.
    pub fallback_encodings: Option<Vec<Encoding>>,
}

/// The mathematical value of a profile.
pub struct ProfileSpec {
    pub prefix: i32,
    pub width: i32,
    pub height: i32,
    pub encoding: Encoding,
    pub frame_byte_length: i32,
    pub swaps_dimensions: bool,
    pub little_endian: bool,
    pub is_padded: bool,
    pub is_interlaced: bool,
    pub clcl_chroma: bool,
    pub swap_chroma_planes: bool,
    pub cl_chroma: bool,
    pub swap_rgb_channels: bool,
    pub rotation: i32,
    pub crop_x: i32,
    pub crop_y: i32,
    pub crop_width: i32,
    pub crop_height: i32,
    pub slot_size: i32,
    pub use_mhni_dimensions: bool,
    pub fallback_encodings: Option<Seq<Encoding>>,
}

impl View for Profile {
    type V = ProfileSpec;

    open spec fn view(&self) -> ProfileSpec {
        ProfileSpec {
            prefix: self.prefix,
            width: self.width,
            height: self.height,
            encoding: self.encoding,
            frame_byte_length: self.frame_byte_length,
            swaps_dimensions: self.swaps_dimensions,
            little_endian: self.little_endian,
            is_padded: self.is_padded,
            is_interlaced: self.is_interlaced,
            clcl_chroma: self.clcl_chroma,
            swap_chroma_planes: self.swap_chroma_planes,
            cl_chroma: self.cl_chroma,
            swap_rgb_channels: self.swap_rgb_channels,
            rotation: self.rotation,
            crop_x: self.crop_x,
            crop_y: self.crop_y,
            crop_width: self.crop_width,
            crop_height: self.crop_height,
            slot_size: self.slot_size,
            use_mhni_dimensions: self.use_mhni_dimensions,
            fallback_encodings: match self.fallback_encodings {
                Some(v) => Some(v@),
                None => None,
            },
        }
    }
}

/// The profile every field of which has its documented default.
pub open spec fn default_profile() -> ProfileSpec {
    ProfileSpec {
        prefix: 0,
        width: 0,
        height: 0,
        encoding: Encoding::Rgb565,
        frame_byte_length: 0,
        swaps_dimensions: false,
        little_endian: true,
        is_padded: false,
        is_interlaced: false,
        clcl_chroma: false,
        swap_chroma_planes: false,
        cl_chroma: false,
        swap_rgb_channels: false,
        rotation: 0,
        crop_x: 0,
        crop_y: 0,
        crop_width: 0,
        crop_height: 0,
        slot_size: 0,
        use_mhni_dimensions: false,
        fallback_encodings: None,
    }
}

/// A copy of a list of encodings.
pub fn copy_encodings(v: &Vec<Encoding>) -> (r: Vec<Encoding>)
    ensures
        r@ == v@,
{
    let mut r: Vec<Encoding> = Vec::new();
    let mut i: usize = 0;
    while i < v.len()
        invariant
            i <= v.len(),
            r@ == v@.subrange(0, i as int),
        decreases v.len() - i,
    {
        r.push(v[i]);
        i = i + 1;
        assert(r@ =~= v@.subrange(0, i as int));
    }
    assert(r@ =~= v@);
    r
}

impl Clone for Profile {
    fn clone(&self) -> (r: Self)
        ensures
            r@ == self@,
    {
        let fallback_encodings = match &self.fallback_encodings {
            Some(v) => Some(copy_encodings(v)),
            None => None,
        };
        Profile {
            prefix: self.prefix,
            width: self.width,
            height: self.height,
            encoding: self.encoding,
            frame_byte_length: self.frame_byte_length,
            swaps_dimensions: self.swaps_dimensions,
            little_endian: self.little_endian,
            is_padded: self.is_padded,
            is_interlaced: self.is_interlaced,
            clcl_chroma: self.clcl_chroma,
            swap_chroma_planes: self.swap_chroma_planes,
            cl_chroma: self.cl_chroma,
            swap_rgb_channels: self.swap_rgb_channels,
            rotation: self.rotation,
            crop_x: self.crop_x,
            crop_y: self.crop_y,
            crop_width: self.crop_width,
            crop_height: self.crop_height,
            slot_size: self.slot_size,
            use_mhni_dimensions: self.use_mhni_dimensions,
            fallback_encodings,
        }
    }
}

impl Default for Profile {
    fn default() -> (r: Self)
        ensures
            r@ == default_profile(),
    {
        Profile {
            prefix: 0,
            width: 0,
            height: 0,
            encoding: Encoding::Rgb565,
            frame_byte_length: 0,
            swaps_dimensions: false,
            little_endian: true,
            is_padded: false,
            is_interlaced: false,
            clcl_chroma: false,
            swap_chroma_planes: false,
            cl_chroma: false,
            swap_rgb_channels: false,
            rotation: 0,
            crop_x: 0,
            crop_y: 0,
            crop_width: 0,
            crop_height: 0,
            slot_size: 0,
            use_mhni_dimensions: false,
            fallback_encodings: None,
        }
    }
}

/// Bytes per frame: the slot size for padded profiles with a positive slot,
/// the frame byte length otherwise.
pub open spec fn frame_size_of(p: ProfileSpec) -> i32 {
    if p.is_padded && p.slot_size > 0 {
        p.slot_size
    } else {
        p.frame_byte_length
    }
}

impl Profile {
    /// The number of bytes per frame, accounting for slot padding.
    pub fn frame_size(&self) -> (r: i32)
        ensures
            r == frame_size_of(self@),
    {
        if self.is_padded && self.slot_size > 0 {
            self.slot_size
        } else {
            self.frame_byte_length
        }
    }

    /// The number of pixel columns as displayed.
    pub fn display_width(&self) -> (r: i32)
        ensures
            r == (if self.swaps_dimensions { self.height } else { self.width }),
    {
        if self.swaps_dimensions {
            self.height
        } else {
            self.width
        }
    }

    /// The number of pixel rows as displayed.
    pub fn display_height(&self) -> (r: i32)
        ensures
            r == (if self.swaps_dimensions { self.width } else { self.height }),
    {
        if self.swaps_dimensions {
            self.width
        } else {
            self.height
        }
    }
}

/// All built-in profiles (one per active prefix, in no particular order);
/// empty if the built-in database does not load.
pub fn built_in_profiles() -> (r: Vec<Profile>)
    ensures
        match crate::profile_db::builtin_db() {
            Ok(db) => {
                &&& r@.len() == db.table.len()
                &&& forall|i: int| 0 <= i < r@.len() ==> db.table.values().contains((#[trigger] r@[i])@)
                &&& forall|k: i32|
                    #[trigger] db.table.contains_key(k) ==> exists|i: int| 0 <= i < r@.len() && r@[i]@ == db.table[k]
            },
            Err(_) => r@.len() == 0,
        },
{
    let db = match crate::profile_db::ProfileDb::load_builtin() {
        Ok(db) => db,
        Err(_) => {
            return Vec::new();
        },
    };
    let m = db.all();
    let ghost mv = m@;
    let mut out: Vec<Profile> = Vec::new();
    for kv in it: m.iter()
        invariant
            mv == m@,
            crate::profile_db::table_view(mv) == db@.table,
            out@.len() == it.index(),
            forall|i: int| 0 <= i < out@.len() ==> db@.table.values().contains((#[trigger] out@[i])@),
            forall|j: int|
                0 <= j < it.index() ==> mv.contains_key(*(#[trigger] it.seq()[j]).0) && out@[j]@ == db@.table[*it.seq()[j].0],
    {
        let (k, p) = kv;
        proof {
            assert(mv.contains_key(*k) && mv[*k] == *p);
            assert(db@.table.contains_key(*k) && db@.table[*k] == p@);
        }
        out.push(p.clone());
    }
    proof {
        assert(db@.table.dom() =~= mv.dom());
        assert forall|k: i32| #[trigger] db@.table.contains_key(k) implies exists|i: int|
            0 <= i < out@.len() && out@[i]@ == db@.table[k] by {
            assert(mv.contains_key(k));
        }
    }
    out
}

} // verus!
