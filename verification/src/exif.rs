//! EXIF metadata: locating the TIFF block of a JPEG file and reading the
//! entries of its image file directories.
use vstd::prelude::*;

use vstd::string::StringExecFns;

use crate::text::{
    decimal, i64_to_string, str_eq, join, join_strings, lossy_utf8, push_decimal, signed_decimal,
    trim_nul_end, trim_text, trim_white, u64_to_string, utf8_lossy, views,
};

verus! {

/// Readable names of EXIF and GPS tags.
pub const EXIF_TAG_NAMES: [(u16, &'static str); 110] = [
    (0x010F, "Make"),
    (0x0110, "Model"),
    (0x010E, "ImageDescription"),
    (0x0131, "Software"),
    (0x013B, "Artist"),
    (0x8298, "Copyright"),
    (0x0112, "Orientation"),
    (0x011A, "XResolution"),
    (0x011B, "YResolution"),
    (0x0213, "YCbCrPositioning"),
    (0x8769, "ExifIFD"),
    (0x8825, "GPSInfo"),
    (0x9003, "DateTimeOriginal"),
    (0x9004, "DateTimeDigitized"),
    (0x9101, "ComponentsConfiguration"),
    (0x9102, "CompressedBitsPerPixel"),
    (0x9201, "ShutterSpeedValue"),
    (0x9202, "ApertureValue"),
    (0x9203, "BrightnessValue"),
    (0x9204, "ExposureBiasValue"),
    (0x9205, "MaxApertureValue"),
    (0x9206, "SubjectDistance"),
    (0x9207, "MeteringMode"),
    (0x9208, "LightSource"),
    (0x9209, "Flash"),
    (0x920A, "FocalLength"),
    (0x927C, "MakerNote"),
    (0x9286, "UserComment"),
    (0x9290, "SubSecTime"),
    (0x9291, "SubSecTimeOriginal"),
    (0x9292, "SubSecTimeDigitized"),
    (0x829A, "ExposureTime"),
    (0x829D, "FNumber"),
    (0x8822, "ExposureProgram"),
    (0x8824, "SpectralSensitivity"),
    (0x8827, "ISOSpeed"),
    (0x8828, "OECF"),
    (0x8830, "SensitivityType"),
    (0x8831, "StandardOutputSensitivity"),
    (0x8832, "RecommendedExposureIndex"),
    (0x8833, "ISOSpeed"),
    (0x8834, "ISOSpeedLatitudeyyy"),
    (0x8835, "ISOSpeedLatitudezzz"),
    (0xA001, "ColorSpace"),
    (0xA002, "PixelXDimension"),
    (0xA003, "PixelYDimension"),
    (0xA004, "RelatedSoundFile"),
    (0xA005, "InteroperabilityIFD"),
    (0xA20B, "FlashEnergy"),
    (0xA20C, "SpatialFrequencyResponse"),
    (0xA20E, "FocalPlaneXResolution"),
    (0xA20F, "FocalPlaneYResolution"),
    (0xA210, "FocalPlaneResolutionUnit"),
    (0xA214, "SubjectLocation"),
    (0xA215, "ExposureIndex"),
    (0xA217, "SensingMethod"),
    (0xA300, "FileSource"),
    (0xA301, "SceneType"),
    (0xA302, "CFAPattern"),
    (0xA401, "CustomRendered"),
    (0xA402, "ExposureMode"),
    (0xA403, "WhiteBalance"),
    (0xA404, "DigitalZoomRatio"),
    (0xA405, "FocalLengthIn35mmFilm"),
    (0xA406, "SceneCaptureType"),
    (0xA407, "GainControl"),
    (0xA408, "Contrast"),
    (0xA409, "Saturation"),
    (0xA40A, "Sharpness"),
    (0xA40B, "DeviceSettingDescription"),
    (0xA40C, "SubjectDistanceRange"),
    (0xA420, "ImageUniqueID"),
    (0xA430, "CameraOwnerName"),
    (0xA431, "BodySerialNumber"),
    (0xA432, "LensSpecification"),
    (0xA433, "LensMake"),
    (0xA434, "LensModel"),
    (0xA435, "LensSerialNumber"),
    (0x0000, "GPSVersionID"),
    (0x0001, "GPSLatitudeRef"),
    (0x0002, "GPSLatitude"),
    (0x0003, "GPSLongitudeRef"),
    (0x0004, "GPSLongitude"),
    (0x0005, "GPSAltitudeRef"),
    (0x0006, "GPSAltitude"),
    (0x0007, "GPSTimeStamp"),
    (0x0008, "GPSSatellites"),
    (0x0009, "GPSStatus"),
    (0x000A, "GPSMeasureMode"),
    (0x000B, "GPSDOP"),
    (0x000C, "GPSSpeedRef"),
    (0x000D, "GPSSpeed"),
    (0x000E, "GPSTrackRef"),
    (0x000F, "GPSTrack"),
    (0x0010, "GPSImgDirectionRef"),
    (0x0011, "GPSImgDirection"),
    (0x0012, "GPSMapDatum"),
    (0x0013, "GPSDestLatitudeRef"),
    (0x0014, "GPSDestLatitude"),
    (0x0015, "GPSDestLongitudeRef"),
    (0x0016, "GPSDestLongitude"),
    (0x0017, "GPSDestBearingRef"),
    (0x0018, "GPSDestBearing"),
    (0x0019, "GPSDestDistanceRef"),
    (0x001A, "GPSDestDistance"),
    (0x001B, "GPSProcessingMethod"),
    (0x001C, "GPSAreaInformation"),
    (0x001D, "GPSDateStamp"),
    (0x001E, "GPSDifferential"),
    (0x001F, "GPSHPositioningError"),
];

/// Readable names of the values of enumerated EXIF tags.
pub const EXIF_VALUE_NAMES: [(u16, i64, &'static str); 90] = [
    (0x0112, 1, "Horizontal"),
    (0x0112, 2, "Mirror"),
    (0x0112, 3, "Rotate 180"),
    (0x0112, 4, "Flip"),
    (0x0112, 5, "Mirror+Rotate90"),
    (0x0112, 6, "Rotate 90 CW"),
    (0x0112, 7, "Mirror+Rotate270"),
    (0x0112, 8, "Rotate 90 CCW"),
    (0x9207, 0, "Unknown"),
    (0x9207, 1, "Average"),
    (0x9207, 2, "CenterWeighted"),
    (0x9207, 3, "Spot"),
    (0x9207, 4, "MultiSpot"),
    (0x9207, 5, "Pattern"),
    (0x9207, 6, "Partial"),
    (0x9207, 255, "Other"),
    (0x9209, 0x0000, "No Flash"),
    (0x9209, 0x0001, "Flash"),
    (0x9209, 0x0005, "Flash (Return detected)"),
    (0x9209, 0x0007, "Flash (Return detected)"),
    (0x9209, 0x0009, "Flash (Compulsory)"),
    (0x9209, 0x000D, "Flash (Compulsory, Return)"),
    (0x9209, 0x000F, "Flash (Compulsory, Return)"),
    (0x9209, 0x0010, "No Flash"),
    (0x9209, 0x0018, "No Flash"),
    (0x9209, 0x0019, "Flash (Auto)"),
    (0x9209, 0x001D, "Flash (Auto, Return)"),
    (0x9209, 0x001F, "Flash (Auto, Return)"),
    (0x9209, 0x0020, "No Flash"),
    (0x9209, 0x0041, "Flash (Red-eye)"),
    (0x9209, 0x0045, "Flash (Red-eye, Return)"),
    (0x9209, 0x0047, "Flash (Red-eye, Return)"),
    (0x9209, 0x0049, "Flash (Red-eye, Compulsory)"),
    (0x9209, 0x004D, "Flash (Red-eye, Compulsory, Return)"),
    (0x9209, 0x004F, "Flash (Red-eye, Compulsory, Return)"),
    (0x9209, 0x0059, "Flash (Red-eye, Auto)"),
    (0x9209, 0x005D, "Flash (Red-eye, Auto, Return)"),
    (0x9209, 0x005F, "Flash (Red-eye, Auto, Return)"),
    (0x8822, 0, "Not defined"),
    (0x8822, 1, "Manual"),
    (0x8822, 2, "Program AE"),
    (0x8822, 3, "Aperture-priority AE"),
    (0x8822, 4, "Shutter speed priority AE"),
    (0x8822, 5, "Creative"),
    (0x8822, 6, "Action"),
    (0x8822, 7, "Portrait"),
    (0x8822, 8, "Landscape"),
    (0x8822, 9, "Bulb"),
    (0xA001, 1, "sRGB"),
    (0xA001, 2, "Adobe RGB"),
    (0xA001, 65535, "Uncalibrated"),
    (0xA403, 0, "Auto"),
    (0xA403, 1, "Manual"),
    (0xA402, 0, "Auto"),
    (0xA402, 1, "Manual"),
    (0xA402, 2, "Auto bracket"),
    (0xA406, 0, "Standard"),
    (0xA406, 1, "Landscape"),
    (0xA406, 2, "Portrait"),
    (0xA406, 3, "Night"),
    (0x9208, 0, "Unknown"),
    (0x9208, 1, "Daylight"),
    (0x9208, 2, "Fluorescent"),
    (0x9208, 3, "Tungsten"),
    (0x9208, 4, "Flash"),
    (0x9208, 9, "Fine weather"),
    (0x9208, 10, "Cloudy"),
    (0x9208, 11, "Shade"),
    (0x9208, 12, "Fluorescent D"),
    (0x9208, 13, "Fluorescent N"),
    (0x9208, 14, "Fluorescent W"),
    (0x9208, 15, "White fluorescent"),
    (0x9208, 17, "Standard A"),
    (0x9208, 18, "Standard B"),
    (0x9208, 19, "Standard C"),
    (0x9208, 20, "D55"),
    (0x9208, 21, "D65"),
    (0x9208, 22, "D75"),
    (0x9208, 23, "D50"),
    (0x9208, 24, "ISO studio"),
    (0x9208, 255, "Other"),
    (0xA217, 1, "Not defined"),
    (0xA217, 2, "One-chip color"),
    (0xA217, 3, "Two-chip color"),
    (0xA217, 4, "Three-chip color"),
    (0xA217, 5, "Color sequential"),
    (0xA217, 7, "Trilinear"),
    (0xA217, 8, "Color sequential linear"),
    (0xA301, 1, "Directly photographed"),
    (0xA300, 1, "DSC"),
];

/// The name listed for `tag` in `table`, or the empty string.
pub open spec fn name_in(table: Seq<(u16, &'static str)>, tag: u16) -> &'static str
    decreases table.len(),
{
    if table.len() == 0 {
        ""
    } else if table[0].0 == tag {
        table[0].1
    } else {
        name_in(table.drop_first(), tag)
    }
}

/// The text listed for value `val` of `tag` in `table`.
pub open spec fn value_name_in(table: Seq<(u16, i64, &'static str)>, tag: u16, val: int) -> Option<
    &'static str,
>
    decreases table.len(),
{
    if table.len() == 0 {
        None
    } else if table[0].0 == tag && table[0].1 == val {
        Some(table[0].2)
    } else {
        value_name_in(table.drop_first(), tag, val)
    }
}

/// The readable name of an EXIF tag, empty for an unknown tag.
pub open spec fn tag_name_of(tag: u16) -> &'static str {
    name_in(EXIF_TAG_NAMES@, tag)
}

/// How the value `val` of `tag` is shown: its listed name, or its decimal digits.
pub open spec fn format_value_of(tag: u16, val: int) -> Seq<char> {
    match value_name_in(EXIF_VALUE_NAMES@, tag, val) {
        Some(name) => name@,
        None => signed_decimal(val),
    }
}

/// The readable name of an EXIF tag, or "" for a tag not in the table.
pub fn exif_tag_name(tag: u16) -> (r: &'static str)
    ensures
        r == tag_name_of(tag),
{
    let mut i: usize = 0;
    assert(EXIF_TAG_NAMES@.skip(0) =~= EXIF_TAG_NAMES@);
    while i < 110
        invariant
            i <= 110,
            EXIF_TAG_NAMES@.len() == 110,
            name_in(EXIF_TAG_NAMES@, tag) == name_in(EXIF_TAG_NAMES@.skip(i as int), tag),
        decreases 110 - i,
    {
        let entry = EXIF_TAG_NAMES[i];
        assert(EXIF_TAG_NAMES@.skip(i as int)[0] == entry);
        assert(EXIF_TAG_NAMES@.skip(i as int).drop_first() =~= EXIF_TAG_NAMES@.skip(i as int + 1));
        if entry.0 == tag {
            return entry.1;
        }
        i += 1;
    }
    ""
}

/// Shows the value `val` of `tag`: orientations, metering modes, flash
/// modes and the like by name, other values as decimal numbers.
pub fn format_value(tag: u16, val: i64) -> (r: String)
    ensures
        r@ == format_value_of(tag, val as int),
{
    let mut i: usize = 0;
    assert(EXIF_VALUE_NAMES@.skip(0) =~= EXIF_VALUE_NAMES@);
    while i < 90
        invariant
            i <= 90,
            EXIF_VALUE_NAMES@.len() == 90,
            value_name_in(EXIF_VALUE_NAMES@, tag, val as int) == value_name_in(
                EXIF_VALUE_NAMES@.skip(i as int),
                tag,
                val as int,
            ),
        decreases 90 - i,
    {
        let entry = EXIF_VALUE_NAMES[i];
        assert(EXIF_VALUE_NAMES@.skip(i as int)[0] == entry);
        assert(EXIF_VALUE_NAMES@.skip(i as int).drop_first() =~= EXIF_VALUE_NAMES@.skip(
            i as int + 1,
        ));
        if entry.0 == tag && entry.1 == val {
            return entry.2.to_string();
        }
        i += 1;
    }
    i64_to_string(val)
}

/// The 16-bit number at `off` in `buf`, little-endian when `le`; 0 when
/// the two bytes are not both inside `buf`.
pub open spec fn u16_at(buf: Seq<u8>, off: int, le: bool) -> u16 {
    if off < 0 || off + 1 >= buf.len() {
        0
    } else if le {
        (buf[off] + 256 * buf[off + 1]) as u16
    } else {
        (256 * buf[off] + buf[off + 1]) as u16
    }
}

/// The 32-bit number at `off` in `buf`, little-endian when `le`; 0 when
/// the four bytes are not all inside `buf`.
pub open spec fn u32_at(buf: Seq<u8>, off: int, le: bool) -> u32 {
    if off < 0 || off + 3 >= buf.len() {
        0
    } else if le {
        (buf[off] + 256 * buf[off + 1] + 65536 * buf[off + 2] + 16777216 * buf[off + 3]) as u32
    } else {
        (16777216 * buf[off] + 65536 * buf[off + 1] + 256 * buf[off + 2] + buf[off + 3]) as u32
    }
}

/// Reads a 16-bit number at `off`, little-endian when `le`; 0 when it does
/// not fit in `buf`.
pub fn read_u16(buf: &[u8], off: usize, le: bool) -> (r: u16)
    requires
        off < usize::MAX,
    ensures
        r == u16_at(buf@, off as int, le),
{
    if off + 1 >= buf.len() {
        return 0;
    }
    let a = buf[off];
    let b = buf[off + 1];
    if le {
        let r = (a as u16) | ((b as u16) << 8);
        assert(r == a + 256 * b) by (bit_vector)
            requires
                r == (a as u16) | ((b as u16) << 8),
        ;
        r
    } else {
        let r = ((a as u16) << 8) | (b as u16);
        assert(r == 256 * a + b) by (bit_vector)
            requires
                r == ((a as u16) << 8) | (b as u16),
        ;
        r
    }
}

/// Reads a 32-bit number at `off`, little-endian when `le`; 0 when it does
/// not fit in `buf`.
pub fn read_u32(buf: &[u8], off: usize, le: bool) -> (r: u32)
    requires
        off < usize::MAX - 2,
    ensures
        r == u32_at(buf@, off as int, le),
{
    if off + 3 >= buf.len() {
        return 0;
    }
    let a = buf[off];
    let b = buf[off + 1];
    let c = buf[off + 2];
    let d = buf[off + 3];
    if le {
        let r = (a as u32) | ((b as u32) << 8) | ((c as u32) << 16) | ((d as u32) << 24);
        assert(r == a + 256 * b + 65536 * c + 16777216 * d) by (bit_vector)
            requires
                r == (a as u32) | ((b as u32) << 8) | ((c as u32) << 16) | ((d as u32) << 24),
        ;
        r
    } else {
        let r = ((a as u32) << 24) | ((b as u32) << 16) | ((c as u32) << 8) | (d as u32);
        assert(r == 16777216 * a + 65536 * b + 256 * c + d) by (bit_vector)
            requires
                r == ((a as u32) << 24) | ((b as u32) << 16) | ((c as u32) << 8) | (d as u32),
        ;
        r
    }
}

/// Walks the segments of a JPEG file from position `i` to its APP1 "Exif"
/// segment and gives the start of the TIFF block in it, or 0.
pub open spec fn jpeg_exif_scan(buf: Seq<u8>, i: int) -> int
    decreases buf.len() - i,
{
    if i < 0 || i + 8 >= buf.len() || buf[i] != 0xFF {
        0
    } else {
        let marker = buf[i + 1];
        let seg_len = u16_at(buf, i + 2, false) as int;
        if seg_len < 2 {
            0
        } else if marker == 0xE1 && seg_len >= 8 && buf[i + 4] == 69 && buf[i + 5] == 120 && buf[i
            + 6] == 105 && buf[i + 7] == 102 {
            i + 10
        } else if i + 2 + seg_len >= buf.len() {
            0
        } else {
            jpeg_exif_scan(buf, i + 2 + seg_len)
        }
    }
}

/// The length of the JPEG segment whose marker is at `p`: the big-endian
/// number in the two bytes after the marker, which counts those two bytes
/// and the segment's data but not the marker.
pub open spec fn segment_length(buf: Seq<u8>, p: int) -> int {
    256 * buf[p + 2] + buf[p + 3]
}

/// The segment at `p` is the APP1 "Exif" segment: marker 0xFF 0xE1, a
/// length that holds the "Exif" header, and the letters "Exif".
pub open spec fn is_exif_segment(buf: Seq<u8>, p: int) -> bool {
    &&& buf[p] == 0xFF
    &&& buf[p + 1] == 0xE1
    &&& segment_length(buf, p) >= 8
    &&& buf[p + 4] == 0x45
    &&& buf[p + 5] == 0x78
    &&& buf[p + 6] == 0x69
    &&& buf[p + 7] == 0x66
}

/// The positions `segs` are a chain of JPEG segments from just after the
/// start-of-image marker: each starts with 0xFF, has a length of at least
/// 2, is not the Exif segment, and the next one starts right after it, at
/// its position plus 2 (the marker) plus its length.
pub open spec fn segment_chain(buf: Seq<u8>, segs: Seq<int>) -> bool {
    &&& segs.len() >= 1
    &&& segs[0] == 2
    &&& forall|k: int|
        0 <= k < segs.len() - 1 ==> {
            &&& buf[#[trigger] segs[k]] == 0xFF
            &&& segment_length(buf, segs[k]) >= 2
            &&& !is_exif_segment(buf, segs[k])
            &&& segs[k + 1] == segs[k] + 2 + segment_length(buf, segs[k])
        }
}

proof fn lemma_segment_length(buf: Seq<u8>, p: int)
    requires
        0 <= p,
        p + 3 < buf.len(),
    ensures
        u16_at(buf, p + 2, false) as int == segment_length(buf, p),
{
    let hi = buf[p + 2];
    let lo = buf[p + 3];
    assert(0 <= 256 * hi + lo <= 65535);
}

proof fn lemma_scan_follows_chain(buf: Seq<u8>, segs: Seq<int>, k: int)
    requires
        segment_chain(buf, segs),
        0 <= k < segs.len(),
        segs.last() + 8 < buf.len(),
        is_exif_segment(buf, segs.last()),
    ensures
        jpeg_exif_scan(buf, segs[k]) == segs.last() + 10,
    decreases segs.len() - k,
{
    let p = segs[k];
    lemma_chain_increases(buf, segs, 0, k);
    lemma_chain_increases(buf, segs, k, segs.len() - 1);
    lemma_segment_length(buf, p);
    if k < segs.len() - 1 {
        lemma_chain_increases(buf, segs, k + 1, segs.len() - 1);
        lemma_scan_follows_chain(buf, segs, k + 1);
        assert(buf[p] == 0xFF);
        assert(!is_exif_segment(buf, p));
        assert(segs[k + 1] == p + 2 + segment_length(buf, p));
    }
}

proof fn lemma_chain_increases(buf: Seq<u8>, segs: Seq<int>, k: int, j: int)
    requires
        segment_chain(buf, segs),
        0 <= k <= j < segs.len(),
    ensures
        segs[k] <= segs[j],
    decreases j - k,
{
    if k < j {
        lemma_chain_increases(buf, segs, k, j - 1);
        assert(segs[j] == segs[j - 1] + 2 + segment_length(buf, segs[j - 1]));
    }
}

/// In a JPEG file (starting 0xFF 0xD8), the EXIF data is found in the first
/// APP1 "Exif" segment whatever segments come before it (a JFIF APP0, say):
/// following the chain of segments, each starting 2 plus its length after
/// the one before, the TIFF block starts 10 bytes after that segment's
/// marker (marker, length and "Exif\0\0").
pub proof fn exif_found_after_segments(buf: Seq<u8>, segs: Seq<int>)
    requires
        buf.len() > 4,
        buf[0] == 0xFF,
        buf[1] == 0xD8,
        segment_chain(buf, segs),
        segs.last() + 8 < buf.len(),
        is_exif_segment(buf, segs.last()),
    ensures
        exif_tiff_start(buf) == segs.last() + 10,
{
    lemma_scan_follows_chain(buf, segs, 0);
}

/// Where the TIFF block of the EXIF data starts: after the "Exif\0\0" header
/// of the APP1 segment of a JPEG file; 0 otherwise (a raw TIFF file starts
/// with its TIFF block).
pub open spec fn exif_tiff_start(buf: Seq<u8>) -> int {
    if buf.len() > 4 && buf[0] == 0xFF && buf[1] == 0xD8 {
        jpeg_exif_scan(buf, 2)
    } else {
        0
    }
}

/// Locates the TIFF block of the EXIF data in a JPEG or TIFF file.
pub fn find_exif_tiff(buf: &[u8]) -> (r: usize)
    requires
        buf@.len() <= isize::MAX,
    ensures
        r == exif_tiff_start(buf@),
        r <= buf@.len() + 2,
{
    if buf.len() > 4 && buf[0] == 0xFF && buf[1] == 0xD8 {
        let mut i: usize = 2;
        while i + 8 < buf.len()
            invariant
                2 <= i < buf@.len(),
                buf@.len() <= isize::MAX,
                exif_tiff_start(buf@) == jpeg_exif_scan(buf@, i as int),
            decreases buf@.len() - i,
        {
            if buf[i] != 0xFF {
                return 0;
            }
            let marker = buf[i + 1];
            let seg_len = read_u16(buf, i + 2, false) as usize;
            if seg_len < 2 {
                return 0;
            }
            if marker == 0xE1 && seg_len >= 8 && buf[i + 4] == 69 && buf[i + 5] == 120 && buf[i
                + 6] == 105 && buf[i + 7] == 102 {
                return i + 10;
            }
            i += 2 + seg_len;
            if i >= buf.len() {
                return 0;
            }
        }
        return 0;
    }
    0
}

/// The value of an EXIF entry. A rational number is kept as numerator and
/// denominator together with its tag, which decides how it is shown.
pub enum ExifValue {
    /// Text ready to be shown.
    Text(String),
    /// A rational number with a non-zero denominator.
    Rational { tag: u16, num: u32, den: u32 },
}

/// The mathematical value of an `ExifValue`.
pub enum ExifValueView {
    Text(Seq<char>),
    Rational(u16, u32, u32),
}

impl View for ExifValue {
    type V = ExifValueView;

    open spec fn view(&self) -> ExifValueView {
        match self {
            ExifValue::Text(s) => ExifValueView::Text(s@),
            ExifValue::Rational { tag, num, den } => ExifValueView::Rational(*tag, *num, *den),
        }
    }
}

/// The names and values of a list of fields.
pub open spec fn field_views(v: Seq<(String, ExifValue)>) -> Seq<(Seq<char>, ExifValueView)> {
    v.map_values(|f: (String, ExifValue)| (f.0@, f.1@))
}

/// The tag points to a nested directory: the EXIF one or the GPS one.
pub open spec fn is_pointer_tag(tag: u16) -> bool {
    tag == 0x8769 || tag == 0x8825
}

/// A value is shown unless it is empty text.
pub open spec fn value_shown(v: ExifValueView) -> bool {
    match v {
        ExifValueView::Text(t) => t.len() > 0,
        ExifValueView::Rational(..) => true,
    }
}

/// The `n` data bytes of the entry at `off`: inside the entry when they fit
/// in its four value bytes, else at the offset (from `base`) that those bytes
/// hold; None when they run past the end of `buf`.
pub open spec fn entry_bytes(buf: Seq<u8>, off: int, base: int, le: bool, n: int) -> Option<
    Seq<u8>,
> {
    if n <= 4 {
        Some(buf.subrange(off + 8, off + 8 + n))
    } else {
        let d = u32_at(buf, off + 8, le) as int;
        if base + d + n > buf.len() {
            None
        } else {
            Some(buf.subrange(base + d, base + d + n))
        }
    }
}

/// At most the first ten of `count` values.
pub open spec fn shown_count(count: int) -> int {
    if count < 10 {
        count
    } else {
        10
    }
}

/// The value of the entry at `off` and whether it is a directory pointer
/// that is not shown; None when the entry is skipped.
pub open spec fn entry_value(buf: Seq<u8>, off: int, base: int, le: bool) -> Option<
    (ExifValueView, bool),
> {
    let tag = u16_at(buf, off, le);
    let typ = u16_at(buf, off + 2, le);
    let count = u32_at(buf, off + 4, le) as int;
    if typ == 2 {
        match entry_bytes(buf, off, base, le, count) {
            None => None,
            Some(raw) => {
                let t = trim_white(trim_nul_end(lossy_utf8(raw)));
                if t.len() == 0 {
                    None
                } else {
                    Some((ExifValueView::Text(t), false))
                }
            },
        }
    } else if typ == 3 {
        if count == 1 {
            Some(
                (
                    ExifValueView::Text(format_value_of(tag, u16_at(buf, off + 8, le) as int)),
                    is_pointer_tag(tag),
                ),
            )
        } else {
            match entry_bytes(buf, off, base, le, count * 2) {
                None => None,
                Some(raw) => Some(
                    (
                        ExifValueView::Text(
                            join(
                                Seq::new(
                                    shown_count(count) as nat,
                                    |j: int| format_value_of(tag, u16_at(raw, 2 * j, le) as int),
                                ),
                                ", "@,
                            ),
                        ),
                        false,
                    ),
                ),
            }
        }
    } else if typ == 4 {
        if count == 1 {
            Some(
                (
                    ExifValueView::Text(format_value_of(tag, u32_at(buf, off + 8, le) as int)),
                    is_pointer_tag(tag),
                ),
            )
        } else {
            let d = u32_at(buf, off + 8, le) as int;
            if base + d + count * 4 > buf.len() {
                None
            } else {
                Some(
                    (
                        ExifValueView::Text(
                            join(
                                Seq::new(
                                    shown_count(count) as nat,
                                    |j: int|
                                        format_value_of(tag, u32_at(buf, base + d + 4 * j, le) as int),
                                ),
                                ", "@,
                            ),
                        ),
                        false,
                    ),
                )
            }
        }
    } else if typ == 5 || typ == 10 {
        let d = u32_at(buf, off + 8, le) as int;
        if base + d + 8 > buf.len() {
            None
        } else {
            let num = u32_at(buf, base + d, le);
            let den = u32_at(buf, base + d + 4, le);
            if den == 0 {
                Some((ExifValueView::Text(format_value_of(tag, num as int)), false))
            } else {
                Some((ExifValueView::Rational(tag, num, den), false))
            }
        }
    } else if typ == 1 || typ == 6 || typ == 7 {
        if count > 16 {
            None
        } else {
            match entry_bytes(buf, off, base, le, count) {
                None => None,
                Some(raw) => Some(
                    (
                        ExifValueView::Text(
                            join(Seq::new(raw.len(), |j: int| decimal(raw[j] as nat)), " "@),
                        ),
                        false,
                    ),
                ),
            }
        }
    } else {
        Some((ExifValueView::Text(Seq::empty()), false))
    }
}

/// The entry at `off` is read: its tag is known or points to a directory,
/// and its value is not skipped.
pub open spec fn entry_read(buf: Seq<u8>, off: int, base: int, le: bool) -> bool {
    let tag = u16_at(buf, off, le);
    (tag_name_of(tag)@.len() > 0 || is_pointer_tag(tag)) && entry_value(buf, off, base, le) is Some
}

/// The field that the entry at `off` contributes, if any.
#[verifier::opaque]
pub open spec fn entry_field(buf: Seq<u8>, off: int, base: int, le: bool) -> Seq<
    (Seq<char>, ExifValueView),
> {
    if entry_read(buf, off, base, le) {
        let (v, pointer) = entry_value(buf, off, base, le).unwrap();
        if value_shown(v) && !pointer {
            seq![(tag_name_of(u16_at(buf, off, le))@, v)]
        } else {
            Seq::empty()
        }
    } else {
        Seq::empty()
    }
}

/// The fields of the directory at `start`, with those of the directories
/// that it points to in place. `ancestors` are the offsets of the directories
/// that the descent is inside: a pointer back to one of them is not followed,
/// while a directory reached again by another path is read again. `fuel`
/// bounds the nesting.
pub open spec fn ifd_fields(
    buf: Seq<u8>,
    start: int,
    base: int,
    le: bool,
    fuel: nat,
    ancestors: Seq<usize>,
) -> Seq<(Seq<char>, ExifValueView)>
    decreases fuel, 2int, 0int,
{
    if start + 2 > buf.len() {
        Seq::empty()
    } else {
        let count = u16_at(buf, start, le) as int;
        if count > 200 || start + 2 + count * 12 > buf.len() {
            Seq::empty()
        } else {
            ifd_entries(buf, start, base, le, fuel, count, 0, ancestors)
        }
    }
}

/// The fields of the entries `i` up to `count` of the directory at `start`.
pub open spec fn ifd_entries(
    buf: Seq<u8>,
    start: int,
    base: int,
    le: bool,
    fuel: nat,
    count: int,
    i: int,
    ancestors: Seq<usize>,
) -> Seq<(Seq<char>, ExifValueView)>
    decreases fuel, 1int, count - i,
{
    if i < 0 || i >= count {
        Seq::empty()
    } else {
        let off = start + 2 + 12 * i;
        entry_field(buf, off, base, le) + entry_nested(buf, off, base, le, fuel, ancestors)
            + ifd_entries(buf, start, base, le, fuel, count, i + 1, ancestors)
    }
}

/// The directory that the entry at `off` points to, if it is entered: the
/// entry is a read EXIF or GPS pointer to a directory inside `buf` that is
/// not one of `ancestors`, and `fuel` remains.
pub open spec fn nested_target(
    buf: Seq<u8>,
    off: int,
    base: int,
    le: bool,
    fuel: nat,
    ancestors: Seq<usize>,
) -> Option<int> {
    let target = base + u32_at(buf, off + 8, le) as int;
    if fuel > 0 && entry_read(buf, off, base, le) && is_pointer_tag(u16_at(buf, off, le)) && target
        + 2 <= buf.len() && !ancestors.contains(target as usize) {
        Some(target)
    } else {
        None
    }
}

/// The fields of the directory that the entry at `off` points to, when it
/// is entered (see `nested_target`).
pub open spec fn entry_nested(
    buf: Seq<u8>,
    off: int,
    base: int,
    le: bool,
    fuel: nat,
    ancestors: Seq<usize>,
) -> Seq<(Seq<char>, ExifValueView)>
    decreases fuel, 0int, 0int,
{
    match nested_target(buf, off, base, le, fuel, ancestors) {
        Some(target) => ifd_fields(
            buf,
            target,
            base,
            le,
            (fuel - 1) as nat,
            ancestors.push(target as usize),
        ),
        None => Seq::empty(),
    }
}

proof fn lemma_ifd_entries_step(
    buf: Seq<u8>,
    start: int,
    base: int,
    le: bool,
    fuel: nat,
    count: int,
    i: int,
    ancestors: Seq<usize>,
)
    requires
        0 <= i < count,
    ensures
        ifd_entries(buf, start, base, le, fuel, count, i, ancestors) == entry_field(
            buf,
            start + 2 + 12 * i,
            base,
            le,
        ) + entry_nested(buf, start + 2 + 12 * i, base, le, fuel, ancestors) + ifd_entries(
            buf,
            start,
            base,
            le,
            fuel,
            count,
            i + 1,
            ancestors,
        ),
{
    reveal_with_fuel(ifd_entries, 2);
}

/// `x` is one of the offsets in `v`.
fn contains_offset(v: &Vec<usize>, x: usize) -> (r: bool)
    ensures
        r == v@.contains(x),
{
    let mut i: usize = 0;
    while i < v.len()
        invariant
            i <= v@.len(),
            forall|j: int| 0 <= j < i ==> v@[j] != x,
        decreases v.len() - i,
    {
        if v[i] == x {
            assert(v@[i as int] == x);
            return true;
        }
        i += 1;
    }
    false
}

fn copy_bytes(buf: &[u8], from: usize, to: usize) -> (r: Vec<u8>)
    requires
        from <= to <= buf@.len(),
    ensures
        r@ == buf@.subrange(from as int, to as int),
{
    let mut r: Vec<u8> = Vec::new();
    let mut i = from;
    while i < to
        invariant
            from <= i <= to <= buf@.len(),
            r@ == buf@.subrange(from as int, i as int),
        decreases to - i,
    {
        r.push(buf[i]);
        i += 1;
        assert(r@ =~= buf@.subrange(from as int, i as int));
    }
    r
}

/// Reads the `n` data bytes of the entry at `off`.
fn read_entry_bytes(buf: &[u8], off: usize, base: usize, le: bool, n: u64) -> (r: Option<Vec<u8>>)
    requires
        buf@.len() <= isize::MAX,
        off + 12 <= buf@.len(),
        base <= buf@.len(),
        n < 0x4_0000_0000,
    ensures
        match r {
            None => entry_bytes(buf@, off as int, base as int, le, n as int) is None,
            Some(v) => entry_bytes(buf@, off as int, base as int, le, n as int) == Some(v@),
        },
{
    if n <= 4 {
        let n = n as usize;
        Some(copy_bytes(buf, off + 8, off + 8 + n))
    } else {
        let d = read_u32(buf, off + 8, le);
        if (base as u64) + (d as u64) + n > (buf.len() as u64) {
            None
        } else {
            let from = base + (d as usize);
            let to = from + (n as usize);
            Some(copy_bytes(buf, from, to))
        }
    }
}

/// The first `m` 16-bit values of `raw`, each shown as a value of `tag`.
fn short_values(raw: &Vec<u8>, tag: u16, le: bool, m: usize) -> (r: Vec<String>)
    requires
        2 * m <= raw@.len(),
        raw@.len() <= isize::MAX,
    ensures
        views(r@) =~= Seq::new(m as nat, |j: int| format_value_of(tag, u16_at(raw@, 2 * j, le) as int)),
{
    let mut parts: Vec<String> = Vec::new();
    let mut j: usize = 0;
    while j < m
        invariant
            j <= m,
            2 * m <= raw@.len(),
            raw@.len() <= isize::MAX,
            parts@.len() == j,
            forall|k: int|
                0 <= k < j ==> (#[trigger] parts@[k])@ == format_value_of(
                    tag,
                    u16_at(raw@, 2 * k, le) as int,
                ),
        ensures
            parts@.len() == m,
            forall|k: int|
                0 <= k < m ==> (#[trigger] parts@[k])@ == format_value_of(
                    tag,
                    u16_at(raw@, 2 * k, le) as int,
                ),
        decreases m - j,
    {
        if j * 2 + 1 < raw.len() {
            let v = read_u16(raw.as_slice(), j * 2, le) as i64;
            parts.push(format_value(tag, v));
        } else {
            break;
        }
        j += 1;
    }
    parts
}

/// The first `m` 32-bit values at `from` in `buf`, each shown as a value of `tag`.
fn long_values(buf: &[u8], from: usize, tag: u16, le: bool, m: usize) -> (r: Vec<String>)
    requires
        from + 4 * m <= buf@.len(),
        buf@.len() <= isize::MAX,
    ensures
        views(r@) =~= Seq::new(m as nat, |j: int| format_value_of(tag, u32_at(buf@, from + 4 * j, le) as int)),
{
    let mut parts: Vec<String> = Vec::new();
    let mut j: usize = 0;
    while j < m
        invariant
            j <= m,
            from + 4 * m <= buf@.len(),
            buf@.len() <= isize::MAX,
            parts@.len() == j,
            forall|k: int|
                0 <= k < j ==> (#[trigger] parts@[k])@ == format_value_of(
                    tag,
                    u32_at(buf@, from + 4 * k, le) as int,
                ),
        decreases m - j,
    {
        let v = read_u32(buf, from + j * 4, le) as i64;
        parts.push(format_value(tag, v));
        j += 1;
    }
    parts
}

/// The bytes of `raw` as decimal numbers.
fn byte_values(raw: &Vec<u8>) -> (r: Vec<String>)
    ensures
        views(r@) =~= Seq::new(raw@.len(), |j: int| decimal(raw@[j] as nat)),
{
    let mut parts: Vec<String> = Vec::new();
    let mut j: usize = 0;
    while j < raw.len()
        invariant
            j <= raw@.len(),
            parts@.len() == j,
            forall|k: int| 0 <= k < j ==> (#[trigger] parts@[k])@ == decimal(raw@[k] as nat),
        decreases raw@.len() - j,
    {
        parts.push(u64_to_string(raw[j] as u64));
        j += 1;
    }
    parts
}

/// Reads the value of the entry at `off`; None when the entry is skipped.
#[verifier::spinoff_prover]
#[verifier::rlimit(40)]
fn read_entry_value(buf: &[u8], off: usize, base: usize, le: bool) -> (r: Option<(ExifValue, bool)>)
    requires
        buf@.len() <= isize::MAX,
        off + 12 <= buf@.len(),
        base <= buf@.len(),
    ensures
        match r {
            None => entry_value(buf@, off as int, base as int, le) is None,
            Some((v, p)) => entry_value(buf@, off as int, base as int, le) == Some((v@, p)),
        },
{
    let tag = read_u16(buf, off, le);
    let typ = read_u16(buf, off + 2, le);
    let count = read_u32(buf, off + 4, le) as u64;
    let pointer = tag == 0x8769 || tag == 0x8825;
    if typ == 2 {
        match read_entry_bytes(buf, off, base, le, count) {
            None => None,
            Some(raw) => {
                let s = utf8_lossy(raw.as_slice());
                let t = trim_text(s.as_str());
                if t.as_str().is_empty() {
                    None
                } else {
                    Some((ExifValue::Text(t), false))
                }
            },
        }
    } else if typ == 3 {
        if count == 1 {
            let v = read_u16(buf, off + 8, le) as i64;
            Some((ExifValue::Text(format_value(tag, v)), pointer))
        } else {
            match read_entry_bytes(buf, off, base, le, count * 2) {
                None => None,
                Some(raw) => {
                    let m = if count < 10 {
                        count as usize
                    } else {
                        10
                    };
                    let parts = short_values(&raw, tag, le, m);
                    Some((ExifValue::Text(join_strings(&parts, ", ")), false))
                },
            }
        }
    } else if typ == 4 {
        if count == 1 {
            let v = read_u32(buf, off + 8, le) as i64;
            Some((ExifValue::Text(format_value(tag, v)), pointer))
        } else {
            let d = read_u32(buf, off + 8, le);
            if (base as u64) + (d as u64) + count * 4 > (buf.len() as u64) {
                None
            } else {
                let m = if count < 10 {
                    count as usize
                } else {
                    10
                };
                let parts = long_values(buf, base + (d as usize), tag, le, m);
                Some((ExifValue::Text(join_strings(&parts, ", ")), false))
            }
        }
    } else if typ == 5 || typ == 10 {
        let d = read_u32(buf, off + 8, le);
        if (base as u64) + (d as u64) + 8 > (buf.len() as u64) {
            None
        } else {
            let at = base + (d as usize);
            let num = read_u32(buf, at, le);
            let den = read_u32(buf, at + 4, le);
            if den == 0 {
                Some((ExifValue::Text(format_value(tag, num as i64)), false))
            } else {
                Some((ExifValue::Rational { tag, num, den }, false))
            }
        }
    } else if typ == 1 || typ == 6 || typ == 7 {
        if count > 16 {
            None
        } else {
            match read_entry_bytes(buf, off, base, le, count) {
                None => None,
                Some(raw) => {
                    let parts = byte_values(&raw);
                    Some((ExifValue::Text(join_strings(&parts, " ")), false))
                },
            }
        }
    } else {
        Some((ExifValue::Text(String::new()), false))
    }
}

fn value_is_shown(v: &ExifValue) -> (r: bool)
    ensures
        r == value_shown(v@),
{
    match v {
        ExifValue::Text(t) => !t.as_str().is_empty(),
        ExifValue::Rational { .. } => true,
    }
}

/// Appends to `result` the fields of the directory at `start` (offsets are
/// relative to `tiff_base`), with those of the EXIF and GPS directories that
/// it points to in place. `ancestors` holds the offsets of the directories
/// the descent is inside; a pointer back to one of them is not followed, so
/// a directory pointing back to itself ends the descent. `depth` bounds the
/// nesting.
pub fn parse_ifd(
    buf: &[u8],
    start: usize,
    tiff_base: usize,
    le: bool,
    result: &mut Vec<(String, ExifValue)>,
    depth: usize,
    ancestors: &mut Vec<usize>,
)
    requires
        buf@.len() <= isize::MAX,
        tiff_base <= buf@.len(),
    ensures
        field_views(final(result)@) == field_views(old(result)@) + ifd_fields(
            buf@,
            start as int,
            tiff_base as int,
            le,
            depth as nat,
            old(ancestors)@,
        ),
        final(ancestors)@ == old(ancestors)@,
    decreases depth, 1usize,
{
    let ghost total = ifd_fields(buf@, start as int, tiff_base as int, le, depth as nat, ancestors@);
    if start > buf.len() || buf.len() - start < 2 {
        assert(field_views(result@) =~= field_views(old(result)@) + total);
        return;
    }
    let count = read_u16(buf, start, le) as usize;
    if count > 200 || start + 2 + count * 12 > buf.len() {
        assert(field_views(result@) =~= field_views(old(result)@) + total);
        return;
    }
    let mut i: usize = 0;
    assert(field_views(result@) + ifd_entries(
        buf@,
        start as int,
        tiff_base as int,
        le,
        depth as nat,
        count as int,
        0,
        ancestors@,
    ) =~= field_views(old(result)@) + total);
    while i < count
        invariant
            buf@.len() <= isize::MAX,
            tiff_base <= buf@.len(),
            count <= 200,
            start + 2 + count * 12 <= buf@.len(),
            i <= count,
            ancestors@ == old(ancestors)@,
            field_views(result@) + ifd_entries(
                buf@,
                start as int,
                tiff_base as int,
                le,
                depth as nat,
                count as int,
                i as int,
                old(ancestors)@,
            ) =~= field_views(old(result)@) + total,
        decreases count - i,
    {
        let ghost before = field_views(result@);
        let entry_off = start + 2 + i * 12;
        parse_entry(buf, entry_off, tiff_base, le, result, depth, ancestors);
        proof {
            lemma_ifd_entries_step(
                buf@,
                start as int,
                tiff_base as int,
                le,
                depth as nat,
                count as int,
                i as int,
                old(ancestors)@,
            );
            let field = entry_field(buf@, entry_off as int, tiff_base as int, le);
            let nested = entry_nested(
                buf@,
                entry_off as int,
                tiff_base as int,
                le,
                depth as nat,
                old(ancestors)@,
            );
            let rest = ifd_entries(
                buf@,
                start as int,
                tiff_base as int,
                le,
                depth as nat,
                count as int,
                i as int + 1,
                old(ancestors)@,
            );
            assert(field_views(result@) + rest =~= before + (field + nested + rest));
        }
        i += 1;
    }
}

/// Appends to `result` the field of the entry at `entry_off`, then the
/// fields of the directory it points to, when that is entered.
fn parse_entry(
    buf: &[u8],
    entry_off: usize,
    tiff_base: usize,
    le: bool,
    result: &mut Vec<(String, ExifValue)>,
    depth: usize,
    ancestors: &mut Vec<usize>,
)
    requires
        buf@.len() <= isize::MAX,
        tiff_base <= buf@.len(),
        entry_off + 12 <= buf@.len(),
    ensures
        field_views(final(result)@) == field_views(old(result)@) + entry_field(
            buf@,
            entry_off as int,
            tiff_base as int,
            le,
        ) + entry_nested(buf@, entry_off as int, tiff_base as int, le, depth as nat, old(ancestors)@),
        final(ancestors)@ == old(ancestors)@,
    decreases depth, 0usize,
{
    reveal(entry_field);
    let ghost before = field_views(result@);
    let ghost field = entry_field(buf@, entry_off as int, tiff_base as int, le);
    let ghost nested = entry_nested(
        buf@,
        entry_off as int,
        tiff_base as int,
        le,
        depth as nat,
        ancestors@,
    );
    let tag = read_u16(buf, entry_off, le);
    let tag_name = exif_tag_name(tag);
    let pointer = tag == 0x8769 || tag == 0x8825;
    if tag_name.is_empty() && !pointer {
        assert(field_views(result@) =~= before + field + nested);
        return;
    }
    match read_entry_value(buf, entry_off, tiff_base, le) {
        None => {
            assert(field_views(result@) =~= before + field + nested);
        },
        Some((value, is_pointer)) => {
            if value_is_shown(&value) && !is_pointer {
                result.push((tag_name.to_string(), value));
            }
            assert(field_views(result@) =~= before + field);
            if pointer && depth > 0 {
                let sub = read_u32(buf, entry_off + 8, le);
                if (tiff_base as u64) + (sub as u64) + 2 <= (buf.len() as u64) {
                    let target = tiff_base + (sub as usize);
                    if !contains_offset(ancestors, target) {
                        let ghost outer = ancestors@;
                        ancestors.push(target);
                        parse_ifd(buf, target, tiff_base, le, result, depth - 1, ancestors);
                        ancestors.pop();
                        assert(ancestors@ =~= outer);
                    }
                }
            }
            assert(field_views(result@) =~= before + field + nested);
        },
    }
}

/// The fields of the EXIF data of an image file: the TIFF header is checked
/// (byte order mark and magic number 42), then the first directory is read.
pub open spec fn exif_fields_of(buf: Seq<u8>) -> Seq<(Seq<char>, ExifValueView)> {
    let ts = exif_tiff_start(buf);
    if buf.len() == 0 || ts + 8 > buf.len() {
        Seq::empty()
    } else {
        let le = buf[ts] == 73 && buf[ts + 1] == 73;
        let be = buf[ts] == 77 && buf[ts + 1] == 77;
        let ifd0 = u32_at(buf, ts + 4, le) as int;
        if !le && !be {
            Seq::empty()
        } else if u16_at(buf, ts + 2, le) != 0x2A {
            Seq::empty()
        } else if ifd0 == 0 || ifd0 + 2 > buf.len() {
            Seq::empty()
        } else {
            ifd_fields(buf, ts + ifd0, ts, le, buf.len(), seq![(ts + ifd0) as usize])
        }
    }
}

/// Reads the EXIF fields of the contents of an image file (JPEG or TIFF),
/// in the order of the directories, the EXIF and GPS ones in place.
pub fn exif_metadata(buf: &[u8]) -> (r: Vec<(String, ExifValue)>)
    requires
        buf@.len() <= isize::MAX,
    ensures
        field_views(r@) == exif_fields_of(buf@),
{
    let mut result: Vec<(String, ExifValue)> = Vec::new();
    if buf.len() == 0 {
        assert(field_views(result@) =~= exif_fields_of(buf@));
        return result;
    }
    let tiff_start = find_exif_tiff(buf);
    if (tiff_start as u64) + 8 > (buf.len() as u64) {
        assert(field_views(result@) =~= exif_fields_of(buf@));
        return result;
    }
    let le = buf[tiff_start] == 73 && buf[tiff_start + 1] == 73;
    let be = buf[tiff_start] == 77 && buf[tiff_start + 1] == 77;
    if !le && !be {
        assert(field_views(result@) =~= exif_fields_of(buf@));
        return result;
    }
    if read_u16(buf, tiff_start + 2, le) != 0x2A {
        assert(field_views(result@) =~= exif_fields_of(buf@));
        return result;
    }
    let ifd0 = read_u32(buf, tiff_start + 4, le);
    if ifd0 == 0 || (ifd0 as u64) + 2 > (buf.len() as u64) {
        assert(field_views(result@) =~= exif_fields_of(buf@));
        return result;
    }
    let first = tiff_start + (ifd0 as usize);
    let mut ancestors: Vec<usize> = Vec::new();
    ancestors.push(first);
    assert(ancestors@ =~= seq![first]);
    parse_ifd(buf, first, tiff_start, le, &mut result, buf.len(), &mut ancestors);
    assert(field_views(result@) =~= exif_fields_of(buf@));
    result
}

/// The EXIF names shown under a readable label, in the order shown.
pub const GROUPED_EXIF_TAGS: [(&'static str, &'static str); 19] = [
    ("Make", "camera_make"),
    ("Model", "camera_model"),
    ("LensModel", "lens"),
    ("LensMake", "lens_make"),
    ("FocalLength", "focal_length"),
    ("FNumber", "aperture"),
    ("ExposureTime", "shutter"),
    ("ISOSpeed", "iso"),
    ("ExposureBiasValue", "exposure_bias"),
    ("FocalLengthIn35mmFilm", "focal_35mm"),
    ("ExposureProgram", "exposure_program"),
    ("MeteringMode", "metering_mode"),
    ("Flash", "flash"),
    ("WhiteBalance", "white_balance"),
    ("DigitalZoomRatio", "digital_zoom"),
    ("ColorSpace", "color_space"),
    ("DateTimeOriginal", "datetime_original"),
    ("DateTimeDigitized", "datetime_digitized"),
    ("Software", "software"),
];

/// The standard EXIF names that are not repeated among the other fields.
pub const STANDARD_EXIF_TAGS: [&'static str; 26] = [
    "Make",
    "Model",
    "LensModel",
    "LensMake",
    "FocalLength",
    "FNumber",
    "ExposureTime",
    "ISOSpeed",
    "ExposureBiasValue",
    "FocalLengthIn35mmFilm",
    "ExposureProgram",
    "MeteringMode",
    "Flash",
    "WhiteBalance",
    "DigitalZoomRatio",
    "ColorSpace",
    "DateTimeOriginal",
    "DateTimeDigitized",
    "Software",
    "Orientation",
    "ExifIFD",
    "GPSInfo",
    "PixelXDimension",
    "PixelYDimension",
    "XResolution",
    "YResolution",
];

/// The names and values of a list of text fields.
pub open spec fn pair_views(v: Seq<(String, String)>) -> Seq<(Seq<char>, Seq<char>)> {
    v.map_values(|f: (String, String)| (f.0@, f.1@))
}

/// The value of the last field named `key`.
pub open spec fn last_value(raw: Seq<(Seq<char>, Seq<char>)>, key: Seq<char>) -> Option<Seq<char>>
    decreases raw.len(),
{
    if raw.len() == 0 {
        None
    } else if raw.last().0 == key {
        Some(raw.last().1)
    } else {
        last_value(raw.drop_last(), key)
    }
}

/// The grouped fields `GROUPED_EXIF_TAGS[j..]` present in `raw`, under their labels.
pub open spec fn labelled_fields(raw: Seq<(Seq<char>, Seq<char>)>, j: int) -> Seq<
    (Seq<char>, Seq<char>),
>
    decreases 19 - j,
{
    if j < 0 || j >= 19 {
        Seq::empty()
    } else {
        let (key, label) = GROUPED_EXIF_TAGS@[j];
        let rest = labelled_fields(raw, j + 1);
        match last_value(raw, key@) {
            Some(v) => seq![(label@, v)] + rest,
            None => rest,
        }
    }
}

/// Some field of `fields` has the name `key`.
pub open spec fn has_name(fields: Seq<(Seq<char>, Seq<char>)>, key: Seq<char>) -> bool {
    exists|k: int| 0 <= k < fields.len() && fields[k].0 == key
}

/// `key` is one of the standard EXIF names.
pub open spec fn is_standard_name(key: Seq<char>) -> bool {
    exists|k: int| 0 <= k < 26 && STANDARD_EXIF_TAGS@[k]@ == key
}

/// `acc` followed by the fields of `raw` whose names are neither standard
/// nor already present, each name once.
pub open spec fn other_fields(raw: Seq<(Seq<char>, Seq<char>)>, acc: Seq<(Seq<char>, Seq<char>)>) -> Seq<
    (Seq<char>, Seq<char>),
>
    decreases raw.len(),
{
    if raw.len() == 0 {
        acc
    } else {
        let (k, v) = raw[0];
        let next = if !has_name(acc, k) && !is_standard_name(k) {
            acc.push((k, v))
        } else {
            acc
        };
        other_fields(raw.drop_first(), next)
    }
}

/// The fields of the EXIF section of the image information: the grouped
/// fields under their labels, then the other non-standard fields.
pub open spec fn grouped_exif(raw: Seq<(Seq<char>, Seq<char>)>) -> Seq<(Seq<char>, Seq<char>)> {
    other_fields(raw, labelled_fields(raw, 0))
}

fn find_last_value(raw: &Vec<(String, String)>, key: &str) -> (r: Option<String>)
    ensures
        match r {
            Some(v) => last_value(pair_views(raw@), key@) == Some(v@),
            None => last_value(pair_views(raw@), key@) is None,
        },
{
    let mut i = raw.len();
    assert(pair_views(raw@).take(i as int) =~= pair_views(raw@));
    while i > 0
        invariant
            i <= raw@.len(),
            last_value(pair_views(raw@), key@) == last_value(pair_views(raw@).take(i as int), key@),
        decreases i,
    {
        let ghost t = pair_views(raw@).take(i as int);
        assert(t.last() == (raw@[i - 1].0@, raw@[i - 1].1@));
        assert(t.drop_last() =~= pair_views(raw@).take(i - 1));
        if str_eq(raw[i - 1].0.as_str(), key) {
            return Some(raw[i - 1].1.clone());
        }
        i -= 1;
    }
    None
}

fn contains_name(fields: &Vec<(String, String)>, key: &str) -> (r: bool)
    ensures
        r == has_name(pair_views(fields@), key@),
{
    let mut i: usize = 0;
    while i < fields.len()
        invariant
            i <= fields@.len(),
            forall|k: int| 0 <= k < i ==> pair_views(fields@)[k].0 != key@,
        decreases fields@.len() - i,
    {
        if str_eq(fields[i].0.as_str(), key) {
            assert(pair_views(fields@)[i as int].0 == key@);
            return true;
        }
        i += 1;
    }
    false
}

fn standard_name(key: &str) -> (r: bool)
    ensures
        r == is_standard_name(key@),
{
    let mut i: usize = 0;
    while i < 26
        invariant
            i <= 26,
            forall|k: int| 0 <= k < i ==> STANDARD_EXIF_TAGS@[k]@ != key@,
        decreases 26 - i,
    {
        if str_eq(STANDARD_EXIF_TAGS[i], key) {
            return true;
        }
        i += 1;
    }
    false
}

/// Groups raw EXIF fields for display: camera, lens, exposure, time and
/// software fields first, under readable labels, each with the value of the
/// last field of that name; then every other non-standard field, each name
/// once, in the order of `raw`.
pub fn group_exif(raw: Vec<(String, String)>) -> (r: Vec<(String, String)>)
    ensures
        pair_views(r@) == grouped_exif(pair_views(raw@)),
{
    let ghost rv = pair_views(raw@);
    let mut labelled: Vec<(String, String)> = Vec::new();
    let mut j: usize = 19;
    while j > 0
        invariant
            j <= 19,
            rv == pair_views(raw@),
            pair_views(labelled@) == labelled_fields(rv, j as int),
        decreases j,
    {
        j -= 1;
        let (key, label) = GROUPED_EXIF_TAGS[j];
        if let Some(v) = find_last_value(&raw, key) {
            labelled.insert(0, (label.to_string(), v));
            assert(pair_views(labelled@) =~= labelled_fields(rv, j as int));
        }
    }
    let mut result = labelled;
    let mut i: usize = 0;
    assert(rv.skip(0) =~= rv);
    while i < raw.len()
        invariant
            i <= raw@.len(),
            rv == pair_views(raw@),
            grouped_exif(rv) == other_fields(rv.skip(i as int), pair_views(result@)),
        decreases raw@.len() - i,
    {
        let ghost acc = pair_views(result@);
        assert(rv.skip(i as int)[0] == (raw@[i as int].0@, raw@[i as int].1@));
        assert(rv.skip(i as int).drop_first() =~= rv.skip(i as int + 1));
        let key = raw[i].0.as_str();
        if !contains_name(&result, key) && !standard_name(key) {
            result.push((raw[i].0.clone(), raw[i].1.clone()));
            assert(pair_views(result@) =~= acc.push((raw@[i as int].0@, raw@[i as int].1@)));
        }
        i += 1;
    }
    result
}

/// How a rational EXIF value whose text needs a decimal fraction is shown.
#[derive(Clone, Copy, Debug, PartialEq, Eq, Structural)]
pub enum DecimalStyle {
    /// An exposure time of a second or more: two decimals and "s".
    Seconds,
    /// An aperture: "F/" and one decimal.
    FNumber,
    /// A focal length: one decimal and " mm".
    Millimetres,
    /// A lens range: the value without decimals, "-0mm".
    LensRange,
    /// A maximum aperture in APEX units: "F/" and one decimal of
    /// e to the power of the value divided by ln 2.
    MaxAperture,
    /// An exposure bias: two decimals and " EV".
    ExposureBias,
    /// Any other value: two decimals.
    Plain,
}

/// How a rational EXIF value is shown: as text, or as the decimal value of
/// `num / den` in a style.
pub enum RationalText {
    Text(String),
    Decimal { num: u32, den: u32, style: DecimalStyle },
}

/// The style in which the rational `num / den` of the tag `tag` is shown as
/// a decimal, or `None` when it is shown as text.
pub open spec fn rational_style(tag: u16, num: u32, den: u32) -> Option<DecimalStyle> {
    if tag == 0x829A {
        if den > 0 && num >= den {
            Some(DecimalStyle::Seconds)
        } else {
            None
        }
    } else if tag == 0x829D {
        if den > 0 { Some(DecimalStyle::FNumber) } else { None }
    } else if tag == 0x920A {
        if den > 0 { Some(DecimalStyle::Millimetres) } else { None }
    } else if tag == 0xA432 {
        if den > 0 { Some(DecimalStyle::LensRange) } else { None }
    } else if tag == 0x9205 {
        if den > 0 && num > 0 { Some(DecimalStyle::MaxAperture) } else { None }
    } else if tag == 0x9204 {
        if den > 0 { Some(DecimalStyle::ExposureBias) } else { None }
    } else if den == 1 || den == 0 || (num < den && den < 10000) {
        None
    } else {
        Some(DecimalStyle::Plain)
    }
}

/// The text of the rational `num / den` of the tag `tag` when it is shown as
/// text: an exposure time below a second as "1/n", a whole number as itself,
/// else the fraction "num/den".
pub open spec fn rational_plain(tag: u16, num: u32, den: u32) -> Seq<char> {
    if tag == 0x829A && den > 0 && num < den {
        "1/"@ + decimal((den / (if num > 0 { num } else { 1 })) as nat)
    } else if tag != 0x829A && tag != 0x829D && tag != 0x920A && tag != 0xA432 && tag != 0x9205
        && tag != 0x9204 && (den == 1 || den == 0) {
        decimal(num as nat)
    } else {
        decimal(num as nat) + "/"@ + decimal(den as nat)
    }
}

/// An exposure time below a second, `num/den` seconds with `0 < num < den`,
/// is shown as text "1/q", where `q` is how many whole exposures of that
/// length fit in one second: `q * num <= den < (q + 1) * num`.
pub proof fn exposure_shown_as_unit_fraction(num: u32, den: u32, q: nat)
    requires
        0 < num < den,
        q * num <= den,
        den < (q + 1) * num,
    ensures
        rational_style(0x829A, num, den) is None,
        rational_plain(0x829A, num, den) == "1/"@ + decimal(q),
{
    assert(q == den / num) by (nonlinear_arith)
        requires
            0 < num,
            q * num <= den,
            den < (q + 1) * num,
    {
        let d = den / num;
        assert(d * num <= den < (d + 1) * num);
        if q < d {
            assert((q + 1) * num <= d * num);
        } else if q > d {
            assert((d + 1) * num <= q * num);
        }
    }
}

/// How the rational `num / den` of the tag `tag` is shown.
pub fn format_rational(tag: u16, num: u32, den: u32) -> (r: RationalText)
    ensures
        match rational_style(tag, num, den) {
            Some(style) => r == RationalText::Decimal { num, den, style },
            None => r matches RationalText::Text(t) && t@ == rational_plain(tag, num, den),
        },
{
    let style = if tag == 0x829A {
        if den > 0 && num >= den {
            Some(DecimalStyle::Seconds)
        } else {
            None
        }
    } else if tag == 0x829D {
        if den > 0 { Some(DecimalStyle::FNumber) } else { None }
    } else if tag == 0x920A {
        if den > 0 { Some(DecimalStyle::Millimetres) } else { None }
    } else if tag == 0xA432 {
        if den > 0 { Some(DecimalStyle::LensRange) } else { None }
    } else if tag == 0x9205 {
        if den > 0 && num > 0 { Some(DecimalStyle::MaxAperture) } else { None }
    } else if tag == 0x9204 {
        if den > 0 { Some(DecimalStyle::ExposureBias) } else { None }
    } else if den == 1 || den == 0 || (num < den && den < 10000) {
        None
    } else {
        Some(DecimalStyle::Plain)
    };
    match style {
        Some(style) => RationalText::Decimal { num, den, style },
        None => {
            let mut t = String::new();
            if tag == 0x829A && den > 0 && num < den {
                t.append("1/");
                let d = if num > 0 {
                    num
                } else {
                    1
                };
                push_decimal(&mut t, (den / d) as u64);
            } else if tag != 0x829A && tag != 0x829D && tag != 0x920A && tag != 0xA432 && tag
                != 0x9205 && tag != 0x9204 && (den == 1 || den == 0) {
                push_decimal(&mut t, num as u64);
            } else {
                push_decimal(&mut t, num as u64);
                t.append("/");
                push_decimal(&mut t, den as u64);
            }
            RationalText::Text(t)
        },
    }
}

} // verus!
