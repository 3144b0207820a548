use jinn_imageviewer::datetime::{format_datetime, is_leap};
use jinn_imageviewer::images::{exif_orientation_fix, read_exif_orientation, OrientationFix};
use jinn_imageviewer::exif::{
    exif_metadata, exif_tag_name, find_exif_tiff, format_rational, format_value, group_exif, read_u16,
    read_u32, DecimalStyle, ExifValue, RationalText,
};

fn tiff_le() -> Vec<u8> {
    let mut b = vec![b'I', b'I', 0x2A, 0x00, 8, 0, 0, 0];
    // Three entries.
    b.extend_from_slice(&[3, 0]);
    // Make, ASCII, 6 bytes at offset 50.
    b.extend_from_slice(&[0x0F, 0x01, 2, 0, 6, 0, 0, 0, 50, 0, 0, 0]);
    // Orientation, SHORT, 1 value: 6.
    b.extend_from_slice(&[0x12, 0x01, 3, 0, 1, 0, 0, 0, 6, 0, 0, 0]);
    // ExposureTime, RATIONAL at offset 56.
    b.extend_from_slice(&[0x9A, 0x82, 5, 0, 1, 0, 0, 0, 56, 0, 0, 0]);
    // No next directory.
    b.extend_from_slice(&[0, 0, 0, 0]);
    assert_eq!(b.len(), 50);
    b.extend_from_slice(b"Canon\0");
    b.extend_from_slice(&[1, 0, 0, 0, 250, 0, 0, 0]);
    b
}

#[test]
fn reads_fields_of_a_tiff_block() {
    let buf = tiff_le();
    let fields = exif_metadata(&buf);
    assert_eq!(fields.len(), 3);
    assert_eq!(fields[0].0, "Make");
    assert!(matches!(&fields[0].1, ExifValue::Text(t) if t == "Canon"));
    assert_eq!(fields[1].0, "Orientation");
    assert!(matches!(&fields[1].1, ExifValue::Text(t) if t == "Rotate 90 CW"));
    assert_eq!(fields[2].0, "ExposureTime");
    assert!(matches!(fields[2].1, ExifValue::Rational { tag: 0x829A, num: 1, den: 250 }));
}

#[test]
fn finds_the_tiff_block_inside_a_jpeg() {
    let tiff = tiff_le();
    let mut jpeg = vec![0xFF, 0xD8, 0xFF, 0xE1];
    let seg_len = (tiff.len() + 8) as u16;
    jpeg.extend_from_slice(&seg_len.to_be_bytes());
    jpeg.extend_from_slice(b"Exif\0\0");
    jpeg.extend_from_slice(&tiff);
    assert_eq!(find_exif_tiff(&jpeg), 12);
    assert_eq!(exif_metadata(&jpeg).len(), 3);
}

#[test]
fn no_fields_without_a_tiff_header() {
    assert!(exif_metadata(&[]).is_empty());
    assert!(exif_metadata(b"not an image at all").is_empty());
    assert_eq!(find_exif_tiff(b"II*\0"), 0);
}

#[test]
fn reads_integers_in_both_orders() {
    let buf = [0x12, 0x34, 0x56, 0x78];
    assert_eq!(read_u16(&buf, 0, true), 0x3412);
    assert_eq!(read_u16(&buf, 0, false), 0x1234);
    assert_eq!(read_u32(&buf, 0, true), 0x78563412);
    assert_eq!(read_u32(&buf, 0, false), 0x12345678);
    assert_eq!(read_u16(&buf, 3, true), 0);
    assert_eq!(read_u32(&buf, 1, true), 0);
}

#[test]
fn tag_names_and_values() {
    assert_eq!(exif_tag_name(0x010F), "Make");
    assert_eq!(exif_tag_name(0x829A), "ExposureTime");
    assert_eq!(exif_tag_name(0x0001), "GPSLatitudeRef");
    assert_eq!(exif_tag_name(0x7777), "");
    assert_eq!(format_value(0x0112, 8), "Rotate 90 CCW");
    assert_eq!(format_value(0x0112, 42), "42");
    assert_eq!(format_value(0x9209, 1), "Flash");
    assert_eq!(format_value(0x1234, -7), "-7");
}

#[test]
fn rationals_as_text_or_decimals() {
    assert!(matches!(format_rational(0x829A, 1, 250), RationalText::Text(t) if t == "1/250"));
    assert!(matches!(format_rational(0x829A, 0, 30), RationalText::Text(t) if t == "1/30"));
    assert!(matches!(
        format_rational(0x829A, 2, 1),
        RationalText::Decimal { num: 2, den: 1, style: DecimalStyle::Seconds }
    ));
    assert!(matches!(format_rational(0x829D, 5, 0), RationalText::Text(t) if t == "5/0"));
    assert!(matches!(
        format_rational(0x829D, 28, 10),
        RationalText::Decimal { style: DecimalStyle::FNumber, .. }
    ));
    assert!(matches!(format_rational(0x011A, 72, 1), RationalText::Text(t) if t == "72"));
    assert!(matches!(format_rational(0x011A, 1, 3), RationalText::Text(t) if t == "1/3"));
    assert!(matches!(
        format_rational(0x011A, 7, 3),
        RationalText::Decimal { style: DecimalStyle::Plain, .. }
    ));
    assert!(matches!(
        format_rational(0x9205, 0, 3),
        RationalText::Text(t) if t == "0/3"
    ));
}

fn pair(a: &str, b: &str) -> (String, String) {
    (a.to_string(), b.to_string())
}

#[test]
fn grouping_labels_known_fields_first() {
    let raw = vec![
        pair("Orientation", "Horizontal"),
        pair("Model", "X100"),
        pair("Custom", "1"),
        pair("Make", "Fuji"),
        pair("Make", "Fujifilm"),
    ];
    let grouped = group_exif(raw);
    assert_eq!(
        grouped,
        vec![pair("camera_make", "Fujifilm"), pair("camera_model", "X100"), pair("Custom", "1")]
    );
}

#[test]
fn datetime_formatting() {
    assert_eq!(format_datetime(Some(0)), "1970-01-01 00:00:00");
    assert_eq!(format_datetime(Some(951782400)), "2000-02-29 00:00:00");
    assert_eq!(format_datetime(Some(1700000000)), "2023-11-14 22:13:20");
    assert_eq!(format_datetime(None), "");
}

#[test]
fn leap_years() {
    assert!(is_leap(2000));
    assert!(!is_leap(1900));
    assert!(is_leap(2024));
    assert!(!is_leap(2023));
}

#[test]
fn orientation_read_with_kamadak_exif() {
    let buf = tiff_le();
    assert_eq!(read_exif_orientation(&buf), Some(6));
    assert_eq!(exif_orientation_fix(&buf), OrientationFix::Rotate90);
    assert_eq!(read_exif_orientation(b"plain text"), None);
    assert_eq!(exif_orientation_fix(b"plain text"), OrientationFix::Upright);
}

#[test]
fn invalid_utf8_in_text_fields_is_replaced() {
    let mut buf = tiff_le();
    // Make the maker name invalid UTF-8.
    buf[51] = 0xFF;
    let fields = exif_metadata(&buf);
    assert!(matches!(&fields[0].1, ExifValue::Text(t) if t == "C\u{FFFD}non"));
}

#[test]
fn directories_pointing_back_are_read_once() {
    let mut b = vec![b'I', b'I', 0x2A, 0x00, 8, 0, 0, 0];
    // Three entries: Make, then an EXIF and a GPS pointer, both back to this directory.
    b.extend_from_slice(&[3, 0]);
    b.extend_from_slice(&[0x0F, 0x01, 2, 0, 4, 0, 0, 0, b'A', b'b', b'c', 0]);
    b.extend_from_slice(&[0x69, 0x87, 4, 0, 1, 0, 0, 0, 8, 0, 0, 0]);
    b.extend_from_slice(&[0x25, 0x88, 4, 0, 1, 0, 0, 0, 8, 0, 0, 0]);
    b.extend_from_slice(&[0, 0, 0, 0]);
    let fields = exif_metadata(&b);
    assert_eq!(fields.len(), 1);
    assert_eq!(fields[0].0, "Make");
    assert!(matches!(&fields[0].1, ExifValue::Text(t) if t == "Abc"));
}

#[test]
fn a_directory_reached_twice_is_read_twice() {
    let mut b = vec![b'I', b'I', 0x2A, 0x00, 8, 0, 0, 0];
    // Two pointers to the same directory at offset 38.
    b.extend_from_slice(&[2, 0]);
    b.extend_from_slice(&[0x69, 0x87, 4, 0, 1, 0, 0, 0, 38, 0, 0, 0]);
    b.extend_from_slice(&[0x25, 0x88, 4, 0, 1, 0, 0, 0, 38, 0, 0, 0]);
    b.extend_from_slice(&[0, 0, 0, 0]);
    assert_eq!(b.len(), 38);
    b.extend_from_slice(&[1, 0]);
    b.extend_from_slice(&[0x0F, 0x01, 2, 0, 4, 0, 0, 0, b'X', b'y', b'z', 0]);
    b.extend_from_slice(&[0, 0, 0, 0]);
    let fields = exif_metadata(&b);
    assert_eq!(fields.len(), 2);
    assert_eq!(fields[0].0, "Make");
    assert_eq!(fields[1].0, "Make");
}

#[test]
fn a_directory_pointing_to_its_parent_stops_there() {
    let mut b = vec![b'I', b'I', 0x2A, 0x00, 8, 0, 0, 0];
    // The first directory holds Make and an EXIF pointer to offset 38.
    b.extend_from_slice(&[2, 0]);
    b.extend_from_slice(&[0x0F, 0x01, 2, 0, 4, 0, 0, 0, b'A', b'b', b'c', 0]);
    b.extend_from_slice(&[0x69, 0x87, 4, 0, 1, 0, 0, 0, 38, 0, 0, 0]);
    b.extend_from_slice(&[0, 0, 0, 0]);
    assert_eq!(b.len(), 38);
    // The nested one holds Model and a GPS pointer back to the first.
    b.extend_from_slice(&[2, 0]);
    b.extend_from_slice(&[0x10, 0x01, 2, 0, 4, 0, 0, 0, b'X', b'y', b'z', 0]);
    b.extend_from_slice(&[0x25, 0x88, 4, 0, 1, 0, 0, 0, 8, 0, 0, 0]);
    b.extend_from_slice(&[0, 0, 0, 0]);
    let fields = exif_metadata(&b);
    assert_eq!(fields.len(), 2);
    assert_eq!(fields[0].0, "Make");
    assert_eq!(fields[1].0, "Model");
}
