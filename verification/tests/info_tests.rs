use jinn_imageviewer::images::{ColorKind, ImageFormatKind};
use jinn_imageviewer::info::{get_image_info, FileFacts};

fn s(x: &str) -> String {
    x.to_string()
}

#[test]
fn information_sections_in_order() {
    let file = FileFacts {
        name: s("photo.JPG"),
        path: s("/pictures/photo.JPG"),
        size_text: s("2.50 MB"),
        extension: s("JPG"),
        created: Some(Some(0)),
        modified: Some(None),
        accessed: None,
        readonly: true,
    };
    let exif = vec![(s("Make"), s("Canon")), (s("Orientation"), s("Horizontal"))];
    let sections = get_image_info(
        Some(file),
        Some((1920, 1080)),
        Some(ImageFormatKind::Jpeg),
        Some((ColorKind::Rgb8, false)),
        exif,
    );
    assert_eq!(sections.len(), 3);
    assert_eq!(sections[0].0, "file_info");
    assert_eq!(
        sections[0].1,
        vec![
            (s("name"), s("photo.JPG")),
            (s("path"), s("/pictures/photo.JPG")),
            (s("size"), s("2.50 MB")),
            (s("type"), s("JPEG Image")),
            (s("extension"), s(".JPG")),
            (s("created"), s("1970-01-01 00:00:00")),
            (s("modified"), s("")),
            (s("permissions"), s("只读")),
        ]
    );
    assert_eq!(sections[1].0, "image_properties");
    assert_eq!(
        sections[1].1,
        vec![
            (s("width"), s("1920 px")),
            (s("height"), s("1080 px")),
            (s("resolution"), s("1920 × 1080")),
            (s("aspect_ratio"), s("16:9")),
            (s("format"), s("JPEG")),
            (s("mime"), s("image/jpeg")),
            (s("color_mode"), s("RGB")),
            (s("channels"), s("3 (RGB)")),
            (s("bit_depth"), s("24 bit")),
            (s("bits_per_channel"), s("8 bit")),
            (s("alpha"), s("否")),
        ]
    );
    assert_eq!(sections[2], (s("exif"), vec![(s("camera_make"), s("Canon"))]));
}

#[test]
fn information_without_facts_is_empty() {
    let sections = get_image_info(None, None, None, None, Vec::new());
    assert!(sections.is_empty());
}

#[test]
fn exif_section_is_left_out_when_nothing_remains() {
    let sections = get_image_info(None, None, None, Some((ColorKind::La8, true)), vec![(s("Orientation"), s("Flip"))]);
    assert_eq!(sections.len(), 1);
    assert_eq!(sections[0].1[4], (s("alpha"), s("支持透明")));
}
