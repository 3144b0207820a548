//! The image information window: the file's facts, the image's properties
//! and its EXIF fields, in labelled sections.
use vstd::prelude::*;
use vstd::string::StringExecFns;

use crate::datetime::{datetime_text, format_datetime};
use crate::exif::{group_exif, grouped_exif, pair_views};
use crate::images::{
    ascii_lower, aspect_ratio, aspect_ratio_of, format_bitdepth, format_bits_per_channel,
    format_channels, format_color_mode, format_imagetype, format_imagetype_tag, format_mime,
    image_type_name, ColorKind, ImageFormatKind,
};
use crate::text::{decimal, push_decimal};

verus! {

/// What the file system tells of an image file.
pub struct FileFacts {
    /// The file name.
    pub name: String,
    /// The full path.
    pub path: String,
    /// The size, already written for the reader.
    pub size_text: String,
    /// The extension, without the dot.
    pub extension: String,
    /// When the file was created, modified and last read, where the file
    /// system tells: seconds since 1970, or `None` for an earlier time.
    pub created: Option<Option<u64>>,
    pub modified: Option<Option<u64>>,
    pub accessed: Option<Option<u64>>,
    /// The file may only be read.
    pub readonly: bool,
}

/// A label and its value.
pub type InfoLine = (Seq<char>, Seq<char>);

/// The text of a time as the information window shows it.
pub open spec fn time_text(t: Option<u64>) -> Seq<char> {
    match t {
        Some(secs) => datetime_text(secs as nat),
        None => Seq::empty(),
    }
}

/// The line of a time, when the file system tells it.
pub open spec fn time_line(label: Seq<char>, t: Option<Option<u64>>) -> Seq<InfoLine> {
    match t {
        Some(t) => seq![(label, time_text(t))],
        None => Seq::empty(),
    }
}

/// The lines of the file section.
pub open spec fn file_lines(f: FileFacts) -> Seq<InfoLine> {
    seq![
        ("name"@, f.name@),
        ("path"@, f.path@),
        ("size"@, f.size_text@),
        ("type"@, image_type_name(ascii_lower(f.extension@))@),
        ("extension"@, "."@ + f.extension@),
    ] + time_line("created"@, f.created) + time_line("modified"@, f.modified) + time_line(
        "accessed"@,
        f.accessed,
    ) + seq![("permissions"@, if f.readonly { "只读"@ } else { "读写"@ })]
}

/// The lines of the image's dimensions and format.
pub open spec fn dimension_lines(
    dimensions: Option<(u32, u32)>,
    format: Option<ImageFormatKind>,
) -> Seq<InfoLine> {
    match dimensions {
        None => Seq::empty(),
        Some((w, h)) => seq![
            ("width"@, decimal(w as nat) + " px"@),
            ("height"@, decimal(h as nat) + " px"@),
            ("resolution"@, decimal(w as nat) + " × "@ + decimal(h as nat)),
        ] + match aspect_ratio_of(w, h) {
            Some((a, b)) => seq![("aspect_ratio"@, decimal(a as nat) + ":"@ + decimal(b as nat))],
            None => Seq::empty(),
        } + match format {
            Some(fmt) => seq![
                ("format"@, format_tag_of(fmt)@),
                ("mime"@, mime_of(fmt)@),
            ],
            None => Seq::empty(),
        },
    }
}

/// The short name of a format.
pub open spec fn format_tag_of(fmt: ImageFormatKind) -> &'static str {
    match fmt {
        ImageFormatKind::Jpeg => "JPEG",
        ImageFormatKind::Png => "PNG",
        ImageFormatKind::Bmp => "BMP",
        ImageFormatKind::Gif => "GIF",
        ImageFormatKind::WebP => "WebP",
        ImageFormatKind::Tiff => "TIFF",
        ImageFormatKind::Other => "Unknown",
    }
}

/// The MIME type of a format.
pub open spec fn mime_of(fmt: ImageFormatKind) -> &'static str {
    match fmt {
        ImageFormatKind::Jpeg => "image/jpeg",
        ImageFormatKind::Png => "image/png",
        ImageFormatKind::Bmp => "image/bmp",
        ImageFormatKind::Gif => "image/gif",
        ImageFormatKind::WebP => "image/webp",
        ImageFormatKind::Tiff => "image/tiff",
        ImageFormatKind::Other => "application/octet-stream",
    }
}

/// The lines of the decoded image's colours; `has_alpha` tells whether
/// its pixels have an alpha channel.
pub open spec fn color_lines(color: Option<(ColorKind, bool)>) -> Seq<InfoLine> {
    match color {
        None => Seq::empty(),
        Some((c, has_alpha)) => seq![
            ("color_mode"@, color_mode_of(c)@),
            ("channels"@, channels_of(c)@),
            ("bit_depth"@, bitdepth_of(c)@),
            ("bits_per_channel"@, bits_per_channel_of(c)@),
            ("alpha"@, if has_alpha { "支持透明"@ } else { "否"@ }),
        ],
    }
}

/// The name of a colour mode.
pub open spec fn color_mode_of(c: ColorKind) -> &'static str {
    match c {
        ColorKind::L8 | ColorKind::L16 => "灰度",
        ColorKind::La8 | ColorKind::La16 => "灰度+Alpha",
        ColorKind::Rgb8 | ColorKind::Rgb16 => "RGB",
        ColorKind::Rgba8 | ColorKind::Rgba16 => "RGBA",
        ColorKind::Rgb32F => "RGB (Float)",
        ColorKind::Rgba32F => "RGBA (Float)",
        ColorKind::Other => "Unknown",
    }
}

/// The channels of a colour layout.
pub open spec fn channels_of(c: ColorKind) -> &'static str {
    match c {
        ColorKind::L8 | ColorKind::L16 => "1 (灰度)",
        ColorKind::La8 | ColorKind::La16 => "2 (灰度+Alpha)",
        ColorKind::Rgb8 | ColorKind::Rgb16 | ColorKind::Rgb32F => "3 (RGB)",
        ColorKind::Rgba8 | ColorKind::Rgba16 | ColorKind::Rgba32F => "4 (RGBA)",
        ColorKind::Other => "?",
    }
}

/// The bits of one pixel of a colour layout.
pub open spec fn bitdepth_of(c: ColorKind) -> &'static str {
    match c {
        ColorKind::L8 => "8 bit",
        ColorKind::L16 => "16 bit",
        ColorKind::La8 => "16 bit",
        ColorKind::La16 => "32 bit",
        ColorKind::Rgb8 => "24 bit",
        ColorKind::Rgb16 => "48 bit",
        ColorKind::Rgba8 => "32 bit",
        ColorKind::Rgba16 => "64 bit",
        ColorKind::Rgb32F => "96 bit",
        ColorKind::Rgba32F => "128 bit",
        ColorKind::Other => "?",
    }
}

/// The bits of one channel of a colour layout.
pub open spec fn bits_per_channel_of(c: ColorKind) -> &'static str {
    match c {
        ColorKind::L8 | ColorKind::La8 | ColorKind::Rgb8 | ColorKind::Rgba8 => "8 bit",
        ColorKind::L16 | ColorKind::La16 | ColorKind::Rgb16 | ColorKind::Rgba16 => "16 bit",
        ColorKind::Rgb32F | ColorKind::Rgba32F => "32 bit (Float)",
        ColorKind::Other => "?",
    }
}

/// The sections of the information window: the file's facts when the file
/// system gave them, the image's properties when any are known, and the
/// grouped EXIF fields when there are any.
pub open spec fn info_sections(
    file: Option<FileFacts>,
    dimensions: Option<(u32, u32)>,
    format: Option<ImageFormatKind>,
    color: Option<(ColorKind, bool)>,
    exif: Seq<(Seq<char>, Seq<char>)>,
) -> Seq<(Seq<char>, Seq<InfoLine>)> {
    let props = dimension_lines(dimensions, format) + color_lines(color);
    let grouped = grouped_exif(exif);
    (match file {
        Some(f) => seq![("file_info"@, file_lines(f))],
        None => Seq::empty(),
    }) + (if props.len() > 0 {
        seq![("image_properties"@, props)]
    } else {
        Seq::empty()
    }) + (if exif.len() > 0 && grouped.len() > 0 {
        seq![("exif"@, grouped)]
    } else {
        Seq::empty()
    })
}

/// The views of the sections.
pub open spec fn section_views(s: Seq<(String, Vec<(String, String)>)>) -> Seq<
    (Seq<char>, Seq<InfoLine>),
> {
    s.map_values(|x: (String, Vec<(String, String)>)| (x.0@, pair_views(x.1@)))
}

fn push_line(lines: &mut Vec<(String, String)>, label: &str, value: String)
    ensures
        pair_views(final(lines)@) == pair_views(old(lines)@).push((label@, value@)),
{
    lines.push((String::from_str(label), value));
    proof {
        assert(pair_views(final(lines)@) =~= pair_views(old(lines)@).push((label@, value@)));
    }
}

fn push_time_line(lines: &mut Vec<(String, String)>, label: &str, t: Option<Option<u64>>)
    ensures
        pair_views(final(lines)@) == pair_views(old(lines)@) + time_line(label@, t),
{
    match t {
        Some(t) => {
            push_line(lines, label, format_datetime(t));
            assert(pair_views(final(lines)@) =~= pair_views(old(lines)@) + time_line(label@, Some(t)));
        },
        None => {
            assert(pair_views(final(lines)@) =~= pair_views(old(lines)@) + time_line(label@, t));
        },
    }
}

fn file_section(f: FileFacts) -> (r: Vec<(String, String)>)
    ensures
        pair_views(r@) == file_lines(f),
{
    let ghost g = f;
    let mut lines: Vec<(String, String)> = Vec::new();
    let ty = String::from_str(format_imagetype(f.extension.as_str()));
    let mut ext = String::from_str(".");
    ext.append(f.extension.as_str());
    push_line(&mut lines, "name", f.name);
    push_line(&mut lines, "path", f.path);
    push_line(&mut lines, "size", f.size_text);
    push_line(&mut lines, "type", ty);
    push_line(&mut lines, "extension", ext);
    push_time_line(&mut lines, "created", f.created);
    push_time_line(&mut lines, "modified", f.modified);
    push_time_line(&mut lines, "accessed", f.accessed);
    if f.readonly {
        push_line(&mut lines, "permissions", String::from_str("只读"));
    } else {
        push_line(&mut lines, "permissions", String::from_str("读写"));
    }
    assert(pair_views(lines@) =~= file_lines(g));
    lines
}

fn decimal_with(n: u32, suffix: &str) -> (r: String)
    ensures
        r@ == decimal(n as nat) + suffix@,
{
    let mut s = String::new();
    push_decimal(&mut s, n as u64);
    s.append(suffix);
    assert(s@ =~= decimal(n as nat) + suffix@);
    s
}

fn decimal_pair(a: u32, sep: &str, b: u32) -> (r: String)
    ensures
        r@ == decimal(a as nat) + sep@ + decimal(b as nat),
{
    let mut s = String::new();
    push_decimal(&mut s, a as u64);
    s.append(sep);
    push_decimal(&mut s, b as u64);
    assert(s@ =~= decimal(a as nat) + sep@ + decimal(b as nat));
    s
}

fn dimension_section(dimensions: Option<(u32, u32)>, format: Option<ImageFormatKind>) -> (r: Vec<
    (String, String),
>)
    requires
        dimensions != Some((0u32, 0u32)),
    ensures
        pair_views(r@) == dimension_lines(dimensions, format),
{
    let mut props: Vec<(String, String)> = Vec::new();
    match dimensions {
        Some((w, h)) => {
            push_line(&mut props, "width", decimal_with(w, " px"));
            push_line(&mut props, "height", decimal_with(h, " px"));
            push_line(&mut props, "resolution", decimal_pair(w, " × ", h));
            match aspect_ratio(w, h) {
                Some((a, b)) => {
                    push_line(&mut props, "aspect_ratio", decimal_pair(a, ":", b));
                },
                None => {},
            }
            match format {
                Some(fmt) => {
                    push_line(&mut props, "format", String::from_str(format_imagetype_tag(fmt)));
                    push_line(&mut props, "mime", String::from_str(format_mime(fmt)));
                },
                None => {},
            }
        },
        None => {},
    }
    assert(pair_views(props@) =~= dimension_lines(dimensions, format));
    props
}

fn property_lines(
    dimensions: Option<(u32, u32)>,
    format: Option<ImageFormatKind>,
    color: Option<(ColorKind, bool)>,
) -> (r: Vec<(String, String)>)
    requires
        dimensions != Some((0u32, 0u32)),
    ensures
        pair_views(r@) == dimension_lines(dimensions, format) + color_lines(color),
{
    let mut props = dimension_section(dimensions, format);
    match color {
        Some((c, has_alpha)) => {
            push_line(&mut props, "color_mode", String::from_str(format_color_mode(c)));
            push_line(&mut props, "channels", String::from_str(format_channels(c)));
            push_line(&mut props, "bit_depth", String::from_str(format_bitdepth(c)));
            push_line(&mut props, "bits_per_channel", String::from_str(format_bits_per_channel(c)));
            if has_alpha {
                push_line(&mut props, "alpha", String::from_str("支持透明"));
            } else {
                push_line(&mut props, "alpha", String::from_str("否"));
            }
        },
        None => {},
    }
    assert(pair_views(props@) =~= dimension_lines(dimensions, format) + color_lines(color));
    props
}

/// Gathers the sections of the information window from what the file
/// system, the image's header, its decoding and its EXIF block told:
/// `file` where the file's metadata could be read, `dimensions` where the
/// header could be read, `format` where it names a format, `color` where the
/// image could be decoded (its layout and whether it has alpha), and the
/// EXIF fields as names and texts.
pub fn get_image_info(
    file: Option<FileFacts>,
    dimensions: Option<(u32, u32)>,
    format: Option<ImageFormatKind>,
    color: Option<(ColorKind, bool)>,
    exif: Vec<(String, String)>,
) -> (r: Vec<(String, Vec<(String, String)>)>)
    requires
        dimensions != Some((0u32, 0u32)),
    ensures
        section_views(r@) == info_sections(file, dimensions, format, color, pair_views(exif@)),
{
    let ghost exif_view = pair_views(exif@);
    let mut sections: Vec<(String, Vec<(String, String)>)> = Vec::new();
    match file {
        Some(f) => {
            let lines = file_section(f);
            sections.push((String::from_str("file_info"), lines));
        },
        None => {},
    }
    let ghost after_file = section_views(sections@);
    let props = property_lines(dimensions, format, color);
    let has_props = props.len() > 0;
    if has_props {
        sections.push((String::from_str("image_properties"), props));
    }
    let ghost after_props = section_views(sections@);
    let has_exif = exif.len() > 0;
    if has_exif {
        let grouped = group_exif(exif);
        if grouped.len() > 0 {
            sections.push((String::from_str("exif"), grouped));
        }
    }
    assert(section_views(sections@) =~= info_sections(file, dimensions, format, color, exif_view));
    sections
}

} // verus!
