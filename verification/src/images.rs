//! Image entries, what may be loaded, resizing, format names and the
//! texture caches.
use vstd::prelude::*;

use crate::sorting::{is_stable_sort_of, ImageSortMode};
use crate::text::str_eq;

use ::image::DynamicImage;
use std::collections::VecDeque;

verus! {

/// One image of the open folder.
#[derive(Clone)]
pub struct ImageEntry {
    /// Full path of the file.
    pub path: String,
    /// File name shown to the user.
    pub name: String,
    /// Rotation chosen by the user: 0, 90, 180 or 270 degrees.
    pub manual_rotation: u16,
    /// The file could not be decoded; a placeholder is shown instead.
    pub load_failed: bool,
}

/// The longest side of a decoded image that is kept; larger images are
/// scaled down.
pub const MAX_IMAGE_DIMENSION: u32 = 4096;

/// The most memory that decoding one image may take.
pub const MAX_DECODE_BYTES: u64 = 805306368;

/// Files larger than this are loaded only after the user agrees.
pub const MAX_SUPPORTED_IMAGE_BYTES: u64 = 209715200;

/// The widest image that can be shown.
pub const MAX_SUPPORTED_IMAGE_WIDTH: u32 = 16384;

/// The tallest image that can be shown.
pub const MAX_SUPPORTED_IMAGE_HEIGHT: u32 = 8640;

/// The most pixels an image that can be shown has.
pub const MAX_SUPPORTED_IMAGE_PIXELS: u64 = 141557760;

/// Whether an image file can be loaded.
#[derive(Clone, Copy, Debug, PartialEq, Eq, Structural)]
pub enum ImageLoadAssessment {
    /// It can be loaded.
    Supported,
    /// It can be loaded, but the file is large: the user is asked first.
    RequiresConfirmation { file_bytes: u64, pixels: u64 },
    /// It cannot be loaded: it is too large, or its size could not be read.
    Impossible { width: u32, height: u32, pixels: u64 },
}

/// The assessment of a file of `file_bytes` bytes whose image is `width`
/// by `height` pixels; `None` where the file or its header could not be read.
pub open spec fn assessment_of(file_bytes: Option<u64>, dimensions: Option<(u32, u32)>) -> ImageLoadAssessment {
    match (file_bytes, dimensions) {
        (Some(bytes), Some((width, height))) => {
            let pixels = width * height;
            let decode_bytes = if pixels * 4 > u64::MAX {
                u64::MAX as int
            } else {
                pixels * 4
            };
            if width > MAX_SUPPORTED_IMAGE_WIDTH || height > MAX_SUPPORTED_IMAGE_HEIGHT || pixels
                > MAX_SUPPORTED_IMAGE_PIXELS || decode_bytes > MAX_DECODE_BYTES {
                ImageLoadAssessment::Impossible { width, height, pixels: pixels as u64 }
            } else if bytes > MAX_SUPPORTED_IMAGE_BYTES {
                ImageLoadAssessment::RequiresConfirmation { file_bytes: bytes, pixels: pixels as u64 }
            } else {
                ImageLoadAssessment::Supported
            }
        },
        _ => ImageLoadAssessment::Impossible { width: 0, height: 0, pixels: 0 },
    }
}

/// Decides whether an image can be loaded, from the size of its file and
/// its dimensions as read from its header (`None` where they could not be
/// read).
pub fn assess_image_load(file_bytes: Option<u64>, dimensions: Option<(u32, u32)>) -> (r:
    ImageLoadAssessment)
    ensures
        r == assessment_of(file_bytes, dimensions),
{
    let bytes = match file_bytes {
        Some(b) => b,
        None => {
            return ImageLoadAssessment::Impossible { width: 0, height: 0, pixels: 0 };
        },
    };
    let (width, height) = match dimensions {
        Some(d) => d,
        None => {
            return ImageLoadAssessment::Impossible { width: 0, height: 0, pixels: 0 };
        },
    };
    let w = width as u64;
    let h = height as u64;
    assert(w * h <= u64::MAX) by (nonlinear_arith)
        requires
            w <= u32::MAX,
            h <= u32::MAX,
    ;
    let pixels = w * h;
    let decode_bytes = if pixels > u64::MAX / 4 {
        u64::MAX
    } else {
        pixels * 4
    };
    if width > MAX_SUPPORTED_IMAGE_WIDTH || height > MAX_SUPPORTED_IMAGE_HEIGHT || pixels
        > MAX_SUPPORTED_IMAGE_PIXELS || decode_bytes > MAX_DECODE_BYTES {
        return ImageLoadAssessment::Impossible { width, height, pixels };
    }
    if bytes > MAX_SUPPORTED_IMAGE_BYTES {
        return ImageLoadAssessment::RequiresConfirmation { file_bytes: bytes, pixels };
    }
    ImageLoadAssessment::Supported
}

/// The image can be loaded without asking.
pub fn image_is_supported(file_bytes: Option<u64>, dimensions: Option<(u32, u32)>) -> (r: bool)
    ensures
        r == (assessment_of(file_bytes, dimensions) == ImageLoadAssessment::Supported),
{
    match assess_image_load(file_bytes, dimensions) {
        ImageLoadAssessment::Supported => true,
        _ => false,
    }
}

/// A texture may be made of an image with this assessment: it is supported,
/// or it needs confirmation and the user gave it.
pub fn load_allowed(assessment: ImageLoadAssessment, allow_large_file: bool) -> (r: bool)
    ensures
        r == (assessment == ImageLoadAssessment::Supported || (allow_large_file
            && assessment is RequiresConfirmation)),
{
    match assessment {
        ImageLoadAssessment::Supported => true,
        ImageLoadAssessment::RequiresConfirmation { .. } => allow_large_file,
        ImageLoadAssessment::Impossible { .. } => false,
    }
}

/// `x` kept between `lo` and `hi`.
pub open spec fn clamped(x: int, lo: int, hi: int) -> int {
    if x < lo {
        lo
    } else if x > hi {
        hi
    } else {
        x
    }
}

/// The width a texture is made for: the requested width, kept between 1 and
/// the largest side kept.
pub fn texture_target_width(target_width: u32) -> (r: u32)
    ensures
        r == clamped(target_width as int, 1, MAX_IMAGE_DIMENSION as int),
{
    if target_width < 1 {
        1
    } else if target_width > MAX_IMAGE_DIMENSION {
        MAX_IMAGE_DIMENSION
    } else {
        target_width
    }
}

/// The size an image of `width` by `height` is scaled to for a target
/// width: `None` when it is no wider than the target (it is kept as it
/// is), else the target width and the height in proportion, rounded down
/// but at least 1.
pub open spec fn resize_plan_of(target_width: u32, width: u32, height: u32) -> Option<(u32, u32)> {
    let target = clamped(target_width as int, 1, MAX_IMAGE_DIMENSION as int);
    if width <= target {
        None
    } else {
        let h = (height * target) / (width as int);
        Some((target as u32, if h < 1 { 1u32 } else { h as u32 }))
    }
}

/// The size an image of `width` by `height` is scaled to for
/// `target_width`, if it is scaled at all.
pub fn resize_plan(target_width: u32, width: u32, height: u32) -> (r: Option<(u32, u32)>)
    ensures
        r == resize_plan_of(target_width, width, height),
{
    let target = texture_target_width(target_width);
    if width <= target {
        return None;
    }
    let h = height as u64;
    let t = target as u64;
    assert(h * t <= u64::MAX) by (nonlinear_arith)
        requires
            h <= u32::MAX,
            t <= 4096,
    ;
    let scaled = (h * t) / (width as u64);
    assert(scaled <= h) by (nonlinear_arith)
        requires
            t < width,
            scaled == (h * t) / (width as int),
            width > 0,
    ;
    let new_height = if scaled < 1 {
        1
    } else {
        scaled as u32
    };
    Some((target, new_height))
}

/// Declares `image::DynamicImage` for use in signatures.
#[verifier::external_type_specification]
#[verifier::external_body]
pub struct ExDynamicImage(DynamicImage);

/// The width and height of `image`, as `GenericImageView::dimensions` gives
/// them: a function of the image alone.
pub uninterp spec fn image_size(image: DynamicImage) -> (u32, u32);

/// The width and height of an image (`GenericImageView::dimensions`): the
/// contract only names them.
#[verifier::external_body]
fn image_dimensions(image: &DynamicImage) -> (r: (u32, u32))
    ensures
        r == image_size(*image),
{
    ::image::GenericImageView::dimensions(image)
}

/// What `DynamicImage::resize_exact` with the triangle filter makes of
/// `image` at `width` by `height`: a function of those three alone.
pub uninterp spec fn resized_triangle(image: DynamicImage, width: u32, height: u32) -> DynamicImage;

/// The image scaled to exactly `width` by `height` with the triangle filter
/// (`DynamicImage::resize_exact`, whose documentation gives the arguments
/// as the new image's dimensions). The result is named `resized_triangle`;
/// of it the contract states those dimensions, not the pixels.
#[verifier::external_body]
fn resize_exact_triangle(image: &DynamicImage, width: u32, height: u32) -> (r: DynamicImage)
    ensures
        r == resized_triangle(*image, width, height),
        image_size(r) == (width, height),
{
    image.resize_exact(width, height, ::image::imageops::FilterType::Triangle)
}

/// Scales `image` down to `target_width` (kept between 1 and 4096), the
/// height in proportion, as `resize_plan` says; an image no wider than that
/// is returned as it is.
pub fn resize_for_target(image: DynamicImage, target_width: u32) -> (r: DynamicImage)
    ensures
        ({
            let (width, height) = image_size(image);
            match resize_plan_of(target_width, width, height) {
                Some(size) => r == resized_triangle(image, size.0, size.1) && image_size(r) == size,
                None => r == image,
            }
        }),
{
    let (width, height) = image_dimensions(&image);
    match resize_plan(target_width, width, height) {
        Some((w, h)) => resize_exact_triangle(&image, w, h),
        None => image,
    }
}

/// The ASCII letter `c` in lower case; any other character as it is.
pub open spec fn ascii_lower_char(c: char) -> char {
    if 'A' <= c <= 'Z' {
        ((c as u32) + 32) as char
    } else {
        c
    }
}

/// `s` with its ASCII letters in lower case.
pub open spec fn ascii_lower(s: Seq<char>) -> Seq<char> {
    s.map_values(|c: char| ascii_lower_char(c))
}

/// `s` in lower case equals `lower`, when only ASCII letters are folded.
fn lower_eq(s: &str, lower: &str) -> (r: bool)
    ensures
        r == (ascii_lower(s@) == lower@),
{
    let n = s.unicode_len();
    if n != lower.unicode_len() {
        return false;
    }
    let mut i: usize = 0;
    while i < n
        invariant
            n == s@.len(),
            n == lower@.len(),
            i <= n,
            forall|j: int| 0 <= j < i ==> ascii_lower_char(#[trigger] s@[j]) == lower@[j],
        decreases n - i,
    {
        let c = s.get_char(i);
        let l = lower.get_char(i);
        let same = if 'A' <= c && c <= 'Z' {
            (c as u32) + 32 == (l as u32)
        } else {
            c == l
        };
        if !same {
            assert(ascii_lower(s@)[i as int] != lower@[i as int]);
            return false;
        }
        i += 1;
    }
    assert(ascii_lower(s@) =~= lower@);
    true
}

/// The file extensions of images that are shown, in lower case.
pub open spec fn supported_ext(lower: Seq<char>) -> bool {
    ||| lower == "png"@
    ||| lower == "jpg"@
    ||| lower == "jpeg"@
    ||| lower == "bmp"@
    ||| lower == "gif"@
    ||| lower == "webp"@
    ||| lower == "tiff"@
    ||| lower == "tif"@
}

/// A file with extension `ext` is shown: png, jpg, jpeg, bmp, gif, webp,
/// tiff or tif, in any case. (Only ASCII letters are folded; no other
/// character folds to a letter of these names.)
pub fn is_supported_ext(ext: &str) -> (r: bool)
    ensures
        r == supported_ext(ascii_lower(ext@)),
{
    lower_eq(ext, "png") || lower_eq(ext, "jpg") || lower_eq(ext, "jpeg") || lower_eq(ext, "bmp")
        || lower_eq(ext, "gif") || lower_eq(ext, "webp") || lower_eq(ext, "tiff") || lower_eq(
        ext,
        "tif",
    )
}

/// A file with extension `ext` is a GIF.
pub fn is_gif_ext(ext: &str) -> (r: bool)
    ensures
        r == (ascii_lower(ext@) == "gif"@),
{
    lower_eq(ext, "gif")
}

/// The name of the type of a file with extension `ext` (in lower case).
pub open spec fn image_type_name(lower: Seq<char>) -> &'static str {
    if lower == "jpg"@ || lower == "jpeg"@ {
        "JPEG Image"
    } else if lower == "png"@ {
        "PNG Image"
    } else if lower == "bmp"@ {
        "BMP Image"
    } else if lower == "gif"@ {
        "GIF Image"
    } else if lower == "webp"@ {
        "WebP Image"
    } else if lower == "tiff"@ || lower == "tif"@ {
        "TIFF Image"
    } else if lower == "avif"@ {
        "AVIF Image"
    } else {
        "Unknown"
    }
}

/// The name of the type of a file with extension `ext`, in any case.
pub fn format_imagetype(ext: &str) -> (r: &'static str)
    ensures
        r == image_type_name(ascii_lower(ext@)),
{
    if lower_eq(ext, "jpg") || lower_eq(ext, "jpeg") {
        "JPEG Image"
    } else if lower_eq(ext, "png") {
        "PNG Image"
    } else if lower_eq(ext, "bmp") {
        "BMP Image"
    } else if lower_eq(ext, "gif") {
        "GIF Image"
    } else if lower_eq(ext, "webp") {
        "WebP Image"
    } else if lower_eq(ext, "tiff") || lower_eq(ext, "tif") {
        "TIFF Image"
    } else if lower_eq(ext, "avif") {
        "AVIF Image"
    } else {
        "Unknown"
    }
}

/// The format of an image as its header tells it.
#[derive(Clone, Copy, Debug, PartialEq, Eq, Structural)]
pub enum ImageFormatKind {
    Jpeg,
    Png,
    Bmp,
    Gif,
    WebP,
    Tiff,
    /// Any other format.
    Other,
}

/// The short name of an image format.
pub fn format_imagetype_tag(fmt: ImageFormatKind) -> (r: &'static str)
    ensures
        r == (match fmt {
            ImageFormatKind::Jpeg => "JPEG",
            ImageFormatKind::Png => "PNG",
            ImageFormatKind::Bmp => "BMP",
            ImageFormatKind::Gif => "GIF",
            ImageFormatKind::WebP => "WebP",
            ImageFormatKind::Tiff => "TIFF",
            ImageFormatKind::Other => "Unknown",
        }),
{
    match fmt {
        ImageFormatKind::Jpeg => "JPEG",
        ImageFormatKind::Png => "PNG",
        ImageFormatKind::Bmp => "BMP",
        ImageFormatKind::Gif => "GIF",
        ImageFormatKind::WebP => "WebP",
        ImageFormatKind::Tiff => "TIFF",
        ImageFormatKind::Other => "Unknown",
    }
}

/// The MIME type of an image format.
pub fn format_mime(fmt: ImageFormatKind) -> (r: &'static str)
    ensures
        r == (match fmt {
            ImageFormatKind::Jpeg => "image/jpeg",
            ImageFormatKind::Png => "image/png",
            ImageFormatKind::Bmp => "image/bmp",
            ImageFormatKind::Gif => "image/gif",
            ImageFormatKind::WebP => "image/webp",
            ImageFormatKind::Tiff => "image/tiff",
            ImageFormatKind::Other => "application/octet-stream",
        }),
{
    match fmt {
        ImageFormatKind::Jpeg => "image/jpeg",
        ImageFormatKind::Png => "image/png",
        ImageFormatKind::Bmp => "image/bmp",
        ImageFormatKind::Gif => "image/gif",
        ImageFormatKind::WebP => "image/webp",
        ImageFormatKind::Tiff => "image/tiff",
        ImageFormatKind::Other => "application/octet-stream",
    }
}

/// The layout of the pixels of a decoded image.
#[derive(Clone, Copy, Debug, PartialEq, Eq, Structural)]
pub enum ColorKind {
    L8,
    La8,
    Rgb8,
    Rgba8,
    L16,
    La16,
    Rgb16,
    Rgba16,
    Rgb32F,
    Rgba32F,
    /// Any other layout.
    Other,
}

/// The name of the colour mode.
pub fn format_color_mode(c: ColorKind) -> (r: &'static str)
    ensures
        r == (match c {
            ColorKind::L8 | ColorKind::L16 => "灰度",
            ColorKind::La8 | ColorKind::La16 => "灰度+Alpha",
            ColorKind::Rgb8 | ColorKind::Rgb16 => "RGB",
            ColorKind::Rgba8 | ColorKind::Rgba16 => "RGBA",
            ColorKind::Rgb32F => "RGB (Float)",
            ColorKind::Rgba32F => "RGBA (Float)",
            ColorKind::Other => "Unknown",
        }),
{
    match c {
        ColorKind::L8 | ColorKind::L16 => "灰度",
        ColorKind::La8 | ColorKind::La16 => "灰度+Alpha",
        ColorKind::Rgb8 | ColorKind::Rgb16 => "RGB",
        ColorKind::Rgba8 | ColorKind::Rgba16 => "RGBA",
        ColorKind::Rgb32F => "RGB (Float)",
        ColorKind::Rgba32F => "RGBA (Float)",
        ColorKind::Other => "Unknown",
    }
}

/// The number of channels, with their names.
pub fn format_channels(c: ColorKind) -> (r: &'static str)
    ensures
        r == (match c {
            ColorKind::L8 | ColorKind::L16 => "1 (灰度)",
            ColorKind::La8 | ColorKind::La16 => "2 (灰度+Alpha)",
            ColorKind::Rgb8 | ColorKind::Rgb16 | ColorKind::Rgb32F => "3 (RGB)",
            ColorKind::Rgba8 | ColorKind::Rgba16 | ColorKind::Rgba32F => "4 (RGBA)",
            ColorKind::Other => "?",
        }),
{
    match c {
        ColorKind::L8 | ColorKind::L16 => "1 (灰度)",
        ColorKind::La8 | ColorKind::La16 => "2 (灰度+Alpha)",
        ColorKind::Rgb8 | ColorKind::Rgb16 | ColorKind::Rgb32F => "3 (RGB)",
        ColorKind::Rgba8 | ColorKind::Rgba16 | ColorKind::Rgba32F => "4 (RGBA)",
        ColorKind::Other => "?",
    }
}

/// The bits of one pixel.
pub fn format_bitdepth(c: ColorKind) -> (r: &'static str)
    ensures
        r == (match c {
            ColorKind::L8 => "8 bit",
            ColorKind::L16 => "16 bit",
            ColorKind::La8 => "16 bit",
            ColorKind::La16 => "32 bit",
            ColorKind::Rgb8 => "24 bit",
            ColorKind::Rgb16 => "48 bit",
            ColorKind::Rgba8 => "32 bit",
            ColorKind::Rgba16 => "64 bit",
            ColorKind::Rgb32F => "96 bit",
            ColorKind::Rgba32F => "128 bit",
            ColorKind::Other => "?",
        }),
{
    match c {
        ColorKind::L8 => "8 bit",
        ColorKind::L16 => "16 bit",
        ColorKind::La8 => "16 bit",
        ColorKind::La16 => "32 bit",
        ColorKind::Rgb8 => "24 bit",
        ColorKind::Rgb16 => "48 bit",
        ColorKind::Rgba8 => "32 bit",
        ColorKind::Rgba16 => "64 bit",
        ColorKind::Rgb32F => "96 bit",
        ColorKind::Rgba32F => "128 bit",
        ColorKind::Other => "?",
    }
}

/// The bits of one channel.
pub fn format_bits_per_channel(c: ColorKind) -> (r: &'static str)
    ensures
        r == (match c {
            ColorKind::L8 | ColorKind::La8 | ColorKind::Rgb8 | ColorKind::Rgba8 => "8 bit",
            ColorKind::L16 | ColorKind::La16 | ColorKind::Rgb16 | ColorKind::Rgba16 => "16 bit",
            ColorKind::Rgb32F | ColorKind::Rgba32F => "32 bit (Float)",
            ColorKind::Other => "?",
        }),
{
    match c {
        ColorKind::L8 | ColorKind::La8 | ColorKind::Rgb8 | ColorKind::Rgba8 => "8 bit",
        ColorKind::L16 | ColorKind::La16 | ColorKind::Rgb16 | ColorKind::Rgba16 => "16 bit",
        ColorKind::Rgb32F | ColorKind::Rgba32F => "32 bit (Float)",
        ColorKind::Other => "?",
    }
}

/// The greatest common divisor, by Euclid's algorithm.
pub open spec fn gcd_of(a: nat, b: nat) -> nat
    decreases b,
{
    if b == 0 {
        a
    } else {
        gcd_of(b, a % b)
    }
}

/// The greatest common divisor of `a` and `b` (`a` when `b` is 0).
pub fn gcd(a: u32, b: u32) -> (r: u32)
    ensures
        r == gcd_of(a as nat, b as nat),
    decreases b,
{
    if b == 0 {
        a
    } else {
        gcd(b, a % b)
    }
}

/// `gcd_of(a, b)` divides both `a` and `b`, and every common divisor of
/// them divides it; it is 0 only when both are.
pub proof fn gcd_divides(a: nat, b: nat)
    ensures
        gcd_of(a, b) == 0 <==> (a == 0 && b == 0),
        gcd_of(a, b) > 0 ==> a % gcd_of(a, b) == 0 && b % gcd_of(a, b) == 0,
        forall|d: nat| d > 0 && #[trigger] (a % d) == 0 && b % d == 0 ==> gcd_of(a, b) % d == 0,
    decreases b,
{
    if b > 0 {
        gcd_divides(b, a % b);
        let g = gcd_of(b, a % b);
        let q = a / b;
        let r = a % b;
        assert(a == b * q + r) by (nonlinear_arith)
            requires
                b > 0,
                q == a / b,
                r == a % b,
        ;
        if g > 0 {
            assert(a % g == 0) by (nonlinear_arith)
                requires
                    g > 0,
                    b % g == 0,
                    r % g == 0,
                    a == b * q + r,
            {
                assert(b == g * (b / g));
                assert(r == g * (r / g));
                assert(a == g * ((b / g) * q + r / g));
            }
        }
        assert forall|d: nat| d > 0 && #[trigger] (a % d) == 0 && b % d == 0 implies g % d == 0 by {
            let x = (a / d) as int;
            let y = (b / d) as int;
            vstd::arithmetic::div_mod::lemma_fundamental_div_mod(a as int, d as int);
            vstd::arithmetic::div_mod::lemma_fundamental_div_mod(b as int, d as int);
            vstd::arithmetic::mul::lemma_mul_is_associative(d as int, y, q as int);
            vstd::arithmetic::mul::lemma_mul_is_distributive_sub(d as int, x, y * q);
            vstd::arithmetic::mul::lemma_mul_is_commutative(d as int, x - y * q);
            vstd::arithmetic::div_mod::lemma_mod_multiples_basic(x - y * q, d as int);
            assert(r == d * (x - y * q));
            assert(r % d == 0);
        }
    }
}

/// The aspect ratio of a `width` by `height` image in lowest terms, when
/// both of its terms are at most 99.
pub open spec fn aspect_ratio_of(width: u32, height: u32) -> Option<(u32, u32)> {
    let g = gcd_of(width as nat, height as nat);
    let w = width as nat / g;
    let h = height as nat / g;
    if w <= 99 && h <= 99 {
        Some((w as u32, h as u32))
    } else {
        None
    }
}

/// The aspect ratio of a `width` by `height` image in lowest terms, when
/// both of its terms are at most 99.
pub fn aspect_ratio(width: u32, height: u32) -> (r: Option<(u32, u32)>)
    requires
        width > 0 || height > 0,
    ensures
        r == aspect_ratio_of(width, height),
{
    let g = gcd(width, height);
    proof {
        gcd_divides(width as nat, height as nat);
    }
    let w = width / g;
    let h = height / g;
    if w <= 99 && h <= 99 {
        Some((w, h))
    } else {
        None
    }
}

/// How an image is to be turned or mirrored to be shown upright.
#[derive(Clone, Copy, Debug, PartialEq, Eq, Structural)]
pub enum OrientationFix {
    Upright,
    FlipHorizontal,
    Rotate180,
    FlipVertical,
    Rotate90FlipHorizontal,
    Rotate90,
    Rotate270FlipHorizontal,
    Rotate270,
}

/// The sides of an image, clockwise: 0 top, 1 right, 2 bottom, 3 left.
/// The side that side `s` of an image shows on after turning it clockwise by
/// `quarters` quarter turns.
pub open spec fn side_after_turn(s: int, quarters: int) -> int {
    (s + quarters) % 4
}

/// The side that side `s` shows on after mirroring left and right.
pub open spec fn side_after_mirror(s: int) -> int {
    if s == 1 {
        3
    } else if s == 3 {
        1
    } else {
        s
    }
}

/// The side that side `s` shows on after mirroring top and bottom.
pub open spec fn side_after_flip(s: int) -> int {
    if s == 0 {
        2
    } else if s == 2 {
        0
    } else {
        s
    }
}

/// Where side `s` of the stored image is shown after the fix `f`, each fix
/// being the turns and mirrors its name gives, in that order.
pub open spec fn side_shown(f: OrientationFix, s: int) -> int {
    match f {
        OrientationFix::Upright => s,
        OrientationFix::FlipHorizontal => side_after_mirror(s),
        OrientationFix::Rotate180 => side_after_turn(s, 2),
        OrientationFix::FlipVertical => side_after_flip(s),
        OrientationFix::Rotate90FlipHorizontal => side_after_mirror(side_after_turn(s, 1)),
        OrientationFix::Rotate90 => side_after_turn(s, 1),
        OrientationFix::Rotate270FlipHorizontal => side_after_mirror(side_after_turn(s, 3)),
        OrientationFix::Rotate270 => side_after_turn(s, 3),
    }
}

/// The visual side that the first row of the stored image is, for EXIF
/// orientation `o` (1 to 8) as the EXIF standard defines it.
pub open spec fn exif_first_row_side(o: u32) -> int {
    if o == 1 || o == 2 {
        0
    } else if o == 3 || o == 4 {
        2
    } else if o == 5 || o == 8 {
        3
    } else {
        1
    }
}

/// The visual side that the first column of the stored image is, for EXIF
/// orientation `o` (1 to 8) as the EXIF standard defines it.
pub open spec fn exif_first_column_side(o: u32) -> int {
    if o == 1 || o == 4 {
        3
    } else if o == 2 || o == 3 {
        1
    } else if o == 5 || o == 6 {
        0
    } else {
        2
    }
}

/// The fix for each EXIF orientation shows the image upright: the stored
/// first row (its top side) goes to the visual side the standard names for
/// it, and the stored first column (its left side) likewise. So 3 (taken
/// upside down) is turned half round, 6 a quarter clockwise, 8 a quarter
/// counter-clockwise, and 2, 4, 5 and 7 are mirrored as well. Without an
/// orientation, or with one outside 1 to 8, nothing moves.
pub proof fn orientation_fix_shows_upright(orientation: Option<u32>)
    ensures
        ({
            let o = orientation.unwrap_or(1);
            let f = orientation_fix_of(orientation);
            &&& 1 <= o <= 8 ==> side_shown(f, 0) == exif_first_row_side(o) && side_shown(f, 3)
                == exif_first_column_side(o)
            &&& !(1 <= o <= 8) ==> f == OrientationFix::Upright
            &&& forall|s: int| 0 <= s < 4 ==> 0 <= #[trigger] side_shown(f, s) < 4
        }),
{
}

/// What EXIF orientation `orientation` asks for (1 when none is recorded;
/// unknown values ask for nothing).
pub open spec fn orientation_fix_of(orientation: Option<u32>) -> OrientationFix {
    match orientation.unwrap_or(1) {
        2 => OrientationFix::FlipHorizontal,
        3 => OrientationFix::Rotate180,
        4 => OrientationFix::FlipVertical,
        5 => OrientationFix::Rotate90FlipHorizontal,
        6 => OrientationFix::Rotate90,
        7 => OrientationFix::Rotate270FlipHorizontal,
        8 => OrientationFix::Rotate270,
        _ => OrientationFix::Upright,
    }
}

/// What EXIF orientation `orientation` asks for.
pub fn orientation_fix(orientation: Option<u32>) -> (r: OrientationFix)
    ensures
        r == orientation_fix_of(orientation),
{
    let o = match orientation {
        Some(o) => o,
        None => 1,
    };
    match o {
        2 => OrientationFix::FlipHorizontal,
        3 => OrientationFix::Rotate180,
        4 => OrientationFix::FlipVertical,
        5 => OrientationFix::Rotate90FlipHorizontal,
        6 => OrientationFix::Rotate90,
        7 => OrientationFix::Rotate270FlipHorizontal,
        8 => OrientationFix::Rotate270,
        _ => OrientationFix::Upright,
    }
}

/// The orientation that kamadak-exif reads from the contents of an image
/// file: the first value of its primary image's Orientation field.
pub uninterp spec fn exif_orientation_of(contents: Seq<u8>) -> Option<u32>;

/// Reads the EXIF block of file contents with kamadak-exif
/// (`Reader::read_from_container`) and takes the first value of the
/// primary image's Orientation field (`Exif::get_field`, `Value::get_uint`);
/// `None` where there is no block, no such field or no such value. The
/// result is named `exif_orientation_of`; nothing more is stated of it.
#[verifier::external_body]
fn exif_orientation_from(contents: &[u8]) -> (r: Option<u32>)
    ensures
        r == exif_orientation_of(contents@),
{
    let mut cursor = std::io::Cursor::new(contents);
    let exif = ::exif::Reader::new().read_from_container(&mut cursor).ok()?;
    let field = exif.get_field(::exif::Tag::Orientation, ::exif::In::PRIMARY)?;
    field.value.get_uint(0)
}

/// The EXIF orientation recorded in the contents of an image file.
pub fn read_exif_orientation(contents: &[u8]) -> (r: Option<u32>)
    ensures
        r == exif_orientation_of(contents@),
{
    exif_orientation_from(contents)
}

/// How the image with these file contents is to be turned or mirrored to be
/// shown upright, as its EXIF orientation asks.
pub fn exif_orientation_fix(contents: &[u8]) -> (r: OrientationFix)
    ensures
        r == orientation_fix_of(exif_orientation_of(contents@)),
{
    orientation_fix(read_exif_orientation(contents))
}

/// The memory that the textures of shown images may take together.
pub const MAX_TEXTURE_BYTES: usize = 536870912;

/// How many images before and after the current one keep their textures.
pub const PRELOAD_WINDOW: usize = 3;

/// How many thumbnails are kept.
pub const MAX_THUMBNAIL_CACHE: usize = 200;

/// The memory that thumbnails may take together.
pub const MAX_THUMBNAIL_BYTES: usize = 33554432;

/// The items of `s` that `keep` accepts, in their order.
pub open spec fn filtered<A>(s: Seq<A>, keep: spec_fn(A) -> bool) -> Seq<A>
    decreases s.len(),
{
    if s.len() == 0 {
        Seq::empty()
    } else if keep(s.last()) {
        filtered(s.drop_last(), keep).push(s.last())
    } else {
        filtered(s.drop_last(), keep)
    }
}

/// A texture made of an image, with what it was made for.
pub struct CachedTexture<T> {
    /// The image file.
    pub path: String,
    /// The rotation the user chose.
    pub rotation: u16,
    /// The width the texture was made for.
    pub target_width: u32,
    /// The memory the texture takes.
    pub bytes: usize,
    /// The texture.
    pub texture: T,
}

/// The memory that the textures of `s` take together.
pub open spec fn texture_bytes<T>(s: Seq<CachedTexture<T>>) -> int
    decreases s.len(),
{
    if s.len() == 0 {
        0
    } else {
        texture_bytes(s.drop_last()) + s.last().bytes
    }
}

/// The textures of `s` from the back dropped until they fit in the budget.
pub open spec fn within_texture_budget<T>(s: Seq<CachedTexture<T>>) -> Seq<CachedTexture<T>>
    decreases s.len(),
{
    if s.len() == 0 || texture_bytes(s) <= MAX_TEXTURE_BYTES {
        s
    } else {
        within_texture_budget(s.drop_last())
    }
}

/// `e` is the texture of `path` with `rotation` made for `target_width`.
pub open spec fn texture_matches<T>(e: CachedTexture<T>, path: Seq<char>, rotation: u16, target_width: u32) -> bool {
    e.path@ == path && e.rotation == rotation && e.target_width == target_width
}

/// `i` is the first position of a texture of `path` with `rotation` made for
/// `target_width`.
pub open spec fn first_texture<T>(
    s: Seq<CachedTexture<T>>,
    path: Seq<char>,
    rotation: u16,
    target_width: u32,
    i: int,
) -> bool {
    &&& 0 <= i < s.len()
    &&& texture_matches(s[i], path, rotation, target_width)
    &&& forall|j: int| 0 <= j < i ==> !texture_matches(#[trigger] s[j], path, rotation, target_width)
}

/// The first position of a texture of `path` with `rotation` made for
/// `target_width`, if any.
pub open spec fn texture_position<T>(s: Seq<CachedTexture<T>>, path: Seq<char>, rotation: u16, target_width: u32) -> Option<int> {
    if exists|i: int| first_texture(s, path, rotation, target_width, i) {
        Some(choose|i: int| first_texture(s, path, rotation, target_width, i))
    } else {
        None
    }
}

/// The test "is a texture of another file than `path`".
pub open spec fn texture_not_of<T>(path: Seq<char>) -> spec_fn(CachedTexture<T>) -> bool {
    |e: CachedTexture<T>| e.path@ != path
}

/// The test "is a texture of an image from position `start` up to, not
/// including, `end` of `images`".
pub open spec fn texture_in_window<T>(images: Seq<ImageEntry>, start: int, end: int) -> spec_fn(
    CachedTexture<T>,
) -> bool {
    |e: CachedTexture<T>| path_in_window(images, start, end, e.path@)
}

/// The paths of `images` from position `start` up to, not including, `end`
/// hold `path`.
pub open spec fn path_in_window(images: Seq<ImageEntry>, start: int, end: int, path: Seq<char>) -> bool {
    exists|k: int| start <= k < end && #[trigger] images[k].path@ == path
}

proof fn lemma_texture_bytes_nonneg<T>(s: Seq<CachedTexture<T>>)
    ensures
        texture_bytes(s) >= 0,
    decreases s.len(),
{
    if s.len() > 0 {
        lemma_texture_bytes_nonneg(s.drop_last());
    }
}

proof fn lemma_texture_bytes_push_front<T>(e: CachedTexture<T>, s: Seq<CachedTexture<T>>)
    ensures
        texture_bytes(seq![e] + s) == e.bytes + texture_bytes(s),
    decreases s.len(),
{
    let t = seq![e] + s;
    if s.len() == 0 {
        assert(t.drop_last() =~= Seq::<CachedTexture<T>>::empty());
        assert(t.last() == e);
        assert(texture_bytes(t) == texture_bytes(t.drop_last()) + t.last().bytes);
    } else {
        lemma_texture_bytes_push_front(e, s.drop_last());
        assert(t.drop_last() =~= seq![e] + s.drop_last());
        assert(t.last() == s.last());
        assert(texture_bytes(t) == texture_bytes(t.drop_last()) + t.last().bytes);
        assert(texture_bytes(s) == texture_bytes(s.drop_last()) + s.last().bytes);
    }
}

proof fn lemma_texture_bytes_filtered<T>(s: Seq<CachedTexture<T>>, keep: spec_fn(CachedTexture<T>) -> bool)
    ensures
        0 <= texture_bytes(filtered(s, keep)) <= texture_bytes(s),
    decreases s.len(),
{
    lemma_texture_bytes_nonneg(filtered(s, keep));
    if s.len() > 0 {
        lemma_texture_bytes_filtered(s.drop_last(), keep);
        if keep(s.last()) {
            assert(filtered(s, keep).drop_last() =~= filtered(s.drop_last(), keep));
        }
    }
}

proof fn lemma_texture_bytes_remove<T>(s: Seq<CachedTexture<T>>, i: int)
    requires
        0 <= i < s.len(),
    ensures
        texture_bytes(s.remove(i)) == texture_bytes(s) - s[i].bytes,
    decreases s.len(),
{
    if i == s.len() - 1 {
        assert(s.remove(i) =~= s.drop_last());
    } else {
        lemma_texture_bytes_remove(s.drop_last(), i);
        assert(s.remove(i).drop_last() =~= s.drop_last().remove(i));
        assert(s.remove(i).last() == s.last());
    }
}

proof fn lemma_within_budget<T>(s: Seq<CachedTexture<T>>)
    ensures
        texture_bytes(within_texture_budget(s)) <= MAX_TEXTURE_BYTES,
    decreases s.len(),
{
    if s.len() > 0 && texture_bytes(s) > MAX_TEXTURE_BYTES {
        lemma_within_budget(s.drop_last());
    }
}

/// Keeps the textures of shown images, the most recently used first, within
/// a memory budget.
pub struct TextureManager<T> {
    cache: VecDeque<CachedTexture<T>>,
}

impl<T> View for TextureManager<T> {
    type V = Seq<CachedTexture<T>>;

    closed spec fn view(&self) -> Seq<CachedTexture<T>> {
        self.cache@
    }
}

impl<T> TextureManager<T> {
    /// The textures together fit in the budget.
    #[verifier::type_invariant]
    spec fn within_budget(self) -> bool {
        0 <= texture_bytes(self.cache@) <= MAX_TEXTURE_BYTES
    }

    /// An empty cache.
    pub fn new() -> (r: Self)
        ensures
            r@.len() == 0,
    {
        TextureManager { cache: VecDeque::new() }
    }

    /// The memory the textures take together; it is within the budget.
    pub fn total_bytes(&self) -> (r: usize)
        ensures
            r == texture_bytes(self@),
            r <= MAX_TEXTURE_BYTES,
    {
        proof {
            use_type_invariant(self);
        }
        let mut total: usize = 0;
        let mut i: usize = 0;
        while i < self.cache.len()
            invariant
                i <= self.cache@.len(),
                texture_bytes(self.cache@) <= MAX_TEXTURE_BYTES,
                total == texture_bytes(self.cache@.take(i as int)),
            decreases self.cache@.len() - i,
        {
            proof {
                assert(self.cache@.take(i as int + 1).drop_last() =~= self.cache@.take(i as int));
                lemma_texture_prefix_bound(self.cache@, i as int + 1);
            }
            total = total + self.cache[i].bytes;
            i += 1;
        }
        proof {
            assert(self.cache@.take(self.cache@.len() as int) =~= self.cache@);
        }
        total
    }

    /// The most recently used texture, if any.
    pub fn front(&self) -> (r: Option<&T>)
        ensures
            self@.len() == 0 ==> r is None,
            self@.len() > 0 ==> r == Some(&self@[0].texture),
    {
        if self.cache.len() == 0 {
            None
        } else {
            Some(&self.cache[0].texture)
        }
    }

    /// Finds the texture of `path` with `rotation` made for `target_width`
    /// and makes it the most recently used. Returns whether it was there.
    pub fn get_cached(&mut self, path: &str, rotation: u16, target_width: u32) -> (r: bool)
        ensures
            r == (texture_position(old(self)@, path@, rotation, target_width) is Some),
            match texture_position(old(self)@, path@, rotation, target_width) {
                Some(i) => final(self)@ == seq![old(self)@[i]] + old(self)@.remove(i),
                None => final(self)@ == old(self)@,
            },
    {
        proof {
            use_type_invariant(&*self);
        }
        let mut i: usize = 0;
        while i < self.cache.len()
            invariant
                self.cache@ == old(self).cache@,
                0 <= texture_bytes(self.cache@) <= MAX_TEXTURE_BYTES,
                i <= self.cache@.len(),
                forall|j: int| 0 <= j < i ==> !texture_matches(#[trigger] self.cache@[j], path@, rotation, target_width),
            decreases self.cache@.len() - i,
        {
            let e = &self.cache[i];
            if e.rotation == rotation && e.target_width == target_width && str_eq(e.path.as_str(), path) {
                let ghost before = self.cache@;
                proof {
                    assert(first_texture(before, path@, rotation, target_width, i as int));
                    let c = choose|k: int| first_texture(before, path@, rotation, target_width, k);
                    assert(c == i);
                    lemma_texture_bytes_remove(before, i as int);
                    lemma_texture_bytes_push_front(before[i as int], before.remove(i as int));
                }
                let mut cache = VecDeque::new();
                std::mem::swap(&mut cache, &mut self.cache);
                let item = cache.remove(i).unwrap();
                cache.push_front(item);
                proof {
                    assert(cache@ =~= seq![before[i as int]] + before.remove(i as int));
                }
                self.cache = cache;
                return true;
            }
            i += 1;
        }
        false
    }

    /// Adds a texture as the most recently used one, then drops the least
    /// recently used textures while together they take more than the budget.
    pub fn insert(&mut self, path: String, rotation: u16, target_width: u32, bytes: usize, texture: T)
        requires
            bytes <= usize::MAX - MAX_TEXTURE_BYTES,
        ensures
            final(self)@ == within_texture_budget(
                seq![CachedTexture { path, rotation, target_width, bytes, texture }] + old(self)@,
            ),
    {
        proof {
            use_type_invariant(&*self);
        }
        let ghost added = CachedTexture { path, rotation, target_width, bytes, texture };
        let mut cache = VecDeque::new();
        std::mem::swap(&mut cache, &mut self.cache);
        let ghost before = cache@;
        cache.push_front(CachedTexture { path, rotation, target_width, bytes, texture });
        proof {
            assert(cache@ =~= seq![added] + before);
            lemma_texture_bytes_push_front(added, before);
        }
        let mut total: usize = 0;
        let mut i: usize = 0;
        while i < cache.len()
            invariant
                i <= cache@.len(),
                cache@ == seq![added] + before,
                texture_bytes(cache@) <= usize::MAX,
                total == texture_bytes(cache@.take(i as int)),
            decreases cache@.len() - i,
        {
            proof {
                assert(cache@.take(i as int + 1).drop_last() =~= cache@.take(i as int));
                lemma_texture_prefix_bound(cache@, i as int + 1);
            }
            total = total + cache[i].bytes;
            i += 1;
        }
        proof {
            assert(cache@.take(cache@.len() as int) =~= cache@);
        }
        let ghost whole = cache@;
        while total > MAX_TEXTURE_BYTES && cache.len() > 0
            invariant
                total == texture_bytes(cache@),
                within_texture_budget(cache@) == within_texture_budget(whole),
            decreases cache@.len(),
        {
            proof {
                lemma_texture_bytes_nonneg(cache@.drop_last());
            }
            let last = cache.pop_back().unwrap();
            total = total - last.bytes;
        }
        proof {
            lemma_within_budget(whole);
        }
        self.cache = cache;
    }

    /// Keeps only the textures of the images from `PRELOAD_WINDOW` before the
    /// current one to as many after it; with no images, none.
    pub fn cleanup(&mut self, images: &Vec<ImageEntry>, current_index: usize)
        requires
            current_index <= usize::MAX - PRELOAD_WINDOW - 1,
            images@.len() == 0 || current_index <= images@.len() + PRELOAD_WINDOW,
        ensures
            images@.len() == 0 ==> final(self)@.len() == 0,
            images@.len() > 0 ==> final(self)@ == filtered(
                old(self)@,
                texture_in_window(
                    images@,
                    if current_index >= PRELOAD_WINDOW {
                        current_index - PRELOAD_WINDOW
                    } else {
                        0
                    },
                    if current_index + PRELOAD_WINDOW + 1 <= images@.len() {
                        current_index + PRELOAD_WINDOW + 1
                    } else {
                        images@.len() as int
                    },
                ),
            ),
    {
        proof {
            use_type_invariant(&*self);
        }
        if images.len() == 0 {
            self.cache = VecDeque::new();
            return;
        }
        let start = if current_index >= PRELOAD_WINDOW {
            current_index - PRELOAD_WINDOW
        } else {
            0
        };
        let end = if current_index + PRELOAD_WINDOW + 1 <= images.len() {
            current_index + PRELOAD_WINDOW + 1
        } else {
            images.len()
        };
        let mut old_cache = VecDeque::new();
        std::mem::swap(&mut old_cache, &mut self.cache);
        let ghost orig = old_cache@;
        let mut kept: VecDeque<CachedTexture<T>> = VecDeque::new();
        let mut i: usize = 0;
        let total_len = old_cache.len();
        assert(orig.skip(0) =~= orig);
        while old_cache.len() > 0
            invariant
                i <= orig.len(),
                orig.len() == total_len,
                old_cache@ == orig.skip(i as int),
                kept@ == filtered(orig.take(i as int), texture_in_window::<T>(images@, start as int, end as int)),
                start <= end <= images@.len(),
            decreases old_cache@.len(),
        {
            assert(old_cache@.len() == orig.len() - i);
            let e = old_cache.pop_front().unwrap();
            proof {
                let next = orig.take(i as int + 1);
                assert(next.drop_last() =~= orig.take(i as int));
                assert(next.last() == e);
                assert(next.len() > 0);
            }
            if window_has_path(images, start, end, e.path.as_str()) {
                kept.push_back(e);
            }
            i += 1;
            proof {
                assert(old_cache@ =~= orig.skip(i as int));
            }
        }
        proof {
            assert(orig.take(orig.len() as int) =~= orig);
            lemma_texture_bytes_filtered(orig, texture_in_window::<T>(images@, start as int, end as int));
        }
        self.cache = kept;
    }

    /// Drops the textures of `path`.
    pub fn remove(&mut self, path: &str)
        ensures
            final(self)@ == filtered(old(self)@, texture_not_of(path@)),
    {
        proof {
            use_type_invariant(&*self);
        }
        let mut old_cache = VecDeque::new();
        std::mem::swap(&mut old_cache, &mut self.cache);
        let ghost orig = old_cache@;
        let mut kept: VecDeque<CachedTexture<T>> = VecDeque::new();
        let mut i: usize = 0;
        let total_len = old_cache.len();
        assert(orig.skip(0) =~= orig);
        while old_cache.len() > 0
            invariant
                i <= orig.len(),
                orig.len() == total_len,
                old_cache@ == orig.skip(i as int),
                kept@ == filtered(orig.take(i as int), texture_not_of::<T>(path@)),
            decreases old_cache@.len(),
        {
            assert(old_cache@.len() == orig.len() - i);
            let e = old_cache.pop_front().unwrap();
            proof {
                let next = orig.take(i as int + 1);
                assert(next.drop_last() =~= orig.take(i as int));
                assert(next.last() == e);
                assert(next.len() > 0);
            }
            if !str_eq(e.path.as_str(), path) {
                kept.push_back(e);
            }
            i += 1;
            proof {
                assert(old_cache@ =~= orig.skip(i as int));
            }
        }
        proof {
            assert(orig.take(orig.len() as int) =~= orig);
            lemma_texture_bytes_filtered(orig, texture_not_of::<T>(path@));
        }
        self.cache = kept;
    }

    /// Drops every texture.
    pub fn clear(&mut self)
        ensures
            final(self)@.len() == 0,
    {
        self.cache = VecDeque::new();
    }

    /// The first texture of `path`, with any rotation and width, if any.
    pub fn find_by_path(&self, path: &str) -> (r: Option<&CachedTexture<T>>)
        ensures
            r is None ==> forall|i: int| 0 <= i < self@.len() ==> (#[trigger] self@[i]).path@ != path@,
            r matches Some(e) ==> exists|i: int| 0 <= i < self@.len() && *e == self@[i] && e.path@ == path@
                && forall|j: int| 0 <= j < i ==> (#[trigger] self@[j]).path@ != path@,
    {
        let mut i: usize = 0;
        while i < self.cache.len()
            invariant
                i <= self.cache@.len(),
                forall|j: int| 0 <= j < i ==> (#[trigger] self.cache@[j]).path@ != path@,
            decreases self.cache@.len() - i,
        {
            if str_eq(self.cache[i].path.as_str(), path) {
                assert(self@[i as int] == self.cache@[i as int]);
                return Some(&self.cache[i]);
            }
            i += 1;
        }
        None
    }
}

/// Some image from position `start` up to, not including, `end` has path
/// `path`.
fn window_has_path(images: &Vec<ImageEntry>, start: usize, end: usize, path: &str) -> (r: bool)
    requires
        start <= end <= images@.len(),
    ensures
        r == path_in_window(images@, start as int, end as int, path@),
{
    let mut k = start;
    while k < end
        invariant
            start <= k <= end,
            end <= images@.len(),
            forall|m: int| start <= m < k ==> (#[trigger] images@[m]).path@ != path@,
        decreases end - k,
    {
        if str_eq(images[k].path.as_str(), path) {
            return true;
        }
        k += 1;
    }
    false
}

proof fn lemma_texture_prefix_bound<T>(s: Seq<CachedTexture<T>>, i: int)
    requires
        0 <= i <= s.len(),
    ensures
        0 <= texture_bytes(s.take(i)) <= texture_bytes(s),
    decreases s.len() - i,
{
    lemma_texture_bytes_nonneg(s.take(i));
    if i < s.len() {
        lemma_texture_prefix_bound(s, i + 1);
        assert(s.take(i + 1).drop_last() =~= s.take(i));
    } else {
        assert(s.take(i) =~= s);
    }
}

/// A thumbnail of an image file.
pub struct CachedThumbnail<T> {
    /// The image file.
    pub path: String,
    /// The memory the thumbnail takes.
    pub bytes: usize,
    /// The thumbnail.
    pub texture: T,
}

/// The memory that the thumbnails of `s` take together.
pub open spec fn thumbnail_bytes<T>(s: Seq<CachedThumbnail<T>>) -> int
    decreases s.len(),
{
    if s.len() == 0 {
        0
    } else {
        thumbnail_bytes(s.drop_last()) + s.last().bytes
    }
}

/// The thumbnails of `s` from the front dropped until there are at most
/// `MAX_THUMBNAIL_CACHE` of them taking at most `MAX_THUMBNAIL_BYTES`.
pub open spec fn within_thumbnail_budget<T>(s: Seq<CachedThumbnail<T>>) -> Seq<CachedThumbnail<T>>
    decreases s.len(),
{
    if s.len() > 0 && (s.len() > MAX_THUMBNAIL_CACHE || thumbnail_bytes(s) > MAX_THUMBNAIL_BYTES) {
        within_thumbnail_budget(s.drop_first())
    } else {
        s
    }
}

/// The test "is a thumbnail of another file than `path`".
pub open spec fn thumbnail_not_of<T>(path: Seq<char>) -> spec_fn(CachedThumbnail<T>) -> bool {
    |e: CachedThumbnail<T>| e.path@ != path
}

/// The test "is a thumbnail of one of `images`".
pub open spec fn thumbnail_listed<T>(images: Seq<ImageEntry>) -> spec_fn(CachedThumbnail<T>) -> bool {
    |e: CachedThumbnail<T>| path_in_window(images, 0, images.len() as int, e.path@)
}

/// `i` is the first position of a thumbnail of `path`.
pub open spec fn first_thumbnail<T>(s: Seq<CachedThumbnail<T>>, path: Seq<char>, i: int) -> bool {
    &&& 0 <= i < s.len()
    &&& s[i].path@ == path
    &&& forall|j: int| 0 <= j < i ==> (#[trigger] s[j]).path@ != path
}

/// The first position of a thumbnail of `path`, if any.
pub open spec fn thumbnail_position<T>(s: Seq<CachedThumbnail<T>>, path: Seq<char>) -> Option<int> {
    if exists|i: int| first_thumbnail(s, path, i) {
        Some(choose|i: int| first_thumbnail(s, path, i))
    } else {
        None
    }
}

proof fn lemma_thumbnail_bytes_nonneg<T>(s: Seq<CachedThumbnail<T>>)
    ensures
        thumbnail_bytes(s) >= 0,
    decreases s.len(),
{
    if s.len() > 0 {
        lemma_thumbnail_bytes_nonneg(s.drop_last());
    }
}

proof fn lemma_thumbnail_bytes_front<T>(s: Seq<CachedThumbnail<T>>)
    requires
        s.len() > 0,
    ensures
        thumbnail_bytes(s) == s[0].bytes + thumbnail_bytes(s.drop_first()),
    decreases s.len(),
{
    if s.len() == 1 {
        assert(s.drop_first() =~= Seq::<CachedThumbnail<T>>::empty());
        assert(s.drop_last() =~= Seq::<CachedThumbnail<T>>::empty());
        assert(thumbnail_bytes(s) == thumbnail_bytes(s.drop_last()) + s.last().bytes);
    } else {
        lemma_thumbnail_bytes_front(s.drop_last());
        assert(s.drop_last().drop_first() =~= s.drop_first().drop_last());
        assert(s.drop_first().last() == s.last());
        assert(thumbnail_bytes(s) == thumbnail_bytes(s.drop_last()) + s.last().bytes);
        assert(thumbnail_bytes(s.drop_first()) == thumbnail_bytes(s.drop_first().drop_last())
            + s.drop_first().last().bytes);
    }
}

proof fn lemma_thumbnail_bytes_filtered<T>(s: Seq<CachedThumbnail<T>>, keep: spec_fn(CachedThumbnail<T>) -> bool)
    ensures
        0 <= thumbnail_bytes(filtered(s, keep)) <= thumbnail_bytes(s),
        filtered(s, keep).len() <= s.len(),
    decreases s.len(),
{
    lemma_thumbnail_bytes_nonneg(filtered(s, keep));
    if s.len() > 0 {
        lemma_thumbnail_bytes_filtered(s.drop_last(), keep);
        if keep(s.last()) {
            assert(filtered(s, keep).drop_last() =~= filtered(s.drop_last(), keep));
        }
    }
}

proof fn lemma_thumbnail_bytes_remove<T>(s: Seq<CachedThumbnail<T>>, i: int)
    requires
        0 <= i < s.len(),
    ensures
        thumbnail_bytes(s.remove(i)) == thumbnail_bytes(s) - s[i].bytes,
    decreases s.len(),
{
    if i == s.len() - 1 {
        assert(s.remove(i) =~= s.drop_last());
    } else {
        lemma_thumbnail_bytes_remove(s.drop_last(), i);
        assert(s.remove(i).drop_last() =~= s.drop_last().remove(i));
        assert(s.remove(i).last() == s.last());
    }
}

proof fn lemma_thumbnail_prefix_bound<T>(s: Seq<CachedThumbnail<T>>, i: int)
    requires
        0 <= i <= s.len(),
    ensures
        0 <= thumbnail_bytes(s.take(i)) <= thumbnail_bytes(s),
    decreases s.len() - i,
{
    lemma_thumbnail_bytes_nonneg(s.take(i));
    if i < s.len() {
        lemma_thumbnail_prefix_bound(s, i + 1);
        assert(s.take(i + 1).drop_last() =~= s.take(i));
    } else {
        assert(s.take(i) =~= s);
    }
}

proof fn lemma_within_thumbnail_budget<T>(s: Seq<CachedThumbnail<T>>)
    ensures
        within_thumbnail_budget(s).len() <= MAX_THUMBNAIL_CACHE,
        0 <= thumbnail_bytes(within_thumbnail_budget(s)) <= MAX_THUMBNAIL_BYTES,
    decreases s.len(),
{
    lemma_thumbnail_bytes_nonneg(s);
    if s.len() > 0 && (s.len() > MAX_THUMBNAIL_CACHE || thumbnail_bytes(s) > MAX_THUMBNAIL_BYTES) {
        lemma_within_thumbnail_budget(s.drop_first());
    }
}

/// Keeps small previews of the images of the folder, the least recently
/// used first, within a count and a memory budget.
pub struct ThumbnailManager<T> {
    cache: Vec<CachedThumbnail<T>>,
}

impl<T> View for ThumbnailManager<T> {
    type V = Seq<CachedThumbnail<T>>;

    closed spec fn view(&self) -> Seq<CachedThumbnail<T>> {
        self.cache@
    }
}

/// The position of the first thumbnail of `path`.
fn find_thumbnail<T>(cache: &Vec<CachedThumbnail<T>>, path: &str) -> (r: Option<usize>)
    ensures
        thumbnail_position(cache@, path@) == match r {
            Some(i) => Some(i as int),
            None => None::<int>,
        },
        r matches Some(i) ==> i < cache@.len(),
{
    let mut i: usize = 0;
    while i < cache.len()
        invariant
            i <= cache@.len(),
            forall|j: int| 0 <= j < i ==> (#[trigger] cache@[j]).path@ != path@,
        decreases cache@.len() - i,
    {
        if str_eq(cache[i].path.as_str(), path) {
            proof {
                assert(first_thumbnail(cache@, path@, i as int));
                let c = choose|k: int| first_thumbnail(cache@, path@, k);
                assert(c == i);
            }
            return Some(i);
        }
        i += 1;
    }
    None
}

impl<T> ThumbnailManager<T> {
    /// At most `MAX_THUMBNAIL_CACHE` thumbnails, within the memory budget.
    #[verifier::type_invariant]
    spec fn within_budget(self) -> bool {
        &&& self.cache@.len() <= MAX_THUMBNAIL_CACHE
        &&& 0 <= thumbnail_bytes(self.cache@) <= MAX_THUMBNAIL_BYTES
    }

    /// An empty cache.
    pub fn new() -> (r: Self)
        ensures
            r@.len() == 0,
    {
        ThumbnailManager { cache: Vec::new() }
    }

    /// A thumbnail of `path` is kept.
    pub fn is_cached(&self, path: &str) -> (r: bool)
        ensures
            r == (thumbnail_position(self@, path@) is Some),
    {
        find_thumbnail(&self.cache, path).is_some()
    }

    /// The first thumbnail of `path`, if any.
    pub fn get_cached(&self, path: &str) -> (r: Option<&T>)
        ensures
            match thumbnail_position(self@, path@) {
                Some(i) => r == Some(&self@[i].texture),
                None => r is None,
            },
    {
        match find_thumbnail(&self.cache, path) {
            Some(i) => Some(&self.cache[i].texture),
            None => None,
        }
    }

    /// Makes the thumbnail of `path` the most recently used one. Returns
    /// whether there was one.
    pub fn touch(&mut self, path: &str) -> (r: bool)
        ensures
            r == (thumbnail_position(old(self)@, path@) is Some),
            match thumbnail_position(old(self)@, path@) {
                Some(i) => final(self)@ == old(self)@.remove(i).push(old(self)@[i]),
                None => final(self)@ == old(self)@,
            },
    {
        proof {
            use_type_invariant(&*self);
        }
        match find_thumbnail(&self.cache, path) {
            Some(i) => {
                let mut cache = Vec::new();
                std::mem::swap(&mut cache, &mut self.cache);
                let ghost before = cache@;
                let item = cache.remove(i);
                cache.push(item);
                proof {
                    lemma_thumbnail_bytes_remove(before, i as int);
                    assert(cache@.drop_last() =~= before.remove(i as int));
                    assert(thumbnail_bytes(cache@) == thumbnail_bytes(cache@.drop_last()) + cache@.last().bytes);
                }
                self.cache = cache;
                true
            },
            None => false,
        }
    }

    /// The most recently used thumbnail, if any.
    pub fn last(&self) -> (r: Option<&T>)
        ensures
            self@.len() == 0 ==> r is None,
            self@.len() > 0 ==> r == Some(&self@[self@.len() - 1].texture),
    {
        if self.cache.len() == 0 {
            None
        } else {
            Some(&self.cache[self.cache.len() - 1].texture)
        }
    }

    /// Adds a thumbnail as the most recently used one, then drops the least
    /// recently used ones while there are more than `MAX_THUMBNAIL_CACHE` or
    /// they take more than `MAX_THUMBNAIL_BYTES`.
    pub fn insert(&mut self, path: String, bytes: usize, texture: T)
        requires
            bytes <= usize::MAX - MAX_THUMBNAIL_BYTES,
        ensures
            final(self)@ == within_thumbnail_budget(
                old(self)@.push(CachedThumbnail { path, bytes, texture }),
            ),
    {
        proof {
            use_type_invariant(&*self);
        }
        let ghost added = CachedThumbnail { path, bytes, texture };
        let mut cache = Vec::new();
        std::mem::swap(&mut cache, &mut self.cache);
        let ghost before = cache@;
        let old_total = total_of_thumbnails(&cache);
        cache.push(CachedThumbnail { path, bytes, texture });
        proof {
            assert(cache@.drop_last() =~= before);
            assert(thumbnail_bytes(cache@) == thumbnail_bytes(cache@.drop_last()) + cache@.last().bytes);
        }
        let mut total = old_total + bytes;
        let ghost whole = cache@;
        while cache.len() > 0 && (cache.len() > MAX_THUMBNAIL_CACHE || total > MAX_THUMBNAIL_BYTES)
            invariant
                total == thumbnail_bytes(cache@),
                within_thumbnail_budget(cache@) == within_thumbnail_budget(whole),
            decreases cache@.len(),
        {
            proof {
                lemma_thumbnail_bytes_front(cache@);
                lemma_thumbnail_bytes_nonneg(cache@.drop_first());
            }
            let first = cache.remove(0);
            total = total - first.bytes;
        }
        proof {
            lemma_within_thumbnail_budget(whole);
        }
        self.cache = cache;
    }

    /// Drops the thumbnails of `path`.
    pub fn remove(&mut self, path: &str)
        ensures
            final(self)@ == filtered(old(self)@, thumbnail_not_of(path@)),
    {
        proof {
            use_type_invariant(&*self);
        }
        let mut old_cache = Vec::new();
        std::mem::swap(&mut old_cache, &mut self.cache);
        let ghost orig = old_cache@;
        let mut kept: Vec<CachedThumbnail<T>> = Vec::new();
        let mut i: usize = 0;
        let total_len = old_cache.len();
        assert(orig.skip(0) =~= orig);
        while old_cache.len() > 0
            invariant
                i <= orig.len(),
                orig.len() == total_len,
                old_cache@ == orig.skip(i as int),
                kept@ == filtered(orig.take(i as int), thumbnail_not_of::<T>(path@)),
            decreases old_cache@.len(),
        {
            assert(old_cache@.len() == orig.len() - i);
            let e = old_cache.remove(0);
            proof {
                let next = orig.take(i as int + 1);
                assert(next.drop_last() =~= orig.take(i as int));
                assert(next.last() == e);
            }
            if !str_eq(e.path.as_str(), path) {
                kept.push(e);
            }
            i += 1;
            proof {
                assert(old_cache@ =~= orig.skip(i as int));
            }
        }
        proof {
            assert(orig.take(orig.len() as int) =~= orig);
            lemma_thumbnail_bytes_filtered(orig, thumbnail_not_of::<T>(path@));
        }
        self.cache = kept;
    }

    /// Drops every thumbnail.
    pub fn clear(&mut self)
        ensures
            final(self)@.len() == 0,
    {
        self.cache = Vec::new();
    }

    /// Keeps only the thumbnails of `images`.
    pub fn cleanup(&mut self, images: &Vec<ImageEntry>)
        ensures
            final(self)@ == filtered(old(self)@, thumbnail_listed(images@)),
    {
        proof {
            use_type_invariant(&*self);
        }
        let mut old_cache = Vec::new();
        std::mem::swap(&mut old_cache, &mut self.cache);
        let ghost orig = old_cache@;
        let mut kept: Vec<CachedThumbnail<T>> = Vec::new();
        let mut i: usize = 0;
        let total_len = old_cache.len();
        assert(orig.skip(0) =~= orig);
        while old_cache.len() > 0
            invariant
                i <= orig.len(),
                orig.len() == total_len,
                old_cache@ == orig.skip(i as int),
                kept@ == filtered(orig.take(i as int), thumbnail_listed::<T>(images@)),
            decreases old_cache@.len(),
        {
            assert(old_cache@.len() == orig.len() - i);
            let e = old_cache.remove(0);
            proof {
                let next = orig.take(i as int + 1);
                assert(next.drop_last() =~= orig.take(i as int));
                assert(next.last() == e);
            }
            if window_has_path(images, 0, images.len(), e.path.as_str()) {
                kept.push(e);
            }
            i += 1;
            proof {
                assert(old_cache@ =~= orig.skip(i as int));
            }
        }
        proof {
            assert(orig.take(orig.len() as int) =~= orig);
            lemma_thumbnail_bytes_filtered(orig, thumbnail_listed::<T>(images@));
        }
        self.cache = kept;
    }

    /// The memory the thumbnails take together; it is within the budget.
    pub fn total_bytes(&self) -> (r: usize)
        ensures
            r == thumbnail_bytes(self@),
            r <= MAX_THUMBNAIL_BYTES,
    {
        proof {
            use_type_invariant(self);
        }
        total_of_thumbnails(&self.cache)
    }
}

/// The memory the thumbnails of `cache` take together, when it is within
/// the budget.
fn total_of_thumbnails<T>(cache: &Vec<CachedThumbnail<T>>) -> (r: usize)
    requires
        0 <= thumbnail_bytes(cache@) <= MAX_THUMBNAIL_BYTES,
    ensures
        r == thumbnail_bytes(cache@),
{
    let mut total: usize = 0;
    let mut i: usize = 0;
    while i < cache.len()
        invariant
            i <= cache@.len(),
            thumbnail_bytes(cache@) <= MAX_THUMBNAIL_BYTES,
            total == thumbnail_bytes(cache@.take(i as int)),
        decreases cache@.len() - i,
    {
        proof {
            assert(cache@.take(i as int + 1).drop_last() =~= cache@.take(i as int));
            lemma_thumbnail_prefix_bound(cache@, i as int + 1);
        }
        total = total + cache[i].bytes;
        i += 1;
    }
    proof {
        assert(cache@.take(cache@.len() as int) =~= cache@);
    }
    total
}

/// The most frames of a GIF that are kept; longer animations are sampled.
pub const MAX_GIF_FRAMES: usize = 256;

/// How many frames of a GIF are decoded before it is first shown.
pub const GIF_INITIAL_FRAMES: usize = 10;

/// Every how many frames of a GIF one is kept: 1, or for an animation of
/// more than `MAX_GIF_FRAMES` frames, its length divided by that.
pub fn gif_sampling(total_frames: usize) -> (r: usize)
    ensures
        r == (if total_frames > MAX_GIF_FRAMES {
            total_frames / MAX_GIF_FRAMES
        } else {
            1
        }),
        r >= 1,
{
    if total_frames > MAX_GIF_FRAMES {
        total_frames / MAX_GIF_FRAMES
    } else {
        1
    }
}

/// The frame numbered `count` (from 0) is kept.
pub fn gif_keeps_frame(count: usize, sampling: usize) -> (r: bool)
    requires
        sampling >= 1,
    ensures
        r == (count % sampling == 0),
{
    count % sampling == 0
}

/// The frame numbered `count` is among those decoded before the animation
/// is first shown.
pub fn gif_initial_frame(count: usize, sampling: usize) -> (r: bool)
    requires
        GIF_INITIAL_FRAMES * sampling <= usize::MAX,
    ensures
        r == (count < GIF_INITIAL_FRAMES * sampling),
{
    count < GIF_INITIAL_FRAMES * sampling
}

/// How long a kept frame is shown, in milliseconds: its delay
/// (`numer / denom` milliseconds, or 100 when `denom` is 0), at least 20,
/// times the sampling.
pub open spec fn gif_delay_of(numer: u32, denom: u32, sampling: usize) -> int {
    let ms: int = if denom > 0 {
        (numer / denom) as int
    } else {
        100
    };
    (if ms < 20 {
        20
    } else {
        ms
    }) * sampling
}

/// How long a kept frame is shown, in milliseconds.
pub fn gif_frame_delay_ms(numer: u32, denom: u32, sampling: usize) -> (r: u64)
    requires
        gif_delay_of(numer, denom, sampling) <= u64::MAX,
    ensures
        r == gif_delay_of(numer, denom, sampling),
{
    let ms: u64 = if denom > 0 {
        (numer as u64) / (denom as u64)
    } else {
        100
    };
    let ms = if ms < 20 {
        20
    } else {
        ms
    };
    ms * (sampling as u64)
}

/// How long the current frame is still to be shown, in nanoseconds, after
/// `elapsed` of its `delay`: at least one millisecond.
pub fn remaining_delay(elapsed: u128, delay: u128) -> (r: u128)
    ensures
        r == (if elapsed >= delay {
            1000000
        } else {
            delay - elapsed
        }),
{
    if elapsed >= delay {
        1000000
    } else {
        delay - elapsed
    }
}

/// The playback state of a GIF: frames decoded so far, frames still to be
/// decoded, the frame shown and whether playback is paused.
pub ghost struct GifState {
    pub decoded: nat,
    pub pending: nat,
    pub current: nat,
    pub paused: bool,
}

/// The frame after `current` among `total`, going round.
pub open spec fn following_frame(current: nat, total: nat) -> nat {
    if current + 1 < total {
        (current + 1) as nat
    } else {
        0
    }
}

/// The state after stepping to the next frame: playback pauses, the frames
/// up to the next one are decoded, and it is shown.
pub open spec fn after_next_frame(s: GifState) -> GifState {
    let total = s.decoded + s.pending;
    let next = following_frame(s.current, total);
    let decoded: int = if next >= s.decoded {
        next + 1int
    } else {
        s.decoded as int
    };
    GifState {
        decoded: decoded as nat,
        pending: (total - decoded) as nat,
        current: next,
        paused: true,
    }
}

/// The state after stepping to the previous frame: playback pauses and the
/// previous frame, or from the first one the last decoded one, is shown.
pub open spec fn after_prev_frame(s: GifState) -> GifState {
    GifState {
        current: if s.current > 0 { (s.current - 1) as nat } else { (s.decoded - 1) as nat },
        paused: true,
        ..s
    }
}

/// A playback state that a GIF can be in: some frame is decoded and the
/// one shown is decoded.
pub open spec fn gif_state_valid(s: GifState) -> bool {
    s.decoded >= 1 && s.current < s.decoded
}

/// Stepping back after stepping forward shows the same frame again.
pub proof fn next_then_prev_frame(s: GifState)
    requires
        gif_state_valid(s),
    ensures
        gif_state_valid(after_next_frame(s)),
        after_prev_frame(after_next_frame(s)).current == s.current,
{
}

/// Plays back a GIF whose frames are decoded on demand.
pub struct GifAnimator {
    decoded: usize,
    pending: usize,
    current_frame: usize,
    paused: bool,
}

impl View for GifAnimator {
    type V = GifState;

    closed spec fn view(&self) -> GifState {
        GifState {
            decoded: self.decoded as nat,
            pending: self.pending as nat,
            current: self.current_frame as nat,
            paused: self.paused,
        }
    }
}

impl GifAnimator {
    #[verifier::type_invariant]
    spec fn valid(self) -> bool {
        &&& self.decoded >= 1
        &&& self.current_frame < self.decoded
        &&& self.decoded + self.pending <= usize::MAX
    }

    /// Playback of an animation with `decoded` frames decoded and `pending`
    /// still to be decoded, from the first frame; none without a decoded
    /// frame.
    pub fn start(decoded: usize, pending: usize) -> (r: Option<Self>)
        requires
            decoded + pending <= usize::MAX,
        ensures
            decoded == 0 ==> r is None,
            decoded > 0 ==> (r matches Some(g) && g@ == (GifState {
                decoded: decoded as nat,
                pending: pending as nat,
                current: 0,
                paused: false,
            })),
    {
        if decoded == 0 {
            None
        } else {
            Some(GifAnimator { decoded, pending, current_frame: 0, paused: false })
        }
    }

    /// The playback state is one a GIF can be in.
    pub fn check_valid(&self) -> (r: bool)
        ensures
            r,
            gif_state_valid(self@),
    {
        proof {
            use_type_invariant(self);
        }
        true
    }

    /// Pauses or resumes playback; returns whether it now plays.
    pub fn toggle_pause(&mut self) -> (r: bool)
        ensures
            final(self)@ == (GifState { paused: !old(self)@.paused, ..old(self)@ }),
            r == !final(self)@.paused,
    {
        proof {
            use_type_invariant(&*self);
        }
        self.paused = !self.paused;
        !self.paused
    }

    /// Pauses playback on the current frame.
    pub fn pause(&mut self)
        ensures
            final(self)@ == (GifState { paused: true, ..old(self)@ }),
    {
        proof {
            use_type_invariant(&*self);
        }
        self.paused = true;
    }

    /// Resumes playback from the current frame.
    pub fn play(&mut self)
        ensures
            final(self)@ == (GifState { paused: false, ..old(self)@ }),
    {
        proof {
            use_type_invariant(&*self);
        }
        self.paused = false;
    }

    /// Pauses and shows the previous frame, or from the first one the last
    /// decoded one.
    pub fn prev_frame(&mut self)
        ensures
            final(self)@ == after_prev_frame(old(self)@),
    {
        proof {
            use_type_invariant(&*self);
        }
        self.paused = true;
        if self.current_frame > 0 {
            self.current_frame = self.current_frame - 1;
        } else {
            self.current_frame = self.decoded - 1;
        }
    }

    /// Moves to the next frame, going round, decoding the frames up to it
    /// first; returns how many frames are to be decoded now.
    fn step(&mut self) -> (r: usize)
        ensures
            final(self)@.current == after_next_frame(old(self)@).current,
            final(self)@.decoded == after_next_frame(old(self)@).decoded,
            final(self)@.pending == after_next_frame(old(self)@).pending,
            final(self)@.paused == old(self)@.paused,
            r == final(self)@.decoded - old(self)@.decoded,
    {
        proof {
            use_type_invariant(&*self);
        }
        let total = self.decoded + self.pending;
        let next = if self.current_frame + 1 < total {
            self.current_frame + 1
        } else {
            0
        };
        let mut to_decode: usize = 0;
        if next >= self.decoded {
            to_decode = next + 1 - self.decoded;
            self.pending = total - (next + 1);
            self.decoded = next + 1;
        }
        self.current_frame = next;
        to_decode
    }

    /// Pauses and shows the next frame, going round; returns how many
    /// frames are to be decoded first.
    pub fn next_frame(&mut self) -> (r: usize)
        ensures
            final(self)@ == after_next_frame(old(self)@),
            r == final(self)@.decoded - old(self)@.decoded,
    {
        proof {
            use_type_invariant(&*self);
        }
        self.paused = true;
        self.step()
    }

    /// Shows the next frame, going round, when the current one has been
    /// shown long enough and playback is not paused; returns how many frames
    /// are to be decoded first.
    pub fn advance(&mut self) -> (r: usize)
        ensures
            old(self)@.paused ==> final(self)@ == old(self)@ && r == 0,
            !old(self)@.paused ==> final(self)@ == (GifState {
                paused: false,
                ..after_next_frame(old(self)@)
            }) && r == final(self)@.decoded - old(self)@.decoded,
    {
        if self.paused {
            0
        } else {
            self.step()
        }
    }

    /// Playback is paused.
    pub fn is_paused(&self) -> (r: bool)
        ensures
            r == self@.paused,
    {
        self.paused
    }

    /// The index of the frame shown.
    pub fn current_frame(&self) -> (r: usize)
        ensures
            r == self@.current,
    {
        self.current_frame
    }

    /// The number of the frame shown, counting from 1.
    pub fn current_frame_number(&self) -> (r: usize)
        ensures
            r == self@.current + 1,
    {
        proof {
            use_type_invariant(self);
        }
        self.current_frame + 1
    }

    /// The number of frames, decoded or not.
    pub fn total_frames(&self) -> (r: usize)
        ensures
            r == self@.decoded + self@.pending,
    {
        proof {
            use_type_invariant(self);
        }
        self.decoded + self.pending
    }
}

/// The entry of a newly found file: its path and name, no rotation.
pub open spec fn entry_of_file(file: (String, String, String)) -> ImageEntry {
    ImageEntry { path: file.0, name: file.1, manual_rotation: 0, load_failed: false }
}

/// The entries of the files of `files` (each a path, a name and an
/// extension) whose extension is that of a shown image, in their order.
pub open spec fn shown_files(files: Seq<(String, String, String)>) -> Seq<ImageEntry>
    decreases files.len(),
{
    if files.len() == 0 {
        Seq::empty()
    } else if supported_ext(ascii_lower(files.last().2@)) {
        shown_files(files.drop_last()).push(entry_of_file(files.last()))
    } else {
        shown_files(files.drop_last())
    }
}

/// `n` equal sort keys.
pub open spec fn equal_keys(n: nat) -> Seq<i128> {
    Seq::new(n, |i: int| 0i128)
}

/// The images among the regular files of a folder, each given as its path,
/// its name and its extension: those with the extension of a shown image,
/// stably sorted by the natural order of their names (which is how `sort`
/// orders entries by size when all sizes are equal).
pub fn scan_folder(files: Vec<(String, String, String)>) -> (r: Vec<ImageEntry>)
    ensures
        exists|p: Seq<int>|
            #[trigger] is_stable_sort_of(
                ImageSortMode::Size,
                shown_files(files@),
                equal_keys(shown_files(files@).len()),
                false,
                p,
                r@,
            ),
{
    let ghost all = files@;
    let mut rest = files;
    let mut entries: Vec<ImageEntry> = Vec::new();
    let mut i: usize = 0;
    let total = rest.len();
    assert(all.skip(0) =~= all);
    while rest.len() > 0
        invariant
            i <= all.len(),
            all.len() == total,
            rest@ == all.skip(i as int),
            entries@ == shown_files(all.take(i as int)),
        decreases rest@.len(),
    {
        assert(rest@.len() == all.len() - i);
        let file = rest.remove(0);
        proof {
            let next = all.take(i as int + 1);
            assert(next.drop_last() =~= all.take(i as int));
            assert(next.last() == file);
        }
        let (path, name, ext) = file;
        if is_supported_ext(ext.as_str()) {
            entries.push(ImageEntry { path, name, manual_rotation: 0, load_failed: false });
        }
        i += 1;
        proof {
            assert(rest@ =~= all.skip(i as int));
        }
    }
    proof {
        assert(all.take(all.len() as int) =~= all);
    }
    let mut keys: Vec<i128> = Vec::new();
    while keys.len() < entries.len()
        invariant
            keys@.len() <= entries@.len(),
            forall|k: int| 0 <= k < keys@.len() ==> keys@[k] == 0,
        decreases entries@.len() - keys@.len(),
    {
        keys.push(0);
    }
    proof {
        assert(keys@ =~= equal_keys(entries@.len()));
    }
    let ghost found = entries@;
    ImageSortMode::Size.sort(&mut entries, &keys, false);
    let ghost p = choose|p: Seq<int>|
        is_stable_sort_of(ImageSortMode::Size, found, keys@, false, p, entries@);
    assert(is_stable_sort_of(
        ImageSortMode::Size,
        shown_files(all),
        equal_keys(shown_files(all).len()),
        false,
        p,
        entries@,
    ));
    entries
}

} // verus!
