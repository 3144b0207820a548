use image::{DynamicImage, GenericImageView};
use jinn_imageviewer::images::{
    aspect_ratio, assess_image_load, format_bitdepth, format_bits_per_channel, format_channels,
    format_color_mode, format_imagetype, format_imagetype_tag, format_mime, gcd, gif_frame_delay_ms,
    gif_initial_frame, gif_keeps_frame, gif_sampling, image_is_supported, is_gif_ext, is_supported_ext,
    load_allowed, orientation_fix, remaining_delay, resize_for_target, resize_plan, texture_target_width,
    ColorKind, GifAnimator, ImageEntry, ImageFormatKind, ImageLoadAssessment, OrientationFix,
    TextureManager, ThumbnailManager,
};

#[test]
fn test_resize_for_target_preserves_aspect_ratio() {
    let image = DynamicImage::new_rgb8(400, 200);
    let resized = resize_for_target(image, 100);
    assert_eq!(resized.dimensions(), (100, 50));
}

#[test]
fn test_resize_for_target_does_not_upscale() {
    let image = DynamicImage::new_rgb8(40, 20);
    let resized = resize_for_target(image, 100);
    assert_eq!(resized.dimensions(), (40, 20));
}

#[test]
fn resize_for_target_keeps_a_height_of_at_least_one() {
    let image = DynamicImage::new_rgb8(1000, 1);
    let resized = resize_for_target(image, 10);
    assert_eq!(resized.dimensions(), (10, 1));
}

#[test]
fn resize_plan_values() {
    assert_eq!(resize_plan(100, 400, 200), Some((100, 50)));
    assert_eq!(resize_plan(100, 40, 20), None);
    assert_eq!(resize_plan(0, 3, 3), Some((1, 1)));
    assert_eq!(resize_plan(10000, 5000, 2500), Some((4096, 2048)));
    assert_eq!(resize_plan(10000, 4096, 2500), None);
    assert_eq!(resize_plan(3, 1000, 1), Some((3, 1)));
}

#[test]
fn target_width_is_clamped() {
    assert_eq!(texture_target_width(0), 1);
    assert_eq!(texture_target_width(1200), 1200);
    assert_eq!(texture_target_width(5000), 4096);
}

#[test]
fn assessment_of_sizes() {
    assert_eq!(assess_image_load(Some(1000), Some((800, 600))), ImageLoadAssessment::Supported);
    assert_eq!(
        assess_image_load(Some(300 * 1024 * 1024), Some((800, 600))),
        ImageLoadAssessment::RequiresConfirmation { file_bytes: 300 * 1024 * 1024, pixels: 480000 }
    );
    assert_eq!(
        assess_image_load(Some(10), Some((16385, 10))),
        ImageLoadAssessment::Impossible { width: 16385, height: 10, pixels: 163850 }
    );
    assert_eq!(
        assess_image_load(Some(10), Some((10, 8641))),
        ImageLoadAssessment::Impossible { width: 10, height: 8641, pixels: 86410 }
    );
    assert_eq!(
        assess_image_load(None, Some((10, 10))),
        ImageLoadAssessment::Impossible { width: 0, height: 0, pixels: 0 }
    );
    assert_eq!(
        assess_image_load(Some(10), None),
        ImageLoadAssessment::Impossible { width: 0, height: 0, pixels: 0 }
    );
    assert_eq!(assess_image_load(Some(10), Some((16384, 8640))), ImageLoadAssessment::Supported);
    assert!(image_is_supported(Some(10), Some((16, 16))));
    assert!(!image_is_supported(Some(300 * 1024 * 1024), Some((16, 16))));
}

#[test]
fn large_files_load_only_when_allowed() {
    let big = ImageLoadAssessment::RequiresConfirmation { file_bytes: 1, pixels: 1 };
    assert!(load_allowed(ImageLoadAssessment::Supported, false));
    assert!(!load_allowed(big, false));
    assert!(load_allowed(big, true));
    assert!(!load_allowed(ImageLoadAssessment::Impossible { width: 0, height: 0, pixels: 0 }, true));
}

#[test]
fn supported_extensions_in_any_case() {
    for ext in ["png", "JPG", "Jpeg", "bmp", "GIF", "webp", "TIFF", "tif"] {
        assert!(is_supported_ext(ext), "{}", ext);
    }
    for ext in ["txt", "exe", "pn", "", "avif", "jpgx"] {
        assert!(!is_supported_ext(ext), "{}", ext);
    }
    assert!(is_gif_ext("GiF"));
    assert!(!is_gif_ext("png"));
}

#[test]
fn type_and_format_names() {
    assert_eq!(format_imagetype("JPG"), "JPEG Image");
    assert_eq!(format_imagetype("tif"), "TIFF Image");
    assert_eq!(format_imagetype("avif"), "AVIF Image");
    assert_eq!(format_imagetype("xyz"), "Unknown");
    assert_eq!(format_imagetype_tag(ImageFormatKind::WebP), "WebP");
    assert_eq!(format_imagetype_tag(ImageFormatKind::Other), "Unknown");
    assert_eq!(format_mime(ImageFormatKind::Png), "image/png");
    assert_eq!(format_mime(ImageFormatKind::Other), "application/octet-stream");
}

#[test]
fn colour_names() {
    assert_eq!(format_color_mode(ColorKind::La16), "灰度+Alpha");
    assert_eq!(format_color_mode(ColorKind::Rgba32F), "RGBA (Float)");
    assert_eq!(format_channels(ColorKind::Rgb32F), "3 (RGB)");
    assert_eq!(format_bitdepth(ColorKind::Rgb8), "24 bit");
    assert_eq!(format_bitdepth(ColorKind::Rgba16), "64 bit");
    assert_eq!(format_bits_per_channel(ColorKind::L16), "16 bit");
    assert_eq!(format_bits_per_channel(ColorKind::Other), "?");
}

#[test]
fn gcd_and_aspect_ratio() {
    assert_eq!(gcd(1920, 1080), 120);
    assert_eq!(gcd(7, 0), 7);
    assert_eq!(gcd(0, 7), 7);
    assert_eq!(aspect_ratio(1920, 1080), Some((16, 9)));
    assert_eq!(aspect_ratio(4000, 3000), Some((4, 3)));
    assert_eq!(aspect_ratio(1001, 1000), None);
    assert_eq!(aspect_ratio(0, 5), Some((0, 1)));
}

#[test]
fn orientation_fixes() {
    assert_eq!(orientation_fix(None), OrientationFix::Upright);
    assert_eq!(orientation_fix(Some(1)), OrientationFix::Upright);
    assert_eq!(orientation_fix(Some(6)), OrientationFix::Rotate90);
    assert_eq!(orientation_fix(Some(8)), OrientationFix::Rotate270);
    assert_eq!(orientation_fix(Some(5)), OrientationFix::Rotate90FlipHorizontal);
    assert_eq!(orientation_fix(Some(9)), OrientationFix::Upright);
}

fn entry(path: &str) -> ImageEntry {
    ImageEntry { path: path.to_string(), name: path.to_string(), manual_rotation: 0, load_failed: false }
}

#[test]
fn texture_cache_is_most_recently_used_first() {
    let mut cache: TextureManager<u32> = TextureManager::new();
    cache.insert("a".to_string(), 0, 100, 10, 1);
    cache.insert("b".to_string(), 0, 100, 10, 2);
    assert_eq!(cache.front(), Some(&2));
    assert!(cache.get_cached("a", 0, 100));
    assert_eq!(cache.front(), Some(&1));
    assert!(!cache.get_cached("a", 90, 100));
    assert!(!cache.get_cached("a", 0, 200));
    assert_eq!(cache.total_bytes(), 20);
}

#[test]
fn texture_cache_drops_least_recent_over_budget() {
    let mut cache: TextureManager<u32> = TextureManager::new();
    let quarter = 512 * 1024 * 1024 / 4;
    for i in 0..5u32 {
        cache.insert(format!("img{}", i), 0, 100, quarter, i);
    }
    assert_eq!(cache.total_bytes(), 4 * quarter);
    assert!(!cache.get_cached("img0", 0, 100));
    assert!(cache.get_cached("img1", 0, 100));
    let mut huge: TextureManager<u32> = TextureManager::new();
    huge.insert("x".to_string(), 0, 1, 600 * 1024 * 1024, 0);
    assert_eq!(huge.total_bytes(), 0);
    assert_eq!(huge.front(), None);
}

#[test]
fn texture_cleanup_keeps_the_window() {
    let images: Vec<ImageEntry> = (0..10).map(|i| entry(&format!("p{}", i))).collect();
    let mut cache: TextureManager<u32> = TextureManager::new();
    for i in 0..10u32 {
        cache.insert(format!("p{}", i), 0, 100, 1, i);
    }
    cache.cleanup(&images, 5);
    for i in 0..10u32 {
        assert_eq!(cache.get_cached(&format!("p{}", i), 0, 100), (2..=8).contains(&i), "p{}", i);
    }
    cache.cleanup(&Vec::new(), 0);
    assert_eq!(cache.total_bytes(), 0);
}

#[test]
fn texture_remove_and_find() {
    let mut cache: TextureManager<u32> = TextureManager::new();
    cache.insert("a".to_string(), 0, 100, 3, 1);
    cache.insert("a".to_string(), 90, 100, 4, 2);
    cache.insert("b".to_string(), 0, 100, 5, 3);
    assert_eq!(cache.find_by_path("a").map(|t| t.texture), Some(2));
    cache.remove("a");
    assert!(cache.find_by_path("a").is_none());
    assert_eq!(cache.total_bytes(), 5);
    cache.clear();
    assert_eq!(cache.total_bytes(), 0);
}

#[test]
fn thumbnails_evict_oldest_beyond_count() {
    let mut thumbs: ThumbnailManager<u32> = ThumbnailManager::new();
    for i in 0..201u32 {
        thumbs.insert(format!("t{}", i), 1, i);
    }
    assert!(!thumbs.is_cached("t0"));
    assert!(thumbs.is_cached("t1"));
    assert!(thumbs.is_cached("t200"));
    assert_eq!(thumbs.total_bytes(), 200);
    assert_eq!(thumbs.last(), Some(&200));
    assert!(thumbs.touch("t1"));
    assert_eq!(thumbs.last(), Some(&1));
    assert_eq!(thumbs.get_cached("t5"), Some(&5));
}

#[test]
fn thumbnails_evict_oldest_beyond_memory() {
    let mut thumbs: ThumbnailManager<u32> = ThumbnailManager::new();
    let half = 32 * 1024 * 1024 / 2;
    thumbs.insert("a".to_string(), half, 1);
    thumbs.insert("b".to_string(), half, 2);
    thumbs.insert("c".to_string(), 1, 3);
    assert!(!thumbs.is_cached("a"));
    assert!(thumbs.is_cached("b") && thumbs.is_cached("c"));
    let images = vec![entry("c")];
    thumbs.cleanup(&images);
    assert!(!thumbs.is_cached("b"));
    assert!(thumbs.is_cached("c"));
    thumbs.remove("c");
    assert_eq!(thumbs.total_bytes(), 0);
}

#[test]
fn gif_sampling_and_delays() {
    assert_eq!(gif_sampling(100), 1);
    assert_eq!(gif_sampling(256), 1);
    assert_eq!(gif_sampling(1000), 3);
    assert!(gif_keeps_frame(6, 3));
    assert!(!gif_keeps_frame(7, 3));
    assert!(gif_initial_frame(29, 3));
    assert!(!gif_initial_frame(30, 3));
    assert_eq!(gif_frame_delay_ms(100, 1, 1), 100);
    assert_eq!(gif_frame_delay_ms(5, 1, 2), 40);
    assert_eq!(gif_frame_delay_ms(7, 0, 1), 100);
    assert_eq!(remaining_delay(5, 3), 1_000_000);
    assert_eq!(remaining_delay(3, 10), 7);
}

#[test]
fn gif_playback_steps_through_frames() {
    assert!(GifAnimator::start(0, 5).is_none());
    let mut gif = GifAnimator::start(2, 2).unwrap();
    assert_eq!(gif.total_frames(), 4);
    assert_eq!(gif.current_frame_number(), 1);
    assert_eq!(gif.next_frame(), 0);
    assert!(gif.is_paused());
    assert_eq!(gif.next_frame(), 1);
    assert_eq!(gif.current_frame(), 2);
    assert_eq!(gif.next_frame(), 1);
    assert_eq!(gif.current_frame(), 3);
    assert_eq!(gif.next_frame(), 0);
    assert_eq!(gif.current_frame(), 0);
    gif.prev_frame();
    assert_eq!(gif.current_frame(), 3);
    gif.prev_frame();
    assert_eq!(gif.current_frame(), 2);
    assert!(gif.toggle_pause());
    assert_eq!(gif.advance(), 0);
    assert_eq!(gif.current_frame(), 3);
    assert!(!gif.is_paused());
    gif.pause();
    assert_eq!(gif.advance(), 0);
    assert_eq!(gif.current_frame(), 3);
    gif.play();
    assert!(!gif.is_paused());
}

#[test]
fn gif_prev_from_first_goes_to_last_decoded() {
    let mut gif = GifAnimator::start(3, 10).unwrap();
    gif.prev_frame();
    assert_eq!(gif.current_frame(), 2);
    assert!(gif.check_valid());
}
