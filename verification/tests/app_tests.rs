use jinn_imageviewer::app::{
    large_image_warning, preload_target, shorten_name, thumbnail_page, ActionEffect, CopyResult, DeleteRequest, DeleteResult, JinnImageViewer,
    NavigateOutcome,
};
use jinn_imageviewer::i18n::Language;
use jinn_imageviewer::i18n::I18n;
use jinn_imageviewer::images::{ImageEntry, ImageLoadAssessment};
use jinn_imageviewer::shortcuts::ShortcutAction;
use jinn_imageviewer::sorting::ImageSortMode;

fn entry(name: &str) -> ImageEntry {
    ImageEntry {
        path: format!("/pictures/{}", name),
        name: name.to_string(),
        manual_rotation: 0,
        load_failed: false,
    }
}

fn viewer_with(names: &[&str]) -> JinnImageViewer {
    let mut app = JinnImageViewer::default();
    app.images = names.iter().map(|n| entry(n)).collect();
    app
}

#[test]
fn viewer_starts_empty() {
    let app = JinnImageViewer::default();
    assert_eq!(app.images.len(), 0, "新应用应无图片");
    assert_eq!(app.current_index, 0);
    assert!(!app.two_column, "默认应为单列模式");
    assert_eq!(app.window_title(), "Jinn Image Viewer");
}

#[test]
fn test_window_title_uses_current_image() {
    let app = viewer_with(&["current.png"]);
    assert_eq!(app.window_title(), "current.png - Jinn Image Viewer");
}

#[test]
fn window_title_cuts_long_names_after_forty_bytes() {
    let name = format!("{}.png", "a".repeat(50));
    let app = viewer_with(&[name.as_str()]);
    assert_eq!(app.window_title(), format!("{}... - Jinn Image Viewer", "a".repeat(40)));
}

#[test]
fn window_title_keeps_a_name_of_forty_bytes() {
    let name = "b".repeat(40);
    let app = viewer_with(&[name.as_str()]);
    assert_eq!(app.window_title(), format!("{} - Jinn Image Viewer", name));
}

#[test]
fn test_navigate_empty_list() {
    let mut app = JinnImageViewer::default();
    app.navigate(1);
    assert_eq!(app.current_index, 0, "空列表导航应无变化");
    app.navigate(-1);
    assert_eq!(app.current_index, 0);
}

#[test]
fn test_navigate_forward() {
    let mut app = viewer_with(&["a.png", "b.png", "c.png"]);
    assert_eq!(app.images.len(), 3);
    app.navigate(1);
    assert_eq!(app.current_index, 1, "应前进到索引1");
    app.navigate(1);
    assert_eq!(app.current_index, 2, "应前进到索引2");
}

#[test]
fn test_navigate_backward() {
    let mut app = viewer_with(&["a.png", "b.png"]);
    app.current_index = 1;
    app.navigate(-1);
    assert_eq!(app.current_index, 0, "应后退到索引0");
}

#[test]
fn test_navigate_wrap_around() {
    let mut app = viewer_with(&["a.png", "b.png"]);
    app.current_index = 1;
    app.navigate(1);
    assert!(app.at_end_page, "应进入末尾过渡页");
}

#[test]
fn navigate_from_end_page() {
    let mut app = viewer_with(&["a.png", "b.png", "c.png"]);
    app.current_index = 2;
    assert_eq!(app.navigate(1), NavigateOutcome::EndPageEntered);
    assert_eq!(app.navigate(-1), NavigateOutcome::EndPageLeft);
    assert!(!app.at_end_page);
    assert_eq!(app.current_index, 2);
    assert_eq!(app.navigate(1), NavigateOutcome::EndPageEntered);
    assert_eq!(app.navigate(1), NavigateOutcome::Restarted);
    assert_eq!(app.current_index, 0);
    assert!(!app.at_end_page);
}

#[test]
fn navigate_with_one_image_does_nothing() {
    let mut app = viewer_with(&["only.png"]);
    app.status_message = "kept".to_string();
    assert_eq!(app.navigate(1), NavigateOutcome::Unchanged);
    assert_eq!(app.current_index, 0);
    assert!(!app.at_end_page);
    assert_eq!(app.status_message, "kept");
}

#[test]
fn navigate_clears_status_when_moving() {
    let mut app = viewer_with(&["a.png", "b.png"]);
    app.status_message = "old".to_string();
    assert_eq!(app.navigate(1), NavigateOutcome::Moved);
    assert_eq!(app.status_message, "");
}

#[test]
fn navigate_backwards_from_first_does_nothing() {
    let mut app = viewer_with(&["a.png", "b.png"]);
    assert_eq!(app.navigate(-1), NavigateOutcome::Unchanged);
    assert_eq!(app.current_index, 0);
}

#[test]
fn two_columns_step_by_two_and_wrap_from_unpaired_last() {
    let mut app = viewer_with(&["a.png", "b.png", "c.png"]);
    app.two_column = true;
    assert_eq!(app.navigate(1), NavigateOutcome::Moved);
    assert_eq!(app.current_index, 2);
    assert!(app.is_last_page_with_hint());
    assert_eq!(app.navigate(1), NavigateOutcome::Wrapped);
    assert_eq!(app.current_index, 0);
}

#[test]
fn two_columns_even_count_reaches_end_page() {
    let mut app = viewer_with(&["a.png", "b.png", "c.png", "d.png"]);
    app.two_column = true;
    app.navigate(1);
    assert_eq!(app.current_index, 2);
    assert!(!app.is_last_page_with_hint());
    assert_eq!(app.navigate(1), NavigateOutcome::EndPageEntered);
    assert!(app.at_end_page);
}

#[test]
fn test_remove_entry_at() {
    let mut app = viewer_with(&["a.png", "b.png", "c.png"]);
    assert_eq!(app.images.len(), 3);
    app.remove_entry_at(1);
    assert_eq!(app.images.len(), 2, "应剩余2张图片");
    assert_eq!(app.images[1].name, "c.png", "索引1应为c.png");
}

#[test]
fn test_remove_entry_adjust_index() {
    let mut app = viewer_with(&["a.png", "b.png"]);
    app.current_index = 1;
    app.remove_entry_at(1);
    assert_eq!(app.current_index, 0, "删除当前图片后索引应调整到0");
}

#[test]
fn test_remove_all_entries() {
    let mut app = viewer_with(&["a.png"]);
    app.remove_entry_at(0);
    assert_eq!(app.images.len(), 0, "删除所有图片后列表应为空");
    assert_eq!(app.current_index, 0);
}

#[test]
fn removing_the_last_image_reports_it() {
    let mut app = viewer_with(&["a.png"]);
    let removed = app.remove_entry_at(0);
    assert_eq!(removed.map(|e| e.name), Some("a.png".to_string()));
    assert_eq!(app.status_message, "所有图片已删除");
}

#[test]
fn removing_past_the_end_changes_nothing() {
    let mut app = viewer_with(&["a.png", "b.png"]);
    assert!(app.remove_entry_at(5).is_none());
    assert_eq!(app.images.len(), 2);
}

#[test]
fn test_rotate_cw() {
    let mut app = viewer_with(&["a.png"]);
    app.rotate_cw();
    assert_eq!(app.images[0].manual_rotation, 90, "应旋转90度");
    app.rotate_cw();
    assert_eq!(app.images[0].manual_rotation, 180, "应旋转180度");
    app.rotate_cw();
    assert_eq!(app.images[0].manual_rotation, 270, "应旋转270度");
    app.rotate_cw();
    assert_eq!(app.images[0].manual_rotation, 0, "应回到0度");
}

#[test]
fn test_rotate_ccw() {
    let mut app = viewer_with(&["a.png"]);
    app.rotate_ccw();
    assert_eq!(app.images[0].manual_rotation, 270, "应旋转270度");
    app.rotate_ccw();
    assert_eq!(app.images[0].manual_rotation, 180, "应旋转180度");
}

#[test]
fn rotate_ccw_undoes_rotate_cw() {
    let mut app = viewer_with(&["a.png"]);
    for start in [0u16, 90, 180, 270] {
        app.images[0].manual_rotation = start;
        app.rotate_cw();
        app.rotate_ccw();
        assert_eq!(app.images[0].manual_rotation, start);
    }
}

#[test]
fn test_rotate_independent_per_image() {
    let mut app = viewer_with(&["a.png", "b.png"]);
    app.current_index = 0;
    app.rotate_cw();
    assert_eq!(app.images[0].manual_rotation, 90);
    app.navigate(1);
    assert_eq!(app.images[1].manual_rotation, 0, "第二张应保持0度");
    app.rotate_cw();
    app.rotate_cw();
    assert_eq!(app.images[1].manual_rotation, 180);
    app.navigate(-1);
    assert_eq!(app.images[0].manual_rotation, 90, "第一张应保持90度");
}

#[test]
fn rotate_without_images_does_nothing() {
    let mut app = JinnImageViewer::default();
    assert!(!app.rotate_cw());
    assert!(!app.rotate_ccw());
}

#[test]
fn test_toggle_dual_column() {
    let mut app = JinnImageViewer::default();
    assert!(!app.two_column);
    app.two_column = !app.two_column;
    assert!(app.two_column, "应切换到双列模式");
    app.two_column = !app.two_column;
    assert!(!app.two_column, "应切换回单列模式");
}

#[test]
fn test_set_status_message() {
    let mut app = JinnImageViewer::default();
    app.set_status("测试消息".to_string());
    assert_eq!(app.status_message, "测试消息");
    assert!(app.status_timed, "应设置时间戳");
}

#[test]
fn test_clear_expired_status() {
    let mut app = JinnImageViewer::default();
    app.set_status("临时消息".to_string());
    app.clear_expired_status(Some(6));
    assert_eq!(app.status_message, "", "过期消息应被清除");
    assert!(!app.status_timed);
}

#[test]
fn fresh_status_is_kept() {
    let mut app = JinnImageViewer::default();
    app.set_status("消息".to_string());
    assert!(!app.clear_expired_status(Some(4)));
    assert!(!app.clear_expired_status(None));
    assert_eq!(app.status_message, "消息");
    assert!(app.clear_expired_status(Some(5)));
}

#[test]
fn delete_request_follows_confirmation_switch() {
    let mut app = viewer_with(&["a.png"]);
    assert_eq!(app.request_delete(), DeleteRequest::DeleteNow);
    app.confirm_before_delete = true;
    assert_eq!(app.request_delete(), DeleteRequest::Confirm);
    assert!(app.show_delete_confirm_dialog);
    app.at_end_page = true;
    assert_eq!(app.request_delete(), DeleteRequest::Ignored);
    let mut empty = JinnImageViewer::default();
    assert_eq!(empty.request_delete(), DeleteRequest::Ignored);
}

#[test]
fn copy_source_checks_the_right_image() {
    let mut app = viewer_with(&["a.png", "b.png"]);
    app.current_index = 1;
    assert_eq!(app.copy_source(0), Some(1));
    assert_eq!(app.copy_source(1), None);
    assert_eq!(app.status_message, "当前没有右图可复制");
}

#[test]
fn select_by_name_finds_first_match() {
    let mut app = viewer_with(&["a.png", "b.png", "b.png"]);
    assert!(app.select_by_name("b.png"));
    assert_eq!(app.current_index, 1);
    assert!(!app.select_by_name("z.png"));
    assert_eq!(app.current_index, 1);
}

#[test]
fn load_folder_sorts_and_reports_empty() {
    let mut app = JinnImageViewer::default();
    app.image_sort_mode = ImageSortMode::Size;
    app.current_index = 4;
    app.load_folder(vec![entry("big.png"), entry("small.png")], &vec![900, 100]);
    assert_eq!(app.images[0].name, "small.png");
    assert_eq!(app.current_index, 0);
    assert_eq!(app.status_message, "");
    app.load_folder(Vec::new(), &Vec::new());
    assert_eq!(app.status_message, "文件夹中没有找到图片文件 (.png/.jpg/.jpeg/.bmp/.gif/.webp/.tiff)");
}

#[test]
fn refresh_keeps_the_current_image() {
    let mut app = viewer_with(&["a.png", "b.png", "c.png"]);
    app.image_sort_mode = ImageSortMode::Size;
    app.current_index = 1;
    app.refresh_folder(vec![entry("c.png"), entry("b.png"), entry("new.png")], &vec![1, 2, 3]);
    assert_eq!(app.images[app.current_index].name, "b.png");
    assert_eq!(app.status_message, "目录已刷新");
}

#[test]
fn refresh_clamps_position_when_image_is_gone() {
    let mut app = viewer_with(&["a.png", "b.png", "c.png"]);
    app.image_sort_mode = ImageSortMode::Size;
    app.current_index = 2;
    app.refresh_folder(vec![entry("x.png")], &vec![1]);
    assert_eq!(app.current_index, 0);
}

#[test]
fn changing_sort_mode_keeps_the_current_file() {
    let mut app = viewer_with(&["a.png", "b.png", "c.png"]);
    app.current_index = 0;
    assert!(app.set_image_sort_mode(ImageSortMode::Size, &vec![30, 20, 10]));
    assert_eq!(app.images[0].name, "c.png");
    assert_eq!(app.images[app.current_index].name, "a.png");
    assert!(!app.set_image_sort_mode(ImageSortMode::Size, &vec![30, 20, 10]));
    app.reverse_image_sort(&vec![10, 20, 30]);
    assert!(app.image_sort_reversed);
    assert_eq!(app.images[0].name, "a.png");
    assert_eq!(app.current_index, 0);
}

#[test]
fn drop_missing_current_reports_it() {
    let mut app = viewer_with(&["a.png", "b.png"]);
    app.current_index = 1;
    assert!(app.drop_missing_current().is_some());
    assert_eq!(app.current_index, 0);
    assert_eq!(app.status_message, "文件已被外部删除，已从列表移除");
}

#[test]
fn shortcut_actions_change_the_state() {
    let mut app = viewer_with(&["a.png", "b.png"]);
    assert_eq!(app.handle_action(ShortcutAction::NextImage), ActionEffect::Navigated(NavigateOutcome::Moved));
    assert_eq!(app.current_index, 1);
    assert_eq!(app.handle_action(ShortcutAction::ToggleDual), ActionEffect::SaveConfig);
    assert!(app.two_column);
    assert_eq!(app.handle_action(ShortcutAction::CopyRight), ActionEffect::Copy(None));
    assert_eq!(app.handle_action(ShortcutAction::ToggleFullscreen), ActionEffect::FullscreenChanged(true));
    assert_eq!(app.handle_action(ShortcutAction::RotateCW), ActionEffect::Rotated(true));
    assert_eq!(app.images[1].manual_rotation, 90);
    assert_eq!(app.handle_action(ShortcutAction::ShowEXIF), ActionEffect::InfoWindow(true));
    assert_eq!(app.handle_action(ShortcutAction::ToggleSlideshow), ActionEffect::Slideshow(true));
    assert_eq!(app.handle_action(ShortcutAction::About), ActionEffect::AboutShown);
    assert!(app.show_about_window);
    assert_eq!(app.handle_action(ShortcutAction::OpenFolder), ActionEffect::OpenFolder);
    assert_eq!(app.handle_action(ShortcutAction::DeleteImage), ActionEffect::Delete(DeleteRequest::DeleteNow));
}

#[test]
fn english_status_messages() {
    let mut app = viewer_with(&["a.png"]);
    app.i18n.lang = Language::English;
    app.remove_entry_at(0);
    assert_eq!(app.status_message, "All images deleted");
}

#[test]
fn finishing_a_delete_reports_each_outcome() {
    let mut app = viewer_with(&["a.png", "b.png", "c.png"]);
    app.current_index = 2;
    let removed = app.finish_delete(DeleteResult::Deleted { file_name: "c.png".to_string() });
    assert_eq!(removed.map(|e| e.name), Some("c.png".to_string()));
    assert_eq!(app.current_index, 1);
    assert_eq!(app.status_message, "已删除: c.png");
    assert!(app.finish_delete(DeleteResult::Missing).is_some());
    assert_eq!(app.status_message, "文件已被外部删除，已从列表移除");
    assert_eq!(app.images.len(), 1);
    assert!(app.finish_delete(DeleteResult::Failed { error: "denied".to_string() }).is_none());
    assert_eq!(app.status_message, "删除失败: denied");
    assert_eq!(app.images.len(), 1);
}

#[test]
fn going_to_a_thumbnail_leaves_the_end_page() {
    let mut app = viewer_with(&["a.png", "b.png"]);
    app.at_end_page = true;
    app.status_message = "x".to_string();
    app.go_to(1);
    assert_eq!(app.current_index, 1);
    assert!(!app.at_end_page);
    assert_eq!(app.status_message, "");
}

#[test]
fn names_are_shortened_after_whole_characters() {
    assert_eq!(shorten_name("short.png", 30), "short.png");
    assert_eq!(shorten_name(&"x".repeat(31), 30), format!("{}...", "x".repeat(30)));
    assert_eq!(shorten_name("中文名字", 6), "中文...");
}

#[test]
fn thumbnail_pages() {
    assert_eq!(thumbnail_page(0, 10, 25), (0, 10));
    assert_eq!(thumbnail_page(23, 10, 25), (20, 25));
    assert_eq!(thumbnail_page(4, 1, 5), (4, 5));
    assert_eq!(thumbnail_page(20, 10, 20), (20, 20));
    assert_eq!(thumbnail_page(5, 1, 5), (5, 5));
}

#[test]
fn preload_targets() {
    assert_eq!(preload_target(0, 5, false), Some(1));
    assert_eq!(preload_target(4, 5, false), Some(3));
    assert_eq!(preload_target(3, 5, true), Some(4));
    assert_eq!(preload_target(0, 1, true), None);
}

#[test]
fn only_a_turned_current_image_is_saved() {
    let mut app = JinnImageViewer::default();
    assert_eq!(app.rotation_to_save(), None);
    app = viewer_with(&["a.png", "b.png"]);
    assert_eq!(app.rotation_to_save(), None);
    app.images[0].manual_rotation = 270;
    assert_eq!(app.rotation_to_save(), Some(270));
    app.current_index = 1;
    assert_eq!(app.rotation_to_save(), None);
}

#[test]
fn finishing_a_saved_rotation_resets_the_turn() {
    let mut app = viewer_with(&["a.png", "b.png"]);
    app.i18n.lang = Language::English;
    app.images[0].manual_rotation = 90;
    app.images[1].manual_rotation = 180;
    app.current_index = 1;
    app.finish_save_rotation(Err("read-only".to_string()));
    assert_eq!(app.images[1].manual_rotation, 180);
    assert_eq!(app.status_message, "Failed to save rotation: read-only");
    app.finish_save_rotation(Ok(()));
    assert_eq!(app.images[1].manual_rotation, 0);
    assert_eq!(app.images[0].manual_rotation, 90);
    assert_eq!(app.images[1].name, "b.png");
    assert_eq!(app.status_message, "Rotation saved to file");
}

#[test]
fn finishing_a_copy_reports_each_outcome() {
    let mut app = viewer_with(&["a.png"]);
    app.status_message = "before".to_string();
    assert_eq!(app.finish_copy(CopyResult::Exists), Some("图片已存在，已禁止复制。".to_string()));
    assert_eq!(app.status_message, "before");
    assert_eq!(app.finish_copy(CopyResult::Copied { dest: "/copy/a.png".to_string() }), None);
    assert_eq!(app.status_message, "复制后存放路径: /copy/a.png");
    assert_eq!(app.finish_copy(CopyResult::Failed { error: "disk full".to_string() }), None);
    assert_eq!(app.status_message, "复制失败: disk full");
}

#[test]
fn status_line_describes_the_current_image() {
    let mut app = JinnImageViewer::default();
    assert_eq!(app.status_line(100, "", ""), Some("未加载图片 — 双击或按 O 打开文件夹".to_string()));
    app = viewer_with(&["a.png", "b.png", "c.png"]);
    app.i18n.lang = Language::English;
    app.current_index = 1;
    assert_eq!(app.status_line(150, "800x600", "1.2 MB"), Some("b.png  |  2/3  |  150%  |  800x600  |  1.2 MB".to_string()));
    assert_eq!(app.status_line(100, "", ""), Some("b.png  |  2/3  |  100%".to_string()));
    app.two_column = true;
    assert_eq!(app.status_line(100, "", ""), Some("b.png  |  2/3  |  100%  |  Right: c.png".to_string()));
    app.status_message = "Saved".to_string();
    assert_eq!(app.status_line(100, "", ""), Some("Saved".to_string()));
    app.status_message.clear();
    app.current_index = 7;
    assert_eq!(app.status_line(100, "", ""), None);
}

#[test]
fn status_line_shortens_long_names() {
    let name = format!("{}.png", "n".repeat(40));
    let app = viewer_with(&[name.as_str()]);
    assert_eq!(app.status_line(100, "", ""), Some(format!("{}...  |  1/1  |  100%", "n".repeat(30))));
}

#[test]
fn a_step_back_undoes_a_step_forward() {
    for two_column in [false, true] {
        for start in 0..4usize {
            let mut app = viewer_with(&["a.png", "b.png", "c.png", "d.png"]);
            app.two_column = two_column;
            app.current_index = start;
            if two_column && start + 1 >= 4 {
                continue;
            }
            app.navigate(1);
            app.navigate(-1);
            assert_eq!(app.current_index, start);
            assert!(!app.at_end_page);
        }
    }
    let mut app = viewer_with(&["a.png", "b.png", "c.png"]);
    app.current_index = 2;
    app.navigate(-1);
    app.navigate(1);
    assert_eq!(app.current_index, 2);
}

#[test]
fn large_image_warning_names_size_and_pixels() {
    let i18n = I18n { lang: Language::English };
    let asking = ImageLoadAssessment::RequiresConfirmation { file_bytes: 300_000_000, pixels: 120_000_000 };
    assert_eq!(
        large_image_warning(&i18n, &asking, "286.1 MB"),
        "This image exceeds the recommended limit and may use substantial memory or cause visible lag. Continue?\nFile size: 286.1 MB\nPixels: 120000000"
    );
    let refused = ImageLoadAssessment::Impossible { width: 0, height: 0, pixels: 0 };
    assert_eq!(
        large_image_warning(&i18n, &refused, ""),
        "This image exceeds the safe dimensions or decode memory available on this system"
    );
}

#[test]
fn news_on_the_status_line_starts_its_timer() {
    let mut app = viewer_with(&["a.png", "b.png"]);
    app.navigate(1);
    assert!(!app.status_timed);
    assert_eq!(app.copy_source(1), None);
    assert!(app.status_timed);
    let mut app = viewer_with(&["a.png"]);
    app.remove_entry_at(0);
    assert!(app.status_timed);
    let mut app = viewer_with(&["a.png"]);
    assert!(app.finish_copy(CopyResult::Exists).is_some());
    assert!(!app.status_timed);
}

#[test]
fn actions_other_than_turning_ignore_the_rotation() {
    let mut app = viewer_with(&["a.png"]);
    app.images[0].manual_rotation = u16::MAX;
    assert_eq!(app.handle_action(ShortcutAction::ToggleFit), ActionEffect::SaveConfig);
    assert!(!app.fit_to_window);
}

#[test]
fn the_delete_dialog_stays_when_removing_past_the_end() {
    let mut app = viewer_with(&["a.png"]);
    app.show_delete_confirm_dialog = true;
    assert!(app.remove_entry_at(3).is_none());
    assert!(app.show_delete_confirm_dialog);
    assert_eq!(app.images.len(), 1);
}
