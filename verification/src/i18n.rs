//! Interface languages and the translation table.
use vstd::prelude::*;

use crate::text::str_eq;

verus! {

/// An interface language.
#[derive(Clone, Copy, Debug, PartialEq, Eq, Structural)]
pub enum Language {
    Chinese,
    English,
}

/// The name of a language in that language.
pub open spec fn language_label(lang: Language) -> &'static str {
    match lang {
        Language::Chinese => "简体中文",
        Language::English => "English",
    }
}

impl Language {
    /// The name of the language, written in that language.
    pub fn label(&self) -> (r: &'static str)
        ensures
            r == language_label(*self),
    {
        match self {
            Language::Chinese => "简体中文",
            Language::English => "English",
        }
    }
}

/// Every interface text: its key, its Chinese text and its English text.
pub const TRANSLATIONS: [(&'static str, &'static str, &'static str); 114] = [
    ("menu_file", "文件", "File"),
    ("menu_open_folder", "打开文件夹", "Open Folder"),
    ("menu_exit", "退出", "Exit"),
    ("menu_refresh", "刷新目录", "Refresh Folder"),
    ("menu_recent_folder", "打开最近目录", "Open Recent Folder"),
    ("status_recent_folder_missing", "最近目录不存在", "Recent folder not found"),
    ("menu_view", "视图", "View"),
    ("menu_prev", "上一张", "Previous"),
    ("menu_next", "下一张", "Next"),
    ("menu_fit_window", "适应窗口", "Fit Window"),
    ("menu_dual_column", "双列展示", "Dual Column"),
    ("menu_image_sort", "图片排列", "Image Order"),
    ("sort_by_size", "按大小排列", "Sort by Size"),
    ("sort_by_date", "按日期排序", "Sort by Date"),
    ("sort_by_name", "按文件名排列", "Sort by File Name"),
    ("sort_reverse", "倒序", "Reverse Order"),
    ("menu_settings", "设置", "Settings"),
    ("menu_actions", "操作", "Actions"),
    ("menu_hotkeys", "快捷键", "Hotkeys"),
    ("menu_help", "帮助", "Help"),
    ("menu_shortcuts", "自定义快捷键", "Customize Shortcuts"),
    ("menu_copy_left", "复制图片(左/当前)", "Copy Image (Left/Current)"),
    ("menu_copy_right", "复制图片(右)", "Copy Image (Right)"),
    ("menu_about", "关于", "About"),
    ("action_open_folder", "打开文件夹", "Open Folder"),
    ("action_prev_image", "上一张", "Previous"),
    ("action_next_image", "下一张", "Next"),
    ("action_delete_image", "删除图片", "Delete Image"),
    ("action_toggle_dual", "双列展示", "Dual Column"),
    ("action_copy_left", "复制图片(左/当前)", "Copy Image (Left/Current)"),
    ("action_copy_right", "复制图片(右)", "Copy Image (Right)"),
    ("action_toggle_fit", "适应窗口 (鼠标右键)", "Fit Window (Right Click)"),
    ("action_about", "关于", "About"),
    ("action_fullscreen", "全屏模式", "Fullscreen"),
    ("action_show_exif", "图片信息", "Image Info"),
    ("image_info_file", "文件信息", "File Info"),
    ("image_info_image", "图像属性", "Image Properties"),
    ("image_info_exif", "EXIF 元数据", "EXIF Metadata"),
    ("image_info_gps", "GPS 信息", "GPS Info"),
    ("action_toggle_slideshow", "幻灯片放映", "Slideshow"),
    ("fullscreen_exit_hint", "按 F11 退出全屏", "Press F11 to exit fullscreen"),
    ("slideshow_exit_hint", "幻灯片放映中（按 F5 退出）", "Slideshow mode (press F5 to exit)"),
    ("end_page_hint", "已浏览到最后一张图片\n下一页自动回到第一张图片", "You have reached the last image\nNext page will return to the first image"),
    ("settings_theme", "主题", "Theme"),
    ("settings_thumbnails", "显示缩略图轨道", "Show Thumbnail Track"),
    ("status_no_images", "未加载图片 — 双击或按 O 打开文件夹", "No images — double-click or press O to open folder"),
    ("status_zoom", "缩放", "Zoom"),
    ("status_right", "右", "Right"),
    ("status_all_deleted", "所有图片已删除", "All images deleted"),
    ("status_deleted", "已删除", "Deleted"),
    ("status_delete_failed", "删除失败", "Delete failed"),
    ("status_file_missing", "文件已被外部删除，已从列表移除", "File was deleted externally, removed from list"),
    ("status_image_corrupted", "图片损坏或无法解码，已跳过", "Image corrupted or unreadable, skipped"),
    ("status_loading", "加载中...", "Loading..."),
    ("large_image_title", "图片加载确认", "Confirm Image Loading"),
    ("large_image_warning", "图片超过推荐限制，加载可能占用大量内存并导致明显卡顿。是否继续？", "This image exceeds the recommended limit and may use substantial memory or cause visible lag. Continue?"),
    ("large_image_file_size", "文件大小", "File size"),
    ("large_image_pixels", "像素数", "Pixels"),
    ("large_image_load", "继续加载", "Load Anyway"),
    ("large_image_cancel", "放弃加载", "Cancel"),
    ("large_image_waiting_confirmation", "请确认是否加载此图片", "Please confirm whether to load this image"),
    ("large_image_unavailable", "图片尺寸或解码内存需求超过当前系统可安全处理的范围，无法加载", "This image exceeds the safe dimensions or decode memory available on this system"),
    ("action_rotate", "旋转90°", "Rotate 90°"),
    ("action_rotate_cw", "顺时针旋转", "Rotate CW"),
    ("action_rotate_ccw", "逆时针旋转", "Rotate CCW"),
    ("ctx_fit_window", "适应窗口", "Fit Window"),
    ("ctx_rotate_cw", "顺时针旋转 90°", "Rotate 90° CW"),
    ("ctx_rotate_ccw", "逆时针旋转 90°", "Rotate 90° CCW"),
    ("ctx_copy_image", "复制图片", "Copy Image"),
    ("ctx_delete", "删除", "Delete"),
    ("ctx_open_folder", "打开文件夹", "Open Folder"),
    ("ctx_refresh", "刷新目录", "Refresh"),
    ("menu_register_assoc", "设为默认图片程序", "Set as Default Viewer"),
    ("menu_unregister_assoc", "取消文件关联", "Remove File Association"),
    ("status_register_ok", "文件关联注册成功（需要管理员权限）", "File association registered (admin required)"),
    ("status_register_fail", "注册失败，请尝试以管理员身份运行程序", "Registration failed, try running as administrator"),
    ("status_unregister_ok", "文件关联已取消", "File association removed"),
    ("status_unregister_fail", "取消关联失败", "Failed to remove association"),
    ("ctx_save_rotation", "保存旋转到文件", "Save Rotation to File"),
    ("status_rotation_saved", "旋转已保存到文件", "Rotation saved to file"),
    ("status_rotation_save_fail", "保存旋转失败", "Failed to save rotation"),
    ("menu_print", "打印", "Print"),
    ("status_print_fail", "打印失败", "Print failed"),
    ("status_refreshed", "目录已刷新", "Folder refreshed"),
    ("status_no_right_image", "当前没有右图可复制", "No right image to copy"),
    ("status_copy_exists", "图片已存在，已禁止复制。", "Image already exists, copy denied."),
    ("status_copy_path", "复制后存放路径", "Copied to"),
    ("status_copy_failed", "复制失败", "Copy failed"),
    ("status_no_images_in_folder", "文件夹中没有找到图片文件 (.png/.jpg/.jpeg/.bmp/.gif/.webp/.tiff)", "No image files found in folder (.png/.jpg/.jpeg/.bmp/.gif/.webp/.tiff)"),
    ("status_config_save_failed", "配置保存失败", "Failed to save configuration"),
    ("settings_title", "自定义快捷键", "Customize Shortcuts"),
    ("settings_zoom_step", "鼠标滚轮缩放步长 (%):", "Mouse wheel zoom step (%):"),
    ("settings_save", "保存设置", "Save"),
    ("settings_reset", "恢复默认", "Reset Defaults"),
    ("settings_saved_msg", "快捷键设置已保存", "Shortcut settings saved"),
    ("settings_reset_msg", "已恢复默认设置", "Defaults restored"),
    ("settings_conflict", "快捷键冲突", "Hotkey conflict"),
    ("settings_conflict_warn", "存在快捷键冲突，请修改后再保存", "Hotkey conflicts detected, please fix before saving"),
    ("settings_tip", "温馨提示: 鼠标右键在图片区域点击可快速适应窗口", "Tip: Right-click on image area to fit window"),
    ("settings_close", "关闭窗口", "Close"),
    ("settings_language", "语言", "Language"),
    ("settings_confirm_delete", "删除前确认", "Confirm before delete"),
    ("delete_confirm_title", "确认删除", "Confirm Delete"),
    ("delete_confirm_msg", "确定要删除这张图片吗？", "Are you sure you want to delete this image?"),
    ("delete_confirm_yes", "确定", "Yes"),
    ("delete_confirm_no", "取消", "Cancel"),
    ("about_title", "关于", "About"),
    ("about_author", "作者: 叶子Jinn", "Author: YeziJinn"),
    ("about_github", "访问GitHub项目", "Visit GitHub"),
    ("about_github_error", "打开GitHub失败", "Failed to open GitHub"),
    ("dialog_notice", "提示", "Notice"),
    ("dialog_ok", "确定", "OK"),
    ("image_open_hint", "打开文件夹以查看图片\n\n双击此处 或 按 O 键", "Open a folder to view images\n\nDouble-click here or press O"),
    ("image_load_failed", "加载图片失败", "Failed to load image"),
];

/// The Chinese and English texts listed last for `key` in `table`: as the
/// table is built by inserting its rows in order, a later row for the same
/// key replaces an earlier one.
pub open spec fn lookup_text(table: Seq<(&'static str, &'static str, &'static str)>, key: Seq<char>) -> Option<
    (&'static str, &'static str),
>
    decreases table.len(),
{
    if table.len() == 0 {
        None
    } else if table.last().0@ == key {
        Some((table.last().1, table.last().2))
    } else {
        lookup_text(table.drop_last(), key)
    }
}

/// The text shown for `key` in `lang`: its translation, or the key itself
/// when the table has no entry for it.
pub open spec fn translation(lang: Language, key: &'static str) -> &'static str {
    match lookup_text(TRANSLATIONS@, key@) {
        Some((zh, en)) => match lang {
            Language::Chinese => zh,
            Language::English => en,
        },
        None => key,
    }
}

/// Translates interface texts into the current language.
pub struct I18n {
    /// The current language.
    pub lang: Language,
}

impl I18n {
    /// A translator for Chinese, the default language.
    pub fn new() -> (r: Self)
        ensures
            r.lang == Language::Chinese,
    {
        I18n { lang: Language::Chinese }
    }

    /// The text for `key` in the current language, or `key` itself when no
    /// text is known for it.
    pub fn t(&self, key: &'static str) -> (r: &'static str)
        ensures
            r == translation(self.lang, key),
    {
        let mut i: usize = 114;
        assert(TRANSLATIONS@.take(114) =~= TRANSLATIONS@);
        while i > 0
            invariant
                i <= 114,
                TRANSLATIONS@.len() == 114,
                lookup_text(TRANSLATIONS@, key@) == lookup_text(TRANSLATIONS@.take(i as int), key@),
            decreases i,
        {
            let entry = TRANSLATIONS[i - 1];
            assert(TRANSLATIONS@.take(i as int).last() == entry);
            assert(TRANSLATIONS@.take(i as int).drop_last() =~= TRANSLATIONS@.take(i as int - 1));
            if str_eq(entry.0, key) {
                return match self.lang {
                    Language::Chinese => entry.1,
                    Language::English => entry.2,
                };
            }
            i -= 1;
        }
        key
    }
}

impl Default for I18n {
    fn default() -> (r: Self)
        ensures
            r.lang == Language::Chinese,
    {
        I18n::new()
    }
}

} // verus!
