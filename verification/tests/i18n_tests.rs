use jinn_imageviewer::i18n::{I18n, Language};
use jinn_imageviewer::theme::Theme;

#[test]
fn test_chinese_translation() {
    let i18n = I18n::new();
    assert_eq!(i18n.t("menu_file"), "文件");
}

#[test]
fn test_english_translation() {
    let mut i18n = I18n::new();
    i18n.lang = Language::English;
    assert_eq!(i18n.t("menu_file"), "File");
}

#[test]
fn test_missing_key_returns_key() {
    let i18n = I18n::new();
    assert_eq!(i18n.t("nonexistent_key"), "nonexistent_key");
}

#[test]
fn missing_key_returns_key_in_english_too() {
    let i18n = I18n { lang: Language::English };
    assert_eq!(i18n.t("no_such_text"), "no_such_text");
}

#[test]
fn default_translator_is_chinese() {
    let i18n = I18n::default();
    assert_eq!(i18n.lang, Language::Chinese);
    assert_eq!(i18n.t("status_refreshed"), "目录已刷新");
}

#[test]
fn theme_labels_in_both_languages() {
    assert_eq!(Theme::DeepSpace.label(), "Blue");
    assert_eq!(Theme::DeepSpace.label_localized(Language::Chinese), "蓝");
    assert_eq!(Theme::MinimalGray.label_localized(Language::English), "Gray");
    assert_eq!(Theme::all().len(), 5);
    assert_eq!(Theme::all()[0], Theme::ClassicDark);
}
