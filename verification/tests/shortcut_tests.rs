use jinn_imageviewer::app::JinnImageViewer;
use jinn_imageviewer::config::{
    default_image_sort_mode, language_from_name, language_name, sort_mode_from_name, sort_mode_name,
    theme_from_name, theme_name, ShortcutSetting,
};
use jinn_imageviewer::i18n::{I18n, Language};
use jinn_imageviewer::shortcuts::{
    all_key_options, conflict_message, key_from_label, key_label, modifiers_from_flags, Key, Modifiers,
    ShortcutAction, ShortcutConfig, ShortcutEntry, OFFERED_KEYS,
};
use jinn_imageviewer::sorting::ImageSortMode;
use jinn_imageviewer::theme::Theme;

#[test]
fn test_shortcut_key_labels_round_trip() {
    let key = Key::F5;
    assert_eq!(key_from_label(key_label(key)), Some(key));
}

#[test]
fn every_offered_key_reads_back() {
    for key in OFFERED_KEYS.iter() {
        assert_eq!(key_from_label(key_label(*key)), Some(*key));
    }
    assert_eq!(key_from_label("Home"), None);
    assert_eq!(key_label(Key::Other), "?");
    assert_eq!(key_label(Key::ArrowLeft), "\u{2190}");
}

#[test]
fn key_options_pair_labels_and_keys() {
    let options = all_key_options();
    assert_eq!(options.len(), 57);
    assert_eq!(options[0], ("A", Key::A));
    assert_eq!(options[26], ("0", Key::Num0));
    assert_eq!(options[56], ("Tab", Key::Tab));
}

#[test]
fn action_keys_round_trip() {
    let actions = [
        ShortcutAction::OpenFolder,
        ShortcutAction::PrevImage,
        ShortcutAction::NextImage,
        ShortcutAction::DeleteImage,
        ShortcutAction::ToggleDual,
        ShortcutAction::CopyLeft,
        ShortcutAction::CopyRight,
        ShortcutAction::ToggleFit,
        ShortcutAction::About,
        ShortcutAction::ToggleFullscreen,
        ShortcutAction::RotateCW,
        ShortcutAction::RotateCCW,
        ShortcutAction::ShowEXIF,
        ShortcutAction::ToggleSlideshow,
    ];
    for a in actions.iter() {
        assert_eq!(ShortcutAction::from_i18n_key(a.i18n_key()), Some(*a));
    }
    assert_eq!(ShortcutAction::ToggleFullscreen.i18n_key(), "action_fullscreen");
    assert_eq!(ShortcutAction::from_i18n_key("action_nothing"), None);
}

#[test]
fn default_bindings() {
    let config = ShortcutConfig::defaults();
    assert_eq!(config.entries.len(), 16);
    assert_eq!(config.entries[0], ShortcutEntry::new(ShortcutAction::OpenFolder, Key::O, Modifiers::none()));
    assert_eq!(config.entries[2].key, Key::ArrowUp);
    assert_eq!(config.entries[15].action, ShortcutAction::ToggleSlideshow);
}

fn setting(action: &str, key: &str, alt: bool, shift: bool, ctrl: bool) -> ShortcutSetting {
    ShortcutSetting { action: action.to_string(), key: key.to_string(), alt, shift, ctrl }
}

#[test]
fn saved_bindings_apply_by_occurrence() {
    let mut config = ShortcutConfig::defaults();
    let saved = vec![
        setting("action_prev_image", "A", false, false, false),
        setting("action_bogus", "B", false, false, false),
        setting("action_prev_image", "NoSuchKey", false, false, false),
        setting("action_prev_image", "B", true, false, true),
        setting("action_prev_image", "C", false, false, false),
    ];
    config.apply_settings(&saved);
    assert_eq!(config.entries[1].key, Key::A);
    assert_eq!(config.entries[2].key, Key::B);
    assert_eq!(
        config.entries[2].modifiers,
        Modifiers { alt: true, ctrl: false, shift: false, mac_cmd: false, command: true }
    );
    assert_eq!(config.entries[3].key, Key::ArrowRight);
}

#[test]
fn saved_bindings_read_back_unchanged() {
    let mut config = ShortcutConfig::defaults();
    config.entries[4].key = Key::N;
    config.entries[4].modifiers = modifiers_from_flags(false, true, true);
    let saved = config.to_settings();
    assert_eq!(saved.len(), 16);
    assert_eq!(saved[4].action, "action_next_image");
    assert_eq!(saved[4].key, "N");
    assert!(saved[4].shift && saved[4].ctrl && !saved[4].alt);
    let mut restored = ShortcutConfig::defaults();
    restored.apply_settings(&saved);
    assert_eq!(restored.entries, config.entries);
}

#[test]
fn conflicts_are_listed_pairwise() {
    let mut config = ShortcutConfig::defaults();
    let i18n = I18n { lang: Language::English };
    assert!(config.conflicts(&i18n).is_empty());
    config.entries[0].key = Key::V;
    let conflicts = config.conflicts(&i18n);
    assert_eq!(conflicts.len(), 1);
    assert_eq!(conflicts[0], format!("{} / {}", i18n.t("action_open_folder"), i18n.t("action_toggle_fit")));
    config.entries[9].modifiers = modifiers_from_flags(true, false, false);
    assert!(config.conflicts(&i18n).is_empty());
    let message = conflict_message(&i18n, &vec!["a / b".to_string(), "c / d".to_string()]);
    assert_eq!(message, format!("{}: a / b, c / d", i18n.t("settings_conflict")));
}

#[test]
fn config_names_round_trip() {
    for lang in [Language::Chinese, Language::English] {
        assert_eq!(language_from_name(language_name(lang)), lang);
    }
    assert_eq!(language_from_name("fr"), Language::Chinese);
    for theme in Theme::all() {
        assert_eq!(theme_from_name(theme_name(theme)), theme);
    }
    assert_eq!(theme_from_name("Neon"), Theme::ClassicDark);
    for mode in [ImageSortMode::Size, ImageSortMode::Date, ImageSortMode::Name] {
        assert_eq!(sort_mode_from_name(sort_mode_name(mode)), mode);
    }
    assert_eq!(sort_mode_from_name("random"), ImageSortMode::Date);
    assert_eq!(default_image_sort_mode(), "date");
}

#[test]
fn saved_settings_read_back_into_a_fresh_viewer() {
    let mut a = JinnImageViewer::default();
    a.i18n.lang = Language::English;
    a.current_theme = Theme::AuroraGreen;
    a.show_thumbnails = false;
    a.confirm_before_delete = true;
    a.fit_to_window = false;
    a.two_column = true;
    a.fullscreen = true;
    a.image_sort_mode = ImageSortMode::Size;
    a.image_sort_reversed = true;
    a.shortcuts.entries[0].key = Key::F5;
    a.shortcuts.entries[0].modifiers = modifiers_from_flags(true, true, false);
    let saved = a.saved_settings();
    assert_eq!(saved.language, "en");
    assert_eq!(saved.image_sort_mode, "size");
    let mut b = JinnImageViewer::default();
    b.apply_saved_settings(&saved);
    assert_eq!(b.i18n.lang, Language::English);
    assert_eq!(b.current_theme, Theme::AuroraGreen);
    assert!(!b.show_thumbnails && b.confirm_before_delete && !b.fit_to_window);
    assert!(b.two_column && b.fullscreen && b.image_sort_reversed);
    assert_eq!(b.image_sort_mode, ImageSortMode::Size);
    assert_eq!(b.shortcuts.entries, a.shortcuts.entries);
}
