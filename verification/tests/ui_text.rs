use look_everyting::colors::{Palette, Semantic};
use look_everyting::fonts::{bundled_font_paths, join_path, system_cjk_font_paths, Platform};
use look_everyting::i18n::{I18n, Locale};
use look_everyting::settings::ThemePreference;
use look_everyting::theme::{resolve_dark, Density, MaterialMode, Theme};
use look_everyting::viewer::{counter_label, display_file_name, next_audio_track, wrap_index, ErrorAction};

#[test]
fn translates_zh() {
    let i18n = I18n::new(Locale::ZhHans);
    assert_eq!(i18n.t("empty-title"), "拖放文件到此处");
}

#[test]
fn falls_back_to_key() {
    let i18n = I18n::new(Locale::EnUs);
    assert_eq!(i18n.t("missing-key"), "missing-key");
}

#[test]
fn switching_locale_matches_a_fresh_context() {
    let mut i18n = I18n::new(Locale::ZhHans);
    i18n.set_locale(Locale::EnUs);
    let fresh = I18n::new(Locale::EnUs);
    assert_eq!(i18n.locale(), Locale::EnUs);
    assert_eq!(i18n.t("empty-title"), fresh.t("empty-title"));
    assert_eq!(i18n.t("empty-title"), "Drop files here");
}

#[test]
fn locales_translate_the_same_keys() {
    let en = I18n::new(Locale::EnUs);
    let zh = I18n::new(Locale::ZhHans);
    for key in ["app-title", "counter", "toolbar-next", "toast-file-not-supported"] {
        assert_ne!(en.t(key), key);
        assert_ne!(zh.t(key), key);
    }
    assert_eq!(zh.t("nope"), "nope");
}

#[test]
fn locale_ids() {
    assert_eq!(Locale::from_id("en-US"), Some(Locale::EnUs));
    assert_eq!(Locale::from_id("zh-Hans"), Some(Locale::ZhHans));
    assert_eq!(Locale::from_id("fr-FR"), None);
    assert_eq!(Locale::EnUs.id(), "en-US");
    assert_eq!(Locale::fallback(), Locale::EnUs);
    assert_eq!(Locale::EnUs.bundle().get("toolbar-next"), "Next");
}

#[test]
fn from_preference_resolves() {
    assert!(Theme::from_preference(ThemePreference::Dark, false).dark);
    assert!(!Theme::from_preference(ThemePreference::Light, true).dark);
    assert!(Theme::from_preference(ThemePreference::System, true).dark);
    assert!(!Theme::from_preference(ThemePreference::System, false).dark);
}

#[test]
fn theme_parts() {
    assert!(resolve_dark(ThemePreference::System, true));
    assert!(!resolve_dark(ThemePreference::Light, true));
    assert_eq!(Theme::light().density, Density::Comfortable);
    assert!(Theme::default().dark);
    assert_eq!(MaterialMode::default(), MaterialMode::Original);
}

#[test]
fn bundled_font_paths_are_relative_to_exe_dir() {
    let dir = "C:\\app";
    let expected = join_path(&join_path(dir, "fonts", '\\'), "msyh.ttc", '\\');
    assert_eq!(expected, String::from(r"C:\app\fonts\msyh.ttc"));
}

#[test]
fn font_candidates() {
    let paths = bundled_font_paths("/opt/app/", '/');
    assert_eq!(paths.len(), 5);
    assert_eq!(paths[0], "/opt/app/fonts/NotoSansSC-Regular.otf");
    assert_eq!(paths[4], "/opt/app/fonts/simhei.ttf");
    let win = system_cjk_font_paths(Platform::Windows, "C:\\Windows");
    assert_eq!(win[0], "C:\\Windows\\Fonts\\msyh.ttc");
    assert_eq!(win.len(), 5);
    assert_eq!(system_cjk_font_paths(Platform::Linux, "").len(), 4);
    assert_eq!(system_cjk_font_paths(Platform::MacOs, "")[0], "/System/Library/Fonts/PingFang.ttc");
    assert!(system_cjk_font_paths(Platform::Other, "").is_empty());
    assert_eq!(join_path("a", "/b", '/'), "/b");
    assert_eq!(join_path("", "b", '/'), "b");
}

#[test]
fn palette_tokens() {
    assert_eq!(Palette::CANVAS, [0x0A, 0x0A, 0x0B, 0xFF]);
    assert_eq!(Palette::SCRIM, [0x00, 0x00, 0x00, 0xB3]);
    assert_eq!(Semantic::INTERACTIVE, Palette::ACCENT);
    assert_eq!(Semantic::DESTRUCTIVE, [0xEF, 0x44, 0x44, 0xFF]);
}

#[test]
fn navigation_wraps_and_returns() {
    assert_eq!(wrap_index(0, -1, 5), 4);
    assert_eq!(wrap_index(4, 1, 5), 0);
    assert_eq!(wrap_index(2, 13, 5), 0);
    assert_eq!(wrap_index(2, -13, 5), 4);
    for d in [-7isize, -1, 0, 1, 3, 11] {
        for c in 0..5usize {
            let there = wrap_index(c, d, 5);
            assert_eq!(wrap_index(there, -d, 5), c);
        }
    }
}

#[test]
fn track_cycle_and_labels() {
    assert_eq!(next_audio_track(0, 3), 1);
    assert_eq!(next_audio_track(2, 3), 0);
    assert_eq!(next_audio_track(5, 1), 5);
    let en = I18n::new(Locale::EnUs);
    assert_eq!(counter_label(&en, 2, 10), "3 / 10");
    assert_eq!(counter_label(&en, 0, 0), "");
    let zh = I18n::new(Locale::ZhHans);
    assert_eq!(counter_label(&zh, 0, 7), "第 1 张，共 7 张");
    assert_eq!(display_file_name("/pics/cat.png"), "cat.png");
    assert_eq!(display_file_name("/"), "");
    assert!(matches!(ErrorAction::OpenExternally, ErrorAction::OpenExternally));
}

#[test]
fn counter_texts_keep_their_placeholders() {
    for locale in [Locale::EnUs, Locale::ZhHans] {
        let bundle = locale.bundle();
        let text = bundle.get("counter");
        assert_ne!(text, "counter");
        assert!(text.contains("{current}") && text.contains("{total}"));
    }
}
