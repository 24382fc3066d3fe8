use unity_pipeline_cli::editor::Platform;
use unity_pipeline_cli::i18n::{
    current, detect, init, normalize, system_lang, t, tables, tr, ConfigBase, Language,
    AVAILABLE,
};

#[test]
fn locales_share_the_same_key_set() {
    let tb = tables();
    let mut en: Vec<&str> = tb.en.iter().map(|e| e.0).collect();
    let mut zh: Vec<&str> = tb.zh.iter().map(|e| e.0).collect();
    en.sort_unstable();
    zh.sort_unstable();
    assert_eq!(en, zh, "en/zh 键集合不一致");
}

#[test]
fn placeholders_are_substituted() {
    let out = tr(Language::En, "language.invalid", &["xx", "en, zh"]);
    assert!(!out.contains('{'), "占位符未替换: {out}");
    assert!(out.contains("xx"));
}

#[test]
fn placeholders_are_substituted_in_chinese_too() {
    let out = tr(Language::Zh, "language.invalid", &["xx", "en, zh"]);
    assert!(!out.contains('{'));
    assert_eq!(out, "不支持的语言：xx（可用：en, zh）");
}

#[test]
fn keys_occur_once() {
    let tb = tables();
    let mut en: Vec<&str> = tb.en.iter().map(|e| e.0).collect();
    let n = en.len();
    en.sort_unstable();
    en.dedup();
    assert_eq!(en.len(), n);
}

#[test]
fn unknown_key_is_shown_as_it_is() {
    assert_eq!(t(Language::Zh, "no.such.key"), "no.such.key");
    assert_eq!(tr(Language::En, "no.such.key {0}", &["x"]), "no.such.key x");
}

#[test]
fn messages_of_both_languages() {
    assert_eq!(t(Language::En, "command.success"), "✅ Success");
    assert_eq!(t(Language::Zh, "command.success"), "✅ 成功");
    assert_eq!(Language::En.code(), "en");
    assert_eq!(Language::Zh.code(), "zh");
}

#[test]
fn a_parameter_may_hold_a_later_placeholder() {
    let out = tr(Language::En, "projects.server_line", &["{1}", "7800", "!"]);
    assert_eq!(out, "   Server: 7800 (port 7800)!");
}

#[test]
fn codes_are_normalized() {
    assert_eq!(normalize("zh_CN.UTF-8"), Some(Language::Zh));
    assert_eq!(normalize(" EN_us "), Some(Language::En));
    assert_eq!(normalize("de_DE"), None);
    assert_eq!(normalize(""), None);
}

#[test]
fn windows_language_identifiers() {
    assert_eq!(system_lang(0x0804), Some(Language::Zh));
    assert_eq!(system_lang(0x0404), Some(Language::Zh));
    assert_eq!(system_lang(0x0409), Some(Language::En));
    assert_eq!(system_lang(0x0407), None);
}

#[test]
fn detection_order() {
    let none: Vec<Option<String>> = vec![None, None, None];
    let german_then_chinese: Vec<Option<String>> =
        vec![Some("de".to_owned()), None, Some("zh_CN".to_owned())];
    assert_eq!(detect(Some("en"), &german_then_chinese, Some(0x0804)), Language::En);
    assert_eq!(detect(None, &german_then_chinese, Some(0x0409)), Language::Zh);
    assert_eq!(detect(Some("fr"), &none, Some(0x0804)), Language::Zh);
    assert_eq!(detect(None, &none, None), Language::En);
    assert_eq!(init(Some("zh"), &none, None), Language::Zh);
}

#[test]
fn english_until_detected() {
    assert_eq!(current(None), Language::En);
    assert_eq!(current(Some(Language::Zh)), Language::Zh);
}

#[test]
fn setting_a_language() {
    assert_eq!(unity_pipeline_cli::i18n::set(Language::En, "zh_TW", true), Ok(Language::Zh));
    let unknown = unity_pipeline_cli::i18n::set(Language::En, "xx", true).unwrap_err();
    assert_eq!(unknown.text(), "Unsupported language: xx (available: en, zh)");
    let homeless = unity_pipeline_cli::i18n::set(Language::Zh, "en", false).unwrap_err();
    assert_eq!(homeless.text(), "无法确定配置目录");
}

#[test]
fn where_settings_are_kept() {
    let base = unity_pipeline_cli::i18n::config_dir;
    assert_eq!(base(Platform::Windows, true, true, true), Some(ConfigBase::AppData));
    assert_eq!(base(Platform::Windows, false, true, true), None);
    assert_eq!(base(Platform::MacOs, true, true, true), Some(ConfigBase::HomeLibrary));
    assert_eq!(base(Platform::MacOs, true, true, false), None);
    assert_eq!(base(Platform::Other, true, true, true), Some(ConfigBase::XdgConfig));
    assert_eq!(base(Platform::Other, true, false, true), Some(ConfigBase::HomeConfig));
    assert_eq!(base(Platform::Other, true, false, false), None);
}

#[test]
fn available_languages() {
    assert_eq!(AVAILABLE, ["en", "zh"]);
    assert_eq!(normalize(AVAILABLE[0]), Some(Language::En));
    assert_eq!(normalize(AVAILABLE[1]), Some(Language::Zh));
}
