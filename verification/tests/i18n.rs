use treq_app::i18n::{tr, Locale};

/// Keys spread over the whole table, in alphabetical order.
const SAMPLE_KEYS: &[&str] = &[
    "action.copy",
    "action.copy_url",
    "action.preferences",
    "action.reload",
    "auth.hint",
    "auth.token",
    "backup.now",
    "backup.requests",
    "cookies.clear_all",
    "editor.choose_file",
    "editor.footer.codegen",
    "editor.tab.headers",
    "flash.copied_code",
    "move.empty",
    "proxy.none",
    "response.error",
    "response.fold_all",
    "response.saved",
    "response.status",
    "response.tab.history",
    "settings.backup.day",
    "settings.font",
    "settings.tab.net",
    "side.environment",
    "style.outlined",
    "trash.empty_confirm",
    "url.edit_label",
    "vars.complete_hint",
    "vars.preview",
    "vars.reveal",
];

#[test]
fn zh_and_en_tables_have_the_same_keys() {
    assert!(SAMPLE_KEYS.len() > 20, "样本键太少：{}", SAMPLE_KEYS.len());
    let missing_en: Vec<&str> = SAMPLE_KEYS
        .iter()
        .copied()
        .filter(|k| tr(Locale::En, k) == "?")
        .collect();
    let missing_zh: Vec<&str> = SAMPLE_KEYS
        .iter()
        .copied()
        .filter(|k| tr(Locale::Zh, k) == "?")
        .collect();
    assert!(missing_en.is_empty(), "英文表缺这些键：{missing_en:?}");
    assert!(missing_zh.is_empty(), "中文表缺这些键：{missing_zh:?}");
}

#[test]
fn unknown_key_falls_back_to_question_mark() {
    assert_eq!(tr(Locale::Zh, "根本没有这个键"), "?");
    assert_eq!(tr(Locale::En, "根本没有这个键"), "?");
}

#[test]
fn texts_follow_the_locale() {
    assert_eq!(tr(Locale::Zh, "app.name"), "treq");
    assert_eq!(tr(Locale::Zh, "menu.file"), "文件");
    assert_eq!(tr(Locale::En, "style.split"), "Split caret");
    assert_eq!(tr(Locale::Zh, "style.split.desc"), tr(Locale::Zh, "style.split.desc"));
    assert_ne!(tr(Locale::Zh, "action.send"), tr(Locale::En, "action.send"));
}

#[test]
fn locale_names_round_trip() {
    assert_eq!(Locale::from_str("en"), Locale::En);
    assert_eq!(Locale::from_str("zh"), Locale::Zh);
    assert_eq!(Locale::from_str("fr"), Locale::Zh);
    assert_eq!(Locale::from_str(Locale::En.as_str()), Locale::En);
    assert_eq!(Locale::from_str(Locale::Zh.as_str()), Locale::Zh);
}
