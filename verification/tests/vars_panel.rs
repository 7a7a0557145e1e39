use treq_app::i18n::Locale;
use treq_app::vars_panel::{edit_target, env_line, missing_line, shown_value};

#[test]
fn secret_values_are_masked_unless_revealed() {
    assert_eq!(shown_value("abc123", true, false), "••••••");
    assert_eq!(shown_value("abc123", true, true), "abc123");
    assert_eq!(shown_value("plain", false, false), "plain");
    assert_eq!(shown_value("", true, false), "（空）");
    assert_eq!(shown_value("", false, true), "（空）");
}

#[test]
fn missing_variables_are_counted_and_listed() {
    let names = vec!["token".to_string(), "host".to_string()];
    assert_eq!(missing_line(Locale::En, &names), "Undefined variables: 2：token、host");
    assert_eq!(missing_line(Locale::Zh, &names[..1]), "未定义变量 1：token");
    assert_eq!(missing_line(Locale::En, &[]), "Undefined variables: 0：");
}

#[test]
fn environment_line_and_edit_target() {
    assert_eq!(env_line(Locale::En, "Dev"), "Environment：Dev · secret-looking names are masked");
    assert_eq!(edit_target(Some("env-1")), "env-1");
    assert_eq!(edit_target(None), "base");
}
