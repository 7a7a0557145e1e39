use treq_app::i18n::Locale;
use treq_app::vars_save::{
    default_var_path, saved_var_note, var_preview, var_target, var_target_name, EnvRef,
};

fn env(id: &str, name: &str) -> EnvRef {
    EnvRef { id: id.to_string(), name: name.to_string() }
}

#[test]
fn dialog_path_comes_from_the_line_or_the_filter() {
    assert_eq!(default_var_path(Some("$.data.id".to_string()), "$.x"), "$.data.id");
    assert_eq!(default_var_path(None, "  $.data.token "), "$.data.token");
    assert_eq!(default_var_path(None, "   "), "$");
}

#[test]
fn variables_go_to_the_active_environment_or_the_base() {
    let envs = vec![env("dev", "Development"), env("prod", "Production")];
    assert_eq!(var_target(&envs, Some("prod")), Some(1));
    assert_eq!(var_target(&envs, Some("gone")), None);
    assert_eq!(var_target(&envs, None), None);
    assert_eq!(var_target_name(&envs, Some("dev"), "Base"), "Development");
    assert_eq!(var_target_name(&envs, Some("gone"), "Base"), "Base");
}

#[test]
fn saved_variable_note_names_variable_and_environment() {
    assert_eq!(saved_var_note(Locale::En, "token", "Dev"), "Saved token to Dev");
    assert_eq!(saved_var_note(Locale::Zh, "token", "基础"), "已保存 token 到 基础");
}

#[test]
fn variable_preview_is_cut_and_counts_matches() {
    assert_eq!(var_preview(Locale::En, "abc", 1), "abc");
    let long: String = "x".repeat(85);
    let shown = var_preview(Locale::En, &long, 1);
    assert_eq!(shown.chars().count(), 81);
    assert!(shown.ends_with('…'));
    assert_eq!(var_preview(Locale::En, "v", 3), "v（ 3 matches, using the first");
}
