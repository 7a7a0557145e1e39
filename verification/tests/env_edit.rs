use treq_app::env_edit::{active_env_choice, add_var, remove_var, rows_to_vars, set_key_at, set_value_at, EnvRows};

fn p(k: &str, v: &str) -> (String, String) {
    (k.to_string(), v.to_string())
}

#[test]
fn edits_apply_only_to_the_open_environment() {
    let mut ed = EnvRows { target: "dev".to_string(), vars: vec![p("host", "a")] };
    set_key_at(&mut ed, "dev", 0, "base_url".to_string());
    set_value_at(&mut ed, "dev", 0, "http://x".to_string());
    assert_eq!(ed.vars, vec![p("base_url", "http://x")]);
    set_value_at(&mut ed, "prod", 0, "zzz".to_string());
    set_key_at(&mut ed, "dev", 5, "k".to_string());
    assert_eq!(ed.vars, vec![p("base_url", "http://x")]);
    add_var(&mut ed);
    assert_eq!(ed.vars, vec![p("base_url", "http://x"), p("", "")]);
    remove_var(&mut ed, 0);
    assert_eq!(ed.vars, vec![p("", "")]);
    remove_var(&mut ed, 3);
    assert_eq!(ed.vars.len(), 1);
}

#[test]
fn saving_drops_nameless_rows_and_keeps_the_last_value() {
    let rows = vec![p("a", "1"), p("", "lost"), p("b", "2"), p("a", "3")];
    assert_eq!(rows_to_vars(&rows), vec![p("a", "3"), p("b", "2")]);
    assert!(rows_to_vars(&[]).is_empty());
}

#[test]
fn base_environment_is_no_active_id() {
    assert_eq!(active_env_choice("base"), None);
    assert_eq!(active_env_choice("env-1"), Some("env-1".to_string()));
}
