use treq_app::keys::{keystroke_desc, log_too_big, remember_key, RECENT_KEYS_MAX};

#[test]
fn key_presses_are_written_with_their_modifiers() {
    assert_eq!(keystroke_desc(true, false, false, true, "k", Some("K")), "cmd+shift+k [K]");
    assert_eq!(keystroke_desc(false, true, true, false, "enter", None), "ctrl+alt+enter");
    assert_eq!(keystroke_desc(false, false, false, false, "a", Some("a")), "a [a]");
}

#[test]
fn only_the_latest_key_presses_are_kept() {
    let mut keys: Vec<String> = Vec::new();
    for i in 0..RECENT_KEYS_MAX + 3 {
        remember_key(&mut keys, format!("k{i}"));
    }
    assert_eq!(keys.len(), RECENT_KEYS_MAX);
    assert_eq!(keys[0], "k3");
    assert_eq!(keys[RECENT_KEYS_MAX - 1], format!("k{}", RECENT_KEYS_MAX + 2));
}

#[test]
fn crash_log_is_reset_past_its_limit() {
    assert!(!log_too_big(256 * 1024));
    assert!(log_too_big(256 * 1024 + 1));
}
