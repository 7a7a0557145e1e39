use treq_app::dialogs::{
    cookies_cleared_note, net_drafts, net_settings, overlay_to_close, trash_empty_press, NetSettings,
    OpenOverlays, Overlay,
};
use treq_app::i18n::Locale;

fn none_open() -> OpenOverlays {
    OpenOverlays {
        quick: false,
        suggest: false,
        popup: false,
        save_var: false,
        import: false,
        vars_panel: false,
        env_editor: false,
        trash: false,
        codegen: false,
    }
}

#[test]
fn esc_closes_the_topmost_overlay() {
    assert_eq!(overlay_to_close(none_open()), None);
    let mut s = none_open();
    s.codegen = true;
    assert_eq!(overlay_to_close(s), Some(Overlay::Codegen));
    s.env_editor = true;
    assert_eq!(overlay_to_close(s), Some(Overlay::EnvEditor));
    s.popup = true;
    assert_eq!(overlay_to_close(s), Some(Overlay::Popup));
    s.suggest = true;
    assert_eq!(overlay_to_close(s), Some(Overlay::Suggest));
    s.quick = true;
    assert_eq!(overlay_to_close(s), Some(Overlay::Quick));
}

#[test]
fn emptying_the_trash_takes_two_presses() {
    let (now, armed) = trash_empty_press(false);
    assert!(!now && armed);
    let (now, armed) = trash_empty_press(armed);
    assert!(now && !armed);
}

#[test]
fn network_settings_store_trimmed_proxy_and_timeout() {
    let r = net_settings("  http://127.0.0.1:8080 ", Ok(()), Ok(45), 30);
    assert_eq!(
        r,
        Ok(NetSettings {
            proxy: Some("http://127.0.0.1:8080".to_string()),
            timeout_sec: 45,
            proxy_draft: "http://127.0.0.1:8080".to_string(),
            timeout_draft: "45".to_string(),
        })
    );
    let r = net_settings("   ", Ok(()), Ok(30), 30);
    assert_eq!(
        r,
        Ok(NetSettings { proxy: None, timeout_sec: 30, proxy_draft: String::new(), timeout_draft: String::new() })
    );
}

#[test]
fn network_settings_report_the_proxy_error_first() {
    let r = net_settings("bad", Err("proxy".to_string()), Err("timeout".to_string()), 30);
    assert_eq!(r, Err("proxy".to_string()));
    let r = net_settings("", Ok(()), Err("timeout".to_string()), 30);
    assert_eq!(r, Err("timeout".to_string()));
}

#[test]
fn cookie_clearing_note_counts_what_went() {
    assert_eq!(cookies_cleared_note(Locale::En, true, 3), "Cleared 3 cookies");
    assert_eq!(cookies_cleared_note(Locale::En, false, 0), "Cleared all 0 cookies");
    assert_eq!(cookies_cleared_note(Locale::Zh, false, 12), "已清掉全部 12 条 cookie");
}

#[test]
fn network_boxes_keep_drafts_or_show_the_stored_values() {
    assert_eq!(
        net_drafts(String::new(), String::new(), Some("http://p:1".to_string()), Some(45)),
        ("http://p:1".to_string(), "45".to_string())
    );
    assert_eq!(
        net_drafts("typed".to_string(), "9".to_string(), Some("stored".to_string()), Some(45)),
        ("typed".to_string(), "9".to_string())
    );
    assert_eq!(net_drafts(String::new(), String::new(), None, None), (String::new(), String::new()));
}
