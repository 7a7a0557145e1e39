use treq_app::kv_table::{
    add_row, clear_table, has_manual_auth_header, has_manual_cookie_header, inject_cookies, kv_cell, kv_field_key, remove_row, set_cell,
    toggle_enabled, toggle_file, KvCell, KvRow, KvSlot, KvTables,
};
use treq_app::panes::KvWhich;

fn row(key: &str, value: &str) -> KvRow {
    KvRow {
        key: key.to_string(),
        value: value.to_string(),
        description: String::new(),
        enabled: true,
        is_file: false,
    }
}

fn tables() -> KvTables {
    KvTables {
        params: vec![row("q", "1"), row("page", "2")],
        headers: vec![row("Accept", "*/*")],
        form_data: vec![row("file", "/tmp/a")],
    }
}

#[test]
fn input_box_keys_name_their_cell() {
    assert_eq!(
        kv_cell("P:req-1:1:key"),
        Some(KvCell { which: KvWhich::Params, index: 1, slot: KvSlot::Key })
    );
    assert_eq!(
        kv_cell("H:r:0:desc"),
        Some(KvCell { which: KvWhich::Headers, index: 0, slot: KvSlot::Desc })
    );
    assert_eq!(
        kv_cell("FD:r:3:desc"),
        Some(KvCell { which: KvWhich::FormData, index: 3, slot: KvSlot::Value })
    );
    assert_eq!(
        kv_cell("X:r:x:value"),
        Some(KvCell { which: KvWhich::Headers, index: 0, slot: KvSlot::Value })
    );
    assert_eq!(kv_cell("P:r:1"), None);
    assert_eq!(kv_cell("P:r:1:key:extra"), None);
}

#[test]
fn field_keys_read_back() {
    let k = kv_field_key(KvWhich::FormData, "abc", 12, KvSlot::Value);
    assert_eq!(k, "FD:abc:12:value");
    assert_eq!(
        kv_cell(&k),
        Some(KvCell { which: KvWhich::FormData, index: 12, slot: KvSlot::Value })
    );
    assert_eq!(kv_field_key(KvWhich::Headers, "r", 0, KvSlot::Desc), "H:r:0:desc");
    assert_eq!(kv_field_key(KvWhich::Params, "r", 7, KvSlot::Key), "P:r:7:key");
}

#[test]
fn setting_a_cell_changes_only_that_cell() {
    let mut t = tables();
    set_cell(&mut t, KvCell { which: KvWhich::Params, index: 1, slot: KvSlot::Value }, "9".to_string());
    assert_eq!(t.params[1].value, "9");
    assert_eq!(t.params[0], row("q", "1"));
    set_cell(&mut t, KvCell { which: KvWhich::Headers, index: 0, slot: KvSlot::Desc }, "d".to_string());
    assert_eq!(t.headers[0].description, "d");
    let before = t.clone();
    set_cell(&mut t, KvCell { which: KvWhich::Params, index: 5, slot: KvSlot::Key }, "x".to_string());
    assert_eq!(t, before);
}

#[test]
fn toggling_adding_removing_and_clearing_rows() {
    let mut t = tables();
    toggle_enabled(&mut t, KvWhich::Headers, 0);
    assert!(!t.headers[0].enabled);
    toggle_enabled(&mut t, KvWhich::Headers, 0);
    assert!(t.headers[0].enabled);
    toggle_file(&mut t, 0);
    assert!(t.form_data[0].is_file);
    add_row(&mut t, KvWhich::Params, row("", ""));
    assert_eq!(t.params.len(), 3);
    remove_row(&mut t, KvWhich::Params, 0);
    assert_eq!(t.params[0].key, "page");
    remove_row(&mut t, KvWhich::Params, 10);
    assert_eq!(t.params.len(), 2);
    clear_table(&mut t, KvWhich::Params);
    assert!(t.params.is_empty());
    assert_eq!(t.headers.len(), 1);
}

#[test]
fn manual_authorization_header_is_found_in_any_case() {
    assert!(has_manual_auth_header(&[row("AUTHORIZATION", "Bearer x")]));
    assert!(has_manual_auth_header(&[row("Accept", "*"), row("authorization", "x")]));
    let mut off = row("Authorization", "x");
    off.enabled = false;
    assert!(!has_manual_auth_header(&[off]));
    assert!(!has_manual_auth_header(&[row("X-Authorization", "x")]));
}

#[test]
fn jar_cookies_go_in_unless_the_request_sets_its_own() {
    let mut h = vec![row("Accept", "*/*")];
    inject_cookies(&mut h, Some("sid=1".to_string()));
    assert_eq!(h.len(), 2);
    assert_eq!(h[1], row("Cookie", "sid=1"));
    let mut own = vec![row("COOKIE", "mine=1")];
    assert!(has_manual_cookie_header(&own));
    inject_cookies(&mut own, Some("sid=1".to_string()));
    assert_eq!(own, vec![row("COOKIE", "mine=1")]);
    let mut none = vec![row("Accept", "*/*")];
    inject_cookies(&mut none, None);
    assert_eq!(none.len(), 1);
    let mut off = row("Set-Cookie", "x");
    off.enabled = false;
    assert!(!has_manual_cookie_header(&[off]));
}
