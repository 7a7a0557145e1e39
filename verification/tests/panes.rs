use treq_app::move_dialog::MoveDialog;
use treq_app::model::{Collection, Group, RequestItem};
use treq_app::i18n::Locale;
use treq_app::menu::BodyKind;
use treq_app::panes::{
    auth_kind_key, body_kind_label, kv_prefix, popup_click_closes, sse_time_for, status_color,
    status_tone, truncate_url, KvWhich, PillTone, StatusColor,
};
use treq_app::tree::find_request;

#[test]
fn time_column_only_fills_the_first_line_of_each_event() {
    let marks = vec![(0usize, "10:00:00.000".to_string()), (3, "10:00:01.500".to_string())];
    assert_eq!(sse_time_for(&marks, true, 0), Some("10:00:00.000"));
    assert_eq!(sse_time_for(&marks, true, 3), Some("10:00:01.500"));
    assert_eq!(sse_time_for(&marks, true, 1), Some(""), "中间行留白占位");
    assert_eq!(sse_time_for(&marks, true, 99), Some(""));
    assert_eq!(sse_time_for(&marks, false, 0), None, "开关关掉不显示时间列");
    assert_eq!(sse_time_for(&[], true, 0), None, "不是事件流就没有时间列");
}

#[test]
fn short_urls_stay_and_long_ones_lose_their_middle() {
    assert_eq!(truncate_url("http://a/b", 20), "http://a/b");
    assert_eq!(truncate_url("http://example.com/x", 10), "http://exa");
    let long = "https://api.example.com/v1/users/42/orders";
    let t = truncate_url(long, 21);
    assert_eq!(t, "https://a…42/orders");
    assert_eq!(t.chars().count(), 9 + 1 + 9);
    assert_eq!(truncate_url("订单详情接口地址很长很长很长很长很长的路径", 16), "订单详情接口…长很长的路径");
}

#[test]
fn auth_kinds_map_to_label_keys() {
    assert_eq!(auth_kind_key("bearer"), "auth.kind.bearer");
    assert_eq!(auth_kind_key("basic"), "auth.kind.basic");
    assert_eq!(auth_kind_key("apikey"), "auth.kind.apikey");
    assert_eq!(auth_kind_key("oauth"), "auth.kind.none");
    assert_eq!(auth_kind_key(""), "auth.kind.none");
}

#[test]
fn kv_tables_have_short_tags() {
    assert_eq!(kv_prefix(KvWhich::Params), "P");
    assert_eq!(kv_prefix(KvWhich::Headers), "H");
    assert_eq!(kv_prefix(KvWhich::FormData), "FD");
}

#[test]
fn move_dialog_wraps_the_highlight() {
    let mut d = MoveDialog::new("r1".into(), "下单".into());
    assert_eq!(d.selected, 0);
    d.step(-1, 4);
    assert_eq!(d.selected, 3);
    d.step(1, 4);
    assert_eq!(d.selected, 0);
    d.step(6, 4);
    assert_eq!(d.selected, 2);
    d.step(1, 0);
    assert_eq!(d.selected, 2);
    d.set_query("abc".into());
    assert_eq!(d.selected, 0);
    assert_eq!(d.query, "abc");
    assert_eq!(d.req_id, "r1");
}

fn req(id: &str) -> RequestItem {
    RequestItem { id: id.into(), name: id.into() }
}

#[test]
fn renames_requests_inside_groups_too() {
    let mut cols = vec![Collection {
        id: "c".into(),
        name: "c".into(),
        requests: vec![req("flat")],
        groups: vec![Group { id: "g".into(), parent: None, name: "g".into(), requests: vec![req("nested")] }],
    }];
    let (ci, gi, ri) = find_request(&cols, "nested").expect("分组内请求");
    assert_eq!((ci, gi, ri), (0, Some(0), 0));
    cols[ci].groups[gi.unwrap()].requests[ri].name = "新名字".into();
    let (ci, gi, ri) = find_request(&cols, "flat").expect("集合直属请求");
    assert_eq!(gi, None);
    cols[ci].requests[ri].name = "外层".into();
    assert_eq!(cols[0].groups[0].requests[0].name, "新名字");
    assert_eq!(cols[0].requests[0].name, "外层");
    assert!(find_request(&cols, "没有").is_none());
}

#[test]
fn status_codes_pick_their_tone_and_color() {
    assert_eq!(status_tone(Some(200)), PillTone::Success);
    assert_eq!(status_tone(Some(299)), PillTone::Success);
    assert_eq!(status_tone(Some(301)), PillTone::Info);
    assert_eq!(status_tone(Some(404)), PillTone::Warning);
    assert_eq!(status_tone(Some(500)), PillTone::Danger);
    assert_eq!(status_tone(Some(101)), PillTone::Danger);
    assert_eq!(status_tone(None), PillTone::Danger);
    assert_eq!(status_color(Some(204)), StatusColor::Green);
    assert_eq!(status_color(Some(302)), StatusColor::Blue);
    assert_eq!(status_color(Some(418)), StatusColor::Orange);
    assert_eq!(status_color(Some(503)), StatusColor::Red);
    assert_eq!(status_color(None), StatusColor::Dim);
}

#[test]
fn body_kinds_have_labels_in_both_locales() {
    assert_eq!(body_kind_label(Locale::En, BodyKind::NoBody), "None");
    assert_eq!(body_kind_label(Locale::En, BodyKind::Multipart), "Form-Data");
    assert_eq!(body_kind_label(Locale::Zh, BodyKind::Raw), "原始");
}

#[test]
fn clicking_the_same_menu_button_closes_its_popup() {
    assert!(popup_click_closes(true, Some("method"), "method"));
    assert!(!popup_click_closes(true, Some("env"), "method"));
    assert!(!popup_click_closes(false, Some("method"), "method"));
    assert!(!popup_click_closes(true, None, "method"));
}
