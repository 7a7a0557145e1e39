use treq_app::quick::{clamp_selected, quick_list, CrossEntry, HistoryItem, QuickTarget};
use treq_app::search::haystack;

fn hist(id: i64, method: &str, name: &str, url: &str, status: Option<u16>, failed: bool) -> HistoryItem {
    HistoryItem {
        id,
        method: method.into(),
        name: name.into(),
        url: url.into(),
        status,
        failed,
    }
}

fn entry(ws: &str, ws_name: &str, container: &str, id: &str, method: &str, name: &str, url: &str) -> CrossEntry {
    CrossEntry {
        workspace: ws.into(),
        workspace_name: ws_name.into(),
        container: container.into(),
        request_id: id.into(),
        method: method.into(),
        name: name.into(),
        url: url.into(),
        index_text: haystack(&[name, url, method, container, ws_name]),
    }
}

fn entries() -> Vec<CrossEntry> {
    vec![
        entry("/p/pay", "支付项目", "订单", "r3", "POST", "下单", "http://h/order"),
        entry("/p/qiye", "企微项目", "客户", "r1", "GET", "客户详情", "http://h/customer"),
    ]
}

#[test]
fn history_first_then_requests_of_the_current_workspace_first() {
    let hs = vec![
        hist(1, "GET", "客户详情", "http://h/customer", Some(200), false),
        hist(2, "POST", "发消息", "http://h/msg", None, true),
        hist(3, "GET", "x", "http://h/x", None, false),
    ];
    let list = quick_list(&hs, &entries(), "/p/qiye", "");
    let labels: Vec<&str> = list.iter().map(|(_, l)| l.as_str()).collect();
    assert_eq!(
        labels,
        vec![
            "GET  客户详情  —  http://h/customer  ...  200",
            "POST  发消息  —  http://h/msg  ...  ✗",
            "GET  x  —  http://h/x  ...  ",
            "GET  客户详情  —  http://h/customer  (客户)",
            "POST  下单  —  http://h/order  (支付项目 › 订单)",
        ]
    );
    assert_eq!(list[0].0, QuickTarget::History(1));
    assert_eq!(
        list[4].0,
        QuickTarget::CrossRequest { workspace: "/p/pay".into(), request: "r3".into() }
    );
}

#[test]
fn keyword_filters_history_and_requests() {
    let hs = vec![
        hist(1, "GET", "客户详情", "http://h/customer", Some(200), false),
        hist(2, "POST", "发消息", "http://h/MSG", None, true),
    ];
    let list = quick_list(&hs, &entries(), "/p/qiye", "  Msg ");
    assert_eq!(list.len(), 1);
    assert_eq!(list[0].0, QuickTarget::History(2));
    let list = quick_list(&hs, &entries(), "/p/qiye", "order");
    assert_eq!(list.len(), 1);
    assert_eq!(
        list[0].0,
        QuickTarget::CrossRequest { workspace: "/p/pay".into(), request: "r3".into() }
    );
}

#[test]
fn history_is_capped_and_the_whole_list_too() {
    let hs: Vec<HistoryItem> = (0..40).map(|i| hist(i, "GET", "n", "http://h/", Some(204), false)).collect();
    let many: Vec<CrossEntry> = (0..50)
        .map(|i| entry("/p/a", "A", "c", &format!("r{i}"), "GET", "n", "http://h/"))
        .collect();
    let list = quick_list(&hs, &many, "/p/a", "");
    assert_eq!(list.len(), 60);
    assert_eq!(list.iter().filter(|(t, _)| matches!(t, QuickTarget::History(_))).count(), 30);
    assert_eq!(list[29].0, QuickTarget::History(29));
}

#[test]
fn selection_is_clamped_to_the_list() {
    assert_eq!(clamp_selected(3, 10), 3);
    assert_eq!(clamp_selected(12, 10), 9);
    assert_eq!(clamp_selected(5, 0), 0);
}

use treq_app::i18n::{tr, Locale};
use treq_app::quick::ago_label;

#[test]
fn ago_labels_pick_the_largest_unit() {
    let l = Locale::En;
    assert_eq!(ago_label(l, 0, 59_999), tr(l, "history.just_now"));
    assert_eq!(ago_label(l, 10_000, 0), tr(l, "history.just_now"), "a future time counts as now");
    assert_eq!(ago_label(l, 0, 5 * 60_000), format!("5{}", tr(l, "history.min_ago")));
    assert_eq!(ago_label(l, 0, 3 * 3_600_000 + 1), format!("3{}", tr(l, "history.hour_ago")));
    assert_eq!(ago_label(l, 0, 2 * 86_400_000), format!("2{}", tr(l, "history.day_ago")));
    assert_ne!(tr(l, "history.just_now"), "?");
}
