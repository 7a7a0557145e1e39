use treq_app::quick::CrossEntry;
use treq_app::search::{contains_ci, haystack, rank_hits};

fn hit(ws: &str, ws_name: &str, name: &str, url: &str, method: &str, container: &str) -> CrossEntry {
    CrossEntry {
        workspace: ws.into(),
        workspace_name: ws_name.into(),
        container: container.into(),
        request_id: String::new(),
        method: method.into(),
        name: name.into(),
        url: url.into(),
        index_text: haystack(&[name, url, method, container, ws_name]),
    }
}

fn hits() -> Vec<CrossEntry> {
    vec![
        hit("/p/qiye", "企微项目", "客户详情", "http://h/customer", "GET", "客户"),
        hit("/p/qiye", "企微项目", "发消息", "http://h/msg", "POST", "消息"),
        hit("/p/pay", "支付项目", "下单", "http://h/order", "POST", "订单"),
        hit("/p/pay", "支付项目", "查单", "http://h/order/1", "GET", "订单"),
    ]
}

#[test]
fn current_workspace_first() {
    let h = hits();
    let r = rank_hits(&h, "/p/pay", "", 10);
    assert_eq!(r, vec![2, 3, 0, 1], "当前工作区命中应排在前面");
}

#[test]
fn matches_name_url_method_container_workspace() {
    let h = hits();
    let cur = "/p/qiye";
    assert_eq!(rank_hits(&h, cur, "下单", 10), vec![2]);
    assert_eq!(rank_hits(&h, cur, "order/1", 10), vec![3]);
    assert_eq!(rank_hits(&h, cur, "get", 10), vec![0, 3], "方法名不区分大小写");
    assert_eq!(rank_hits(&h, cur, "订单", 10), vec![2, 3]);
    assert_eq!(rank_hits(&h, cur, "企微项目", 10), vec![0, 1], "可搜工作区名");
    assert!(rank_hits(&h, cur, "不存在的关键字", 10).is_empty());
}

#[test]
fn contains_ci_is_case_insensitive_without_alloc() {
    assert!(contains_ci("Content-Type", "content"));
    assert!(contains_ci("Content-Type", "type"));
    assert!(!contains_ci("Content-Type", "types"));
    assert!(contains_ci("客户详情/queryUser", "queryuser"), "URL 段也要能大小写无关命中");
    assert!(contains_ci("客户详情", "客户"), "中文按原样匹配");
    assert!(!contains_ci("客户详情", "用户"));
    assert!(contains_ci("任意", ""), "空关键字全命中");
    assert!(!contains_ci("ab", "abc"));
    assert!(!contains_ci("客", "¢"), "不得按续字节错位匹配");
    assert!(contains_ci("客户", "户"), "完整字符当然能匹配");
}

#[test]
fn haystack_joins_lowercased_parts() {
    let h = haystack(&["客户详情", "http://h/X", "GET", "客户"]);
    assert_eq!(h, "客户详情\nhttp://h/x\nget\n客户");
    assert!(contains_ci(&h, "http://h/x"));
    assert!(haystack(&["", ""]).is_empty());
}

#[test]
fn respects_limit() {
    let h = hits();
    assert_eq!(rank_hits(&h, "/p/qiye", "", 2).len(), 2);
    assert_eq!(rank_hits(&h, "/p/qiye", "", 2), vec![0, 1]);
}

#[test]
fn zero_limit_gives_nothing() {
    let h = hits();
    assert!(rank_hits(&h, "/p/qiye", "", 0).is_empty());
    assert!(rank_hits(&h, "/p/qiye", "nothing-here", 0).is_empty());
}

#[test]
fn query_is_trimmed_and_lowercased() {
    let h = hits();
    assert_eq!(rank_hits(&h, "/p/pay", "  ORDER/1 ", 10), vec![3]);
}
