use std::path::PathBuf;
use treq_app::nav::{NavEntry, NavStack};

fn e(req: &str) -> NavEntry {
    NavEntry::new("/ws", req)
}

#[test]
fn push_back_forward() {
    let mut n = NavStack::new();
    assert!(!n.can_back() && !n.can_forward());
    n.push(e("a"));
    n.push(e("b"));
    n.push(e("c"));
    assert_eq!(n.current().unwrap().request, "c");
    assert!(n.can_back() && !n.can_forward());

    assert_eq!(n.back().unwrap().request, "b");
    assert_eq!(n.back().unwrap().request, "a");
    assert!(!n.can_back(), "到栈底不能继续后退");
    assert_eq!(n.back(), None, "栈底后退应返回 None");
    assert!(n.can_forward());

    assert_eq!(n.forward().unwrap().request, "b");
    assert_eq!(n.forward().unwrap().request, "c");
    assert_eq!(n.forward(), None);
}

#[test]
fn new_visit_truncates_forward_branch() {
    let mut n = NavStack::new();
    n.push(e("a"));
    n.push(e("b"));
    n.push(e("c"));
    n.back();
    n.back();
    n.push(e("d"));
    assert!(!n.can_forward(), "新访问必须丢掉前进分支");
    assert_eq!(n.current().unwrap().request, "d");
    assert_eq!(n.back().unwrap().request, "a");
    assert_eq!(n.forward().unwrap().request, "d");
}

#[test]
fn same_entry_not_duplicated() {
    let mut n = NavStack::new();
    n.push(e("a"));
    n.push(e("a"));
    assert_eq!(n.len(), 1);
    assert!(!n.can_back());
}

#[test]
fn forget_keeps_cursor_valid() {
    let mut n = NavStack::new();
    n.push(e("a"));
    n.push(e("b"));
    n.push(e("c"));
    n.back();
    n.forget_request("c");
    assert_eq!(n.len(), 2);
    assert_eq!(n.current().unwrap().request, "b");
    assert!(!n.can_forward());

    n.forget_request("b");
    assert_eq!(n.current().unwrap().request, "a");
    n.forget_request("a");
    assert!(n.is_empty());
    assert_eq!(n.current(), None);
}

#[test]
fn workspace_is_part_of_identity() {
    let mut n = NavStack::new();
    n.push(NavEntry::new("/ws1", "r"));
    n.push(NavEntry::new("/ws2", "r"));
    assert_eq!(n.len(), 2, "同一请求 id 在不同工作区是不同位置");
    assert_eq!(PathBuf::from(n.back().unwrap().workspace), PathBuf::from("/ws1"));
}

#[test]
fn forget_workspace_drops_its_places() {
    let mut n = NavStack::new();
    n.push(NavEntry::new("/ws1", "a"));
    n.push(NavEntry::new("/ws2", "b"));
    n.push(NavEntry::new("/ws1/", "c"));
    n.forget_workspace("/ws1");
    assert_eq!(n.len(), 1);
    assert_eq!(n.current().unwrap().request, "b");
}

#[test]
fn cursor_stays_on_its_own_place_after_forgetting() {
    let mut n = NavStack::new();
    n.push(e("a"));
    n.push(e("b"));
    n.push(e("a"));
    n.forget_request("b");
    assert_eq!(n.len(), 2);
    assert_eq!(n.current().unwrap().request, "a");
    assert!(n.can_back());
    assert!(!n.can_forward());
}

#[test]
fn cursor_moves_to_next_kept_place_when_its_own_is_forgotten() {
    let mut n = NavStack::new();
    n.push(e("a"));
    n.push(e("b"));
    n.push(e("c"));
    n.back();
    n.back();
    n.forget_request("a");
    assert_eq!(n.len(), 2);
    assert_eq!(n.current().unwrap().request, "b");
    assert!(!n.can_back());
    assert!(n.can_forward());
}

#[test]
fn cursor_falls_back_to_last_place_when_nothing_follows() {
    let mut n = NavStack::new();
    n.push(e("a"));
    n.push(e("b"));
    n.push(e("c"));
    n.forget_request("c");
    assert_eq!(n.len(), 2);
    assert_eq!(n.current().unwrap().request, "b");
    assert!(!n.can_forward());
}

#[test]
fn back_then_forward_returns() {
    let mut n = NavStack::new();
    n.push(e("a"));
    n.push(e("b"));
    let here = n.current().unwrap().clone();
    n.back();
    n.forward();
    assert_eq!(n.current().unwrap(), &here);
    assert_eq!(n.len(), 2);
}
