use treq_app::backup::{default_backup_index, BackupInfo};
use treq_app::model::{count_event_breaks, insert_into, row_kind, DropZone, RowKind, RowRef};
use treq_app::response_ui::{join_resp_selection, slice_chars, RespSel};
use treq_app::vars_save::check_var_name;

fn ids(v: &[&str]) -> Vec<String> {
    v.iter().map(|s| s.to_string()).collect()
}

#[test]
fn insert_before_and_after_anchor() {
    let mut list = ids(&["a", "c"]);
    insert_into(&mut list, "b", Some("c"), DropZone::Before);
    assert_eq!(list, ids(&["a", "b", "c"]));
    let mut list = ids(&["a", "b"]);
    insert_into(&mut list, "c", Some("b"), DropZone::After);
    assert_eq!(list, ids(&["a", "b", "c"]));
    let mut list = ids(&["a"]);
    insert_into(&mut list, "b", Some("a"), DropZone::Inside);
    assert_eq!(list, ids(&["a", "b"]));
}

#[test]
fn reorder_within_same_container_does_not_shift() {
    let mut list = ids(&["a", "b", "c"]);
    list.retain(|x| x != "b");
    insert_into(&mut list, "b", Some("a"), DropZone::Before);
    assert_eq!(list, ids(&["b", "a", "c"]));
    let mut list = ids(&["a", "b", "c"]);
    list.retain(|x| x != "b");
    insert_into(&mut list, "b", Some("c"), DropZone::After);
    assert_eq!(list, ids(&["a", "c", "b"]));
}

#[test]
fn insert_without_anchor_or_missing_anchor_goes_last() {
    let mut list = ids(&["a", "b"]);
    insert_into(&mut list, "x", None, DropZone::Before);
    assert_eq!(list, ids(&["a", "b", "x"]));
    let mut list = ids(&["a", "b"]);
    insert_into(&mut list, "x", Some("nope"), DropZone::After);
    assert_eq!(list, ids(&["a", "b", "x"]));
}

#[test]
fn row_kind_from_position() {
    assert_eq!(row_kind(RowRef { col: 0, grp: None, req: None }), RowKind::Collection);
    assert_eq!(row_kind(RowRef { col: 0, grp: Some(1), req: None }), RowKind::Group);
    assert_eq!(row_kind(RowRef { col: 0, grp: Some(1), req: Some(2) }), RowKind::Request);
}

#[test]
fn rejects_empty_whitespace_and_braces() {
    assert!(check_var_name("token").is_ok());
    assert!(check_var_name("  api_key_2  ").is_ok(), "两侧空格会被 trim");
    assert!(check_var_name("").is_err());
    assert!(check_var_name("   ").is_err());
    assert!(check_var_name("has space").is_err());
    assert!(check_var_name("{{x}}").is_err());
    assert!(check_var_name("x}").is_err());
    assert!(check_var_name("中 文").is_err());
    assert!(check_var_name("中文变量").is_ok(), "中文名本身可以用");
}

#[test]
fn var_name_errors_say_which_rule_broke() {
    assert_eq!(check_var_name(" "), Err("变量名不能为空".to_string()));
    assert_eq!(check_var_name("a{b"), Err("变量名不能带空格或花括号".to_string()));
}

fn info(name: &str) -> BackupInfo {
    BackupInfo { name: name.to_string() }
}

#[test]
fn skips_before_restore_copies() {
    let items = vec![
        info("treq-backup-before-restore-3"),
        info("treq-backup-2"),
        info("treq-backup-1"),
    ];
    assert_eq!(default_backup_index(&items), 1);
    let only = vec![info("x-before-restore-a"), info("y-before-restore-b")];
    assert_eq!(default_backup_index(&only), 0);
    assert_eq!(default_backup_index(&[]), 0);
}

fn lines() -> Vec<String> {
    vec![
        "{".to_string(),
        "  \"名称\": \"张三\",".to_string(),
        "  \"n\": 42".to_string(),
        "}".to_string(),
    ]
}

#[test]
fn joins_selected_rows_with_newlines() {
    let sel = RespSel { a_row: 1, a_col: 2, c_row: 2, c_col: 6 };
    assert_eq!(
        join_resp_selection(&lines(), sel).as_deref(),
        Some("\"名称\": \"张三\",\n  \"n\":")
    );
}

#[test]
fn reversed_drag_gives_the_same_text() {
    let a = RespSel { a_row: 2, a_col: 6, c_row: 1, c_col: 2 };
    let b = RespSel { a_row: 1, a_col: 2, c_row: 2, c_col: 6 };
    assert_eq!(join_resp_selection(&lines(), a), join_resp_selection(&lines(), b));
}

#[test]
fn stray_char_mid_chinese_is_clamped() {
    let l = lines();
    let sel = RespSel { a_row: 1, a_col: 6, c_row: 1, c_col: 100 };
    let text = join_resp_selection(&l, sel).unwrap();
    assert!(l[1].ends_with(&text), "从中文中间起选：{text:?}");
    assert!(!text.starts_with('\u{fffd}'));
}

#[test]
fn empty_selection_is_none() {
    let sel = RespSel { a_row: 1, a_col: 3, c_row: 1, c_col: 3 };
    assert_eq!(join_resp_selection(&lines(), sel), None);
}

#[test]
fn slice_chars_backs_off_to_char_boundaries() {
    assert_eq!(slice_chars("ab中cd", 2, 5), "中");
    assert_eq!(slice_chars("ab中cd", 3, 6), "中c");
    assert_eq!(slice_chars("ab中cd", 3, 4), "");
    assert_eq!(slice_chars("abc", 1, 99), "bc");
}

#[test]
fn counts_blank_lines_between_events() {
    assert_eq!(count_event_breaks(b"data: 1\n\ndata: 2\n\n"), 2);
    assert_eq!(count_event_breaks(b"data: 1\r\n\r\ndata: 2"), 1);
    assert_eq!(count_event_breaks(b"data: 1\ndata: 2\n"), 0);
    assert_eq!(count_event_breaks(b""), 0);
}

#[test]
fn a_blank_row_inside_a_selection_adds_an_empty_line() {
    let rows = vec!["ab".to_string(), String::new(), "cd".to_string()];
    let sel = RespSel { a_row: 0, a_col: 0, c_row: 2, c_col: 2 };
    assert_eq!(join_resp_selection(&rows, sel).as_deref(), Some("ab\n\ncd"));
    let from_end = RespSel { a_row: 0, a_col: 2, c_row: 2, c_col: 1 };
    assert_eq!(join_resp_selection(&rows, from_end).as_deref(), Some("\n\nc"));
}
