use treq_app::kv_zoom::kv_zoom_lines;

#[test]
fn lines_split_keeps_empty_and_trailing() {
    assert_eq!(kv_zoom_lines("a\nb"), vec!["a", "b"]);
    assert_eq!(kv_zoom_lines(""), vec![""]);
    assert_eq!(kv_zoom_lines("a\n"), vec!["a", ""]);
    assert_eq!(kv_zoom_lines("中文\r\n次行"), vec!["中文\r", "次行"]);
}

#[test]
fn lines_rejoin_to_the_text() {
    for t in ["", "\n\n", "x\ny\nz", "末尾\n"] {
        assert_eq!(kv_zoom_lines(t).join("\n"), t);
    }
}
