use treq_app::i18n::Locale;
use treq_app::request_edit::{json_error_note, pretty_json};

#[test]
fn reformats_with_two_space_indent() {
    let out = pretty_json(r#"{"a":1,"b":[1,2]}"#).unwrap();
    assert_eq!(out, "{\n  \"a\": 1,\n  \"b\": [\n    1,\n    2\n  ]\n}");
}

#[test]
fn reports_line_and_column_for_bad_json() {
    let (line, col, msg) = pretty_json("{\n  \"a\": 1,\n  \"b\" 2\n}").unwrap_err();
    assert_eq!((line, col), (3, 7), "报错位置要指到第 3 行的值上：{msg}");
    assert!(!msg.is_empty());
    let (line, _, _) = pretty_json("{\"a\"}").unwrap_err();
    assert_eq!(line, 1);
}

#[test]
fn empty_input_is_an_error_not_a_panic() {
    assert!(pretty_json("").is_err());
}

#[test]
fn json_error_note_fills_the_template() {
    assert_eq!(
        json_error_note(Locale::En, 3, 17, "expected value"),
        "Invalid JSON: line 3, column 17 · expected value"
    );
    assert_eq!(json_error_note(Locale::Zh, 1, 2, "x"), "JSON 格式错误：第 1 行第 2 列 · x");
    assert_eq!(
        json_error_note(Locale::En, 1, 1, "bad {line}"),
        "Invalid JSON: line 1, column 1 · bad {line}"
    );
}
