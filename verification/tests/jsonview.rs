use treq_app::jsonview::{line_scalar, over_render_limit, token_color, tokenize_line, TokKind, MAX_RENDER_BYTES};

#[test]
fn tokenize_key_value() {
    let toks = tokenize_line("  \"name\": \"treq\",");
    assert_eq!(toks[0].kind, TokKind::Space);
    assert_eq!(toks[1].kind, TokKind::Key);
    assert_eq!(toks[1].text, "\"name\":");
    assert_eq!(toks[3].kind, TokKind::Str);
    assert_eq!(toks[3].text, "\"treq\"");
}

#[test]
fn tokenize_escaped_string() {
    let toks = tokenize_line("\"a\\\"b\": 1");
    assert_eq!(toks[0].kind, TokKind::Key);
    assert_eq!(toks[0].text, "\"a\\\"b\":");
    assert_eq!(toks[2].kind, TokKind::Num);
    assert_eq!(toks[2].text, "1");
}

#[test]
fn tokenize_constants() {
    let toks = tokenize_line("true, false, null");
    assert_eq!(toks[0].kind, TokKind::Const);
    assert_eq!(toks[1].kind, TokKind::Punct);
    assert_eq!(toks[2].kind, TokKind::Space);
    assert_eq!(toks[3].kind, TokKind::Const);
}

#[test]
fn tokenize_punctuation_len() {
    let toks = tokenize_line("{");
    assert_eq!(toks.len(), 1);
    assert_eq!(toks[0].kind, TokKind::Punct);
    assert!(!toks[0].text.is_empty());
}

#[test]
fn pieces_cover_the_whole_line() {
    for line in [
        "  \"name\": \"treq\",",
        "{\"a\":1}",
        "true",
        "   ",
        "",
        "\"k\": [1, 2.5e3, null]",
        "中文键\": \"值\"",
        "plain text 中文",
    ] {
        let toks = tokenize_line(line);
        let joined: String = toks.iter().map(|t| t.text).collect();
        assert_eq!(joined, line);
        assert!(toks.iter().all(|t| !t.text.is_empty()));
    }
}

#[test]
fn key_token_swallows_spaces_before_colon() {
    let toks = tokenize_line("\"k\"  : 1");
    assert_eq!(toks[0].kind, TokKind::Key);
    assert_eq!(toks[0].text, "\"k\"  :");
    let toks = tokenize_line("\"open");
    assert_eq!(toks.len(), 1);
    assert_eq!(toks[0].kind, TokKind::Str);
}

#[test]
fn picks_the_value_not_the_key() {
    assert_eq!(line_scalar(r#"  "token": "abc","#).as_deref(), Some("abc"));
    assert_eq!(line_scalar(r#"  "n": 42,"#).as_deref(), Some("42"));
    assert_eq!(line_scalar(r#"    true,"#).as_deref(), Some("true"));
    assert_eq!(line_scalar(r#"  "a": "b:c","#).as_deref(), Some("b:c"));
    assert_eq!(
        line_scalar(r#"  "名单": "张三\n李四","#).as_deref(),
        Some("张三\n李四")
    );
}

#[test]
fn compound_and_empty_lines_have_no_scalar() {
    assert_eq!(line_scalar(r#"  "a": {"b": 1},"#), None);
    assert_eq!(line_scalar(r#"  "a": [1, 2],"#), None);
    assert_eq!(line_scalar("  {"), None);
    assert_eq!(line_scalar("  },"), None);
    assert_eq!(line_scalar(""), None);
}

#[test]
fn key_only_line_has_no_scalar() {
    assert_eq!(line_scalar(r#"  "a": {"#), None);
}

#[test]
fn scalar_escapes_and_empty_strings() {
    assert_eq!(line_scalar(r#"  "t": "a\tb\\c\"d","#).as_deref(), Some("a\tb\\c\"d"));
    assert_eq!(line_scalar(r#"  "e": "","#), None);
    assert_eq!(line_scalar(r#"  "q": "x\r","#).as_deref(), Some("x\r"));
}

#[test]
fn over_render_limit_only_for_huge_bodies() {
    assert!(!over_render_limit(b"[]"));
    assert!(!over_render_limit(&vec![b'x'; MAX_RENDER_BYTES]));
    assert!(over_render_limit(&vec![b'x'; MAX_RENDER_BYTES + 1]));
}

#[test]
fn colours_follow_the_kind() {
    assert_eq!(token_color(TokKind::Str, 0, 1, 2, 3, 4), 1);
    assert_eq!(token_color(TokKind::Key, 0, 1, 2, 3, 4), 2);
    assert_eq!(token_color(TokKind::Num, 0, 1, 2, 3, 4), 3);
    assert_eq!(token_color(TokKind::Const, 0, 1, 2, 3, 4), 4);
    assert_eq!(token_color(TokKind::Punct, 0, 1, 2, 3, 4), 0);
    assert_eq!(token_color(TokKind::Space, 0, 1, 2, 3, 4), 0);
}

#[test]
fn a_string_cut_after_a_backslash_runs_to_the_end_of_the_line() {
    let toks = tokenize_line(r#""\"#);
    assert_eq!(toks.len(), 1);
    assert_eq!(toks[0].kind, TokKind::Str);
    assert_eq!(toks[0].text, r#""\"#);

    let toks = tokenize_line(r#"  "path": "C:\"#);
    let last = toks.last().unwrap();
    assert_eq!(last.kind, TokKind::Str);
    assert_eq!(last.text, r#""C:\"#);
    let joined: String = toks.iter().map(|t| t.text).collect();
    assert_eq!(joined, r#"  "path": "C:\"#);
}

#[test]
fn punctuation_stops_at_a_quote() {
    let toks = tokenize_line(r#"{"a":1}"#);
    assert_eq!(toks[0].kind, TokKind::Punct);
    assert_eq!(toks[0].text, "{");
    assert_eq!(toks[1].kind, TokKind::Key);
    assert_eq!(toks[1].text, "\"a\":");

    let toks = tokenize_line(r#"  ["{"],"#);
    let kinds: Vec<TokKind> = toks.iter().map(|t| t.kind).collect();
    assert_eq!(
        kinds,
        vec![TokKind::Space, TokKind::Punct, TokKind::Str, TokKind::Punct, TokKind::Punct]
    );
    assert_eq!(toks[2].text, "\"{\"");
}
