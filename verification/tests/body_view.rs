use treq_app::body_view::{body_mode, filter_view, text_lines, BodyMode};
use treq_app::i18n::{tr, Locale};
use treq_app::jsonview::over_render_limit;
use treq_app::request_edit::pretty_json;

const HUGE: usize = 3 * 1024 * 1024;

fn big_text() -> String {
    "一行有点内容的正文\n".repeat(200_000)
}

#[test]
fn huge_body_skips_render_until_forced() {
    let body = big_text();
    assert!(over_render_limit(body.as_bytes()));
    assert_eq!(body_mode(body.len(), "", true, false), BodyMode::TooBig);
    assert_eq!(tr(Locale::En, "response.too_big"), "Response too large (over 2 MB) — rendering skipped");
    // forced: rendered as usual (plain text, so its own lines)
    assert_eq!(body_mode(body.len(), "", true, true), BodyMode::Pretty);
    assert!(pretty_json(&body).is_err());
    assert_eq!(text_lines(&body).len(), 200_000);

    assert_eq!(body_mode(HUGE, "", true, false), BodyMode::TooBig);
    assert_eq!(body_mode(HUGE, "  ", false, false), BodyMode::TooBig);
    assert_eq!(body_mode(HUGE, "", true, true), BodyMode::Pretty);
    assert_eq!(body_mode(HUGE, " $.a ", true, false), BodyMode::Filter("$.a".to_string()));
}

#[test]
fn small_body_renders_as_chosen() {
    assert_eq!(body_mode(10, "", true, false), BodyMode::Pretty);
    assert_eq!(body_mode(10, "", false, false), BodyMode::Raw);
    assert_eq!(body_mode(2 * 1024 * 1024, "", false, false), BodyMode::Raw);
}

#[test]
fn lines_match_str_lines() {
    for text in ["", "a", "a\nb", "a\n", "a\r\nb\r\n", "\n\n", "x\ry", "a\r", "中文\n行"] {
        let expect: Vec<String> = text.lines().map(|l| l.to_string()).collect();
        assert_eq!(text_lines(text), expect, "{text:?}");
    }
}

#[test]
fn filter_on_a_body_that_is_not_json_gives_the_not_json_notice() {
    let (lines, json, notice) = filter_view(Locale::En, false, Ok((3, "[1]".to_string())));
    assert!(lines.is_empty());
    assert!(!json);
    assert_eq!(notice.as_deref(), Some("Response is not JSON, cannot filter by path"));
}

#[test]
fn a_bad_path_names_the_query_error() {
    let (lines, json, notice) = filter_view(Locale::En, true, Err("unexpected `]`".to_string()));
    assert!(lines.is_empty());
    assert!(!json);
    assert_eq!(notice.as_deref(), Some("Invalid path: unexpected `]`"));
    let (_, _, notice) = filter_view(Locale::Zh, true, Err("x".to_string()));
    assert_eq!(notice.as_deref(), Some("路径不合法: x"));
}

#[test]
fn a_path_without_hits_says_so() {
    let (lines, json, notice) = filter_view(Locale::En, true, Ok((0, "[]".to_string())));
    assert!(lines.is_empty());
    assert!(!json);
    assert_eq!(notice.as_deref(), Some("Path matched nothing"));
}

#[test]
fn hits_are_shown_as_json_lines() {
    let (lines, json, notice) =
        filter_view(Locale::En, true, Ok((2, "[\n  1,\n  2\n]".to_string())));
    assert_eq!(lines, vec!["[", "  1,", "  2", "]"]);
    assert!(json);
    assert!(notice.is_none());
}

#[test]
fn a_filter_of_unicode_white_space_is_blank() {
    assert_eq!(body_mode(10, "\u{3000}\t\u{a0}", true, false), BodyMode::Pretty);
    assert_eq!(body_mode(10, "\u{2003}$.a\u{2029}", true, false), BodyMode::Filter("$.a".to_string()));
}
