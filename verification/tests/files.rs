use treq_app::files::{file_extension, file_name_base, suggested_file_name};

const STAMP: &str = "20240102-030405";

#[test]
fn extension_follows_content_type() {
    let j = |ct: &str, body_is_json: bool| suggested_file_name("x", ct, body_is_json, STAMP);
    assert!(j("application/json; charset=utf-8", true).ends_with(".json"));
    assert!(j("text/html", false).ends_with(".html"));
    assert!(j("application/xml", false).ends_with(".xml"));
    assert!(j("text/csv", false).ends_with(".csv"));
    assert!(j("application/javascript", false).ends_with(".js"));
    assert!(j("text/event-stream", false).ends_with(".sse.txt"));
    assert!(j("", false).ends_with(".txt"));
    assert!(j("", true).ends_with(".json"));
}

#[test]
fn name_is_sanitized() {
    let n = suggested_file_name("POST /api/v1/订单: 查询?", "application/json", true, STAMP);
    assert!(!n.contains('/'), "{n}");
    assert!(!n.contains(':'), "{n}");
    assert!(!n.contains(' '), "{n}");
    assert!(n.starts_with("POST-api-v1-订单-查询-"), "{n}");
    assert!(n.ends_with(".json"), "{n}");
    assert!(suggested_file_name(&"a".repeat(200), "", false, STAMP).starts_with(&"a".repeat(60)));
    assert!(suggested_file_name("///", "application/json", true, STAMP).starts_with("response-"));
}

#[test]
fn whole_name_is_base_stamp_and_extension() {
    assert_eq!(
        suggested_file_name("Get user", "Application/JSON", false, STAMP),
        "Get-user-20240102-030405.json"
    );
    assert_eq!(file_name_base("--a  b--"), "a-b");
    assert_eq!(file_name_base(""), "response");
    assert_eq!(file_name_base(&"x".repeat(61)), "x".repeat(60));
    assert_eq!(file_extension("TEXT/HTML; charset=utf-8", false), "html");
    assert_eq!(file_extension("image/png", false), "txt");
}
