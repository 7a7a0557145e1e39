use treq_app::i18n::Locale;
use treq_app::import::{curl_request_name, import_report, import_target, url_host};
use treq_app::model::{Collection, Selection};

fn col(id: &str) -> Collection {
    Collection { id: id.to_string(), name: id.to_string(), groups: vec![], requests: vec![] }
}

#[test]
fn curl_requests_are_named_by_method_and_host() {
    assert_eq!(url_host("https://api.example.com/v1/users"), "api.example.com");
    assert_eq!(url_host("http://localhost:8080"), "localhost:8080");
    assert_eq!(url_host("example.com/path"), "");
    assert_eq!(url_host("noslash"), "");
    assert_eq!(curl_request_name("POST", "https://h.io/a"), "POST h.io");
    assert_eq!(curl_request_name("GET", "h.io"), "GET ");
}

#[test]
fn curl_import_lands_in_the_selected_or_first_collection() {
    let cols = vec![col("c1"), col("c2")];
    assert_eq!(import_target(&Some(Selection::Collection("c2".into())), &cols), Some("c2".to_string()));
    assert_eq!(import_target(&Some(Selection::Request("r".into())), &cols), Some("c1".to_string()));
    assert_eq!(import_target(&None, &cols), Some("c1".to_string()));
    assert_eq!(import_target(&None, &[]), None);
}

#[test]
fn import_report_counts_requests_and_groups() {
    assert_eq!(
        import_report(Locale::En, "Pets", "postman", 12, 3),
        "Imported: Pets｜postman｜12  requests｜3  groups"
    );
    assert_eq!(import_report(Locale::Zh, "宠物", "har", 0, 1), "已导入：宠物｜har｜0 个接口｜1 个分组");
}
