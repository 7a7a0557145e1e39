use treq_app::auth_form::{asks_key_location, auth_field_key, auth_fields, auth_kinds};
use treq_app::panes::auth_kind_key;

#[test]
fn form_offers_four_kinds_with_labels() {
    let kinds = auth_kinds();
    assert_eq!(kinds, vec!["none", "bearer", "basic", "apikey"]);
    assert_eq!(auth_kind_key(kinds[3]), "auth.kind.apikey");
}

#[test]
fn each_kind_has_its_two_fields() {
    assert!(auth_fields("none").is_empty());
    assert_eq!(
        auth_fields("bearer"),
        vec![("a", "{{ token }}", "auth.token"), ("b", "Bearer", "auth.prefix")]
    );
    assert_eq!(auth_fields("basic")[1], ("b", "password", "auth.password"));
    assert_eq!(auth_fields("apikey")[0], ("a", "X-Api-Key", "auth.keyname"));
    assert!(asks_key_location("apikey"));
    assert!(!asks_key_location("basic"));
    assert_eq!(auth_field_key("basic", "a"), "basic:a");
}
