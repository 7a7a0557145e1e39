use treq_app::i18n::Locale;
use treq_app::model::{Collection, Group, RequestItem};
use treq_app::select::{collection_exists, first_request_id, move_destination, tree_listing};
use treq_app::tree_edit::{group_exists, request_exists};

fn req(id: &str) -> RequestItem {
    RequestItem { id: id.to_string(), name: id.to_string() }
}

fn col(id: &str, reqs: &[&str], groups: Vec<Group>) -> Collection {
    Collection { id: id.to_string(), name: format!("{id}-name"), groups, requests: reqs.iter().map(|r| req(r)).collect() }
}

fn group(id: &str, reqs: &[&str]) -> Group {
    Group { id: id.to_string(), parent: None, name: format!("{id}-name"), requests: reqs.iter().map(|r| req(r)).collect() }
}

#[test]
fn first_request_follows_tree_order() {
    let cols = vec![
        col("empty", &[], vec![group("g0", &[])]),
        col("c", &[], vec![group("g1", &[]), group("g2", &["deep", "other"])]),
        col("d", &["root"], vec![]),
    ];
    assert_eq!(first_request_id(&cols), Some("deep".to_string()));
    let cols = vec![col("c", &["top"], vec![group("g", &["in-g"])])];
    assert_eq!(first_request_id(&cols), Some("top".to_string()));
    assert_eq!(first_request_id(&[col("x", &[], vec![])]), None);
}

#[test]
fn only_existing_nodes_are_selected() {
    let cols = vec![col("c", &["r"], vec![group("g", &["in-g"])])];
    assert!(collection_exists(&cols, "c"));
    assert!(!collection_exists(&cols, "g"));
    assert!(group_exists(&cols, "g"));
    assert!(!group_exists(&cols, "c"));
    assert!(request_exists(&cols, "in-g"));
    assert!(request_exists(&cols, "r"));
    assert!(!request_exists(&cols, "nope"));
}

#[test]
fn move_destination_names_collection_and_group() {
    let cols = vec![col("c", &[], vec![group("g", &[])])];
    assert_eq!(move_destination(Locale::En, &cols, "c", Some("g")), "c-name / g-name");
    assert_eq!(move_destination(Locale::En, &cols, "c", Some("missing")), "c-name");
    assert_eq!(move_destination(Locale::En, &cols, "zz", None), "zz");
    assert_eq!(move_destination(Locale::En, &cols, "c", None), "c-name (collection root)");
    assert_eq!(move_destination(Locale::Zh, &cols, "c", None), "c-name（集合根目录）");
}

#[test]
fn palette_listing_names_each_requests_container() {
    let cols = vec![
        col("c", &["r1"], vec![group("g", &["r2", "r3"])]),
        col("d", &[], vec![group("h", &["r4"])]),
    ];
    let pair = |a: &str, b: &str| (a.to_string(), b.to_string());
    assert_eq!(
        tree_listing(&cols),
        vec![
            pair("c-name", "r1"),
            pair("c-name/g-name", "r2"),
            pair("c-name/g-name", "r3"),
            pair("d-name/h-name", "r4"),
        ]
    );
    assert!(tree_listing(&[]).is_empty());
}
