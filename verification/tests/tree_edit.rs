use treq_app::model::{Collection, Group, RequestItem, Selection};
use treq_app::tree::any_expanded;
use treq_app::i18n::Locale;
use treq_app::tree_edit::{
    add_request, copy_name, collection_delete_clears, rename_start, expand_ancestors_of, group_delete_clears, remove_collection,
    remove_groups, remove_request, rename_node, request_delete_clears, request_home,
    toggle_collapse_all, toggle_collapsed,
};

fn s(x: &str) -> String {
    x.to_string()
}

fn req(id: &str) -> RequestItem {
    RequestItem { id: s(id), name: s(id) }
}

fn group(id: &str, parent: Option<&str>, reqs: &[&str]) -> Group {
    Group {
        id: s(id),
        parent: parent.map(s),
        name: s(id),
        requests: reqs.iter().map(|r| req(r)).collect(),
    }
}

fn tree() -> Vec<Collection> {
    vec![
        Collection {
            id: s("c1"),
            name: s("One"),
            requests: vec![req("flat")],
            groups: vec![
                group("a", None, &["in-a"]),
                group("b", Some("a"), &["in-b", "twin"]),
            ],
        },
        Collection { id: s("c2"), name: s("Two"), requests: vec![req("twin")], groups: vec![] },
    ]
}

fn sorted(mut v: Vec<String>) -> Vec<String> {
    v.sort();
    v
}

#[test]
fn toggling_a_node_folds_then_opens_it() {
    let mut folded: Vec<String> = vec![s("x")];
    toggle_collapsed(&mut folded, "c1");
    assert_eq!(sorted(folded.clone()), vec![s("c1"), s("x")]);
    toggle_collapsed(&mut folded, "c1");
    assert_eq!(folded, vec![s("x")]);
}

#[test]
fn collapse_all_then_expand_all() {
    let cols = tree();
    let mut folded: Vec<String> = Vec::new();
    assert!(any_expanded(&cols, &folded));
    toggle_collapse_all(&cols, &mut folded);
    assert_eq!(sorted(folded.clone()), vec![s("a"), s("b"), s("c1"), s("c2")]);
    assert!(!any_expanded(&cols, &folded));
    toggle_collapse_all(&cols, &mut folded);
    assert!(folded.is_empty());
}

#[test]
fn expanding_ancestors_opens_the_path_of_a_nested_request() {
    let cols = tree();
    let mut folded = vec![s("c1"), s("a"), s("b"), s("c2"), s("other")];
    expand_ancestors_of(&cols, &mut folded, "in-b");
    assert_eq!(sorted(folded), vec![s("c2"), s("other")]);
}

#[test]
fn expanding_ancestors_of_a_group_opens_the_group_too() {
    let cols = tree();
    let mut folded = vec![s("c1"), s("a"), s("b"), s("c2")];
    expand_ancestors_of(&cols, &mut folded, "a");
    assert_eq!(sorted(folded), vec![s("b"), s("c2")]);
}

#[test]
fn expanding_ancestors_with_nothing_folded_is_a_no_op() {
    let cols = tree();
    let mut folded: Vec<String> = Vec::new();
    expand_ancestors_of(&cols, &mut folded, "in-b");
    assert!(folded.is_empty());
}

#[test]
fn rename_trims_and_reaches_requests_in_groups() {
    let mut cols = tree();
    assert!(rename_node(&mut cols, &Selection::Request(s("in-b")), "  new name \n"));
    assert_eq!(cols[0].groups[1].requests[0].name, "new name");
    assert!(rename_node(&mut cols, &Selection::Request(s("flat")), "outer"));
    assert_eq!(cols[0].requests[0].name, "outer");
    assert!(rename_node(&mut cols, &Selection::Group(s("b")), "Bee"));
    assert_eq!(cols[0].groups[1].name, "Bee");
    assert!(rename_node(&mut cols, &Selection::Collection(s("c2")), "Zwei"));
    assert_eq!(cols[1].name, "Zwei");
}

#[test]
fn rename_with_a_blank_name_keeps_the_old_one() {
    let mut cols = tree();
    assert!(!rename_node(&mut cols, &Selection::Collection(s("c1")), "   "));
    assert_eq!(cols[0].name, "One");
    assert!(!rename_node(&mut cols, &Selection::Request(s("missing")), "x"));
    assert_eq!(cols, tree());
}

#[test]
fn request_home_names_collection_and_group() {
    let cols = tree();
    assert_eq!(request_home(&cols, "flat"), Some((s("c1"), None)));
    assert_eq!(request_home(&cols, "in-b"), Some((s("c1"), Some(s("b")))));
    assert_eq!(request_home(&cols, "twin"), Some((s("c1"), Some(s("b")))));
    assert_eq!(request_home(&cols, "nope"), None);
}

#[test]
fn removing_a_request_takes_it_out_of_its_collection_only() {
    let mut cols = tree();
    remove_request(&mut cols, "c1", "twin");
    assert_eq!(cols[0].groups[1].requests, vec![req("in-b")]);
    assert_eq!(cols[1].requests, vec![req("twin")]);
    remove_request(&mut cols, "c1", "flat");
    assert!(cols[0].requests.is_empty());
    remove_request(&mut cols, "nope", "in-a");
    assert_eq!(cols[0].groups[0].requests, vec![req("in-a")]);
}

#[test]
fn deleting_the_selected_request_clears_the_selection() {
    assert!(request_delete_clears(&Some(Selection::Request(s("r"))), "r"));
    assert!(!request_delete_clears(&Some(Selection::Request(s("q"))), "r"));
    assert!(!request_delete_clears(&Some(Selection::Group(s("r"))), "r"));
    assert!(!request_delete_clears(&None, "r"));
}

#[test]
fn deleting_a_collection_clears_what_went_with_it() {
    let mut cols = tree();
    remove_collection(&mut cols, "c1");
    assert_eq!(cols.len(), 1);
    assert_eq!(cols[0].id, "c2");
    assert!(collection_delete_clears(&cols, &Some(Selection::Collection(s("c1"))), "c1"));
    assert!(collection_delete_clears(&cols, &Some(Selection::Group(s("a"))), "c1"));
    assert!(collection_delete_clears(&cols, &Some(Selection::Request(s("in-b"))), "c1"));
    assert!(!collection_delete_clears(&cols, &Some(Selection::Request(s("twin"))), "c1"));
    assert!(!collection_delete_clears(&cols, &Some(Selection::Collection(s("c2"))), "c1"));
    assert!(!collection_delete_clears(&cols, &None, "c1"));
}

#[test]
fn deleting_a_group_takes_its_subtree_and_selection() {
    let mut cols = tree();
    let doomed = vec![s("a"), s("b")];
    remove_groups(&mut cols, "c1", &doomed);
    assert!(cols[0].groups.is_empty());
    assert_eq!(cols[0].requests, vec![req("flat")]);
    assert!(group_delete_clears(&Some(Selection::Group(s("b"))), &doomed));
    assert!(!group_delete_clears(&Some(Selection::Group(s("z"))), &doomed));
    assert!(!group_delete_clears(&Some(Selection::Request(s("a"))), &doomed));
}

#[test]
fn added_requests_land_in_their_collection_or_group() {
    let mut cols = tree();
    add_request(&mut cols, "c1", Some("a"), req("new-a"));
    assert_eq!(cols[0].groups[0].requests, vec![req("in-a"), req("new-a")]);
    add_request(&mut cols, "c2", None, req("new-root"));
    assert_eq!(cols[1].requests, vec![req("twin"), req("new-root")]);
    let before = cols.clone();
    add_request(&mut cols, "c2", Some("missing"), req("x"));
    add_request(&mut cols, "nope", None, req("x"));
    assert_eq!(cols, before);
}

#[test]
fn duplicated_requests_carry_the_copy_suffix() {
    assert_eq!(copy_name(Locale::En, "Login"), "Login copy");
    assert_eq!(copy_name(Locale::Zh, "登录"), "登录 副本");
}

#[test]
fn rename_box_starts_with_the_current_name() {
    let cols = tree();
    assert_eq!(rename_start(&cols, None, &Selection::Collection(s("c2"))), "Two");
    assert_eq!(rename_start(&cols, None, &Selection::Group(s("b"))), "b");
    let sel = RequestItem { id: s("flat"), name: s("Flat one") };
    assert_eq!(rename_start(&cols, Some(&sel), &Selection::Request(s("flat"))), "Flat one");
    assert_eq!(rename_start(&cols, Some(&sel), &Selection::Request(s("in-a"))), "");
    assert_eq!(rename_start(&cols, None, &Selection::Collection(s("zz"))), "");
}
