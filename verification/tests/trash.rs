use treq_app::trash::{trash_entry_key, trash_label, TrashKind};

#[test]
fn trash_rows_are_labelled_by_kind() {
    assert_eq!(trash_label(TrashKind::Collection, "API"), "📁 API");
    assert_eq!(trash_label(TrashKind::Group, "Auth"), "🗂 Auth");
    assert_eq!(trash_label(TrashKind::Request, "Login"), "📄 Login");
}

#[test]
fn trash_rows_are_keyed_by_the_deleted_node() {
    assert_eq!(trash_entry_key("c", Some("g"), Some("r")), "r");
    assert_eq!(trash_entry_key("c", Some("g"), None), "g");
    assert_eq!(trash_entry_key("c", None, None), "c");
}
