use treq_app::menu::{parse_menu_id, BodyKind, LineVerb, MenuCmd};
use treq_app::model::Selection;

fn s(x: &str) -> String {
    x.to_string()
}

#[test]
fn fixed_ids_map_to_their_commands() {
    assert_eq!(parse_menu_id("new-collection"), MenuCmd::NewCollection);
    assert_eq!(parse_menu_id("import-curl"), MenuCmd::ImportCurl);
    assert_eq!(parse_menu_id("prefs:net"), MenuCmd::NetSettings);
    assert_eq!(parse_menu_id("prefs:cookies"), MenuCmd::CookieSettings);
    assert_eq!(parse_menu_id("plugin:codegen"), MenuCmd::OpenCodegen);
    assert_eq!(parse_menu_id("prefs:codegen"), MenuCmd::OpenCodegen);
    assert_eq!(parse_menu_id("prefs:locale"), MenuCmd::ToggleLocale);
    assert_eq!(parse_menu_id("prefs:bogus"), MenuCmd::Ignore);
    assert_eq!(parse_menu_id("ws-add"), MenuCmd::AddWorkspace);
    assert_eq!(parse_menu_id("env-vars"), MenuCmd::VarsPanel);
    assert_eq!(parse_menu_id("what-is-this"), MenuCmd::Refresh);
    assert_eq!(parse_menu_id(""), MenuCmd::Refresh);
}

#[test]
fn prefixes_carry_their_payload() {
    assert_eq!(parse_menu_id("ws-forget:/p/pay"), MenuCmd::ForgetWorkspace(s("/p/pay")));
    assert_eq!(parse_menu_id("ws:/p/企微"), MenuCmd::SwitchWorkspace(s("/p/企微")));
    assert_eq!(parse_menu_id("codegen:java"), MenuCmd::CodegenLang(s("java")));
    assert_eq!(parse_menu_id("codegen-req:r1"), MenuCmd::CodegenFor(s("r1")));
    assert_eq!(parse_menu_id("copy-curl:r9"), MenuCmd::CopyCurl(s("r9")));
    assert_eq!(parse_menu_id("move-ask:r2"), MenuCmd::AskMove(s("r2")));
    assert_eq!(parse_menu_id("env:dev"), MenuCmd::SetEnv(s("dev")));
    assert_eq!(parse_menu_id("env-edit:dev"), MenuCmd::EditEnv(s("dev")));
    assert_eq!(parse_menu_id("method:PATCH"), MenuCmd::SetMethod(s("PATCH")));
    assert_eq!(parse_menu_id("delete-req:r1"), MenuCmd::DeleteRequest(s("r1")));
}

#[test]
fn response_line_needs_a_verb_and_a_number() {
    assert_eq!(parse_menu_id("resp-line:copy:12"), MenuCmd::RespLine(LineVerb::Copy, 12));
    assert_eq!(parse_menu_id("resp-line:var:0"), MenuCmd::RespLine(LineVerb::Var, 0));
    assert_eq!(parse_menu_id("resp-line:path:+7"), MenuCmd::RespLine(LineVerb::Path, 7));
    assert_eq!(parse_menu_id("resp-line:copy:x"), MenuCmd::Ignore);
    assert_eq!(parse_menu_id("resp-line:copy"), MenuCmd::Ignore);
    assert_eq!(parse_menu_id("resp-line:shout:3"), MenuCmd::Ignore);
    assert_eq!(parse_menu_id("resp-line:copy:-1"), MenuCmd::Ignore);
}

#[test]
fn history_ids_are_signed_numbers() {
    assert_eq!(parse_menu_id("hist:42"), MenuCmd::RestoreHistory(42));
    assert_eq!(parse_menu_id("hist:-3"), MenuCmd::RestoreHistory(-3));
    assert_eq!(parse_menu_id("hist:abc"), MenuCmd::Ignore);
    assert_eq!(parse_menu_id("hist:"), MenuCmd::Ignore);
}

#[test]
fn containers_are_a_collection_or_a_collection_and_group() {
    assert_eq!(parse_menu_id("new-group:c1"), MenuCmd::NewGroup(s("c1"), None));
    assert_eq!(parse_menu_id("new-group:c1:g1"), MenuCmd::NewGroup(s("c1"), Some(s("g1"))));
    assert_eq!(parse_menu_id("new-request:c1:g:x"), MenuCmd::NewRequest(s("c1"), Some(s("g:x"))));
    assert_eq!(parse_menu_id("delete-group:c1:g1"), MenuCmd::DeleteGroup(s("c1"), s("g1")));
    assert_eq!(parse_menu_id("delete-group:c1"), MenuCmd::Ignore);
    assert_eq!(
        parse_menu_id("rename-group:c1:g1"),
        MenuCmd::BeginRename(Selection::Group(s("g1")))
    );
    assert_eq!(parse_menu_id("rename-group:g1"), MenuCmd::Ignore);
    assert_eq!(
        parse_menu_id("rename-col:c1"),
        MenuCmd::BeginRename(Selection::Collection(s("c1")))
    );
    assert_eq!(
        parse_menu_id("collapse-others-req:r1"),
        MenuCmd::CollapseOthers(Selection::Request(s("r1")))
    );
}

#[test]
fn view_and_body_kind_switches() {
    assert_eq!(parse_menu_id("resp-view:pretty"), MenuCmd::RespView(true));
    assert_eq!(parse_menu_id("resp-view:raw"), MenuCmd::RespView(false));
    assert_eq!(parse_menu_id("body-kind:Json"), MenuCmd::SetBodyKind(BodyKind::Json));
    assert_eq!(parse_menu_id("body-kind:None"), MenuCmd::SetBodyKind(BodyKind::NoBody));
    assert_eq!(parse_menu_id("body-kind:whatever"), MenuCmd::SetBodyKind(BodyKind::Raw));
}

use treq_app::i18n::Locale;
use treq_app::menu::{
    body_kind_menu, collection_menu, env_menu, group_menu, method_menu, new_item_menu, prefs_menu,
    request_menu, resp_line_menu, workspace_menu,
};

#[test]
fn every_menu_item_is_understood() {
    for (id, _) in request_menu(Locale::En, "r:1") {
        assert_ne!(parse_menu_id(&id), MenuCmd::Refresh, "{id}");
        assert_ne!(parse_menu_id(&id), MenuCmd::Ignore, "{id}");
    }
    let ids: Vec<String> = collection_menu(Locale::Zh, "c1").into_iter().map(|(id, _)| id).collect();
    assert_eq!(parse_menu_id(&ids[0]), MenuCmd::NewRequest(s("c1"), None));
    assert_eq!(parse_menu_id(&ids[7]), MenuCmd::DeleteCollection(s("c1")));
    let ids: Vec<String> = group_menu(Locale::En, "g:x", "c1").into_iter().map(|(id, _)| id).collect();
    assert_eq!(ids[0], "new-request:c1:g:x");
    assert_eq!(parse_menu_id(&ids[0]), MenuCmd::NewRequest(s("c1"), Some(s("g:x"))));
    assert_eq!(parse_menu_id(&ids[4]), MenuCmd::DeleteGroup(s("c1"), s("g:x")));
}

#[test]
fn a_collection_id_with_a_colon_is_read_as_a_group() {
    let ids: Vec<String> = collection_menu(Locale::En, "a:b").into_iter().map(|(id, _)| id).collect();
    assert_eq!(parse_menu_id(&ids[0]), MenuCmd::NewRequest(s("a"), Some(s("b"))));
}

#[test]
fn menu_labels_are_translated() {
    let items = request_menu(Locale::En, "r1");
    assert_eq!(items.len(), 8);
    assert_eq!(items[1].0, "copy-url:r1");
    assert_eq!(items[1].1, treq_app::i18n::tr(Locale::En, "action.copy_url"));
    assert_ne!(items[1].1, "?");
}

#[test]
fn new_item_menu_targets_the_container() {
    let items = new_item_menu(Locale::En, "c1", Some("g1"));
    assert_eq!(items.len(), 3);
    assert_eq!(parse_menu_id(&items[0].0), MenuCmd::NewRequest("c1".into(), Some("g1".into())));
    assert_eq!(parse_menu_id(&items[1].0), MenuCmd::NewGroup("c1".into(), Some("g1".into())));
    assert_eq!(parse_menu_id(&items[2].0), MenuCmd::NewCollection);
    let items = new_item_menu(Locale::En, "c1", None);
    assert_eq!(items[0].0, "new-request:c1");
    assert_eq!(parse_menu_id(&items[1].0), MenuCmd::NewGroup("c1".into(), None));
}

#[test]
fn method_and_body_menus_round_trip() {
    let methods = method_menu();
    assert_eq!(methods.len(), 8);
    assert_eq!(methods[0], ("method:GET".to_string(), "GET".to_string()));
    for (id, label) in &methods {
        assert_eq!(parse_menu_id(id), MenuCmd::SetMethod(label.clone()));
    }
    let kinds = body_kind_menu(Locale::En);
    let want = [
        BodyKind::NoBody,
        BodyKind::Json,
        BodyKind::Text,
        BodyKind::Form,
        BodyKind::Multipart,
        BodyKind::File,
        BodyKind::Raw,
    ];
    assert_eq!(kinds.len(), want.len());
    for (item, kind) in kinds.iter().zip(want.iter()) {
        assert_eq!(parse_menu_id(&item.0), MenuCmd::SetBodyKind(*kind));
    }
    assert_eq!(kinds[0], ("body-kind:None".to_string(), "None".to_string()));
}

#[test]
fn env_menu_lists_base_envs_and_actions() {
    let envs = vec![("dev".to_string(), "Development".to_string())];
    let items = env_menu(Locale::En, "Base", &envs);
    assert_eq!(items.len(), 4);
    assert_eq!(items[0], ("env:base".to_string(), "Base".to_string()));
    assert_eq!(items[1], ("env:dev".to_string(), "Development".to_string()));
    assert_eq!(parse_menu_id(&items[1].0), MenuCmd::SetEnv("dev".into()));
    assert_eq!(parse_menu_id(&items[2].0), MenuCmd::EditEnv("base".into()));
    assert_eq!(items[2].1, "Edit Environment…");
    assert_eq!(parse_menu_id(&items[3].0), MenuCmd::VarsPanel);
}

#[test]
fn prefs_menu_counts_cookies() {
    let items = prefs_menu(Locale::En, 7);
    assert_eq!(items.len(), 8);
    assert_eq!(items[5], ("prefs:cookies".to_string(), "Cookie Jar (7)".to_string()));
    let cmds: Vec<MenuCmd> = items.iter().map(|(id, _)| parse_menu_id(id)).collect();
    assert_eq!(
        cmds,
        vec![
            MenuCmd::OpenSettings,
            MenuCmd::ToggleLocale,
            MenuCmd::ChooseWorkspace,
            MenuCmd::Reload,
            MenuCmd::NetSettings,
            MenuCmd::CookieSettings,
            MenuCmd::OpenCodegen,
            MenuCmd::OpenTrash,
        ]
    );
}

#[test]
fn response_line_menu_offers_what_the_line_has() {
    let plain = resp_line_menu(Locale::En, 12, None, true);
    assert_eq!(plain, vec![("resp-line:copy:12".to_string(), "Copy line".to_string())]);
    assert_eq!(parse_menu_id(&plain[0].0), MenuCmd::RespLine(LineVerb::Copy, 12));
    let long = "abcdefghijklmnopqrstuvwxyz0123";
    let full = resp_line_menu(Locale::En, 3, Some(long), true);
    assert_eq!(full.len(), 4);
    assert_eq!(full[1].1, "Copy value  abcdefghijklmnopqrstuvwx…");
    assert_eq!(parse_menu_id(&full[1].0), MenuCmd::RespLine(LineVerb::Value, 3));
    assert_eq!(parse_menu_id(&full[2].0), MenuCmd::RespLine(LineVerb::Path, 3));
    assert_eq!(parse_menu_id(&full[3].0), MenuCmd::RespLine(LineVerb::Var, 3));
    let text = resp_line_menu(Locale::En, 0, Some("42"), false);
    assert_eq!(text.len(), 2);
    assert_eq!(text[1].1, "Copy value  42");
}

#[test]
fn workspace_menu_marks_the_current_one() {
    let spaces = vec![
        ("/w/a".to_string(), "a".to_string()),
        ("/w/b".to_string(), "b".to_string()),
    ];
    let items = workspace_menu(Locale::En, &spaces, "/w/b");
    assert_eq!(items.len(), 4);
    assert_eq!(items[0], ("ws:/w/a".to_string(), "   a".to_string()));
    assert_eq!(items[1], ("ws:/w/b".to_string(), "● b".to_string()));
    assert_eq!(parse_menu_id(&items[1].0), MenuCmd::SwitchWorkspace("/w/b".into()));
    assert_eq!(parse_menu_id(&items[2].0), MenuCmd::AddWorkspace);
    assert_eq!(parse_menu_id(&items[3].0), MenuCmd::ForgetWorkspace("/w/b".into()));
    let one = workspace_menu(Locale::En, &spaces[..1], "/w/a");
    assert_eq!(one.len(), 2);
}

#[test]
fn numbers_in_ids_must_fit_their_type() {
    assert_eq!(parse_menu_id("hist:9223372036854775807"), MenuCmd::RestoreHistory(i64::MAX));
    assert_eq!(parse_menu_id("hist:-9223372036854775808"), MenuCmd::RestoreHistory(i64::MIN));
    assert_eq!(parse_menu_id("hist:9223372036854775808"), MenuCmd::Ignore);
    assert_eq!(parse_menu_id("hist:+5"), MenuCmd::RestoreHistory(5));
    assert_eq!(parse_menu_id("hist:--5"), MenuCmd::Ignore);
    assert_eq!(parse_menu_id("resp-line:copy:99999999999999999999999"), MenuCmd::Ignore);
    assert_eq!(parse_menu_id("resp-line:copy:+"), MenuCmd::Ignore);
    assert_eq!(parse_menu_id("resp-line:copy:1 2"), MenuCmd::Ignore);
}
