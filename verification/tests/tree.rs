use treq_app::flatten::{flatten_tree, RowState};
use treq_app::grouptree::{group_subtree_ids, group_tree};
use treq_app::model::{Collection, Group, RequestItem, RowRef, Selection, TreeRow};
use treq_app::tree::{
    ancestor_ids, any_expanded, collapse_all_except_ids, collapse_ids, group_ancestors,
    move_targets, new_item_target, node_row_index,
};

fn req(id: &str) -> RequestItem {
    RequestItem { id: id.to_string(), name: id.to_string() }
}

fn named_req(id: &str, name: &str) -> RequestItem {
    RequestItem { id: id.to_string(), name: name.to_string() }
}

fn col(id: &str, groups: &[&str], reqs: &[&str]) -> Collection {
    Collection {
        id: id.to_string(),
        name: id.to_string(),
        requests: reqs.iter().map(|r| req(r)).collect(),
        groups: groups
            .iter()
            .map(|g| Group {
                id: (*g).to_string(),
                parent: None,
                name: (*g).to_string(),
                requests: vec![req(&format!("{g}-r"))],
            })
            .collect(),
    }
}

fn col_nested(id: &str, groups: &[(&str, Option<&str>)]) -> Collection {
    Collection {
        id: id.to_string(),
        name: id.to_string(),
        requests: vec![],
        groups: groups
            .iter()
            .map(|(g, p)| Group {
                id: (*g).to_string(),
                parent: p.map(|p| p.to_string()),
                name: (*g).to_string(),
                requests: vec![req(&format!("{g}-r"))],
            })
            .collect(),
    }
}

fn rows_of(c: &Collection, collapsed: &[String], q: &str) -> Vec<(String, u8)> {
    flatten_tree(std::slice::from_ref(c), q, collapsed, None, None)
        .into_iter()
        .map(|(at, st)| {
            let label = match (at.grp, at.req) {
                (None, None) => c.id.clone(),
                (Some(gi), None) => c.groups[gi].id.clone(),
                (Some(gi), Some(ri)) => c.groups[gi].requests[ri].id.clone(),
                (None, Some(ri)) => c.requests[ri].id.clone(),
            };
            (label, st.depth)
        })
        .collect()
}

fn group(id: &str, parent: Option<&str>) -> Group {
    Group {
        id: id.into(),
        parent: parent.map(|p| p.into()),
        name: id.into(),
        requests: vec![],
    }
}

fn sorted(mut v: Vec<String>) -> Vec<String> {
    v.sort();
    v
}

fn tree() -> Vec<Collection> {
    vec![
        Collection {
            id: "c1".into(),
            name: "企微".into(),
            groups: vec![
                Group {
                    id: "g1".into(),
                    parent: None,
                    name: "客户".into(),
                    requests: vec![named_req("r1", "客户详情")],
                },
                Group {
                    id: "g2".into(),
                    parent: None,
                    name: "消息".into(),
                    requests: vec![named_req("r2", "发消息")],
                },
            ],
            requests: vec![named_req("r3", "顶层接口")],
        },
        Collection {
            id: "c2".into(),
            name: "支付".into(),
            groups: vec![],
            requests: vec![named_req("r4", "下单")],
        },
    ]
}

fn as_rows(flat: Vec<(RowRef, RowState)>) -> Vec<TreeRow> {
    flat.into_iter()
        .map(|(at, st)| TreeRow {
            at,
            status: None,
            depth: st.depth,
            selected: st.selected,
            renaming: st.renaming,
            collapsed: st.collapsed,
        })
        .collect()
}

fn s(x: &str) -> String {
    x.to_string()
}

#[test]
fn group_tree_nests_by_parent_and_never_loses_a_group() {
    let mut groups = vec![
        group("a", None),
        group("b", Some("a")),
        group("c", Some("b")),
        group("ghost", Some("nope")),
        group("self", Some("self")),
    ];
    let order: Vec<(String, u8)> = group_tree(&groups)
        .into_iter()
        .map(|(i, d, _)| (groups[i].id.clone(), d))
        .collect();
    assert_eq!(
        order,
        vec![(s("a"), 0), (s("b"), 1), (s("c"), 2), (s("ghost"), 0), (s("self"), 0)]
    );
    groups.push(group("x", Some("y")));
    groups.push(group("y", Some("x")));
    assert_eq!(group_tree(&groups).len(), groups.len());
}

#[test]
fn flatten_tree_nested_depth_and_collapse() {
    let c = col_nested("c1", &[("a", None), ("b", Some("a")), ("c", Some("b"))]);
    let none: Vec<String> = vec![];
    assert_eq!(
        rows_of(&c, &none, ""),
        vec![
            (s("c1"), 0),
            (s("a"), 1),
            (s("a-r"), 2),
            (s("b"), 2),
            (s("b-r"), 3),
            (s("c"), 3),
            (s("c-r"), 4),
        ]
    );
    let collapsed = vec![s("a")];
    assert_eq!(rows_of(&c, &collapsed, ""), vec![(s("c1"), 0), (s("a"), 1)]);
    let collapsed = vec![s("b")];
    assert_eq!(
        rows_of(&c, &collapsed, ""),
        vec![(s("c1"), 0), (s("a"), 1), (s("a-r"), 2), (s("b"), 2)]
    );
    assert_eq!(
        rows_of(&c, &none, "c-r"),
        vec![(s("c1"), 0), (s("a"), 1), (s("b"), 2), (s("c"), 3), (s("c-r"), 4)]
    );
}

#[test]
fn group_ancestors_walks_the_whole_parent_chain() {
    let mut c = col_nested("c1", &[("a", None), ("b", Some("a")), ("c", Some("b"))]);
    c.requests = vec![req("root-r")];
    let cols = vec![c];
    assert_eq!(group_ancestors(&cols, "c"), vec![s("c1"), s("a"), s("b")]);
    assert_eq!(group_ancestors(&cols, "a"), vec![s("c1")]);
    assert_eq!(group_ancestors(&cols, "nope"), Vec::<String>::new());
    assert_eq!(
        ancestor_ids(&cols, &Selection::Request("c-r".into())),
        vec![s("c1"), s("a"), s("b"), s("c")]
    );
    assert_eq!(ancestor_ids(&cols, &Selection::Request("root-r".into())), vec![s("c1")]);
}

#[test]
fn group_subtree_ids_includes_all_descendants() {
    let c = col_nested("c1", &[("a", None), ("b", Some("a")), ("c", Some("b")), ("d", None)]);
    let mut ids = group_subtree_ids(&c.groups, "a");
    ids.sort();
    assert_eq!(ids, vec![s("a"), s("b"), s("c")]);
    assert_eq!(group_subtree_ids(&c.groups, "d"), vec![s("d")]);
}

#[test]
fn collapse_all_toggles_between_any_expanded_and_none() {
    let cols = vec![col("c1", &["g1"], &["r1"])];
    let mut collapsed: Vec<String> = Vec::new();
    assert!(any_expanded(&cols, &collapsed));
    let ids: Vec<String> = collapse_ids(&cols).iter().map(|x| x.to_string()).collect();
    assert_eq!(ids, vec!["c1", "g1"]);
    collapsed.extend(ids);
    assert!(!any_expanded(&cols, &collapsed), "全折叠后不该还有展开项");
    collapsed.clear();
    assert!(any_expanded(&cols, &collapsed));
    assert!(!any_expanded(&[], &[]));
}

#[test]
fn ancestors_keeps_the_path_to_the_node_open() {
    let cols = vec![col("c1", &["g1"], &["r1"]), col("c2", &[], &[])];
    assert!(ancestor_ids(&cols, &Selection::Collection("c1".into())).is_empty());
    assert_eq!(ancestor_ids(&cols, &Selection::Group("g1".into())), vec![s("c1")]);
    assert_eq!(ancestor_ids(&cols, &Selection::Request("r1".into())), vec![s("c1")]);
    assert_eq!(
        ancestor_ids(&cols, &Selection::Request("g1-r".into())),
        vec![s("c1"), s("g1")]
    );
    assert!(ancestor_ids(&cols, &Selection::Request("没了".into())).is_empty());
}

#[test]
fn new_item_target_follows_the_selection() {
    let cols = vec![col("c1", &["g1"], &["r1"]), col("c2", &[], &[])];
    assert_eq!(
        new_item_target(&cols, Some(&Selection::Request("g1-r".into()))),
        Some((s("c1"), Some(s("g1"))))
    );
    assert_eq!(
        new_item_target(&cols, Some(&Selection::Request("r1".into()))),
        Some((s("c1"), None))
    );
    assert_eq!(
        new_item_target(&cols, Some(&Selection::Group("g1".into()))),
        Some((s("c1"), Some(s("g1"))))
    );
    assert_eq!(
        new_item_target(&cols, Some(&Selection::Collection("c2".into()))),
        Some((s("c2"), None))
    );
    assert_eq!(new_item_target(&cols, None), Some((s("c1"), None)));
    assert_eq!(
        new_item_target(&cols, Some(&Selection::Request("已删除".into()))),
        Some((s("c1"), None))
    );
    assert_eq!(new_item_target(&[], None), None);
}

#[test]
fn collapse_all_except_keeps_path_open() {
    let cols = vec![col("c1", &["g1"], &["r1"]), col("c2", &["g2"], &[])];
    let f = |sel: &Selection, open: bool| sorted(collapse_all_except_ids(&cols, sel, open));
    assert_eq!(f(&Selection::Request("g1-r".into()), false), vec![s("c2"), s("g2")]);
    assert_eq!(
        f(&Selection::Request("r1".into()), false),
        vec![s("c2"), s("g1"), s("g2")]
    );
    assert_eq!(f(&Selection::Group("g1".into()), true), vec![s("c2"), s("g2")]);
    assert_eq!(
        f(&Selection::Group("g1".into()), false),
        vec![s("c2"), s("g1"), s("g2")],
        "祖先集合仍展开，自己继续折着"
    );
    assert_eq!(
        f(&Selection::Collection("c1".into()), true),
        vec![s("c2"), s("g1"), s("g2")]
    );
    assert_eq!(f(&Selection::Request("已删除".into()), false).len(), 4, "全折");
}

#[test]
fn node_row_index_finds_requests_flat_and_grouped() {
    let cols = vec![col("c1", &["g1"], &["r1"])];
    let rows = as_rows(flatten_tree(&cols, "", &[], None, None));
    assert_eq!(node_row_index(&rows, &cols, &Selection::Request("g1-r".into())), Some(2));
    assert_eq!(node_row_index(&rows, &cols, &Selection::Request("r1".into())), Some(3));
    assert_eq!(node_row_index(&rows, &cols, &Selection::Request("不存在".into())), None);
    let collapsed = vec![s("c1")];
    let rows = as_rows(flatten_tree(&cols, "", &collapsed, None, None));
    assert_eq!(node_row_index(&rows, &cols, &Selection::Request("r1".into())), None);
}

#[test]
fn node_row_index_finds_every_kind() {
    let cols = vec![col("c1", &["g1"], &["r1"]), col("c2", &[], &[])];
    let rows = as_rows(flatten_tree(&cols, "", &[], None, None));
    assert_eq!(node_row_index(&rows, &cols, &Selection::Collection("c1".into())), Some(0));
    assert_eq!(node_row_index(&rows, &cols, &Selection::Group("g1".into())), Some(1));
    assert_eq!(node_row_index(&rows, &cols, &Selection::Request("g1-r".into())), Some(2));
    assert_eq!(node_row_index(&rows, &cols, &Selection::Request("r1".into())), Some(3));
    assert_eq!(node_row_index(&rows, &cols, &Selection::Collection("c2".into())), Some(4));
    assert_eq!(node_row_index(&rows, &cols, &Selection::Group("c1".into())), None);
    assert_eq!(node_row_index(&rows, &cols, &Selection::Collection("g1".into())), None);
    assert_eq!(node_row_index(&rows, &cols, &Selection::Request("没有".into())), None);
}

#[test]
fn flatten_keeps_all_rows_when_no_filter() {
    let cols = tree();
    let rows = flatten_tree(&cols, "", &[], None, None);
    assert_eq!(rows.len(), 8);
    assert_eq!(rows[0].0, RowRef { col: 0, grp: None, req: None });
    assert_eq!(rows[2].0, RowRef { col: 0, grp: Some(0), req: Some(0) });
    assert_eq!(rows[7].0, RowRef { col: 1, grp: None, req: Some(0) });
}

#[test]
fn flatten_filters_and_keeps_matching_subtrees() {
    let cols = tree();
    let rows = flatten_tree(&cols, "客户", &[], None, None);
    assert_eq!(rows.len(), 3, "集合头条 + 命中的分组 + 其请求");
    assert_eq!(rows[1].0, RowRef { col: 0, grp: Some(0), req: None });
    let rows = flatten_tree(&cols, "下单", &[], None, None);
    assert_eq!(rows.len(), 2);
    assert_eq!(rows[1].0, RowRef { col: 1, grp: None, req: Some(0) });
    assert!(flatten_tree(&cols, "不存在的接口", &[], None, None).is_empty());
    let cols2 = vec![Collection {
        id: "c".into(),
        name: "X".into(),
        groups: vec![],
        requests: vec![{
            let mut r = tree().remove(0).requests.remove(0);
            r.name = "getUserInfo".into();
            r
        }],
    }];
    assert_eq!(flatten_tree(&cols2, "getuserinfo", &[], None, None).len(), 2);
}

#[test]
fn flatten_respects_collapse_but_filter_overrides_it() {
    let cols = tree();
    let mut collapsed: Vec<String> = Vec::new();
    collapsed.push(s("c1"));
    let rows = flatten_tree(&cols, "", &collapsed, None, None);
    assert_eq!(rows.len(), 3, "折叠集合后只剩集合头条 + c2 + r4");
    assert!(rows[0].1.collapsed);
    collapsed.push(s("g1"));
    let rows = flatten_tree(&cols, "", &collapsed, None, None);
    assert_eq!(rows.len(), 3);
    assert!(rows[0].1.collapsed);
    let rows = flatten_tree(&cols, "客户详情", &collapsed, None, None);
    assert_eq!(rows.len(), 3);
    assert!(!rows[1].1.collapsed, "过滤状态下分组要展开");
}

#[test]
fn flatten_marks_selection_and_rename() {
    let cols = tree();
    let sel = Selection::Request("r2".into());
    let ren = Selection::Group("g1".into());
    let rows = flatten_tree(&cols, "", &[], Some(&sel), Some(&ren));
    let state = |r: RowRef| rows.iter().find(|(at, _)| *at == r).unwrap().1;
    assert!(state(RowRef { col: 0, grp: Some(1), req: Some(0) }).selected);
    assert!(!state(RowRef { col: 0, grp: Some(1), req: Some(0) }).renaming);
    assert!(state(RowRef { col: 0, grp: Some(0), req: None }).renaming);
    assert!(!state(RowRef { col: 0, grp: Some(0), req: None }).selected);
}

#[test]
fn move_targets_skips_current_and_filters() {
    let cols = vec![col("A", &["g1", "g2"], &["r1"]), col("B", &["h1"], &[])];
    let all = move_targets(&cols, "r1", "");
    let labels: Vec<&str> = all.iter().map(|t| t.label.as_str()).collect();
    assert_eq!(labels, vec!["A / g1", "A / g2", "B", "B / h1"]);
    assert!(all.iter().all(|t| !t.collection_id.is_empty()));
    assert_eq!(all[0].group_id.as_deref(), Some("g1"));
    assert!(all[2].group_id.is_none(), "B 根目录是无分组的候选");
    let labels: Vec<String> = move_targets(&cols, "g1-r", "").into_iter().map(|t| t.label).collect();
    assert!(!labels.contains(&"A / g1".to_string()), "当前所在分组不列");
    assert!(labels.contains(&"A".to_string()), "但可以挪回集合根目录");
    let labels: Vec<String> = move_targets(&cols, "r1", "H1").into_iter().map(|t| t.label).collect();
    assert_eq!(labels, vec!["B / h1"]);
    assert!(move_targets(&cols, "r1", "不存在").is_empty());
    assert_eq!(move_targets(&cols, "nope", "").len(), 5);
}

#[test]
fn group_tree_keeps_sibling_order_and_cycles_last() {
    let groups = vec![
        group("x", Some("y")),
        group("b2", Some("a")),
        group("a", None),
        group("y", Some("x")),
        group("b1", Some("a")),
        group("leaf", Some("b1")),
    ];
    let t = group_tree(&groups);
    assert_eq!(
        t,
        vec![(2, 0, None), (1, 1, Some(2)), (4, 1, Some(2)), (5, 2, Some(4)), (0, 0, None), (3, 0, None)]
    );
}

#[test]
fn group_tree_later_id_shadows_an_earlier_one() {
    let groups = vec![group("p", None), group("p", None), group("k", Some("p"))];
    let t = group_tree(&groups);
    assert_eq!(t, vec![(0, 0, None), (1, 0, None), (2, 1, Some(1))]);
}

#[test]
fn group_subtree_ids_survives_a_cycle() {
    let groups = vec![group("x", Some("y")), group("y", Some("x")), group("z", Some("y"))];
    assert_eq!(group_subtree_ids(&groups, "x"), vec![s("x"), s("y"), s("z")]);
    assert_eq!(group_subtree_ids(&groups, "unknown"), vec![s("unknown")]);
}

#[test]
fn filter_ignores_folding_on_concrete_rows() {
    let cols = tree();
    let folded = vec![s("c1"), s("g1"), s("g2")];
    assert_eq!(
        flatten_tree(&cols, "消息", &folded, None, None),
        flatten_tree(&cols, "消息", &[], None, None)
    );
}

#[test]
fn group_name_hit_keeps_all_its_requests() {
    let c = Collection {
        id: "c".into(),
        name: "c".into(),
        groups: vec![Group {
            id: "g".into(),
            parent: None,
            name: "Orders".into(),
            requests: vec![named_req("a", "list"), named_req("b", "create")],
        }],
        requests: vec![named_req("z", "other")],
    };
    let rows = flatten_tree(&[c], "order", &[], None, None);
    let places: Vec<RowRef> = rows.iter().map(|(at, _)| *at).collect();
    assert_eq!(
        places,
        vec![
            RowRef { col: 0, grp: None, req: None },
            RowRef { col: 0, grp: Some(0), req: None },
            RowRef { col: 0, grp: Some(0), req: Some(0) },
            RowRef { col: 0, grp: Some(0), req: Some(1) },
        ]
    );
}

#[test]
fn drawn_rows_carry_the_last_status_of_their_request() {
    let cols = vec![col("c1", &["g1"], &["r1"])];
    let flat = flatten_tree(&cols, "", &[], None, None);
    let last = vec![(s("g1-r"), Some(404)), (s("r1"), None), (s("gone"), Some(200))];
    let rows = treq_app::flatten::tree_rows(&cols, &flat, &last);
    let statuses: Vec<Option<u16>> = rows.iter().map(|r| r.status).collect();
    assert_eq!(statuses, vec![None, None, Some(404), None]);
    assert_eq!(rows[2].at, RowRef { col: 0, grp: Some(0), req: Some(0) });
    assert_eq!(rows[2].depth, flat[2].1.depth);
}

#[test]
fn subtree_ids_come_level_by_level_in_group_order() {
    let groups = vec![
        group("x", Some("b")),
        group("b", Some("a")),
        group("a", None),
        group("c", Some("a")),
        group("y", Some("c")),
        group("z", Some("x")),
    ];
    assert_eq!(
        group_subtree_ids(&groups, "a"),
        vec![s("a"), s("b"), s("c"), s("x"), s("y"), s("z")]
    );
    let cycle = vec![group("p", Some("q")), group("q", Some("p"))];
    assert_eq!(group_subtree_ids(&cycle, "p"), vec![s("p"), s("q")]);
}
