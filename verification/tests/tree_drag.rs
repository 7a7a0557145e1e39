use treq_app::model::{Collection, DropZone, Group, RequestItem, RowKind, RowRef};
use treq_app::tree_drag::{drop_container, plan_drop, row_node_id, DropPlan};

fn req(id: &str) -> RequestItem {
    RequestItem { id: id.into(), name: id.into() }
}

fn group(id: &str, parent: Option<&str>) -> Group {
    Group {
        id: id.into(),
        parent: parent.map(|p| p.into()),
        name: id.into(),
        requests: vec![req(&format!("{id}-r"))],
    }
}

fn cols() -> Vec<Collection> {
    vec![Collection {
        id: "A".into(),
        name: "A".into(),
        groups: vec![group("g1", None), group("g2", None), group("g3", Some("g1"))],
        requests: vec![req("rA1"), req("rA2")],
    }]
}

fn ids(v: &[&str]) -> Vec<String> {
    v.iter().map(|x| x.to_string()).collect()
}

const COL: RowRef = RowRef { col: 0, grp: None, req: None };
const G1: RowRef = RowRef { col: 0, grp: Some(0), req: None };
const G3: RowRef = RowRef { col: 0, grp: Some(2), req: None };
const RA1: RowRef = RowRef { col: 0, grp: None, req: Some(0) };

#[test]
fn request_dropped_before_a_request_is_reordered() {
    assert_eq!(
        plan_drop(&cols(), RowKind::Request, "rA2", RA1, DropZone::Before),
        DropPlan::MoveRequest { id: "rA2".into(), col: "A".into(), group: None, order: ids(&["rA2", "rA1"]) }
    );
}

#[test]
fn request_dropped_into_a_group_goes_last() {
    assert_eq!(
        plan_drop(&cols(), RowKind::Request, "g2-r", G1, DropZone::Inside),
        DropPlan::MoveRequest {
            id: "g2-r".into(),
            col: "A".into(),
            group: Some("g1".into()),
            order: ids(&["g1-r", "g2-r"]),
        }
    );
}

#[test]
fn group_cannot_go_into_its_own_subtree() {
    assert_eq!(plan_drop(&cols(), RowKind::Group, "g1", G3, DropZone::Inside), DropPlan::Refused);
    assert_eq!(plan_drop(&cols(), RowKind::Group, "g1", G3, DropZone::Before), DropPlan::Refused);
    assert_eq!(plan_drop(&cols(), RowKind::Group, "g1", G1, DropZone::Inside), DropPlan::Refused);
}

#[test]
fn group_can_move_under_another_branch_or_to_the_root() {
    assert_eq!(
        plan_drop(&cols(), RowKind::Group, "g2", G3, DropZone::Inside),
        DropPlan::MoveGroup { id: "g2".into(), col: "A".into(), parent: Some("g3".into()), order: ids(&["g2"]) }
    );
    assert_eq!(
        plan_drop(&cols(), RowKind::Group, "g3", COL, DropZone::Inside),
        DropPlan::MoveGroup { id: "g3".into(), col: "A".into(), parent: None, order: ids(&["g1", "g2", "g3"]) }
    );
    assert_eq!(
        plan_drop(&cols(), RowKind::Group, "g2", G1, DropZone::Before),
        DropPlan::MoveGroup { id: "g2".into(), col: "A".into(), parent: None, order: ids(&["g2", "g1"]) }
    );
}

#[test]
fn a_gone_target_moves_nothing() {
    let gone = RowRef { col: 5, grp: None, req: None };
    assert_eq!(plan_drop(&cols(), RowKind::Request, "rA1", gone, DropZone::Inside), DropPlan::Nothing);
    assert_eq!(plan_drop(&cols(), RowKind::Group, "g1", gone, DropZone::Inside), DropPlan::Refused);
    assert_eq!(drop_container(&cols(), gone, DropZone::Inside), None);
}

#[test]
fn rows_name_their_nodes() {
    assert_eq!(row_node_id(&cols(), COL), Some("A".to_string()));
    assert_eq!(row_node_id(&cols(), G3), Some("g3".to_string()));
    assert_eq!(row_node_id(&cols(), RowRef { col: 0, grp: Some(1), req: Some(0) }), Some("g2-r".to_string()));
    assert_eq!(row_node_id(&cols(), RowRef { col: 0, grp: Some(1), req: Some(3) }), None);
}
