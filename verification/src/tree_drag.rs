//! Dropping a dragged request or group in the side tree: where it lands
//! (which collection, which group) and in what order the container's items
//! then come. A group may not be dropped into itself or anything below it.
//! Carrying out the plan (moving files, writing the order) is left to the
//! caller.

use vstd::prelude::*;
use vstd::string::StringExecFns;
use crate::model::{
    Collection, CollectionV, Group, GroupV, RequestV, RowKind, RowRef, DropZone, cols_view, strings_view,
    insert_into, insert_position,
};
use crate::tree::{first_group_id, find_group, groups_view, is_listed, listed, reqs_view, copy_opt, opt_view, lemma_first_group_id};
use crate::grouptree::lemma_subtree_members;
use crate::grouptree::{group_subtree_ids, subtree_ok, child_of};
use crate::text::text_eq;

verus! {

/// The first collection from `k` on whose id is `id`.
pub open spec fn first_col(cs: Seq<CollectionV>, id: Seq<char>, k: int) -> Option<int>
    decreases cs.len() - k,
{
    if 0 <= k < cs.len() {
        if cs[k].id == id {
            Some(k)
        } else {
            first_col(cs, id, k + 1)
        }
    } else {
        None
    }
}

/// The container a drop lands in: (collection id, group id or none for the
/// collection root). A collection row takes the item at its root; a request
/// row puts it next to the request, in the request's container; a group row
/// takes it inside the group, or next to the group (in the group's parent).
pub open spec fn drop_container_of(cs: Seq<CollectionV>, at: RowRef, zone: DropZone) -> Option<(Seq<char>, Option<Seq<char>>)> {
    if at.col >= cs.len() {
        None
    } else {
        let c = cs[at.col as int];
        if at.req is Some {
            Some((c.id, match at.grp {
                Some(gi) => if gi < c.groups.len() {
                    Some(c.groups[gi as int].id)
                } else {
                    None
                },
                None => None,
            }))
        } else if at.grp is Some {
            let gi = at.grp->0;
            if gi < c.groups.len() {
                let g = c.groups[gi as int];
                match zone {
                    DropZone::Inside => Some((c.id, Some(g.id))),
                    _ => Some((c.id, g.parent)),
                }
            } else {
                None
            }
        } else {
            Some((c.id, None))
        }
    }
}

/// The id of the node a row shows.
pub open spec fn row_node_id_of(cs: Seq<CollectionV>, at: RowRef) -> Option<Seq<char>> {
    if at.col >= cs.len() {
        None
    } else {
        let c = cs[at.col as int];
        match at.req {
            Some(ri) => {
                let rs = match at.grp {
                    Some(gi) => if gi < c.groups.len() {
                        Some(c.groups[gi as int].requests)
                    } else {
                        None
                    },
                    None => Some(c.requests),
                };
                match rs {
                    Some(rs) => if ri < rs.len() {
                        Some(rs[ri as int].0)
                    } else {
                        None
                    },
                    None => None,
                }
            },
            None => match at.grp {
                Some(gi) => if gi < c.groups.len() {
                    Some(c.groups[gi as int].id)
                } else {
                    None
                },
                None => Some(c.id),
            },
        }
    }
}

/// The ids of the requests.
pub open spec fn request_ids(rs: Seq<RequestV>) -> Seq<Seq<char>> {
    rs.map_values(|r: RequestV| r.0)
}

/// The requests of a container, in order: nothing when the collection or
/// the group is not there.
pub open spec fn request_ids_in_of(cs: Seq<CollectionV>, col_id: Seq<char>, group: Option<Seq<char>>) -> Seq<Seq<char>> {
    match first_col(cs, col_id, 0) {
        None => seq![],
        Some(ci) => match group {
            Some(gid) => match first_group_id(cs[ci].groups, gid, 0) {
                Some(gi) => request_ids(cs[ci].groups[gi].requests),
                None => seq![],
            },
            None => request_ids(cs[ci].requests),
        },
    }
}

/// The ids of the groups among the first `n` whose parent is `parent`, in
/// order.
pub open spec fn ids_with_parent(gs: Seq<GroupV>, parent: Option<Seq<char>>, n: int) -> Seq<Seq<char>>
    decreases n,
{
    if n <= 0 {
        seq![]
    } else if gs[n - 1].parent == parent {
        ids_with_parent(gs, parent, n - 1).push(gs[n - 1].id)
    } else {
        ids_with_parent(gs, parent, n - 1)
    }
}

/// The groups directly under `parent` (the root when none) in a collection,
/// in order.
pub open spec fn group_ids_under_of(cs: Seq<CollectionV>, col_id: Seq<char>, parent: Option<Seq<char>>) -> Seq<Seq<char>> {
    match first_col(cs, col_id, 0) {
        None => seq![],
        Some(ci) => ids_with_parent(cs[ci].groups, parent, cs[ci].groups.len() as int),
    }
}

/// The first `n` of `ids` without `x`, in order.
pub open spec fn without_upto(ids: Seq<Seq<char>>, x: Seq<char>, n: int) -> Seq<Seq<char>>
    decreases n,
{
    if n <= 0 {
        seq![]
    } else if ids[n - 1] == x {
        without_upto(ids, x, n - 1)
    } else {
        without_upto(ids, x, n - 1).push(ids[n - 1])
    }
}

/// `ids` without `x`, in order.
pub open spec fn without(ids: Seq<Seq<char>>, x: Seq<char>) -> Seq<Seq<char>> {
    without_upto(ids, x, ids.len() as int)
}

/// `p` is group `root` or lies below it: it is among the ids that a walk
/// down from `root` gathers (see [`subtree_ok`]).
pub open spec fn in_subtree(gs: Seq<GroupV>, root: Seq<char>, p: Seq<char>) -> bool {
    exists|ids: Seq<Seq<char>>| subtree_ok(gs, root, ids) && ids.contains(p)
}

/// A group may be dropped there: into a container that exists, at the root
/// of its collection or under a group that is not the dragged group nor
/// below it.
pub open spec fn group_drop_allowed_of(cs: Seq<CollectionV>, id: Seq<char>, at: RowRef, zone: DropZone) -> bool {
    match drop_container_of(cs, at, zone) {
        None => false,
        Some(t) => match first_col(cs, t.0, 0) {
            None => false,
            Some(ci) => match t.1 {
                None => true,
                Some(p) => !in_subtree(cs[ci].groups, id, p),
            },
        },
    }
}

/// What a drop does.
#[derive(Debug, Clone, PartialEq, Eq)]
pub enum DropPlan {
    /// Not allowed: nothing happens.
    Refused,
    /// The target is gone: nothing to move.
    Nothing,
    /// Move request `id` into (collection, group) and order that container as
    /// `order`.
    MoveRequest { id: String, col: String, group: Option<String>, order: Vec<String> },
    /// Put group `id` under `parent` (the collection root when none) in
    /// collection `col`, and order its siblings as `order`.
    MoveGroup { id: String, col: String, parent: Option<String>, order: Vec<String> },
}

/// A drop plan as plain values.
pub enum DropPlanV {
    Refused,
    Nothing,
    MoveRequest(Seq<char>, Seq<char>, Option<Seq<char>>, Seq<Seq<char>>),
    MoveGroup(Seq<char>, Seq<char>, Option<Seq<char>>, Seq<Seq<char>>),
}

/// An optional string as plain values.
pub open spec fn opt_text(o: Option<String>) -> Option<Seq<char>> {
    match o {
        Some(s) => Some(s@),
        None => None,
    }
}

impl View for DropPlan {
    type V = DropPlanV;

    open spec fn view(&self) -> DropPlanV {
        match self {
            DropPlan::Refused => DropPlanV::Refused,
            DropPlan::Nothing => DropPlanV::Nothing,
            DropPlan::MoveRequest { id, col, group, order } => DropPlanV::MoveRequest(
                id@,
                col@,
                opt_text(*group),
                strings_view(order@),
            ),
            DropPlan::MoveGroup { id, col, parent, order } => DropPlanV::MoveGroup(
                id@,
                col@,
                opt_text(*parent),
                strings_view(order@),
            ),
        }
    }
}

/// The order of a container after the drop: the dragged id taken out, then
/// put in before or after the anchor row's node, or last.
pub open spec fn new_order(ids: Seq<Seq<char>>, id: Seq<char>, anchor: Option<Seq<char>>, zone: DropZone) -> Seq<Seq<char>> {
    let rest = without(ids, id);
    rest.insert(insert_position(rest, anchor, zone), id)
}

/// What dropping the dragged node (`kind`, `id`) on row `at` in `zone`
/// does.
pub open spec fn drop_plan_of(cs: Seq<CollectionV>, kind: RowKind, id: Seq<char>, at: RowRef, zone: DropZone) -> DropPlanV {
    if kind == RowKind::Group && !group_drop_allowed_of(cs, id, at, zone) {
        DropPlanV::Refused
    } else {
        match drop_container_of(cs, at, zone) {
            None => DropPlanV::Nothing,
            Some(t) => {
                let anchor = if zone == DropZone::Inside {
                    None
                } else {
                    row_node_id_of(cs, at)
                };
                if kind == RowKind::Group {
                    DropPlanV::MoveGroup(id, t.0, t.1, new_order(group_ids_under_of(cs, t.0, t.1), id, anchor, zone))
                } else {
                    DropPlanV::MoveRequest(id, t.0, t.1, new_order(request_ids_in_of(cs, t.0, t.1), id, anchor, zone))
                }
            },
        }
    }
}

proof fn lemma_first_col(cs: Seq<CollectionV>, id: Seq<char>, k: int)
    requires
        0 <= k,
    ensures
        first_col(cs, id, k) matches Some(j) ==> k <= j < cs.len() && cs[j].id == id,
    decreases cs.len() - k,
{
    if k < cs.len() && cs[k].id != id {
        lemma_first_col(cs, id, k + 1);
    }
}

pub(crate) fn find_col(cols: &[Collection], id: &str) -> (r: Option<usize>)
    ensures
        match r {
            Some(k) => first_col(cols_view(cols@), id@, 0) == Some(k as int) && k < cols@.len(),
            None => first_col(cols_view(cols@), id@, 0) is None,
        },
{
    let ghost cv = cols_view(cols@);
    let mut k: usize = 0;
    while k < cols.len()
        invariant
            cv == cols_view(cols@),
            k <= cols@.len(),
            first_col(cv, id@, 0) == first_col(cv, id@, k as int),
        decreases cols@.len() - k,
    {
        proof {
            assert(cv[k as int] == cols@[k as int]@);
        }
        if text_eq(cols[k].id.as_str(), id) {
            return Some(k);
        }
        k = k + 1;
    }
    None
}

/// The container a drop on row `at` in `zone` lands in: see
/// [`drop_container_of`].
pub fn drop_container(cols: &[Collection], at: RowRef, zone: DropZone) -> (r: Option<(String, Option<String>)>)
    ensures
        match r {
            Some(t) => drop_container_of(cols_view(cols@), at, zone) == Some((t.0@, opt_text(t.1))),
            None => drop_container_of(cols_view(cols@), at, zone) is None,
        },
{
    let ghost cv = cols_view(cols@);
    if at.col >= cols.len() {
        return None;
    }
    let c = &cols[at.col];
    proof {
        assert(cv[at.col as int] == c@);
    }
    match at.req {
        Some(_) => {
            let gid = match at.grp {
                Some(gi) => if gi < c.groups.len() {
                    proof {
                        assert(c@.groups[gi as int] == c.groups@[gi as int]@);
                    }
                    Some(c.groups[gi].id.clone())
                } else {
                    None
                },
                None => None,
            };
            Some((c.id.clone(), gid))
        },
        None => match at.grp {
            Some(gi) => {
                if gi < c.groups.len() {
                    let g = &c.groups[gi];
                    proof {
                        assert(c@.groups[gi as int] == g@);
                    }
                    match zone {
                        DropZone::Inside => Some((c.id.clone(), Some(g.id.clone()))),
                        _ => {
                            let p = copy_opt(&g.parent);
                            proof {
                                assert(opt_text(p) == opt_view(g.parent));
                            }
                            Some((c.id.clone(), p))
                        },
                    }
                } else {
                    None
                }
            },
            None => Some((c.id.clone(), None)),
        },
    }
}

/// The id of the node row `at` shows: see [`row_node_id_of`].
pub fn row_node_id(cols: &[Collection], at: RowRef) -> (r: Option<String>)
    ensures
        opt_text(r) == row_node_id_of(cols_view(cols@), at),
{
    let ghost cv = cols_view(cols@);
    if at.col >= cols.len() {
        return None;
    }
    let c = &cols[at.col];
    proof {
        assert(cv[at.col as int] == c@);
    }
    match at.req {
        Some(ri) => {
            let rs = match at.grp {
                Some(gi) => if gi < c.groups.len() {
                    proof {
                        assert(c@.groups[gi as int] == c.groups@[gi as int]@);
                    }
                    Some(&c.groups[gi].requests)
                } else {
                    None
                },
                None => Some(&c.requests),
            };
            match rs {
                Some(rs) => if ri < rs.len() {
                    proof {
                        assert(reqs_view(rs@)[ri as int] == rs@[ri as int]@);
                    }
                    Some(rs[ri].id.clone())
                } else {
                    None
                },
                None => None,
            }
        },
        None => match at.grp {
            Some(gi) => if gi < c.groups.len() {
                proof {
                    assert(c@.groups[gi as int] == c.groups@[gi as int]@);
                }
                Some(c.groups[gi].id.clone())
            } else {
                None
            },
            None => Some(c.id.clone()),
        },
    }
}

fn ids_of(rs: &Vec<crate::model::RequestItem>) -> (r: Vec<String>)
    ensures
        strings_view(r@) == request_ids(reqs_view(rs@)),
{
    let mut out: Vec<String> = Vec::new();
    let mut k: usize = 0;
    while k < rs.len()
        invariant
            k <= rs@.len(),
            strings_view(out@) == request_ids(reqs_view(rs@)).take(k as int),
        decreases rs@.len() - k,
    {
        let ghost before = strings_view(out@);
        out.push(rs[k].id.clone());
        proof {
            assert(request_ids(reqs_view(rs@))[k as int] == rs@[k as int].id@);
            assert(strings_view(out@) =~= before.push(rs@[k as int].id@));
            assert(strings_view(out@) =~= request_ids(reqs_view(rs@)).take(k + 1));
        }
        k = k + 1;
    }
    proof {
        assert(request_ids(reqs_view(rs@)).take(k as int) =~= request_ids(reqs_view(rs@)));
    }
    out
}

/// An optional text as plain values.
pub open spec fn opt_str_view(o: Option<&str>) -> Option<Seq<char>> {
    match o {
        Some(s) => Some(s@),
        None => None,
    }
}

fn request_ids_in(cols: &[Collection], col_id: &str, group: Option<&str>) -> (r: Vec<String>)
    ensures
        strings_view(r@) == request_ids_in_of(cols_view(cols@), col_id@, opt_str_view(group)),
{
    let ghost cv = cols_view(cols@);
    match find_col(cols, col_id) {
        None => {
            let out: Vec<String> = Vec::new();
            proof {
                assert(strings_view(out@) =~= Seq::<Seq<char>>::empty());
            }
            out
        },
        Some(ci) => {
            let c = &cols[ci];
            proof {
                assert(cv[ci as int] == c@);
            }
            match group {
                Some(gid) => match find_group(&c.groups, gid) {
                    Some(gi) => {
                        proof {
                            lemma_first_group_id(groups_view(c.groups@), gid@, 0);
                            assert(c@.groups[gi as int] == c.groups@[gi as int]@);
                        }
                        ids_of(&c.groups[gi].requests)
                    },
                    None => {
                        let out: Vec<String> = Vec::new();
                        proof {
                            assert(strings_view(out@) =~= Seq::<Seq<char>>::empty());
                        }
                        out
                    },
                },
                None => ids_of(&c.requests),
            }
        },
    }
}

fn same_parent(p: &Option<String>, want: Option<&str>) -> (r: bool)
    ensures
        r == (opt_view(*p) == opt_str_view(want)),
{
    match (p, want) {
        (Some(a), Some(b)) => text_eq(a.as_str(), b),
        (None, None) => true,
        _ => false,
    }
}

fn group_ids_under(cols: &[Collection], col_id: &str, parent: Option<&str>) -> (r: Vec<String>)
    ensures
        strings_view(r@) == group_ids_under_of(cols_view(cols@), col_id@, opt_str_view(parent)),
{
    let ghost cv = cols_view(cols@);
    let mut out: Vec<String> = Vec::new();
    match find_col(cols, col_id) {
        None => {
            proof {
                assert(strings_view(out@) =~= Seq::<Seq<char>>::empty());
            }
        },
        Some(ci) => {
            let c = &cols[ci];
            let ghost gs = c@.groups;
            proof {
                assert(cv[ci as int] == c@);
                assert(strings_view(out@) =~= Seq::<Seq<char>>::empty());
            }
            let mut k: usize = 0;
            while k < c.groups.len()
                invariant
                    gs == c@.groups,
                    k <= c.groups@.len(),
                    strings_view(out@) == ids_with_parent(gs, opt_str_view(parent), k as int),
                decreases c.groups@.len() - k,
            {
                let g = &c.groups[k];
                proof {
                    assert(gs[k as int] == g@);
                }
                if same_parent(&g.parent, parent) {
                    let ghost before = strings_view(out@);
                    out.push(g.id.clone());
                    proof {
                        assert(strings_view(out@) =~= before.push(g.id@));
                    }
                }
                k = k + 1;
            }
        },
    }
    out
}

fn remove_id(ids: &Vec<String>, id: &str) -> (r: Vec<String>)
    ensures
        strings_view(r@) == without(strings_view(ids@), id@),
{
    let ghost v = strings_view(ids@);
    let mut out: Vec<String> = Vec::new();
    let mut k: usize = 0;
    while k < ids.len()
        invariant
            v == strings_view(ids@),
            k <= ids@.len(),
            strings_view(out@) == without_upto(v, id@, k as int),
        decreases ids@.len() - k,
    {
        proof {
            assert(v[k as int] == ids@[k as int]@);
        }
        if !text_eq(ids[k].as_str(), id) {
            let ghost before = strings_view(out@);
            out.push(ids[k].clone());
            proof {
                assert(strings_view(out@) =~= before.push(v[k as int]));
            }
        }
        k = k + 1;
    }
    out
}

/// Whether a group may be dropped there: see [`group_drop_allowed_of`].
pub fn group_drop_allowed(cols: &[Collection], id: &str, at: RowRef, zone: DropZone) -> (r: bool)
    ensures
        r == group_drop_allowed_of(cols_view(cols@), id@, at, zone),
{
    let ghost cv = cols_view(cols@);
    match drop_container(cols, at, zone) {
        None => false,
        Some((to_col, parent)) => match find_col(cols, to_col.as_str()) {
            None => false,
            Some(ci) => match parent {
                None => true,
                Some(p) => {
                    let c = &cols[ci];
                    proof {
                        assert(cv[ci as int] == c@);
                        assert(c@.groups == groups_view(c.groups@));
                    }
                    let ids = group_subtree_ids(&c.groups, id);
                    let inside = is_listed(ids.as_slice(), p.as_str());
                    proof {
                        let sv = strings_view(ids@);
                        if inside {
                            let k = choose|k: int| 0 <= k < ids@.len() && ids@[k]@ == p@;
                            assert(sv[k] == p@);
                            assert(subtree_ok(c@.groups, id@, sv) && sv.contains(p@));
                            assert(in_subtree(c@.groups, id@, p@));
                        } else {
                            if in_subtree(c@.groups, id@, p@) {
                                let other = choose|o: Seq<Seq<char>>| subtree_ok(c@.groups, id@, o) && o.contains(p@);
                                lemma_subtree_members(c@.groups, id@, other, sv);
                                let k = choose|k: int| 0 <= k < sv.len() && sv[k] == p@;
                                assert(ids@[k]@ == p@);
                            }
                        }
                    }
                    !inside
                },
            },
        },
    }
}

/// What dropping the dragged node (`kind`, `id`) on row `at` in `zone`
/// does: see [`drop_plan_of`].
pub fn plan_drop(cols: &[Collection], kind: RowKind, id: &str, at: RowRef, zone: DropZone) -> (r: DropPlan)
    ensures
        r@ == drop_plan_of(cols_view(cols@), kind, id@, at, zone),
{
    if kind == RowKind::Group && !group_drop_allowed(cols, id, at, zone) {
        return DropPlan::Refused;
    }
    match drop_container(cols, at, zone) {
        None => DropPlan::Nothing,
        Some((to_col, to_group)) => {
            let anchor = if zone == DropZone::Inside {
                None
            } else {
                row_node_id(cols, at)
            };
            let group_ref: Option<&str> = match &to_group {
                Some(g) => Some(g.as_str()),
                None => None,
            };
            let ids = if kind == RowKind::Group {
                group_ids_under(cols, to_col.as_str(), group_ref)
            } else {
                request_ids_in(cols, to_col.as_str(), group_ref)
            };
            let mut order = remove_id(&ids, id);
            let anchor_ref: Option<&str> = match &anchor {
                Some(a) => Some(a.as_str()),
                None => None,
            };
            insert_into(&mut order, id, anchor_ref, zone);
            proof {
                assert(opt_str_view(group_ref) == opt_text(to_group));
                assert(match anchor_ref {
                    Some(t) => Some(t@),
                    None => None,
                } == opt_text(anchor));
            }
            if kind == RowKind::Group {
                DropPlan::MoveGroup { id: String::from_str(id), col: to_col, parent: to_group, order }
            } else {
                DropPlan::MoveRequest { id: String::from_str(id), col: to_col, group: to_group, order }
            }
        },
    }
}

/// A group is never dropped into itself or below itself: when a plan puts
/// group `id` under a parent, that parent is outside the group's subtree in
/// the target collection.
pub proof fn law_group_never_dropped_into_its_subtree(
    cs: Seq<CollectionV>,
    id: Seq<char>,
    at: RowRef,
    zone: DropZone,
    col: Seq<char>,
    p: Seq<char>,
    order: Seq<Seq<char>>,
)
    requires
        drop_plan_of(cs, RowKind::Group, id, at, zone) == DropPlanV::MoveGroup(id, col, Some(p), order),
    ensures
        first_col(cs, col, 0) is Some,
        !in_subtree(cs[first_col(cs, col, 0)->0].groups, id, p),
{
}

/// The requests listed on a request row: those of its group, or of its
/// collection's root.
pub open spec fn row_requests(c: CollectionV, at: RowRef) -> Seq<RequestV> {
    match at.grp {
        Some(gi) => c.groups[gi as int].requests,
        None => c.requests,
    }
}

proof fn lemma_without_keeps(ids: Seq<Seq<char>>, x: Seq<char>, y: Seq<char>, n: int)
    requires
        0 <= n <= ids.len(),
        y != x,
        ids.take(n).contains(y),
    ensures
        without_upto(ids, x, n).contains(y),
    decreases n,
{
    if n > 0 {
        if ids[n - 1] == y {
            let w = without_upto(ids, x, n - 1);
            assert(without_upto(ids, x, n) == w.push(y));
            assert(w.push(y)[w.len() as int] == y);
        } else {
            let k = choose|k: int| 0 <= k < n && ids.take(n)[k] == y;
            assert(ids.take(n - 1)[k] == y);
            lemma_without_keeps(ids, x, y, n - 1);
            let w = without_upto(ids, x, n - 1);
            let j = choose|j: int| 0 <= j < w.len() && w[j] == y;
            if ids[n - 1] != x {
                assert(w.push(ids[n - 1])[j] == y);
            }
        }
    }
}

/// A request dropped next to a request row lands in the container that lists
/// that request (its group, or its collection's root), and the planned order
/// of that container keeps the request it was dropped next to (for ids that
/// name one collection and one group each).
pub proof fn law_request_drop_lands_beside_its_anchor(
    cs: Seq<CollectionV>,
    id: Seq<char>,
    at: RowRef,
    zone: DropZone,
)
    requires
        at.col < cs.len(),
        first_col(cs, cs[at.col as int].id, 0) == Some(at.col as int),
        at.req is Some,
        at.grp matches Some(gi) ==> gi < cs[at.col as int].groups.len() && first_group_id(
            cs[at.col as int].groups,
            cs[at.col as int].groups[gi as int].id,
            0,
        ) == Some(gi as int),
        at.req->0 < row_requests(cs[at.col as int], at).len(),
    ensures
        drop_container_of(cs, at, zone) is Some,
        request_ids_in_of(
            cs,
            (drop_container_of(cs, at, zone)->0).0,
            (drop_container_of(cs, at, zone)->0).1,
        ).contains(row_requests(cs[at.col as int], at)[at.req->0 as int].0),
        zone != DropZone::Inside && row_requests(cs[at.col as int], at)[at.req->0 as int].0 != id
            ==> (drop_plan_of(cs, RowKind::Request, id, at, zone) matches DropPlanV::MoveRequest(
            _,
            _,
            _,
            order,
        ) && order.contains(row_requests(cs[at.col as int], at)[at.req->0 as int].0)),
{
    let c = cs[at.col as int];
    let rs = row_requests(c, at);
    let ri = at.req->0 as int;
    let a = rs[ri].0;
    let ids = request_ids(rs);
    assert(ids[ri] == a);
    assert(ids.contains(a));
    let t = drop_container_of(cs, at, zone)->0;
    assert(request_ids_in_of(cs, t.0, t.1) == ids);
    if zone != DropZone::Inside && a != id {
        assert(row_node_id_of(cs, at) == Some(a));
        assert(ids.take(ids.len() as int) =~= ids);
        lemma_without_keeps(ids, id, a, ids.len() as int);
        let rest = without(ids, id);
        let pos = insert_position(rest, Some(a), zone);
        crate::model::lemma_first_index_range(rest, a, 0);
        assert(0 <= pos <= rest.len());
        let j = choose|j: int| 0 <= j < rest.len() && rest[j] == a;
        let order = new_order(ids, id, Some(a), zone);
        assert(order == rest.insert(pos, id));
        if j < pos {
            assert(order[j] == a);
        } else {
            assert(order[j + 1] == a);
        }
    }
}

/// Dropping on a collection row lands at the root of that collection;
/// dropping into a group row lands in the group the row shows; dropping just
/// before or after a group row lands beside that group, under its parent.
pub proof fn law_drop_on_a_container_row(cs: Seq<CollectionV>, at: RowRef, zone: DropZone)
    requires
        at.col < cs.len(),
        at.req is None,
        at.grp matches Some(gi) ==> gi < cs[at.col as int].groups.len(),
    ensures
        at.grp is None ==> drop_container_of(cs, at, zone) == Some((row_node_id_of(cs, at)->0, None::<Seq<char>>)),
        at.grp is Some && zone == DropZone::Inside ==> drop_container_of(cs, at, zone) == Some(
            (cs[at.col as int].id, row_node_id_of(cs, at)),
        ),
        at.grp is Some && zone != DropZone::Inside ==> drop_container_of(cs, at, zone) == Some(
            (cs[at.col as int].id, cs[at.col as int].groups[at.grp->0 as int].parent),
        ) && row_node_id_of(cs, at) == Some(cs[at.col as int].groups[at.grp->0 as int].id),
{
}

} // verus!
