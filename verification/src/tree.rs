//! The side tree of a workspace: which ids fold, whether anything is open,
//! where a new item goes, which row shows a node, and where a request may move.

use vstd::prelude::*;
use vstd::utf8::encode_utf8;
use vstd::string::{StringSliceAdditionalSpecFns, StringExecFns};
use crate::text::{text_eq, lowercase, to_lowercase, trim_str, trimmed, push_char};
use crate::model::{
    Collection, CollectionV, Group, GroupV, RequestItem, RequestV, Selection, SelectionV, TreeRow,
    RowRef, cols_view, strings_view,
};
use crate::search::{contains_ci, contains_ci_bytes};

verus! {

/// The requests as plain values.
pub open spec fn reqs_view(rs: Seq<RequestItem>) -> Seq<RequestV> {
    rs.map_values(|r: RequestItem| r@)
}

/// The groups as plain values.
pub open spec fn groups_view(gs: Seq<Group>) -> Seq<GroupV> {
    gs.map_values(|g: Group| g@)
}

/// Some request has id `id`.
pub open spec fn holds_request(rs: Seq<RequestV>, id: Seq<char>) -> bool {
    exists|k: int| 0 <= k < rs.len() && rs[k].0 == id
}

/// Whether a request with id `id` is among `rs`.
pub fn has_request(rs: &Vec<RequestItem>, id: &str) -> (r: bool)
    ensures
        r == holds_request(reqs_view(rs@), id@),
{
    let ghost v = reqs_view(rs@);
    let mut k: usize = 0;
    while k < rs.len()
        invariant
            v == reqs_view(rs@),
            k <= rs@.len(),
            forall|j: int| 0 <= j < k ==> v[j].0 != id@,
        decreases rs@.len() - k,
    {
        if text_eq(&rs[k].id, id) {
            proof {
                assert(v[k as int].0 == id@);
            }
            return true;
        }
        k = k + 1;
    }
    false
}

/// `id` is among `ids`.
pub open spec fn listed(ids: Seq<String>, id: Seq<char>) -> bool {
    exists|k: int| 0 <= k < ids.len() && ids[k]@ == id
}

/// Whether `id` is among `ids`.
pub fn is_listed(ids: &[String], id: &str) -> (r: bool)
    ensures
        r == listed(ids@, id@),
{
    let mut k: usize = 0;
    while k < ids.len()
        invariant
            k <= ids@.len(),
            forall|j: int| 0 <= j < k ==> ids@[j]@ != id@,
        decreases ids@.len() - k,
    {
        if text_eq(ids[k].as_str(), id) {
            return true;
        }
        k = k + 1;
    }
    false
}

/// The ids that "collapse all" marks: each collection, then its groups.
pub open spec fn collapse_ids_of(cs: Seq<CollectionV>) -> Seq<Seq<char>>
    decreases cs.len(),
{
    if cs.len() == 0 {
        seq![]
    } else {
        let c = cs.last();
        collapse_ids_of(cs.drop_last()).push(c.id) + c.groups.map_values(|g: GroupV| g.id)
    }
}

/// The ids to mark when collapsing everything: collections and groups.
pub fn collapse_ids(cols: &[Collection]) -> (out: Vec<&str>)
    ensures
        out@.map_values(|s: &str| s@) == collapse_ids_of(cols_view(cols@)),
{
    let ghost cv = cols_view(cols@);
    let mut out: Vec<&str> = Vec::new();
    let mut i: usize = 0;
    while i < cols.len()
        invariant
            cv == cols_view(cols@),
            i <= cols@.len(),
            out@.map_values(|s: &str| s@) == collapse_ids_of(cv.take(i as int)),
        decreases cols@.len() - i,
    {
        let c = &cols[i];
        let ghost base = out@.map_values(|s: &str| s@);
        proof {
            assert(cv.take(i + 1).drop_last() =~= cv.take(i as int));
            assert(cv.take(i + 1).last() == c@);
        }
        out.push(c.id.as_str());
        let ghost gids = c@.groups.map_values(|g: GroupV| g.id);
        let mut j: usize = 0;
        while j < c.groups.len()
            invariant
                i < cols@.len(),
                c == &cols@[i as int],
                gids == c@.groups.map_values(|g: GroupV| g.id),
                j <= c.groups@.len(),
                out@.map_values(|s: &str| s@) == base.push(c.id@) + gids.take(j as int),
            decreases c.groups@.len() - j,
        {
            let ghost before = out@.map_values(|s: &str| s@);
            out.push(c.groups[j].id.as_str());
            proof {
                assert(gids[j as int] == c.groups@[j as int].id@);
                assert(out@.map_values(|s: &str| s@) =~= before.push(c.groups@[j as int].id@));
                assert(gids.take(j + 1) =~= gids.take(j as int).push(gids[j as int]));
            }
            j = j + 1;
        }
        proof {
            assert(gids.take(j as int) =~= gids);
            assert(collapse_ids_of(cv.take(i + 1)) == collapse_ids_of(cv.take(i as int)).push(
                c@.id,
            ) + gids);
        }
        i = i + 1;
    }
    proof {
        assert(cv.take(i as int) =~= cv);
    }
    out
}

/// Group `g` of `c` has something under it: requests or child groups.
pub open spec fn group_has_children(c: CollectionV, g: GroupV) -> bool {
    g.requests.len() > 0 || exists|k: int|
        0 <= k < c.groups.len() && c.groups[k].parent == Some(g.id)
}

/// Collection `c` shows something open: it has content and is not collapsed,
/// or one of its groups has content and is not collapsed.
pub open spec fn col_expanded(c: CollectionV, collapsed: Seq<String>) -> bool {
    ||| (c.requests.len() > 0 || c.groups.len() > 0) && !listed(collapsed, c.id)
    ||| exists|j: int|
        0 <= j < c.groups.len() && group_has_children(c, c.groups[j]) && !listed(
            collapsed,
            c.groups[j].id,
        )
}

/// Whether group `g` of `c` has child groups.
fn has_child_group(c: &Collection, g: &Group) -> (r: bool)
    ensures
        r == exists|k: int| 0 <= k < c@.groups.len() && c@.groups[k].parent == Some(g@.id),
{
    let mut k: usize = 0;
    while k < c.groups.len()
        invariant
            k <= c.groups@.len(),
            forall|j: int| 0 <= j < k ==> c@.groups[j].parent != Some(g@.id),
        decreases c.groups@.len() - k,
    {
        let p = &c.groups[k].parent;
        let hit = match p {
            Some(p) => text_eq(p.as_str(), g.id.as_str()),
            None => false,
        };
        proof {
            assert(c@.groups[k as int] == c.groups@[k as int]@);
        }
        if hit {
            return true;
        }
        k = k + 1;
    }
    false
}

/// Whether any collection or group is expanded (the "collapse all" button then
/// collapses; otherwise it expands).
pub fn any_expanded(cols: &[Collection], collapsed: &[String]) -> (r: bool)
    ensures
        r == exists|i: int| 0 <= i < cols@.len() && col_expanded(cols@[i]@, collapsed@),
{
    let mut i: usize = 0;
    while i < cols.len()
        invariant
            i <= cols@.len(),
            forall|k: int| 0 <= k < i ==> !col_expanded(cols@[k]@, collapsed@),
        decreases cols@.len() - i,
    {
        let c = &cols[i];
        let has_kids = c.requests.len() > 0 || c.groups.len() > 0;
        if has_kids && !is_listed(collapsed, c.id.as_str()) {
            return true;
        }
        let mut j: usize = 0;
        while j < c.groups.len()
            invariant
                i < cols@.len(),
                c == &cols@[i as int],
                j <= c.groups@.len(),
                forall|k: int|
                    0 <= k < j ==> !(group_has_children(c@, c@.groups[k]) && !listed(
                        collapsed@,
                        c@.groups[k].id,
                    )),
            decreases c.groups@.len() - j,
        {
            let g = &c.groups[j];
            proof {
                assert(c@.groups[j as int] == g@);
            }
            if (g.requests.len() > 0 || has_child_group(c, g)) && !is_listed(
                collapsed,
                g.id.as_str(),
            ) {
                return true;
            }
            j = j + 1;
        }
        i = i + 1;
    }
    false
}

/// Where a new item goes for one collection, if the selection lies in it.
pub open spec fn target_in(c: CollectionV, sel: SelectionV) -> Option<(Seq<char>, Option<Seq<char>>)> {
    match sel {
        SelectionV::Request(id) => if holds_request(c.requests, id) {
            Some((c.id, None))
        } else {
            match first_group_holding(c.groups, id, 0) {
                Some(k) => Some((c.id, Some(c.groups[k].id))),
                None => None,
            }
        },
        SelectionV::Group(id) => if exists|k: int| 0 <= k < c.groups.len() && c.groups[k].id == id {
            Some((c.id, Some(id)))
        } else {
            None
        },
        SelectionV::Collection(id) => if c.id == id {
            Some((c.id, None))
        } else {
            None
        },
    }
}

/// The first group from `k` on that holds the request `id`.
pub open spec fn first_group_holding(gs: Seq<GroupV>, id: Seq<char>, k: int) -> Option<int>
    decreases gs.len() - k,
{
    if 0 <= k < gs.len() {
        if holds_request(gs[k].requests, id) {
            Some(k)
        } else {
            first_group_holding(gs, id, k + 1)
        }
    } else {
        None
    }
}

/// The target given by the first collection (from `i` on) that holds the selection.
pub open spec fn first_target(cs: Seq<CollectionV>, sel: SelectionV, i: int) -> Option<(Seq<char>, Option<Seq<char>>)>
    decreases cs.len() - i,
{
    if 0 <= i < cs.len() {
        match target_in(cs[i], sel) {
            Some(t) => Some(t),
            None => first_target(cs, sel, i + 1),
        }
    } else {
        None
    }
}

/// Where "new item" puts things: a selected request's group (or its collection
/// when directly under one), a selected group, a selected collection; without a
/// selection, or when the selected node is gone, the first collection; `None`
/// when there is no collection.
pub open spec fn new_target_of(cs: Seq<CollectionV>, sel: Option<SelectionV>) -> Option<(Seq<char>, Option<Seq<char>>)> {
    let from_sel = match sel {
        Some(s) => first_target(cs, s, 0),
        None => None,
    };
    match from_sel {
        Some(t) => Some(t),
        None => if cs.len() > 0 {
            Some((cs[0].id, None))
        } else {
            None
        },
    }
}

/// The view of a target as returned.
pub open spec fn target_view(t: (String, Option<String>)) -> (Seq<char>, Option<Seq<char>>) {
    (t.0@, match t.1 {
        Some(g) => Some(g@),
        None => None,
    })
}

/// Where a new item goes in one collection, if the selection lies in it.
fn target_in_col(c: &Collection, sel: &Selection) -> (r: Option<(String, Option<String>)>)
    ensures
        match r {
            Some(t) => target_in(c@, sel@) == Some(target_view(t)),
            None => target_in(c@, sel@) is None,
        },
{
    match sel {
        Selection::Request(id) => {
            proof {
                assert(sel@ == SelectionV::Request(id@));
                assert(c@.requests =~= reqs_view(c.requests@));
            }
            if has_request(&c.requests, id.as_str()) {
                return Some((c.id.clone(), None));
            }
            let mut k: usize = 0;
            while k < c.groups.len()
                invariant
                    sel@ == SelectionV::Request(id@),
                    !holds_request(c@.requests, id@),
                    k <= c.groups@.len(),
                    first_group_holding(c@.groups, id@, 0) == first_group_holding(
                        c@.groups,
                        id@,
                        k as int,
                    ),
                decreases c.groups@.len() - k,
            {
                proof {
                    assert(c@.groups[k as int] == c.groups@[k as int]@);
                }
                let holds = has_request(&c.groups[k].requests, id.as_str());
                proof {
                    assert(c@.groups[k as int].requests =~= reqs_view(c.groups@[k as int].requests@));
                }
                if holds {
                    proof {
                        assert(first_group_holding(c@.groups, id@, k as int) == Some(k as int));
                    }
                    let r = (c.id.clone(), Some(c.groups[k].id.clone()));
                    proof {
                        assert(target_view(r) == (c@.id, Some(c@.groups[k as int].id)));
                    }
                    return Some(r);
                }
                k = k + 1;
            }
            None
        },
        Selection::Group(id) => {
            proof {
                assert(sel@ == SelectionV::Group(id@));
            }
            let mut k: usize = 0;
            while k < c.groups.len()
                invariant
                    sel@ == SelectionV::Group(id@),
                    k <= c.groups@.len(),
                    forall|j: int| 0 <= j < k ==> c@.groups[j].id != id@,
                decreases c.groups@.len() - k,
            {
                proof {
                    assert(c@.groups[k as int] == c.groups@[k as int]@);
                }
                if text_eq(c.groups[k].id.as_str(), id.as_str()) {
                    proof {
                        assert(c@.groups[k as int].id == id@);
                    }
                    let r = (c.id.clone(), Some(id.clone()));
                    proof {
                        assert(target_view(r) == (c@.id, Some(id@)));
                    }
                    return Some(r);
                }
                k = k + 1;
            }
            None
        },
        Selection::Collection(id) => {
            proof {
                assert(sel@ == SelectionV::Collection(id@));
            }
            if text_eq(c.id.as_str(), id.as_str()) {
                Some((c.id.clone(), None))
            } else {
                None
            }
        },
    }
}

/// Where "new item" puts things (see [`new_target_of`]): collection id and,
/// when inside a group, the group id.
pub fn new_item_target(cols: &[Collection], sel: Option<&Selection>) -> (r: Option<
    (String, Option<String>),
>)
    ensures
        match r {
            Some(t) => new_target_of(cols_view(cols@), match sel {
                Some(s) => Some(s@),
                None => None,
            }) == Some(target_view(t)),
            None => new_target_of(cols_view(cols@), match sel {
                Some(s) => Some(s@),
                None => None,
            }) is None,
        },
{
    let ghost cv = cols_view(cols@);
    if let Some(s) = sel {
        let mut i: usize = 0;
        while i < cols.len()
            invariant
                sel == Some(s),
                cv == cols_view(cols@),
                i <= cols@.len(),
                first_target(cv, s@, 0) == first_target(cv, s@, i as int),
            decreases cols@.len() - i,
        {
            proof {
                assert(cv[i as int] == cols@[i as int]@);
            }
            if let Some(t) = target_in_col(&cols[i], s) {
                proof {
                    assert(first_target(cv, s@, i as int) == Some(target_view(t)));
                    assert(new_target_of(cv, Some(s@)) == Some(target_view(t)));
                }
                return Some(t);
            }
            i = i + 1;
        }
    }
    if cols.len() > 0 {
        proof {
            assert(cv[0] == cols@[0]@);
        }
        Some((cols[0].id.clone(), None))
    } else {
        None
    }
}

/// Row `r` shows the node `sel`: a collection row its collection, a group row
/// its group, a request row (in a group or directly under the collection) its request.
pub open spec fn row_shows(r: RowRef, cs: Seq<CollectionV>, sel: SelectionV) -> bool {
    r.col < cs.len() && {
        let c = cs[r.col as int];
        match sel {
            SelectionV::Collection(id) => r.grp is None && r.req is None && c.id == id,
            SelectionV::Group(id) => r.grp matches Some(gi) && r.req is None && gi < c.groups.len()
                && c.groups[gi as int].id == id,
            SelectionV::Request(id) => match (r.grp, r.req) {
                (Some(gi), Some(ri)) => gi < c.groups.len() && ri < c.groups[gi as int].requests.len()
                    && c.groups[gi as int].requests[ri as int].0 == id,
                (None, Some(ri)) => ri < c.requests.len() && c.requests[ri as int].0 == id,
                _ => false,
            },
        }
    }
}

/// Whether row position `r` shows the node `sel`.
fn row_matches(r: RowRef, cols: &[Collection], sel: &Selection) -> (b: bool)
    ensures
        b == row_shows(r, cols_view(cols@), sel@),
{
    if r.col >= cols.len() {
        return false;
    }
    let c = &cols[r.col];
    proof {
        assert(cols_view(cols@)[r.col as int] == c@);
    }
    match (sel, r.grp, r.req) {
        (Selection::Collection(id), None, None) => text_eq(c.id.as_str(), id.as_str()),
        (Selection::Group(id), Some(gi), None) => {
            if gi < c.groups.len() {
                proof {
                    assert(c@.groups[gi as int] == c.groups@[gi as int]@);
                }
                text_eq(c.groups[gi].id.as_str(), id.as_str())
            } else {
                false
            }
        },
        (Selection::Request(id), Some(gi), Some(ri)) => {
            if gi < c.groups.len() {
                let g = &c.groups[gi];
                proof {
                    assert(c@.groups[gi as int] == g@);
                }
                if ri < g.requests.len() {
                    proof {
                        assert(g@.requests[ri as int] == g.requests@[ri as int]@);
                    }
                    text_eq(g.requests[ri].id.as_str(), id.as_str())
                } else {
                    false
                }
            } else {
                false
            }
        },
        (Selection::Request(id), None, Some(ri)) => {
            if ri < c.requests.len() {
                proof {
                    assert(c@.requests[ri as int] == c.requests@[ri as int]@);
                }
                text_eq(c.requests[ri].id.as_str(), id.as_str())
            } else {
                false
            }
        },
        _ => false,
    }
}

/// Row number of the first row that shows the node `sel` (to scroll a new item
/// into view); `None` when no row shows it (for instance, it is folded away).
pub fn node_row_index(rows: &[TreeRow], cols: &[Collection], sel: &Selection) -> (r: Option<usize>)
    ensures
        match r {
            Some(i) => i < rows@.len() && row_shows(rows@[i as int].at, cols_view(cols@), sel@)
                && forall|k: int| 0 <= k < i ==> !row_shows(rows@[k].at, cols_view(cols@), sel@),
            None => forall|k: int|
                0 <= k < rows@.len() ==> !row_shows(rows@[k].at, cols_view(cols@), sel@),
        },
{
    let mut i: usize = 0;
    while i < rows.len()
        invariant
            i <= rows@.len(),
            forall|k: int| 0 <= k < i ==> !row_shows(rows@[k].at, cols_view(cols@), sel@),
        decreases rows@.len() - i,
    {
        if row_matches(rows[i].at, cols, sel) {
            return Some(i);
        }
        i = i + 1;
    }
    None
}

/// A place a request can move to: a collection root or a group.
#[derive(Debug, Clone, PartialEq, Eq)]
pub struct MoveTarget {
    pub collection_id: String,
    /// `None` = the collection root.
    pub group_id: Option<String>,
    /// For display: `collection` or `collection / group`.
    pub label: String,
}

/// A move target as plain values.
pub struct MoveTargetV {
    pub collection_id: Seq<char>,
    pub group_id: Option<Seq<char>>,
    pub label: Seq<char>,
}

impl View for MoveTarget {
    type V = MoveTargetV;

    open spec fn view(&self) -> MoveTargetV {
        MoveTargetV {
            collection_id: self.collection_id@,
            group_id: match self.group_id {
                Some(g) => Some(g@),
                None => None,
            },
            label: self.label@,
        }
    }
}

/// The label of a group as a target: `collection / group`.
pub open spec fn group_label(c: CollectionV, g: GroupV) -> Seq<char> {
    c.name + seq![' ', '/', ' '] + g.name
}

/// A label matches the lower-case keyword (an empty keyword matches everything).
pub open spec fn label_hit(label: Seq<char>, q: Seq<char>) -> bool {
    contains_ci_bytes(encode_utf8(label), encode_utf8(q))
}

/// The group targets of `c` among its first `k` groups.
pub open spec fn group_targets(c: CollectionV, rid: Seq<char>, q: Seq<char>, k: int) -> Seq<MoveTargetV>
    decreases k,
{
    if k <= 0 {
        seq![]
    } else {
        let g = c.groups[k - 1];
        let rest = group_targets(c, rid, q, k - 1);
        if !holds_request(g.requests, rid) && label_hit(group_label(c, g), q) {
            rest.push(MoveTargetV { collection_id: c.id, group_id: Some(g.id), label: group_label(c, g) })
        } else {
            rest
        }
    }
}

/// The targets of one collection: its root, then its groups, each skipped when
/// the request is already there or the label does not match.
pub open spec fn col_targets(c: CollectionV, rid: Seq<char>, q: Seq<char>) -> Seq<MoveTargetV> {
    (if !holds_request(c.requests, rid) && label_hit(c.name, q) {
        seq![MoveTargetV { collection_id: c.id, group_id: None, label: c.name }]
    } else {
        seq![]
    }) + group_targets(c, rid, q, c.groups.len() as int)
}

/// The targets of the first `i` collections.
pub open spec fn targets_upto(cs: Seq<CollectionV>, rid: Seq<char>, q: Seq<char>, i: int) -> Seq<MoveTargetV>
    decreases i,
{
    if i <= 0 {
        seq![]
    } else {
        targets_upto(cs, rid, q, i - 1) + col_targets(cs[i - 1], rid, q)
    }
}

/// The move targets of a request, as plain values.
pub open spec fn move_targets_of(cs: Seq<CollectionV>, rid: Seq<char>, query: Seq<char>) -> Seq<MoveTargetV> {
    targets_upto(cs, rid, lowercase(trimmed(query)), cs.len() as int)
}

/// The places request `request_id` can move to (collection roots and groups):
/// the place it is in now is skipped (moving there does nothing), and with a
/// keyword only labels that contain it (ASCII case ignored) are listed.
pub fn move_targets(cols: &[Collection], request_id: &str, query: &str) -> (out: Vec<MoveTarget>)
    ensures
        out@.map_values(|t: MoveTarget| t@) == move_targets_of(cols_view(cols@), request_id@, query@),
{
    let q = to_lowercase(trim_str(query));
    let ghost cv = cols_view(cols@);
    let mut out: Vec<MoveTarget> = Vec::new();
    let mut i: usize = 0;
    while i < cols.len()
        invariant
            cv == cols_view(cols@),
            q@ == lowercase(trimmed(query@)),
            i <= cols@.len(),
            out@.map_values(|t: MoveTarget| t@) == targets_upto(cv, request_id@, q@, i as int),
        decreases cols@.len() - i,
    {
        let c = &cols[i];
        proof {
            assert(cv[i as int] == c@);
        }
        let ghost base = out@.map_values(|t: MoveTarget| t@);
        let in_root = has_request(&c.requests, request_id);
        if !in_root {
            let label = c.name.clone();
            if contains_ci(label.as_str(), q.as_str()) {
                out.push(MoveTarget { collection_id: c.id.clone(), group_id: None, label });
            }
        }
        let ghost root = out@.map_values(|t: MoveTarget| t@);
        proof {
            assert(root =~= base + (if !holds_request(c@.requests, request_id@) && label_hit(
                c@.name,
                q@,
            ) {
                seq![MoveTargetV { collection_id: c@.id, group_id: None, label: c@.name }]
            } else {
                seq![]
            }));
        }
        let mut j: usize = 0;
        while j < c.groups.len()
            invariant
                i < cols@.len(),
                c == &cols@[i as int],
                j <= c.groups@.len(),
                out@.map_values(|t: MoveTarget| t@) == root + group_targets(
                    c@,
                    request_id@,
                    q@,
                    j as int,
                ),
            decreases c.groups@.len() - j,
        {
            let g = &c.groups[j];
            proof {
                assert(c@.groups[j as int] == g@);
            }
            let ghost before = out@.map_values(|t: MoveTarget| t@);
            if !has_request(&g.requests, request_id) {
                let mut label = c.name.clone();
                push_char(&mut label, ' ');
                push_char(&mut label, '/');
                push_char(&mut label, ' ');
                label.append(g.name.as_str());
                proof {
                    assert(label@ =~= group_label(c@, g@));
                }
                if contains_ci(label.as_str(), q.as_str()) {
                    out.push(
                        MoveTarget {
                            collection_id: c.id.clone(),
                            group_id: Some(g.id.clone()),
                            label,
                        },
                    );
                    proof {
                        assert(out@.map_values(|t: MoveTarget| t@) =~= before.push(
                            MoveTargetV {
                                collection_id: c@.id,
                                group_id: Some(g@.id),
                                label: group_label(c@, g@),
                            },
                        ));
                    }
                }
            }
            j = j + 1;
        }
        proof {
            assert(out@.map_values(|t: MoveTarget| t@) =~= targets_upto(
                cv,
                request_id@,
                q@,
                i + 1,
            ));
        }
        i = i + 1;
    }
    out
}

} // verus!

verus! {

/// The ids of some groups.
pub open spec fn group_ids(gs: Seq<GroupV>) -> Seq<Seq<char>> {
    gs.map_values(|g: GroupV| g.id)
}

/// Distinct ids that are all among `pool` are no more than `pool`.
pub proof fn lemma_distinct_within(s: Seq<Seq<char>>, pool: Seq<Seq<char>>)
    requires
        s.no_duplicates(),
        forall|k: int| 0 <= k < s.len() ==> pool.contains(#[trigger] s[k]),
    ensures
        s.len() <= pool.len(),
{
    broadcast use vstd::seq_lib::seq_to_set_is_finite;
    s.unique_seq_to_set();
    pool.lemma_cardinality_of_set();
    assert(s.to_set().subset_of(pool.to_set())) by {
        assert forall|x: Seq<char>| s.to_set().contains(x) implies pool.to_set().contains(x) by {
            let k = choose|k: int| 0 <= k < s.len() && s[k] == x;
            assert(pool.contains(s[k]));
        }
    }
    vstd::set_lib::lemma_len_subset(s.to_set(), pool.to_set());
}

/// Index of the first group from `k` on whose id is `id`.
pub open spec fn first_group_id(gs: Seq<GroupV>, id: Seq<char>, k: int) -> Option<int>
    decreases gs.len() - k,
{
    if 0 <= k < gs.len() {
        if gs[k].id == id {
            Some(k)
        } else {
            first_group_id(gs, id, k + 1)
        }
    } else {
        None
    }
}

pub(crate) proof fn lemma_first_group_id(gs: Seq<GroupV>, id: Seq<char>, k: int)
    requires
        0 <= k,
    ensures
        first_group_id(gs, id, k) matches Some(j) ==> k <= j < gs.len() && gs[j].id == id,
        first_group_id(gs, id, k) is None ==> forall|j: int| k <= j < gs.len() ==> gs[j].id != id,
    decreases gs.len() - k,
{
    if k < gs.len() && gs[k].id != id {
        lemma_first_group_id(gs, id, k + 1);
    }
}

/// Index of the first group of `c` whose id is `id`.
pub(crate) fn find_group(gs: &Vec<Group>, id: &str) -> (r: Option<usize>)
    ensures
        r matches Some(j) ==> first_group_id(groups_view(gs@), id@, 0) == Some(j as int),
        r is None ==> first_group_id(groups_view(gs@), id@, 0) is None,
{
    let ghost v = groups_view(gs@);
    let mut k: usize = 0;
    while k < gs.len()
        invariant
            v == groups_view(gs@),
            k <= gs@.len(),
            first_group_id(v, id@, 0) == first_group_id(v, id@, k as int),
        decreases gs@.len() - k,
    {
        proof {
            assert(v[k as int] == gs@[k as int]@);
        }
        if text_eq(gs[k].id.as_str(), id) {
            return Some(k);
        }
        k = k + 1;
    }
    None
}

/// The parent chain above a group, innermost first: from the parent id `cur`
/// on, each parent that exists and was not met yet; it stops at a missing
/// parent or at a repeat (a cycle).
pub open spec fn up_chain(gs: Seq<GroupV>, cur: Option<Seq<char>>, seen: Seq<Seq<char>>, fuel: nat) -> Seq<Seq<char>>
    decreases fuel,
{
    if fuel == 0 {
        seq![]
    } else {
        match cur {
            None => seq![],
            Some(pid) => match first_group_id(gs, pid, 0) {
                None => seq![],
                Some(k) => if seen.contains(pid) {
                    seq![]
                } else {
                    seq![pid] + up_chain(gs, gs[k].parent, seen.push(pid), (fuel - 1) as nat)
                },
            },
        }
    }
}

/// Index of the first collection from `i` on that has a group with id `id`.
pub open spec fn first_col_with_group(cs: Seq<CollectionV>, id: Seq<char>, i: int) -> Option<int>
    decreases cs.len() - i,
{
    if 0 <= i < cs.len() {
        if first_group_id(cs[i].groups, id, 0) is Some {
            Some(i)
        } else {
            first_col_with_group(cs, id, i + 1)
        }
    } else {
        None
    }
}

/// The ancestors of a group, outermost first: its collection id, then its
/// parent groups from the outside in (the group itself not included); empty
/// when no collection has the group.
pub open spec fn ancestors_of(cs: Seq<CollectionV>, id: Seq<char>) -> Seq<Seq<char>> {
    match first_col_with_group(cs, id, 0) {
        None => seq![],
        Some(i) => {
            let c = cs[i];
            let k = first_group_id(c.groups, id, 0)->0;
            seq![c.id] + up_chain(c.groups, c.groups[k].parent, seq![id], c.groups.len()).reverse()
        },
    }
}

/// The characters of an optional string.
pub open spec fn opt_view(o: Option<String>) -> Option<Seq<char>> {
    match o {
        Some(s) => Some(s@),
        None => None,
    }
}

/// A copy of an optional string.
pub(crate) fn copy_opt(o: &Option<String>) -> (r: Option<String>)
    ensures
        opt_view(r) == opt_view(*o),
{
    match o {
        Some(s) => Some(s.clone()),
        None => None,
    }
}

/// The chain of parent ids above group `start` (innermost first).
fn walk_up(gs: &Vec<Group>, start: usize) -> (chain: Vec<String>)
    requires
        start < gs@.len(),
    ensures
        strings_view(chain@) == up_chain(
            groups_view(gs@),
            groups_view(gs@)[start as int].parent,
            seq![gs@[start as int].id@],
            gs@.len(),
        ),
{
    let ghost v = groups_view(gs@);
    let n = gs.len();
    let mut chain: Vec<String> = Vec::new();
    let mut seen: Vec<String> = Vec::new();
    seen.push(gs[start].id.clone());
    let mut cur: Option<String> = copy_opt(&gs[start].parent);
    proof {
        assert(v[start as int] == gs@[start as int]@);
        assert(strings_view(seen@) =~= seq![gs@[start as int].id@]);
        assert(group_ids(v)[start as int] == gs@[start as int].id@);
    }
    let ghost want = up_chain(v, v[start as int].parent, seq![gs@[start as int].id@], n as nat);
    loop
        invariant
            n == gs@.len(),
            v == groups_view(gs@),
            start < n,
            want == up_chain(v, v[start as int].parent, seq![gs@[start as int].id@], n as nat),
            1 <= seen@.len() <= n,
            strings_view(seen@).no_duplicates(),
            forall|k: int|
                0 <= k < seen@.len() ==> group_ids(v).contains(#[trigger] strings_view(seen@)[k]),
            want == strings_view(chain@) + up_chain(
                v,
                opt_view(cur),
                strings_view(seen@),
                (n - seen@.len() + 1) as nat,
            ),
        decreases n - seen@.len(),
    {
        let ghost sv = strings_view(seen@);
        let ghost fuel = (n - seen@.len() + 1) as nat;
        let pid = match cur {
            Some(p) => p,
            None => {
                proof {
                    assert(strings_view(chain@) + Seq::<Seq<char>>::empty() =~= strings_view(chain@));
                }
                return chain;
            },
        };
        let k = match find_group(gs, pid.as_str()) {
            Some(k) => k,
            None => {
                proof {
                    assert(strings_view(chain@) + Seq::<Seq<char>>::empty() =~= strings_view(chain@));
                }
                return chain;
            },
        };
        if is_listed(seen.as_slice(), pid.as_str()) {
            proof {
                assert(sv.contains(pid@)) by {
                    let j = choose|j: int| 0 <= j < seen@.len() && seen@[j]@ == pid@;
                    assert(sv[j] == pid@);
                }
                assert(strings_view(chain@) + Seq::<Seq<char>>::empty() =~= strings_view(chain@));
            }
            return chain;
        }
        proof {
            lemma_first_group_id(v, pid@, 0);
            assert(v[k as int] == gs@[k as int]@);
            assert(!sv.contains(pid@)) by {
                if sv.contains(pid@) {
                    let j = choose|j: int| 0 <= j < sv.len() && sv[j] == pid@;
                    assert(seen@[j]@ == pid@);
                }
            }
            let bigger = sv.push(pid@);
            assert(group_ids(v)[k as int] == pid@);
            assert forall|j: int| 0 <= j < bigger.len() implies group_ids(v).contains(#[trigger] bigger[j]) by {
                if j < sv.len() {
                    assert(bigger[j] == sv[j]);
                }
            }
            assert(bigger.no_duplicates());
            lemma_distinct_within(bigger, group_ids(v));
            assert(fuel >= 1);
        }
        let next = copy_opt(&gs[k].parent);
        let ghost cv0 = strings_view(chain@);
        chain.push(pid.clone());
        seen.push(pid);
        proof {
            assert(strings_view(seen@) =~= sv.push(pid@));
            assert(strings_view(chain@) =~= cv0.push(pid@));
            assert(opt_view(next) == v[k as int].parent);
            let rest = up_chain(v, v[k as int].parent, sv.push(pid@), (fuel - 1) as nat);
            assert(up_chain(v, Some(pid@), sv, fuel) == seq![pid@] + rest);
            assert(cv0 + (seq![pid@] + rest) =~= cv0.push(pid@) + rest);
        }
        cur = next;
    }
}

} // verus!

verus! {

/// The ancestors of the group `group_id` (see [`ancestors_of`]): the id of the
/// first collection that has it, then its parent groups from the outside in.
/// Parents that are missing end the chain; a cycle is cut where it repeats.
pub fn group_ancestors(cols: &[Collection], group_id: &str) -> (out: Vec<String>)
    ensures
        strings_view(out@) == ancestors_of(cols_view(cols@), group_id@),
{
    let ghost cv = cols_view(cols@);
    let mut i: usize = 0;
    while i < cols.len()
        invariant
            cv == cols_view(cols@),
            i <= cols@.len(),
            first_col_with_group(cv, group_id@, 0) == first_col_with_group(cv, group_id@, i as int),
        decreases cols@.len() - i,
    {
        let c = &cols[i];
        proof {
            assert(cv[i as int] == c@);
            assert(c@.groups =~= groups_view(c.groups@));
        }
        if let Some(k) = find_group(&c.groups, group_id) {
            proof {
                lemma_first_group_id(c@.groups, group_id@, 0);
            }
            let chain = walk_up(&c.groups, k);
            let ghost ch = strings_view(chain@);
            let mut out: Vec<String> = Vec::new();
            out.push(c.id.clone());
            let mut j = chain.len();
            proof {
                assert(strings_view(out@) =~= seq![c@.id] + ch.subrange(j as int, ch.len() as int).reverse());
            }
            while j > 0
                invariant
                    ch == strings_view(chain@),
                    j <= chain@.len(),
                    strings_view(out@) == seq![c@.id] + ch.subrange(j as int, ch.len() as int).reverse(),
                decreases j,
            {
                j = j - 1;
                let ghost before = strings_view(out@);
                out.push(chain[j].clone());
                proof {
                    assert(strings_view(out@) =~= before.push(ch[j as int]));
                    assert(ch.subrange(j as int, ch.len() as int).reverse() =~= ch.subrange(
                        j + 1,
                        ch.len() as int,
                    ).reverse().push(ch[j as int]));
                }
            }
            proof {
                assert(ch.subrange(0, ch.len() as int) =~= ch);
                assert(first_col_with_group(cv, group_id@, i as int) == Some(i as int));
            }
            return out;
        }
        i = i + 1;
    }
    Vec::new()
}

/// The ids to keep open so that the node `sel` stays visible (its ancestors,
/// outermost first; the node itself not included): nothing for a collection, the
/// group's ancestors for a group; for a request, its collection when it lies
/// directly under one, else the ancestors of its group and the group.
pub open spec fn ancestor_ids_of(cs: Seq<CollectionV>, sel: SelectionV) -> Seq<Seq<char>> {
    match sel {
        SelectionV::Collection(_) => seq![],
        SelectionV::Group(g) => ancestors_of(cs, g),
        SelectionV::Request(r) => match request_ancestors_from(cs, r, 0) {
            Some(v) => v,
            None => seq![],
        },
    }
}

/// The ancestors of request `r` given by the first collection from `i` on that holds it.
pub open spec fn request_ancestors_from(cs: Seq<CollectionV>, r: Seq<char>, i: int) -> Option<Seq<Seq<char>>>
    decreases cs.len() - i,
{
    if 0 <= i < cs.len() {
        let c = cs[i];
        if holds_request(c.requests, r) {
            Some(seq![c.id])
        } else {
            match first_group_holding(c.groups, r, 0) {
                Some(k) => Some(ancestors_of(cs, c.groups[k].id).push(c.groups[k].id)),
                None => request_ancestors_from(cs, r, i + 1),
            }
        }
    } else {
        None
    }
}

/// The ids (collections, groups) on the path to the node `sel`, outermost first,
/// the node itself not included (see [`ancestor_ids_of`]). Folding other nodes
/// keeps these open, or the node would be hidden.
pub fn ancestor_ids(cols: &[Collection], sel: &Selection) -> (out: Vec<String>)
    ensures
        strings_view(out@) == ancestor_ids_of(cols_view(cols@), sel@),
{
    let ghost cv = cols_view(cols@);
    match sel {
        Selection::Collection(_) => Vec::new(),
        Selection::Group(gid) => group_ancestors(cols, gid.as_str()),
        Selection::Request(rid) => {
            let mut i: usize = 0;
            while i < cols.len()
                invariant
                    sel@ == SelectionV::Request(rid@),
                    cv == cols_view(cols@),
                    i <= cols@.len(),
                    request_ancestors_from(cv, rid@, 0) == request_ancestors_from(
                        cv,
                        rid@,
                        i as int,
                    ),
                decreases cols@.len() - i,
            {
                let c = &cols[i];
                proof {
                    assert(cv[i as int] == c@);
                    assert(c@.requests =~= reqs_view(c.requests@));
                }
                if has_request(&c.requests, rid.as_str()) {
                    let mut out: Vec<String> = Vec::new();
                    out.push(c.id.clone());
                    proof {
                        assert(strings_view(out@) =~= seq![c@.id]);
                    }
                    return out;
                }
                let mut k: usize = 0;
                while k < c.groups.len()
                    invariant
                        sel@ == SelectionV::Request(rid@),
                        cv == cols_view(cols@),
                        i < cols@.len(),
                        c == &cols@[i as int],
                        cv[i as int] == c@,
                        !holds_request(c@.requests, rid@),
                        request_ancestors_from(cv, rid@, 0) == request_ancestors_from(
                            cv,
                            rid@,
                            i as int,
                        ),
                        k <= c.groups@.len(),
                        first_group_holding(c@.groups, rid@, 0) == first_group_holding(
                            c@.groups,
                            rid@,
                            k as int,
                        ),
                    decreases c.groups@.len() - k,
                {
                    let g = &c.groups[k];
                    proof {
                        assert(c@.groups[k as int] == g@);
                        assert(g@.requests =~= reqs_view(g.requests@));
                    }
                    if has_request(&g.requests, rid.as_str()) {
                        let mut out = group_ancestors(cols, g.id.as_str());
                        let ghost before = strings_view(out@);
                        out.push(g.id.clone());
                        proof {
                            assert(strings_view(out@) =~= before.push(g@.id));
                            assert(first_group_holding(c@.groups, rid@, k as int) == Some(k as int));
                        }
                        return out;
                    }
                    k = k + 1;
                }
                i = i + 1;
            }
            Vec::new()
        },
    }
}

/// `out` holds exactly the members of `from` that `except` does not hold.
pub open spec fn same_members_except(out: Seq<Seq<char>>, from: Seq<Seq<char>>, except: Seq<Seq<char>>) -> bool {
    forall|x: Seq<char>| #[trigger] out.contains(x) <==> (from.contains(x) && !except.contains(x))
}

pub proof fn lemma_push_contains(s: Seq<Seq<char>>, a: Seq<char>, x: Seq<char>)
    ensures
        s.push(a).contains(x) <==> (s.contains(x) || x == a),
{
    if s.contains(x) {
        let j = choose|j: int| 0 <= j < s.len() && s[j] == x;
        assert(s.push(a)[j] == x);
    }
    if x == a {
        assert(s.push(a)[s.len() as int] == x);
    }
    if s.push(a).contains(x) {
        let j = choose|j: int| 0 <= j < s.push(a).len() && s.push(a)[j] == x;
        if j < s.len() {
            assert(s[j] == x);
        }
    }
}

pub proof fn lemma_push_no_dup(s: Seq<Seq<char>>, a: Seq<char>)
    requires
        s.no_duplicates(),
        !s.contains(a),
    ensures
        s.push(a).no_duplicates(),
{
    assert forall|i: int, j: int| 0 <= i < s.push(a).len() && 0 <= j < s.push(a).len() && i != j implies s.push(a)[i] != s.push(a)[j] by {
        if i < s.len() && j == s.len() {
            assert(s[i] == s.push(a)[i]);
        } else if j < s.len() && i == s.len() {
            assert(s[j] == s.push(a)[j]);
        }
    }
}

/// The id of the node a selection picks.
pub open spec fn sel_id(sel: SelectionV) -> Seq<char> {
    match sel {
        SelectionV::Collection(id) => id,
        SelectionV::Group(id) => id,
        SelectionV::Request(id) => id,
    }
}

/// The ids that stay open when folding everything but the node `sel`: its
/// ancestors, and the node itself when it was open.
pub open spec fn kept_open(cs: Seq<CollectionV>, sel: SelectionV, was_open: bool) -> Seq<Seq<char>> {
    if was_open {
        ancestor_ids_of(cs, sel).push(sel_id(sel))
    } else {
        ancestor_ids_of(cs, sel)
    }
}

/// "Fold everything but this node": every collection and group id except the
/// path to the node (else the node would be hidden) and the node itself when it
/// was open. Each id once, in no particular order.
pub fn collapse_all_except_ids(cols: &[Collection], sel: &Selection, node_was_expanded: bool) -> (out: Vec<String>)
    ensures
        strings_view(out@).no_duplicates(),
        forall|x: Seq<char>|
            strings_view(out@).contains(x) <==> (collapse_ids_of(cols_view(cols@)).contains(x)
                && !kept_open(cols_view(cols@), sel@, node_was_expanded).contains(x)),
{
    let ghost cv = cols_view(cols@);
    let mut keep = ancestor_ids(cols, sel);
    if node_was_expanded {
        let ghost before = strings_view(keep@);
        keep.push(sel.id().clone());
        proof {
            assert(strings_view(keep@) =~= before.push(sel_id(sel@)));
        }
    }
    let ghost kv = strings_view(keep@);
    let ids = collapse_ids(cols);
    let ghost all = ids@.map_values(|s: &str| s@);
    let mut out: Vec<String> = Vec::new();
    let mut i: usize = 0;
    while i < ids.len()
        invariant
            kv == strings_view(keep@),
            kv == kept_open(cv, sel@, node_was_expanded),
            cv == cols_view(cols@),
            all == ids@.map_values(|s: &str| s@),
            all == collapse_ids_of(cv),
            i <= ids@.len(),
            strings_view(out@).no_duplicates(),
            same_members_except(strings_view(out@), all.take(i as int), kv),
        decreases ids@.len() - i,
    {
        let id = ids[i];
        proof {
            assert(all[i as int] == id@);
            assert(all.take(i + 1) =~= all.take(i as int).push(id@));
        }
        let kept = is_listed(keep.as_slice(), id);
        let dup = is_listed(out.as_slice(), id);
        proof {
            assert(kept == kv.contains(id@)) by {
                if kept {
                    let j = choose|j: int| 0 <= j < keep@.len() && keep@[j]@ == id@;
                    assert(kv[j] == id@);
                }
                if kv.contains(id@) {
                    let j = choose|j: int| 0 <= j < kv.len() && kv[j] == id@;
                    assert(keep@[j]@ == id@);
                }
            }
            assert(dup == strings_view(out@).contains(id@)) by {
                let ov = strings_view(out@);
                if dup {
                    let j = choose|j: int| 0 <= j < out@.len() && out@[j]@ == id@;
                    assert(ov[j] == id@);
                }
                if ov.contains(id@) {
                    let j = choose|j: int| 0 <= j < ov.len() && ov[j] == id@;
                    assert(out@[j]@ == id@);
                }
            }
        }
        let ghost t0 = all.take(i as int);
        let ghost t1 = all.take(i + 1);
        let ghost before = strings_view(out@);
        if !kept && !dup {
            out.push(id.to_owned());
            proof {
                assert(strings_view(out@) =~= before.push(id@));
                assert(t1 =~= t0.push(id@));
                assert forall|x: Seq<char>|
                    strings_view(out@).contains(x) <==> (t1.contains(x) && !kv.contains(x)) by {
                    lemma_push_contains(t0, id@, x);
                    lemma_push_contains(before, id@, x);
                    assert(before.contains(x) <==> (t0.contains(x) && !kv.contains(x)));
                }
                assert(same_members_except(strings_view(out@), t1, kv));
                lemma_push_no_dup(before, id@);
            }
        } else {
            proof {
                assert(t1 =~= t0.push(id@));
                assert forall|x: Seq<char>|
                    strings_view(out@).contains(x) <==> (t1.contains(x) && !kv.contains(x)) by {
                    lemma_push_contains(t0, id@, x);
                    assert(before.contains(x) <==> (t0.contains(x) && !kv.contains(x)));
                    assert(before == strings_view(out@));
                }
                assert(same_members_except(strings_view(out@), t1, kv));
            }
        }
        i = i + 1;
    }
    proof {
        assert(all.take(i as int) =~= all);
    }
    out
}

} // verus!

verus! {

/// Index of the first request from `k` on whose id is `id`.
pub open spec fn first_request(rs: Seq<RequestV>, id: Seq<char>, k: int) -> Option<int>
    decreases rs.len() - k,
{
    if 0 <= k < rs.len() {
        if rs[k].0 == id {
            Some(k)
        } else {
            first_request(rs, id, k + 1)
        }
    } else {
        None
    }
}

/// The first group from `k` on that holds request `id`, and the request's
/// index in it.
pub open spec fn first_group_request(gs: Seq<GroupV>, id: Seq<char>, k: int) -> Option<(int, int)>
    decreases gs.len() - k,
{
    if 0 <= k < gs.len() {
        match first_request(gs[k].requests, id, 0) {
            Some(r) => Some((k, r)),
            None => first_group_request(gs, id, k + 1),
        }
    } else {
        None
    }
}

/// Where request `id` is, looking from collection `i` on: in each collection
/// first among its own requests, then group by group.
pub open spec fn request_place_from(cs: Seq<CollectionV>, id: Seq<char>, i: int) -> Option<(int, Option<int>, int)>
    decreases cs.len() - i,
{
    if 0 <= i < cs.len() {
        match first_request(cs[i].requests, id, 0) {
            Some(r) => Some((i, None, r)),
            None => match first_group_request(cs[i].groups, id, 0) {
                Some(gr) => Some((i, Some(gr.0), gr.1)),
                None => request_place_from(cs, id, i + 1),
            },
        }
    } else {
        None
    }
}

/// A found place as plain integers.
pub open spec fn place_view(p: Option<(usize, Option<usize>, usize)>) -> Option<(int, Option<int>, int)> {
    match p {
        Some(t) => Some((
            t.0 as int,
            match t.1 {
                Some(g) => Some(g as int),
                None => None,
            },
            t.2 as int,
        )),
        None => None,
    }
}

fn first_request_index(rs: &Vec<RequestItem>, id: &str) -> (r: Option<usize>)
    ensures
        match r {
            Some(k) => first_request(reqs_view(rs@), id@, 0) == Some(k as int),
            None => first_request(reqs_view(rs@), id@, 0) is None,
        },
{
    let ghost v = reqs_view(rs@);
    let mut k: usize = 0;
    while k < rs.len()
        invariant
            v == reqs_view(rs@),
            k <= rs@.len(),
            first_request(v, id@, 0) == first_request(v, id@, k as int),
        decreases rs@.len() - k,
    {
        proof {
            assert(v[k as int] == rs@[k as int]@);
        }
        if text_eq(rs[k].id.as_str(), id) {
            return Some(k);
        }
        k = k + 1;
    }
    None
}

/// Where request `id` is: (collection, group if inside one, index among the
/// requests there). Requests inside groups are found too.
pub fn find_request(cols: &[Collection], id: &str) -> (r: Option<(usize, Option<usize>, usize)>)
    ensures
        place_view(r) == request_place_from(cols_view(cols@), id@, 0),
{
    let ghost cs = cols_view(cols@);
    let mut i: usize = 0;
    while i < cols.len()
        invariant
            cs == cols_view(cols@),
            i <= cols@.len(),
            request_place_from(cs, id@, 0) == request_place_from(cs, id@, i as int),
        decreases cols@.len() - i,
    {
        let c = &cols[i];
        proof {
            assert(cs[i as int] == c@);
        }
        match first_request_index(&c.requests, id) {
            Some(r) => {
                return Some((i, None, r));
            },
            None => {},
        }
        let ghost gs = c@.groups;
        let mut g: usize = 0;
        while g < c.groups.len()
            invariant
                gs == c@.groups,
                cs == cols_view(cols@),
                i < cols@.len(),
                cs[i as int] == c@,
                request_place_from(cs, id@, 0) == request_place_from(cs, id@, i as int),
                first_request(c@.requests, id@, 0) is None,
                g <= c.groups@.len(),
                first_group_request(gs, id@, 0) == first_group_request(gs, id@, g as int),
            decreases c.groups@.len() - g,
        {
            proof {
                assert(gs[g as int] == c.groups@[g as int]@);
            }
            match first_request_index(&c.groups[g].requests, id) {
                Some(r) => {
                    return Some((i, Some(g), r));
                },
                None => {},
            }
            g = g + 1;
        }
        i = i + 1;
    }
    None
}

} // verus!
