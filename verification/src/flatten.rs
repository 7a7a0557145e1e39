//! The side tree as a list of rows: filtered by a query and folded by the
//! collapsed ids. Only places and states are recorded; names are looked up
//! when a row is drawn.
//!
//! - the query matches names as a substring, ignoring ASCII case;
//! - when the name of a collection or group matches, its whole subtree stays;
//! - while filtering, folding is ignored (what matches must be visible);
//! - a folded collection or group shows none of its rows below it (groups nest
//!   to any depth).

use vstd::prelude::*;
use vstd::utf8::encode_utf8;
use vstd::string::StringSliceAdditionalSpecFns;
use crate::model::{Collection, CollectionV, GroupV, RequestItem, RequestV, RowRef, Selection, SelectionV, TreeRow, cols_view};
use crate::search::{contains_ci, contains_ci_bytes};
use crate::tree::{is_listed, listed, reqs_view, groups_view};
use crate::text::text_eq;
use crate::grouptree::{group_tree, tree_ok, step_down, appears, TreeEntry, lemma_tree_parents_in_range};

verus! {

/// The state a row carries, so that drawing it needs no lookup in the tree.
#[derive(Debug, Clone, Copy, PartialEq, Eq, Structural, Default)]
pub struct RowState {
    pub selected: bool,
    pub renaming: bool,
    pub collapsed: bool,
    /// Indentation: a collection 0, a first-level group 1, a child group 2, ...
    pub depth: u8,
}

/// The query (lower case, as bytes) occurs in `name`, ASCII letters of `name`
/// taken in lower case. The empty query occurs in every name.
pub open spec fn hit(name: Seq<char>, q: Seq<u8>) -> bool {
    contains_ci_bytes(encode_utf8(name), q)
}

/// The query occurs in the name of one of the requests.
pub open spec fn any_request_hit(rs: Seq<RequestV>, q: Seq<u8>) -> bool {
    exists|k: int| 0 <= k < rs.len() && hit(rs[k].1, q)
}

/// The query occurs in the group's own name or in one of its requests.
pub open spec fn group_hit(g: GroupV, q: Seq<u8>) -> bool {
    hit(g.name, q) || any_request_hit(g.requests, q)
}

/// A selection as plain values.
pub open spec fn opt_sel(s: Option<&Selection>) -> Option<SelectionV> {
    match s {
        Some(x) => Some(x@),
        None => None,
    }
}

/// The selection picks the node `v`.
pub open spec fn picks(s: Option<SelectionV>, v: SelectionV) -> bool {
    s == Some(v)
}

/// Two levels deeper, saturating at the largest depth.
pub open spec fn step_two(d: u8) -> u8 {
    if d >= 254 {
        255
    } else {
        (d + 2) as u8
    }
}

/// One step of the "keep" marks, for tree entry `e`, taken from the last
/// entry to the first: a group stays when the collection name hit, when it
/// hits itself, or when a child of it stays; a staying group makes its parent
/// stay.
pub open spec fn keep_step(gs: Seq<GroupV>, v: Seq<bool>, e: TreeEntry, col_m: bool, q: Seq<u8>) -> Seq<bool> {
    let gi = e.0 as int;
    let kg = v[gi] || col_m || group_hit(gs[gi], q);
    let v1 = v.update(gi, kg);
    match e.2 {
        Some(p) => v1.update(p as int, v1[p as int] || kg),
        None => v1,
    }
}

/// The "keep" marks after the tree entries from `k` to the last were taken,
/// last first.
pub open spec fn keep_from(gs: Seq<GroupV>, t: Seq<TreeEntry>, col_m: bool, q: Seq<u8>, k: int) -> Seq<bool>
    decreases t.len() - k,
{
    if k >= t.len() {
        Seq::new(gs.len(), |i: int| false)
    } else {
        keep_step(gs, keep_from(gs, t, col_m, q, k + 1), t[k], col_m, q)
    }
}

/// The row for a request, and whether it shows.
pub open spec fn request_row(
    ci: usize,
    grp: Option<usize>,
    ri: int,
    r: RequestV,
    depth: u8,
    sel: Option<SelectionV>,
    ren: Option<SelectionV>,
) -> (RowRef, RowState) {
    (
        RowRef { col: ci, grp, req: Some(ri as usize) },
        RowState {
            selected: picks(sel, SelectionV::Request(r.0)),
            renaming: picks(ren, SelectionV::Request(r.0)),
            collapsed: false,
            depth,
        },
    )
}

/// The rows of the requests of one container from `ri` on. While filtering,
/// a request shows when `all` (a name above it hit) or when its own name hits.
pub open spec fn req_rows(
    ci: usize,
    grp: Option<usize>,
    rs: Seq<RequestV>,
    ri: int,
    f: bool,
    all: bool,
    q: Seq<u8>,
    depth: u8,
    sel: Option<SelectionV>,
    ren: Option<SelectionV>,
) -> Seq<(RowRef, RowState)>
    decreases rs.len() - ri,
{
    if ri >= rs.len() || ri < 0 {
        seq![]
    } else {
        let rest = req_rows(ci, grp, rs, ri + 1, f, all, q, depth, sel, ren);
        if f && !(all || hit(rs[ri].1, q)) {
            rest
        } else {
            seq![request_row(ci, grp, ri, rs[ri], depth, sel, ren)] + rest
        }
    }
}

/// An entry at depth `d` lies below a folded group at depth `hidden`.
pub open spec fn hidden_by(hidden: Option<u8>, d: u8) -> bool {
    match hidden {
        Some(h) => d > h,
        None => false,
    }
}

/// The name hits along the path to an entry at depth `d`: the hits of its
/// ancestors, kept up to depth `d`.
pub open spec fn path_upto(path: Seq<bool>, d: u8) -> Seq<bool> {
    if (d as int) < path.len() {
        path.take(d as int)
    } else {
        path
    }
}

/// Everything a column's rows depend on besides the tree walk.
pub struct ColCtx {
    pub ci: usize,
    pub c: CollectionV,
    pub t: Seq<TreeEntry>,
    pub keep: Seq<bool>,
    pub col_m: bool,
    pub f: bool,
    pub q: Seq<u8>,
    pub coll: Seq<String>,
    pub sel: Option<SelectionV>,
    pub ren: Option<SelectionV>,
}

/// The rows of the groups of a collection (and their requests), walking the
/// group tree from entry `k` on. `hidden` is the depth of the folded group
/// whose subtree is being skipped; `path` holds the name hits of the groups
/// on the path to the current entry.
pub open spec fn group_rows(x: ColCtx, k: int, hidden: Option<u8>, path: Seq<bool>) -> Seq<(RowRef, RowState)>
    decreases x.t.len() - k,
{
    if k >= x.t.len() || k < 0 {
        seq![]
    } else {
        let e = x.t[k];
        let gi = e.0;
        let d = e.1;
        if hidden_by(hidden, d) {
            group_rows(x, k + 1, hidden, path)
        } else if x.f && !x.keep[gi as int] {
            group_rows(x, k + 1, None, path)
        } else {
            let g = x.c.groups[gi as int];
            let path2 = path_upto(path, d).push(x.f && hit(g.name, x.q));
            let gm = x.col_m || path2.contains(true);
            let gc = !x.f && listed(x.coll, g.id);
            let row = (
                RowRef { col: x.ci, grp: Some(gi), req: None },
                RowState {
                    selected: picks(x.sel, SelectionV::Group(g.id)),
                    renaming: picks(x.ren, SelectionV::Group(g.id)),
                    collapsed: gc,
                    depth: step_down(d),
                },
            );
            let reqs = if gc {
                seq![]
            } else {
                req_rows(x.ci, Some(gi), g.requests, 0, x.f, gm, x.q, step_two(d), x.sel, x.ren)
            };
            seq![row] + reqs + group_rows(
                x,
                k + 1,
                if gc {
                    Some(d)
                } else {
                    None
                },
                path2,
            )
        }
    }
}

/// The rows of collection `c` at position `ci`, whose groups form the tree
/// `t`: nothing when filtering and nothing in it matches; otherwise its own
/// row, then (unless it is folded) its groups depth first with their
/// requests, then the requests directly under it.
pub open spec fn col_rows(
    ci: usize,
    c: CollectionV,
    t: Seq<TreeEntry>,
    q: Seq<u8>,
    coll: Seq<String>,
    sel: Option<SelectionV>,
    ren: Option<SelectionV>,
) -> Seq<(RowRef, RowState)> {
    let f = q.len() > 0;
    let col_m = f && hit(c.name, q);
    let keep = keep_from(c.groups, t, col_m, q, 0);
    let any_child = keep.contains(true) || any_request_hit(c.requests, q);
    if f && !(col_m || any_child) {
        seq![]
    } else {
        let cc = !f && listed(coll, c.id);
        let head = (
            RowRef { col: ci, grp: None, req: None },
            RowState {
                selected: picks(sel, SelectionV::Collection(c.id)),
                renaming: picks(ren, SelectionV::Collection(c.id)),
                collapsed: cc,
                depth: 0,
            },
        );
        if cc {
            seq![head]
        } else {
            let x = ColCtx { ci, c, t, keep, col_m, f, q, coll, sel, ren };
            seq![head] + group_rows(x, 0, None, seq![]) + req_rows(
                ci,
                None,
                c.requests,
                0,
                f,
                col_m,
                q,
                2,
                sel,
                ren,
            )
        }
    }
}

/// The rows of the first `n` collections, each with its group tree.
pub open spec fn rows_upto(
    cs: Seq<CollectionV>,
    ts: Seq<Seq<TreeEntry>>,
    q: Seq<u8>,
    coll: Seq<String>,
    sel: Option<SelectionV>,
    ren: Option<SelectionV>,
    n: int,
) -> Seq<(RowRef, RowState)>
    decreases n,
{
    if n <= 0 {
        seq![]
    } else {
        rows_upto(cs, ts, q, coll, sel, ren, n - 1) + col_rows(
            (n - 1) as usize,
            cs[n - 1],
            ts[n - 1],
            q,
            coll,
            sel,
            ren,
        )
    }
}

/// `ts` holds the group tree of each collection.
pub open spec fn trees_of(cs: Seq<CollectionV>, ts: Seq<Seq<TreeEntry>>) -> bool {
    ts.len() == cs.len() && forall|i: int| 0 <= i < cs.len() ==> tree_ok(cs[i].groups, #[trigger] ts[i])
}

/// Whether the selection `s` picks `me`.
fn picks_node(s: Option<&Selection>, me: &Selection) -> (r: bool)
    ensures
        r == picks(opt_sel(s), me@),
{
    match s {
        Some(x) => x.same_as(me),
        None => false,
    }
}

/// Whether some entry is `true`.
fn any_true(v: &Vec<bool>) -> (r: bool)
    ensures
        r == v@.contains(true),
{
    let mut k: usize = 0;
    while k < v.len()
        invariant
            k <= v@.len(),
            forall|j: int| 0 <= j < k ==> !v@[j],
        decreases v@.len() - k,
    {
        if v[k] {
            proof {
                assert(v@[k as int] == true);
            }
            return true;
        }
        k = k + 1;
    }
    false
}

/// Whether the query occurs in the name of one of the requests.
fn any_request_matches(rs: &Vec<RequestItem>, q: &str) -> (r: bool)
    ensures
        r == any_request_hit(reqs_view(rs@), q.spec_bytes()),
{
    let ghost v = reqs_view(rs@);
    let mut k: usize = 0;
    while k < rs.len()
        invariant
            v == reqs_view(rs@),
            k <= rs@.len(),
            forall|j: int| 0 <= j < k ==> !hit(v[j].1, q.spec_bytes()),
        decreases rs@.len() - k,
    {
        let m = contains_ci(rs[k].name.as_str(), q);
        proof {
            assert(v[k as int].1 == rs@[k as int].name@);
        }
        if m {
            return true;
        }
        k = k + 1;
    }
    false
}

/// The "keep" mark of each group of `col` for the query: see [`keep_from`].
fn keep_marks(col: &Collection, tree: &Vec<TreeEntry>, col_m: bool, q: &str) -> (keep: Vec<bool>)
    requires
        tree_ok(col@.groups, tree@),
    ensures
        keep@ == keep_from(col@.groups, tree@, col_m, q.spec_bytes(), 0),
        keep@.len() == col@.groups.len(),
{
    let ghost gs = col@.groups;
    let n = col.groups.len();
    proof {
        lemma_tree_parents_in_range(gs, tree@);
    }
    let mut keep: Vec<bool> = Vec::new();
    let mut i: usize = 0;
    while i < n
        invariant
            n == col.groups@.len(),
            i <= n,
            keep@ == Seq::new(i as nat, |j: int| false),
        decreases n - i,
    {
        keep.push(false);
        proof {
            assert(keep@ =~= Seq::new((i + 1) as nat, |j: int| false));
        }
        i = i + 1;
    }
    let mut k: usize = tree.len();
    proof {
        assert(keep@ =~= keep_from(gs, tree@, col_m, q.spec_bytes(), k as int));
    }
    while k > 0
        invariant
            gs == col@.groups,
            n == gs.len(),
            k <= tree@.len(),
            tree_ok(gs, tree@),
            forall|j: int| 0 <= j < tree@.len() && (#[trigger] tree@[j]).2 is Some ==> tree@[j].2->0 < gs.len(),
            keep@ == keep_from(gs, tree@, col_m, q.spec_bytes(), k as int),
            keep@.len() == n,
        decreases k,
    {
        k = k - 1;
        let e = tree[k];
        let gi = e.0;
        let g = &col.groups[gi];
        proof {
            assert(gs[gi as int] == g@);
            assert(keep_from(gs, tree@, col_m, q.spec_bytes(), k + 1).len() == n) by {
                lemma_keep_len(gs, tree@, col_m, q.spec_bytes(), k + 1);
            }
            assert(tree@[k as int].0 < n);
            assert(keep_from(gs, tree@, col_m, q.spec_bytes(), k as int) == keep_step(
                gs,
                keep_from(gs, tree@, col_m, q.spec_bytes(), k + 1),
                e,
                col_m,
                q.spec_bytes(),
            ));
        }
        let own = contains_ci(g.name.as_str(), q) || any_request_matches(&g.requests, q);
        let kg = keep[gi] || col_m || own;
        keep.set(gi, kg);
        match e.2 {
            Some(p) => {
                let kp = keep[p] || kg;
                keep.set(p, kp);
            },
            None => {},
        }
    }
    keep
}

proof fn lemma_keep_len(gs: Seq<GroupV>, t: Seq<TreeEntry>, col_m: bool, q: Seq<u8>, k: int)
    requires
        0 <= k,
        tree_ok(gs, t),
        forall|j: int| 0 <= j < t.len() && (#[trigger] t[j]).2 is Some ==> t[j].2->0 < gs.len(),
    ensures
        keep_from(gs, t, col_m, q, k).len() == gs.len(),
    decreases t.len() - k,
{
    if 0 <= k < t.len() {
        lemma_keep_len(gs, t, col_m, q, k + 1);
        let v = keep_from(gs, t, col_m, q, k + 1);
        let e = t[k];
        assert(e.0 < gs.len());
        let gi = e.0 as int;
        let kg = v[gi] || col_m || group_hit(gs[gi], q);
        let v1 = v.update(gi, kg);
        assert(v1.len() == gs.len());
        if e.2 is Some {
            assert(e.2->0 < gs.len());
        }
        assert(keep_step(gs, v, e, col_m, q).len() == gs.len());
    }
}

/// Append the rows of the requests `rs` of one container: see [`req_rows`].
fn push_request_rows(
    out: &mut Vec<(RowRef, RowState)>,
    ci: usize,
    grp: Option<usize>,
    rs: &Vec<RequestItem>,
    f: bool,
    all: bool,
    q: &str,
    depth: u8,
    sel: Option<&Selection>,
    ren: Option<&Selection>,
)
    ensures
        final(out)@ == old(out)@ + req_rows(
            ci,
            grp,
            reqs_view(rs@),
            0,
            f,
            all,
            q.spec_bytes(),
            depth,
            opt_sel(sel),
            opt_sel(ren),
        ),
{
    let ghost v = reqs_view(rs@);
    let ghost target = old(out)@ + req_rows(ci, grp, v, 0, f, all, q.spec_bytes(), depth, opt_sel(sel), opt_sel(ren));
    let mut ri: usize = 0;
    while ri < rs.len()
        invariant
            v == reqs_view(rs@),
            ri <= rs@.len(),
            out@ + req_rows(ci, grp, v, ri as int, f, all, q.spec_bytes(), depth, opt_sel(sel), opt_sel(ren))
                == target,
        decreases rs@.len() - ri,
    {
        let r = &rs[ri];
        proof {
            assert(v[ri as int] == r@);
        }
        let shown = !f || all || contains_ci(r.name.as_str(), q);
        if shown {
            let me = Selection::Request(r.id.clone());
            let row = (
                RowRef { col: ci, grp, req: Some(ri) },
                RowState {
                    selected: picks_node(sel, &me),
                    renaming: picks_node(ren, &me),
                    collapsed: false,
                    depth,
                },
            );
            let ghost before = out@;
            out.push(row);
            proof {
                assert(row == request_row(ci, grp, ri as int, v[ri as int], depth, opt_sel(sel), opt_sel(ren)));
                assert(out@ + req_rows(ci, grp, v, ri + 1, f, all, q.spec_bytes(), depth, opt_sel(sel), opt_sel(ren))
                    =~= before + req_rows(ci, grp, v, ri as int, f, all, q.spec_bytes(), depth, opt_sel(sel), opt_sel(ren)));
            }
        }
        ri = ri + 1;
    }


}

/// The context of the rows of collection `col` at position `ci`.
pub open spec fn col_ctx(
    ci: usize,
    col: &Collection,
    tree: Seq<TreeEntry>,
    keep: Seq<bool>,
    col_m: bool,
    f: bool,
    q: &str,
    collapsed: &[String],
    sel: Option<&Selection>,
    ren: Option<&Selection>,
) -> ColCtx {
    ColCtx {
        ci,
        c: col@,
        t: tree,
        keep,
        col_m,
        f,
        q: q.spec_bytes(),
        coll: collapsed@,
        sel: opt_sel(sel),
        ren: opt_sel(ren),
    }
}

/// Append the rows of the groups of `col`, depth first: see [`group_rows`].
#[verifier::rlimit(40)]
fn push_group_rows(
    out: &mut Vec<(RowRef, RowState)>,
    ci: usize,
    col: &Collection,
    tree: &Vec<TreeEntry>,
    keep: &Vec<bool>,
    col_m: bool,
    f: bool,
    q: &str,
    collapsed: &[String],
    sel: Option<&Selection>,
    ren: Option<&Selection>,
)
    requires
        tree_ok(col@.groups, tree@),
        keep@.len() == col@.groups.len(),
    ensures
        final(out)@ == old(out)@ + group_rows(
            col_ctx(ci, col, tree@, keep@, col_m, f, q, collapsed, sel, ren),
            0,
            None,
            seq![],
        ),
{
    let ghost x = col_ctx(ci, col, tree@, keep@, col_m, f, q, collapsed, sel, ren);
    let ghost target = old(out)@ + group_rows(x, 0, None, seq![]);
    let mut hidden: Option<u8> = None;
    let mut path: Vec<bool> = Vec::new();
    let mut k: usize = 0;
    let ghost n = col@.groups.len();
    proof {
        assert(forall|j: int| 0 <= j < tree@.len() ==> (#[trigger] tree@[j]).0 < n);
    }
    while k < tree.len()
        invariant
            x == col_ctx(ci, col, tree@, keep@, col_m, f, q, collapsed, sel, ren),
            n == col@.groups.len(),
            forall|j: int| 0 <= j < tree@.len() ==> (#[trigger] tree@[j]).0 < n,
            keep@.len() == col@.groups.len(),
            k <= tree@.len(),
            out@ + group_rows(x, k as int, hidden, path@) == target,
        decreases tree@.len() - k,
    {
        let e = tree[k];
        let gi = e.0;
        let depth = e.1;
        proof {
            assert(tree@[k as int].0 < col@.groups.len());
        }
        match hidden {
            Some(d) => {
                if depth > d {
                    proof {
                        assert(group_rows(x, k as int, hidden, path@) == group_rows(x, k + 1, hidden, path@));
                    }
                    k = k + 1;
                    continue;
                }
                proof {
                    assert(group_rows(x, k as int, hidden, path@) == group_rows(x, k as int, None, path@));
                }
                hidden = None;
            },
            None => {},
        }
        if f && !keep[gi] {
            proof {
                assert(group_rows(x, k as int, hidden, path@) == group_rows(x, k + 1, None, path@));
            }
            k = k + 1;
            continue;
        }
        let g = &col.groups[gi];
        proof {
            assert(x.c.groups[gi as int] == g@);
        }
        let g_name_hit = f && contains_ci(g.name.as_str(), q);
        let ghost path0 = path@;
        path.truncate(depth as usize);
        path.push(g_name_hit);
        proof {
            assert(path@ == path_upto(path0, depth).push(f && hit(g@.name, x.q)));
        }
        let g_m = col_m || any_true(&path);
        let g_collapsed = !f && is_listed(collapsed, g.id.as_str());
        let me = Selection::Group(g.id.clone());
        let row = (
            RowRef { col: ci, grp: Some(gi), req: None },
            RowState {
                selected: picks_node(sel, &me),
                renaming: picks_node(ren, &me),
                collapsed: g_collapsed,
                depth: depth.saturating_add(1),
            },
        );
        let ghost before = out@;
        out.push(row);
        if g_collapsed {
            hidden = Some(depth);
            proof {
                assert(out@ + group_rows(x, k + 1, hidden, path@) =~= before + group_rows(x, k as int, None, path0));
            }
            k = k + 1;
            continue;
        }
        push_request_rows(out, ci, Some(gi), &g.requests, f, g_m, q, depth.saturating_add(2), sel, ren);
        proof {
            assert(out@ + group_rows(x, k + 1, None, path@) =~= before + group_rows(x, k as int, None, path0));
        }
        hidden = None;
        k = k + 1;
    }
}

proof fn lemma_rows_upto_prefix(
    cs: Seq<CollectionV>,
    ts1: Seq<Seq<TreeEntry>>,
    ts2: Seq<Seq<TreeEntry>>,
    q: Seq<u8>,
    coll: Seq<String>,
    sel: Option<SelectionV>,
    ren: Option<SelectionV>,
    n: int,
)
    requires
        n <= ts1.len(),
        n <= ts2.len(),
        forall|i: int| 0 <= i < n ==> ts1[i] == ts2[i],
    ensures
        rows_upto(cs, ts1, q, coll, sel, ren, n) == rows_upto(cs, ts2, q, coll, sel, ren, n),
    decreases n,
{
    if n > 0 {
        lemma_rows_upto_prefix(cs, ts1, ts2, q, coll, sel, ren, n - 1);
    }
}

/// The side tree as rows: for each collection in order, the rows that
/// [`col_rows`] gives with the group tree of its groups (see
/// [`crate::grouptree::group_tree`]). `query_lower` is the query in lower
/// case; the empty query filters nothing. `collapsed` holds the ids of the
/// folded collections and groups.
pub fn flatten_tree(
    cols: &[Collection],
    query_lower: &str,
    collapsed: &[String],
    selection: Option<&Selection>,
    rename: Option<&Selection>,
) -> (out: Vec<(RowRef, RowState)>)
    ensures
        exists|ts: Seq<Seq<TreeEntry>>|
            #[trigger] trees_of(cols_view(cols@), ts) && out@ == rows_upto(
                cols_view(cols@),
                ts,
                query_lower.spec_bytes(),
                collapsed@,
                opt_sel(selection),
                opt_sel(rename),
                cols@.len() as int,
            ),
{
    let ghost cs = cols_view(cols@);
    let ghost qb = query_lower.spec_bytes();
    let ghost sv = opt_sel(selection);
    let ghost rv = opt_sel(rename);
    let ghost mut ts: Seq<Seq<TreeEntry>> = seq![];
    let mut out: Vec<(RowRef, RowState)> = Vec::new();
    let filtering = query_lower.as_bytes().len() > 0;
    let mut ci: usize = 0;
    while ci < cols.len()
        invariant
            cs == cols_view(cols@),
            qb == query_lower.spec_bytes(),
            sv == opt_sel(selection),
            rv == opt_sel(rename),
            filtering == (qb.len() > 0),
            ci <= cols@.len(),
            ts.len() == ci,
            forall|i: int| 0 <= i < ci ==> tree_ok(cs[i].groups, #[trigger] ts[i]),
            out@ == rows_upto(cs, ts, qb, collapsed@, sv, rv, ci as int),
        decreases cols@.len() - ci,
    {
        let col = &cols[ci];
        proof {
            assert(cs[ci as int] == col@);
        }
        let col_m = filtering && contains_ci(col.name.as_str(), query_lower);
        let tree = group_tree(&col.groups);
        let keep = keep_marks(col, &tree, col_m, query_lower);
        let any_child = any_true(&keep) || any_request_matches(&col.requests, query_lower);
        let ghost ts0 = ts;
        proof {
            ts = ts0.push(tree@);
            lemma_rows_upto_prefix(cs, ts0, ts, qb, collapsed@, sv, rv, ci as int);
            assert(ts[ci as int] == tree@);
        }
        let ghost goal = rows_upto(cs, ts, qb, collapsed@, sv, rv, ci + 1);
        if filtering && !(col_m || any_child) {
            proof {
                assert(out@ =~= goal);
            }
            ci = ci + 1;
            continue;
        }
        let col_collapsed = !filtering && is_listed(collapsed, col.id.as_str());
        let me = Selection::Collection(col.id.clone());
        out.push(
            (
                RowRef { col: ci, grp: None, req: None },
                RowState {
                    selected: picks_node(selection, &me),
                    renaming: picks_node(rename, &me),
                    collapsed: col_collapsed,
                    depth: 0,
                },
            ),
        );
        if col_collapsed {
            proof {
                assert(out@ =~= goal);
            }
            ci = ci + 1;
            continue;
        }
        push_group_rows(&mut out, ci, col, &tree, &keep, col_m, filtering, query_lower, collapsed, selection, rename);
        push_request_rows(&mut out, ci, None, &col.requests, filtering, col_m, query_lower, 2, selection, rename);
        proof {
            assert(out@ =~= goal);
        }
        ci = ci + 1;
    }
    proof {
        assert(trees_of(cs, ts));
    }
    out
}

/// Some row of `rows` is at place `at`.
pub open spec fn has_row(rows: Seq<(RowRef, RowState)>, at: RowRef) -> bool {
    exists|k: int| 0 <= k < rows.len() && rows[k].0 == at
}

/// Two column contexts that differ at most in the folded ids.
pub open spec fn same_but_folding(x1: ColCtx, x2: ColCtx) -> bool {
    &&& x1.ci == x2.ci
    &&& x1.c == x2.c
    &&& x1.t == x2.t
    &&& x1.keep == x2.keep
    &&& x1.col_m == x2.col_m
    &&& x1.f == x2.f
    &&& x1.q == x2.q
    &&& x1.sel == x2.sel
    &&& x1.ren == x2.ren
}

proof fn lemma_group_rows_ignore_folding(x1: ColCtx, x2: ColCtx, k: int, hidden: Option<u8>, path: Seq<bool>)
    requires
        same_but_folding(x1, x2),
        x1.f,
    ensures
        group_rows(x1, k, hidden, path) == group_rows(x2, k, hidden, path),
    decreases x1.t.len() - k,
{
    if 0 <= k < x1.t.len() {
        let e = x1.t[k];
        if hidden_by(hidden, e.1) {
            lemma_group_rows_ignore_folding(x1, x2, k + 1, hidden, path);
        } else if x1.f && !x1.keep[e.0 as int] {
            lemma_group_rows_ignore_folding(x1, x2, k + 1, None, path);
        } else {
            let g = x1.c.groups[e.0 as int];
            let path2 = path_upto(path, e.1).push(x1.f && hit(g.name, x1.q));
            lemma_group_rows_ignore_folding(x1, x2, k + 1, None, path2);
        }
    }
}

/// While filtering, the folded ids change nothing: what matches shows,
/// folded or not.
pub proof fn law_filter_ignores_folding(
    cs: Seq<CollectionV>,
    ts: Seq<Seq<TreeEntry>>,
    q: Seq<u8>,
    coll1: Seq<String>,
    coll2: Seq<String>,
    sel: Option<SelectionV>,
    ren: Option<SelectionV>,
    n: int,
)
    requires
        q.len() > 0,
    ensures
        rows_upto(cs, ts, q, coll1, sel, ren, n) == rows_upto(cs, ts, q, coll2, sel, ren, n),
    decreases n,
{
    if n > 0 {
        law_filter_ignores_folding(cs, ts, q, coll1, coll2, sel, ren, n - 1);
        let ci = (n - 1) as usize;
        let c = cs[n - 1];
        let t = ts[n - 1];
        let col_m = hit(c.name, q);
        let keep = keep_from(c.groups, t, col_m, q, 0);
        let x1 = ColCtx { ci, c, t, keep, col_m, f: true, q, coll: coll1, sel, ren };
        let x2 = ColCtx { ci, c, t, keep, col_m, f: true, q, coll: coll2, sel, ren };
        lemma_group_rows_ignore_folding(x1, x2, 0, None, seq![]);
    }
}

/// A folded collection shows its own row and nothing below it (when not
/// filtering).
pub proof fn law_folded_collection_shows_only_itself(
    ci: usize,
    c: CollectionV,
    t: Seq<TreeEntry>,
    q: Seq<u8>,
    coll: Seq<String>,
    sel: Option<SelectionV>,
    ren: Option<SelectionV>,
)
    requires
        q.len() == 0,
        listed(coll, c.id),
    ensures
        col_rows(ci, c, t, q, coll, sel, ren).len() == 1,
        col_rows(ci, c, t, q, coll, sel, ren)[0].0 == (RowRef { col: ci, grp: None, req: None }),
        col_rows(ci, c, t, q, coll, sel, ren)[0].1.collapsed,
{
}

/// Below a folded group at depth `d`, the entries deeper than `d` give no
/// rows: the walk skips them up to the next entry at depth `d` or above.
pub proof fn law_folded_group_hides_below(x: ColCtx, k: int, m: int, d: u8, path: Seq<bool>)
    requires
        0 <= k <= m <= x.t.len(),
        forall|j: int| k <= j < m ==> (#[trigger] x.t[j]).1 > d,
    ensures
        group_rows(x, k, Some(d), path) == group_rows(x, m, Some(d), path),
    decreases m - k,
{
    if k < m {
        law_folded_group_hides_below(x, k + 1, m, d, path);
    }
}

/// When not filtering, or when a name above them matched, all the requests
/// of a container show, in order.
pub proof fn law_matched_container_keeps_all_requests(
    ci: usize,
    grp: Option<usize>,
    rs: Seq<RequestV>,
    ri: int,
    f: bool,
    all: bool,
    q: Seq<u8>,
    depth: u8,
    sel: Option<SelectionV>,
    ren: Option<SelectionV>,
)
    requires
        0 <= ri <= rs.len(),
        !f || all,
    ensures
        req_rows(ci, grp, rs, ri, f, all, q, depth, sel, ren) == Seq::new(
            (rs.len() - ri) as nat,
            |i: int| request_row(ci, grp, ri + i, rs[ri + i], depth, sel, ren),
        ),
    decreases rs.len() - ri,
{
    if ri < rs.len() {
        law_matched_container_keeps_all_requests(ci, grp, rs, ri + 1, f, all, q, depth, sel, ren);
        assert(req_rows(ci, grp, rs, ri, f, all, q, depth, sel, ren) =~= Seq::new(
            (rs.len() - ri) as nat,
            |i: int| request_row(ci, grp, ri + i, rs[ri + i], depth, sel, ren),
        ));
    } else {
        assert(req_rows(ci, grp, rs, ri, f, all, q, depth, sel, ren) =~= Seq::new(
            (rs.len() - ri) as nat,
            |i: int| request_row(ci, grp, ri + i, rs[ri + i], depth, sel, ren),
        ));
    }
}

/// The place of the row of group `gi` of collection `ci`.
pub open spec fn group_place(ci: usize, gi: int) -> RowRef {
    RowRef { col: ci, grp: Some(gi as usize), req: None }
}

/// The place of the row of request `ri` of a container.
pub open spec fn request_place(ci: usize, grp: Option<usize>, ri: int) -> RowRef {
    RowRef { col: ci, grp, req: Some(ri as usize) }
}

/// No group of `c` is among the folded ids.
pub open spec fn no_group_folded(c: CollectionV, coll: Seq<String>) -> bool {
    forall|gi: int| 0 <= gi < c.groups.len() ==> !listed(coll, #[trigger] c.groups[gi].id)
}

proof fn lemma_has_row_concat(a: Seq<(RowRef, RowState)>, b: Seq<(RowRef, RowState)>, at: RowRef)
    ensures
        has_row(a, at) ==> has_row(a + b, at),
        has_row(b, at) ==> has_row(a + b, at),
{
    if has_row(a, at) {
        let k = choose|k: int| 0 <= k < a.len() && a[k].0 == at;
        assert((a + b)[k].0 == at);
    }
    if has_row(b, at) {
        let k = choose|k: int| 0 <= k < b.len() && b[k].0 == at;
        assert((a + b)[a.len() + k].0 == at);
    }
}

proof fn lemma_request_rows_cover(
    ci: usize,
    grp: Option<usize>,
    rs: Seq<RequestV>,
    all: bool,
    q: Seq<u8>,
    depth: u8,
    sel: Option<SelectionV>,
    ren: Option<SelectionV>,
)
    ensures
        forall|ri: int|
            0 <= ri < rs.len() ==> has_row(
                req_rows(ci, grp, rs, 0, false, all, q, depth, sel, ren),
                #[trigger] request_place(ci, grp, ri),
            ),
{
    law_matched_container_keeps_all_requests(ci, grp, rs, 0, false, all, q, depth, sel, ren);
    let rows = req_rows(ci, grp, rs, 0, false, all, q, depth, sel, ren);
    assert forall|ri: int| 0 <= ri < rs.len() implies has_row(rows, #[trigger] request_place(ci, grp, ri)) by {
        assert(rows[ri].0 == request_place(ci, grp, ri));
    }
}

proof fn lemma_group_rows_cover(x: ColCtx, k: int, path: Seq<bool>)
    requires
        !x.f,
        0 <= k <= x.t.len(),
        no_group_folded(x.c, x.coll),
        forall|j: int| 0 <= j < x.t.len() ==> (#[trigger] x.t[j]).0 < x.c.groups.len(),
    ensures
        forall|j: int|
            k <= j < x.t.len() ==> has_row(
                group_rows(x, k, None, path),
                RowRef { col: x.ci, grp: Some((#[trigger] x.t[j]).0), req: None },
            ),
        forall|j: int, ri: int|
            k <= j < x.t.len() && 0 <= ri < x.c.groups[x.t[j].0 as int].requests.len() ==> has_row(
                group_rows(x, k, None, path),
                #[trigger] request_place(x.ci, Some((#[trigger] x.t[j]).0), ri),
            ),
    decreases x.t.len() - k,
{
    if k < x.t.len() {
        let e = x.t[k];
        let gi = e.0;
        let g = x.c.groups[gi as int];
        let path2 = path_upto(path, e.1).push(false);
        let gm = x.col_m || path2.contains(true);
        assert(!listed(x.coll, x.c.groups[gi as int].id));
        let reqs = req_rows(x.ci, Some(gi), g.requests, 0, x.f, gm, x.q, step_two(e.1), x.sel, x.ren);
        let rest = group_rows(x, k + 1, None, path2);
        let row = (
            RowRef { col: x.ci, grp: Some(gi), req: None },
            RowState {
                selected: picks(x.sel, SelectionV::Group(g.id)),
                renaming: picks(x.ren, SelectionV::Group(g.id)),
                collapsed: false,
                depth: step_down(e.1),
            },
        );
        assert(group_rows(x, k, None, path) == seq![row] + reqs + rest);
        lemma_group_rows_cover(x, k + 1, path2);
        lemma_request_rows_cover(x.ci, Some(gi), g.requests, gm, x.q, step_two(e.1), x.sel, x.ren);
        assert forall|j: int|
            k <= j < x.t.len() implies has_row(
            group_rows(x, k, None, path),
            RowRef { col: x.ci, grp: Some((#[trigger] x.t[j]).0), req: None },
        ) by {
            let at = RowRef { col: x.ci, grp: Some(x.t[j].0), req: None };
            if j == k {
                assert((seq![row] + reqs + rest)[0].0 == at);
            } else {
                lemma_has_row_concat(seq![row] + reqs, rest, at);
            }
        }
        assert forall|j: int, ri: int|
            k <= j < x.t.len() && 0 <= ri < x.c.groups[x.t[j].0 as int].requests.len() implies has_row(
            group_rows(x, k, None, path),
            #[trigger] request_place(x.ci, Some((#[trigger] x.t[j]).0), ri),
        ) by {
            let at = request_place(x.ci, Some(x.t[j].0), ri);
            if j == k {
                assert(has_row(reqs, at));
                lemma_has_row_concat(seq![row], reqs, at);
                lemma_has_row_concat(seq![row] + reqs, rest, at);
            } else {
                lemma_has_row_concat(seq![row] + reqs, rest, at);
            }
        }
    }
}

/// With no query and nothing folded, every node shows: the collection, each
/// of its groups, each request of each group, and each request directly
/// under it.
pub proof fn law_no_filter_shows_every_node(
    ci: usize,
    c: CollectionV,
    t: Seq<TreeEntry>,
    q: Seq<u8>,
    coll: Seq<String>,
    sel: Option<SelectionV>,
    ren: Option<SelectionV>,
)
    requires
        q.len() == 0,
        tree_ok(c.groups, t),
        !listed(coll, c.id),
        no_group_folded(c, coll),
    ensures
        has_row(col_rows(ci, c, t, q, coll, sel, ren), RowRef { col: ci, grp: None, req: None }),
        forall|gi: int|
            0 <= gi < c.groups.len() ==> has_row(
                col_rows(ci, c, t, q, coll, sel, ren),
                #[trigger] group_place(ci, gi),
            ),
        forall|gi: int, ri: int|
            0 <= gi < c.groups.len() && 0 <= ri < c.groups[gi].requests.len() ==> has_row(
                col_rows(ci, c, t, q, coll, sel, ren),
                #[trigger] request_place(ci, Some(gi as usize), ri),
            ),
        forall|ri: int|
            0 <= ri < c.requests.len() ==> has_row(
                col_rows(ci, c, t, q, coll, sel, ren),
                #[trigger] request_place(ci, None, ri),
            ),
{
    let keep = keep_from(c.groups, t, false, q, 0);
    let x = ColCtx { ci, c, t, keep, col_m: false, f: false, q, coll, sel, ren };
    let head = (
        RowRef { col: ci, grp: None, req: None },
        RowState {
            selected: picks(sel, SelectionV::Collection(c.id)),
            renaming: picks(ren, SelectionV::Collection(c.id)),
            collapsed: false,
            depth: 0,
        },
    );
    let gr = group_rows(x, 0, None, seq![]);
    let rr = req_rows(ci, None, c.requests, 0, false, false, q, 2, sel, ren);
    let rows = col_rows(ci, c, t, q, coll, sel, ren);
    assert(rows == seq![head] + gr + rr);
    assert(rows[0].0 == head.0);
    lemma_group_rows_cover(x, 0, seq![]);
    lemma_request_rows_cover(ci, None, c.requests, false, q, 2, sel, ren);
    assert forall|gi: int| 0 <= gi < c.groups.len() implies has_row(
        rows,
        #[trigger] group_place(ci, gi),
    ) by {
        assert(appears(t, gi));
        let j = choose|j: int| 0 <= j < t.len() && t[j].0 == gi;
        assert(has_row(gr, RowRef { col: ci, grp: Some(t[j].0), req: None }));
        lemma_has_row_concat(seq![head], gr, group_place(ci, gi));
        lemma_has_row_concat(seq![head] + gr, rr, group_place(ci, gi));
    }
    assert forall|gi: int, ri: int| 0 <= gi < c.groups.len() && 0 <= ri < c.groups[gi].requests.len() implies has_row(
        rows,
        #[trigger] request_place(ci, Some(gi as usize), ri),
    ) by {
        assert(appears(t, gi));
        let j = choose|j: int| 0 <= j < t.len() && t[j].0 == gi;
        assert(has_row(gr, request_place(ci, Some(t[j].0), ri)));
        let at = request_place(ci, Some(gi as usize), ri);
        lemma_has_row_concat(seq![head], gr, at);
        lemma_has_row_concat(seq![head] + gr, rr, at);
    }
    assert forall|ri: int| 0 <= ri < c.requests.len() implies has_row(
        rows,
        #[trigger] request_place(ci, None, ri),
    ) by {
        lemma_has_row_concat(seq![head] + gr, rr, request_place(ci, None, ri));
    }
    lemma_has_row_concat(seq![head], gr, head.0);
    lemma_has_row_concat(seq![head] + gr, rr, head.0);
}

/// The status of the first entry for request `id` in `last` (ids with
/// their last status code), if any.
pub open spec fn last_status_of(last: Seq<(String, Option<u16>)>, id: Seq<char>, k: int) -> Option<u16>
    decreases last.len() - k,
{
    if 0 <= k < last.len() {
        if last[k].0@ == id {
            last[k].1
        } else {
            last_status_of(last, id, k + 1)
        }
    } else {
        None
    }
}

/// The request a row points at, when it is a request row and the request is
/// there.
pub open spec fn row_request(cs: Seq<CollectionV>, at: RowRef) -> Option<RequestV> {
    match at.req {
        Some(ri) => {
            let rs = match at.grp {
                Some(gi) => cs[at.col as int].groups[gi as int].requests,
                None => cs[at.col as int].requests,
            };
            if ri < rs.len() {
                Some(rs[ri as int])
            } else {
                None
            }
        },
        None => None,
    }
}

/// The places of the rows lie in the tree (their collection and group are
/// there).
pub open spec fn places_in(cs: Seq<CollectionV>, flat: Seq<(RowRef, RowState)>) -> bool {
    forall|k: int|
        0 <= k < flat.len() ==> (#[trigger] flat[k]).0.col < cs.len() && (flat[k].0.grp matches Some(gi)
            ==> gi < cs[flat[k].0.col as int].groups.len())
}

/// The drawn row for a flattened row: its place and state, with the last
/// status code of the request it shows.
pub open spec fn drawn_row(cs: Seq<CollectionV>, r: (RowRef, RowState), last: Seq<(String, Option<u16>)>) -> TreeRow {
    TreeRow {
        at: r.0,
        status: match row_request(cs, r.0) {
            Some(rq) => last_status_of(last, rq.0, 0),
            None => None,
        },
        selected: r.1.selected,
        renaming: r.1.renaming,
        collapsed: r.1.collapsed,
        depth: r.1.depth,
    }
}

fn last_status(last: &[(String, Option<u16>)], id: &str) -> (r: Option<u16>)
    ensures
        r == last_status_of(last@, id@, 0),
{
    let mut k: usize = 0;
    while k < last.len()
        invariant
            k <= last@.len(),
            last_status_of(last@, id@, 0) == last_status_of(last@, id@, k as int),
        decreases last@.len() - k,
    {
        if text_eq(last[k].0.as_str(), id) {
            return last[k].1;
        }
        k = k + 1;
    }
    None
}

/// The rows to draw: each flattened row with the last status code of its
/// request (`last` holds request ids with their last status).
pub fn tree_rows(cols: &[Collection], flat: &[(RowRef, RowState)], last: &[(String, Option<u16>)]) -> (rows: Vec<TreeRow>)
    requires
        places_in(cols_view(cols@), flat@),
    ensures
        rows@.len() == flat@.len(),
        forall|k: int| 0 <= k < flat@.len() ==> #[trigger] rows@[k] == drawn_row(cols_view(cols@), flat@[k], last@),
{
    let ghost cs = cols_view(cols@);
    let mut rows: Vec<TreeRow> = Vec::new();
    let mut k: usize = 0;
    while k < flat.len()
        invariant
            cs == cols_view(cols@),
            places_in(cs, flat@),
            k <= flat@.len(),
            rows@.len() == k,
            forall|j: int| 0 <= j < k ==> #[trigger] rows@[j] == drawn_row(cs, flat@[j], last@),
        decreases flat@.len() - k,
    {
        let (at, st) = flat[k];
        proof {
            assert(flat@[k as int] == (at, st));
        }
        let status = match at.req {
            Some(ri) => {
                let c = &cols[at.col];
                proof {
                    assert(cs[at.col as int] == c@);
                }
                let rs = match at.grp {
                    Some(gi) => {
                        proof {
                            assert(c@.groups[gi as int] == c.groups@[gi as int]@);
                        }
                        &c.groups[gi].requests
                    },
                    None => &c.requests,
                };
                if ri < rs.len() {
                    proof {
                        assert(reqs_view(rs@)[ri as int] == rs@[ri as int]@);
                    }
                    last_status(last, rs[ri].id.as_str())
                } else {
                    None
                }
            },
            None => None,
        };
        rows.push(
            TreeRow {
                at,
                status,
                selected: st.selected,
                renaming: st.renaming,
                collapsed: st.collapsed,
                depth: st.depth,
            },
        );
        k = k + 1;
    }
    rows
}

} // verus!
