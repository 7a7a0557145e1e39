//! Edits of the side tree that do not touch the disk: folding and unfolding
//! nodes, renaming, adding a saved request, taking deleted nodes out of the
//! loaded workspace, and what the selection does when its node goes. The
//! folded ids form a set; a `Vec<String>` holds it here.

use vstd::prelude::*;
use crate::text::{text_eq, trim_str, trimmed};
use crate::i18n::{Locale, tr, tr_text};
use crate::model::{Collection, CollectionV, Group, GroupV, RequestItem, RequestV, Selection, SelectionV, cols_view, strings_view};
use crate::tree::{
    listed, is_listed, any_expanded, col_expanded, collapse_ids, collapse_ids_of, holds_request,
    has_request, reqs_view, ancestors_of, group_ancestors, first_group_holding, ancestor_ids_of,
    request_ancestors_from, first_col_with_group, first_group_id, lemma_first_group_id, find_group,
    groups_view, first_request, first_group_request, request_place_from, find_request, opt_view,
};
use crate::tree_drag::{first_col, find_col};

verus! {

/// The ids of `ids` other than `id`, in their order.
pub open spec fn without_id(ids: Seq<Seq<char>>, id: Seq<char>) -> Seq<Seq<char>>
    decreases ids.len(),
{
    if ids.len() == 0 {
        seq![]
    } else if ids.last() == id {
        without_id(ids.drop_last(), id)
    } else {
        without_id(ids.drop_last(), id).push(ids.last())
    }
}

/// What is listed in `without_id(ids, id)`: everything of `ids` but `id`.
pub proof fn lemma_without_id(ids: Seq<Seq<char>>, id: Seq<char>, x: Seq<char>)
    ensures
        without_id(ids, id).contains(x) <==> (ids.contains(x) && x != id),
    decreases ids.len(),
{
    if ids.len() > 0 {
        lemma_without_id(ids.drop_last(), id, x);
        let rest = ids.drop_last();
        let w = without_id(rest, id);
        if ids.contains(x) && x != id {
            let k = choose|k: int| 0 <= k < ids.len() && ids[k] == x;
            if k < ids.len() - 1 {
                assert(rest[k] == x);
            } else {
                assert(w.push(ids.last())[w.len() as int] == x);
            }
        }
        if rest.contains(x) {
            let k = choose|k: int| 0 <= k < rest.len() && rest[k] == x;
            assert(ids[k] == x);
        }
        if ids.last() != id {
            let r = w.push(ids.last());
            if r.contains(x) {
                let k = choose|k: int| 0 <= k < r.len() && r[k] == x;
                if k < w.len() {
                    assert(w[k] == x);
                } else {
                    assert(ids[ids.len() - 1] == x);
                }
            }
            if w.contains(x) {
                let k = choose|k: int| 0 <= k < w.len() && w[k] == x;
                assert(r[k] == x);
            }
        }
    }
}

/// `x` is listed in `ids` exactly when the plain sequence holds it.
pub proof fn lemma_listed_contains(ids: Seq<String>, x: Seq<char>)
    ensures
        listed(ids, x) <==> strings_view(ids).contains(x),
{
    let v = strings_view(ids);
    if listed(ids, x) {
        let k = choose|k: int| 0 <= k < ids.len() && ids[k]@ == x;
        assert(v[k] == x);
    }
    if v.contains(x) {
        let k = choose|k: int| 0 <= k < v.len() && v[k] == x;
        assert(ids[k]@ == x);
    }
}

/// Takes `id` out of the folded set.
pub fn drop_id(collapsed: &mut Vec<String>, id: &str)
    ensures
        forall|x: Seq<char>|
            #![trigger listed(final(collapsed)@, x)]
            listed(final(collapsed)@, x) <==> (listed(old(collapsed)@, x) && x != id@),
{
    let ghost before = strings_view(collapsed@);
    let mut kept: Vec<String> = Vec::new();
    let mut k: usize = 0;
    while k < collapsed.len()
        invariant
            before == strings_view(collapsed@),
            k <= collapsed@.len(),
            strings_view(kept@) == without_id(before.take(k as int), id@),
        decreases collapsed@.len() - k,
    {
        proof {
            assert(before.take(k + 1).drop_last() =~= before.take(k as int));
            assert(before.take(k + 1).last() == collapsed@[k as int]@);
        }
        if !text_eq(collapsed[k].as_str(), id) {
            let s = collapsed[k].clone();
            kept.push(s);
            proof {
                assert(strings_view(kept@) =~= strings_view(kept@.drop_last()).push(
                    kept@.last()@,
                ));
            }
        }
        k = k + 1;
    }
    proof {
        assert(before.take(k as int) =~= before);
    }
    *collapsed = kept;
    proof {
        assert forall|x: Seq<char>| #![trigger listed(collapsed@, x)]
            listed(collapsed@, x) <==> (listed(old(collapsed)@, x) && x != id@) by {
            lemma_listed_contains(collapsed@, x);
            lemma_listed_contains(old(collapsed)@, x);
            lemma_without_id(before, id@, x);
        }
    }
}

/// Folds the node `id` when it is open, opens it when it is folded.
pub fn toggle_collapsed(collapsed: &mut Vec<String>, id: &str)
    ensures
        forall|x: Seq<char>|
            #![trigger listed(final(collapsed)@, x)]
            listed(final(collapsed)@, x) <==> if x == id@ {
                !listed(old(collapsed)@, id@)
            } else {
                listed(old(collapsed)@, x)
            },
{
    if is_listed(collapsed, id) {
        drop_id(collapsed, id);
    } else {
        let ghost before = collapsed@;
        collapsed.push(id.to_string());
        proof {
            assert forall|x: Seq<char>| #![trigger listed(collapsed@, x)]
                listed(collapsed@, x) <==> if x == id@ {
                    !listed(old(collapsed)@, id@)
                } else {
                    listed(old(collapsed)@, x)
                } by {
                if listed(collapsed@, x) && x != id@ {
                    let k = choose|k: int| 0 <= k < collapsed@.len() && collapsed@[k]@ == x;
                    assert(before[k]@ == x);
                }
                if listed(before, x) {
                    let k = choose|k: int| 0 <= k < before.len() && before[k]@ == x;
                    assert(collapsed@[k]@ == x);
                }
                if x == id@ {
                    assert(collapsed@[before.len() as int]@ == x);
                }
            }
        }
    }
}

/// Every collection id and every group id is among the ids that "collapse
/// all" marks.
pub proof fn lemma_collapse_ids_cover(cs: Seq<CollectionV>, i: int)
    requires
        0 <= i < cs.len(),
    ensures
        collapse_ids_of(cs).contains(cs[i].id),
        forall|j: int| 0 <= j < cs[i].groups.len() ==> collapse_ids_of(cs).contains(#[trigger] cs[i].groups[j].id),
    decreases cs.len(),
{
    let rest = cs.drop_last();
    let c = cs.last();
    let gids = c.groups.map_values(|g: GroupV| g.id);
    let head = collapse_ids_of(rest).push(c.id);
    assert(collapse_ids_of(cs) == head + gids);
    if i < cs.len() - 1 {
        lemma_collapse_ids_cover(rest, i);
        assert(rest[i] == cs[i]);
        let k = choose|k: int| 0 <= k < collapse_ids_of(rest).len() && collapse_ids_of(rest)[k] == cs[i].id;
        assert((head + gids)[k] == cs[i].id);
        assert forall|j: int| 0 <= j < cs[i].groups.len() implies collapse_ids_of(cs).contains(#[trigger] cs[i].groups[j].id) by {
            assert(rest[i].groups[j] == cs[i].groups[j]);
            let m = choose|m: int| 0 <= m < collapse_ids_of(rest).len() && collapse_ids_of(rest)[m] == rest[i].groups[j].id;
            assert((head + gids)[m] == cs[i].groups[j].id);
        }
    } else {
        assert((head + gids)[collapse_ids_of(rest).len() as int] == c.id);
        assert forall|j: int| 0 <= j < cs[i].groups.len() implies collapse_ids_of(cs).contains(#[trigger] cs[i].groups[j].id) by {
            assert((head + gids)[head.len() + j] == gids[j]);
        }
    }
}

/// "Collapse all" / "expand all" in one button: when anything is open, every
/// collection and group is folded (added to the folded set); otherwise the
/// folded set is emptied.
pub fn toggle_collapse_all(cols: &[Collection], collapsed: &mut Vec<String>)
    ensures
        (exists|i: int| 0 <= i < cols@.len() && col_expanded(cols@[i]@, old(collapsed)@)) ==> forall|x: Seq<char>|
            #![trigger listed(final(collapsed)@, x)]
            listed(final(collapsed)@, x) <==> (listed(old(collapsed)@, x) || collapse_ids_of(
                cols_view(cols@),
            ).contains(x)),
        !(exists|i: int| 0 <= i < cols@.len() && col_expanded(cols@[i]@, old(collapsed)@))
            ==> final(collapsed)@.len() == 0,
{
    if any_expanded(cols, collapsed) {
        let ids = collapse_ids(cols);
        let ghost before = collapsed@;
        let ghost want = collapse_ids_of(cols_view(cols@));
        let mut k: usize = 0;
        while k < ids.len()
            invariant
                ids@.map_values(|s: &str| s@) == want,
                k <= ids@.len(),
                collapsed@ =~= before + collapsed@.skip(before.len() as int),
                collapsed@.len() == before.len() + k,
                forall|j: int| 0 <= j < k ==> #[trigger] collapsed@[before.len() + j]@ == want[j],
            decreases ids@.len() - k,
        {
            let s = ids[k];
            proof {
                assert(want[k as int] == ids@[k as int]@);
            }
            collapsed.push(s.to_string());
            k = k + 1;
        }
        proof {
            assert forall|x: Seq<char>| #![trigger listed(collapsed@, x)]
                listed(collapsed@, x) <==> (listed(before, x) || want.contains(x)) by {
                if listed(collapsed@, x) {
                    let m = choose|m: int| 0 <= m < collapsed@.len() && collapsed@[m]@ == x;
                    if m < before.len() {
                        assert(before[m]@ == x);
                    } else {
                        assert(collapsed@[before.len() + (m - before.len())]@ == want[m - before.len()]);
                    }
                }
                if listed(before, x) {
                    let m = choose|m: int| 0 <= m < before.len() && before[m]@ == x;
                    assert(collapsed@[m]@ == x);
                }
                if want.contains(x) {
                    let m = choose|m: int| 0 <= m < want.len() && want[m] == x;
                    assert(collapsed@[before.len() + m]@ == want[m]);
                }
            }
        }
    } else {
        collapsed.clear();
    }
}

/// After "collapse all" on a tree where something was open, nothing is open.
pub proof fn law_collapse_all_leaves_nothing_open(cols: Seq<Collection>, after: Seq<String>)
    requires
        forall|x: Seq<char>|
            #![trigger listed(after, x)]
            collapse_ids_of(cols_view(cols)).contains(x) ==> listed(after, x),
    ensures
        !(exists|i: int| 0 <= i < cols.len() && col_expanded(cols[i]@, after)),
{
    let cs = cols_view(cols);
    assert forall|i: int| 0 <= i < cols.len() implies !col_expanded(cols[i]@, after) by {
        assert(cs[i] == cols[i]@);
        lemma_collapse_ids_cover(cs, i);
        assert(listed(after, cs[i].id));
        assert forall|j: int| 0 <= j < cs[i].groups.len() implies listed(after, cs[i].groups[j].id) by {
            assert(collapse_ids_of(cs).contains(cs[i].groups[j].id));
        }
    }
}

/// Index of the first group from `k` on that is the node `id` or holds the
/// request `id`.
pub open spec fn first_owner(gs: Seq<GroupV>, id: Seq<char>, k: int) -> Option<int>
    decreases gs.len() - k,
{
    if 0 <= k < gs.len() {
        if gs[k].id == id || holds_request(gs[k].requests, id) {
            Some(k)
        } else {
            first_owner(gs, id, k + 1)
        }
    } else {
        None
    }
}

/// The ids that collection `c` opens so that the node `id` shows: `c` itself
/// when it is the node or holds the request directly; for the first group of
/// `c` that is the node or holds it, that group's ancestors and the group.
pub open spec fn opened_in(cs: Seq<CollectionV>, c: CollectionV, id: Seq<char>) -> Seq<Seq<char>> {
    (if c.id == id || holds_request(c.requests, id) {
        seq![c.id]
    } else {
        seq![]
    }) + match first_owner(c.groups, id, 0) {
        Some(k) => ancestors_of(cs, c.groups[k].id).push(c.groups[k].id),
        None => seq![],
    }
}

/// The ids that the first `n` collections open for the node `id`, in order.
pub open spec fn opened_upto(cs: Seq<CollectionV>, id: Seq<char>, n: int) -> Seq<Seq<char>>
    decreases n,
{
    if n <= 0 || n > cs.len() {
        seq![]
    } else {
        opened_upto(cs, id, n - 1) + opened_in(cs, cs[n - 1], id)
    }
}

/// The ids to open so that the node `id` shows (see [`opened_upto`]).
fn opened_ids(cols: &[Collection], id: &str) -> (out: Vec<String>)
    ensures
        strings_view(out@) == opened_upto(cols_view(cols@), id@, cols@.len() as int),
{
    let ghost cv = cols_view(cols@);
    let mut out: Vec<String> = Vec::new();
    let mut i: usize = 0;
    while i < cols.len()
        invariant
            cv == cols_view(cols@),
            i <= cols@.len(),
            strings_view(out@) == opened_upto(cv, id@, i as int),
        decreases cols@.len() - i,
    {
        let c = &cols[i];
        let ghost before = strings_view(out@);
        proof {
            assert(cv[i as int] == c@);
        }
        if text_eq(c.id.as_str(), id) || has_request(&c.requests, id) {
            out.push(c.id.clone());
        }
        let ghost mid = strings_view(out@);
        proof {
            assert(c@.requests =~= reqs_view(c.requests@));
            assert(mid =~= before + (if c@.id == id@ || holds_request(c@.requests, id@) {
                seq![c@.id]
            } else {
                seq![]
            }));
        }
        let ghost gs = c@.groups;
        let mut k: usize = 0;
        let mut owner: Option<usize> = None;
        while k < c.groups.len()
            invariant_except_break
                owner is None,
            invariant
                gs == c@.groups,
                k <= c.groups@.len(),
                first_owner(gs, id@, 0) == first_owner(gs, id@, k as int),
            ensures
                owner matches Some(j) ==> j < c.groups@.len() && first_owner(gs, id@, 0) == Some(
                    j as int,
                ),
                owner is None ==> first_owner(gs, id@, 0) is None,
            decreases c.groups@.len() - k,
        {
            let g = &c.groups[k];
            proof {
                assert(gs[k as int] == g@);
                assert(g@.requests =~= reqs_view(g.requests@));
            }
            if text_eq(g.id.as_str(), id) || has_request(&g.requests, id) {
                owner = Some(k);
                break;
            }
            k = k + 1;
        }
        match owner {
            Some(k) => {
                let g = &c.groups[k];
                proof {
                    assert(gs[k as int] == g@);
                }
                let mut anc = group_ancestors(cols, g.id.as_str());
                out.append(&mut anc);
                out.push(g.id.clone());
                proof {
                    assert(strings_view(out@) =~= mid + ancestors_of(cv, gs[k as int].id).push(
                        gs[k as int].id,
                    ));
                }
            },
            None => {
                proof {
                    assert(first_owner(gs, id@, 0) is None);
                    assert(strings_view(out@) =~= mid + Seq::<Seq<char>>::empty());
                }
            },
        }
        proof {
            assert(opened_upto(cv, id@, i + 1) == opened_upto(cv, id@, i as int) + opened_in(
                cv,
                cv[i as int],
                id@,
            ));
            assert(strings_view(out@) =~= before + opened_in(cv, c@, id@));
        }
        i = i + 1;
    }
    out
}

/// Opens the folded ancestors of the node `id` (collections and groups), so
/// that the node is not hidden under a folded one. See [`opened_upto`] for
/// which ids open.
pub fn expand_ancestors_of(cols: &[Collection], collapsed: &mut Vec<String>, id: &str)
    ensures
        forall|x: Seq<char>|
            #![trigger listed(final(collapsed)@, x)]
            listed(final(collapsed)@, x) <==> (listed(old(collapsed)@, x) && !opened_upto(
                cols_view(cols@),
                id@,
                cols@.len() as int,
            ).contains(x)),
{
    if collapsed.len() == 0 {
        return;
    }
    let open = opened_ids(cols, id);
    let ghost ov = strings_view(open@);
    let ghost before = collapsed@;
    let mut k: usize = 0;
    while k < open.len()
        invariant
            ov == strings_view(open@),
            k <= open@.len(),
            forall|x: Seq<char>|
                #![trigger listed(collapsed@, x)]
                listed(collapsed@, x) <==> (listed(before, x) && !ov.take(k as int).contains(x)),
        decreases open@.len() - k,
    {
        let ghost prev = collapsed@;
        drop_id(collapsed, open[k].as_str());
        proof {
            assert forall|x: Seq<char>| #![trigger listed(collapsed@, x)]
                listed(collapsed@, x) <==> (listed(before, x) && !ov.take(k + 1).contains(x)) by {
                let t0 = ov.take(k as int);
                let t1 = ov.take(k + 1);
                assert(t1 =~= t0.push(ov[k as int]));
                assert(listed(prev, x) == listed(prev, x));
                if t0.contains(x) {
                    let m = choose|m: int| 0 <= m < t0.len() && t0[m] == x;
                    assert(t1[m] == x);
                }
                if t1.contains(x) && x != ov[k as int] {
                    let m = choose|m: int| 0 <= m < t1.len() && t1[m] == x;
                    assert(t0[m] == x);
                }
                if x == ov[k as int] {
                    assert(t1[k as int] == x);
                }
            }
        }
        k = k + 1;
    }
    proof {
        assert(ov.take(k as int) =~= ov);
    }
}

proof fn lemma_opened_upto_has(cs: Seq<CollectionV>, id: Seq<char>, i: int, n: int, x: Seq<char>)
    requires
        0 <= i < n <= cs.len(),
        opened_in(cs, cs[i], id).contains(x),
    ensures
        opened_upto(cs, id, n).contains(x),
    decreases n,
{
    let pre = opened_upto(cs, id, n - 1);
    let last = opened_in(cs, cs[n - 1], id);
    assert(opened_upto(cs, id, n) == pre + last);
    if i == n - 1 {
        let m = choose|m: int| 0 <= m < last.len() && last[m] == x;
        assert((pre + last)[pre.len() + m] == x);
    } else {
        lemma_opened_upto_has(cs, id, i, n - 1, x);
        let m = choose|m: int| 0 <= m < pre.len() && pre[m] == x;
        assert((pre + last)[m] == x);
    }
}

proof fn lemma_owner_is_holder(gs: Seq<GroupV>, id: Seq<char>, k: int)
    requires
        0 <= k,
        forall|j: int| 0 <= j < gs.len() ==> #[trigger] gs[j].id != id,
    ensures
        first_owner(gs, id, k) == first_group_holding(gs, id, k),
    decreases gs.len() - k,
{
    if k < gs.len() {
        lemma_owner_is_holder(gs, id, k + 1);
    }
}

proof fn lemma_request_ancestors_opened(cs: Seq<CollectionV>, r: Seq<char>, i: int, x: Seq<char>)
    requires
        0 <= i,
        forall|a: int, j: int|
            0 <= a < cs.len() && 0 <= j < cs[a].groups.len() ==> #[trigger] cs[a].groups[j].id != r,
        request_ancestors_from(cs, r, i) matches Some(v) && v.contains(x),
    ensures
        opened_upto(cs, r, cs.len() as int).contains(x),
    decreases cs.len() - i,
{
    if i < cs.len() {
        let c = cs[i];
        let v = request_ancestors_from(cs, r, i)->0;
        assert forall|j: int| 0 <= j < c.groups.len() implies #[trigger] c.groups[j].id != r by {
            assert(cs[i].groups[j].id != r);
        }
        lemma_owner_is_holder(c.groups, r, 0);
        let head: Seq<Seq<char>> = if c.id == r || holds_request(c.requests, r) {
            seq![c.id]
        } else {
            seq![]
        };
        let tail: Seq<Seq<char>> = match first_owner(c.groups, r, 0) {
            Some(k) => ancestors_of(cs, c.groups[k].id).push(c.groups[k].id),
            None => seq![],
        };
        assert(opened_in(cs, c, r) == head + tail);
        if holds_request(c.requests, r) {
            assert(v == seq![c.id]);
            assert(x == c.id);
            assert((head + tail)[0] == x);
            lemma_opened_upto_has(cs, r, i, cs.len() as int, x);
        } else if first_group_holding(c.groups, r, 0) is Some {
            assert(v == tail);
            let m = choose|m: int| 0 <= m < tail.len() && tail[m] == x;
            assert((head + tail)[head.len() + m] == x);
            lemma_opened_upto_has(cs, r, i, cs.len() as int, x);
        } else {
            lemma_request_ancestors_opened(cs, r, i + 1, x);
        }
    }
}

/// Opening the ancestors of a request leaves none of the nodes on its path
/// folded, so the request shows (given that no group shares the request's id).
pub proof fn law_expand_shows_request(cols: Seq<Collection>, before: Seq<String>, after: Seq<String>, r: Seq<char>)
    requires
        forall|x: Seq<char>|
            #![trigger listed(after, x)]
            listed(after, x) <==> (listed(before, x) && !opened_upto(
                cols_view(cols),
                r,
                cols.len() as int,
            ).contains(x)),
        forall|a: int, j: int|
            0 <= a < cols.len() && 0 <= j < cols[a].groups@.len() ==> #[trigger] cols[a].groups@[j].id@ != r,
    ensures
        forall|x: Seq<char>|
            ancestor_ids_of(cols_view(cols), SelectionV::Request(r)).contains(x) ==> !listed(after, x),
{
    let cs = cols_view(cols);
    assert forall|a: int, j: int| 0 <= a < cs.len() && 0 <= j < cs[a].groups.len() implies #[trigger] cs[a].groups[j].id != r by {
        assert(cs[a] == cols[a]@);
        assert(cs[a].groups[j] == cols[a].groups@[j]@);
    }
    assert forall|x: Seq<char>| ancestor_ids_of(cs, SelectionV::Request(r)).contains(x) implies !listed(after, x) by {
        lemma_request_ancestors_opened(cs, r, 0, x);
    }
}

/// Folding or unfolding the same node twice leaves the folded set as it was.
pub proof fn law_toggle_twice_restores(before: Seq<String>, mid: Seq<String>, after: Seq<String>, id: Seq<char>)
    requires
        forall|x: Seq<char>|
            #![trigger listed(mid, x)]
            listed(mid, x) <==> if x == id { !listed(before, id) } else { listed(before, x) },
        forall|x: Seq<char>|
            #![trigger listed(after, x)]
            listed(after, x) <==> if x == id { !listed(mid, id) } else { listed(mid, x) },
    ensures
        forall|x: Seq<char>| listed(after, x) <==> listed(before, x),
{
    assert forall|x: Seq<char>| listed(after, x) <==> listed(before, x) by {
        assert(listed(mid, x) == listed(mid, x));
        assert(listed(mid, id) == listed(mid, id));
        assert(listed(after, x) == listed(after, x));
    }
}

} // verus!

verus! {

/// Request `k` of `rs`, renamed.
pub open spec fn named_req(r: RequestV, n: Seq<char>) -> RequestV {
    (r.0, n)
}

/// Group `g`, renamed.
pub open spec fn named_group(g: GroupV, n: Seq<char>) -> GroupV {
    GroupV { id: g.id, parent: g.parent, name: n, requests: g.requests }
}

/// Collection `c`, renamed.
pub open spec fn named_col(c: CollectionV, n: Seq<char>) -> CollectionV {
    CollectionV { id: c.id, name: n, groups: c.groups, requests: c.requests }
}

/// The tree with the request at place `p` (collection, group or none, index)
/// renamed to `n`.
pub open spec fn with_request_name(cs: Seq<CollectionV>, p: (int, Option<int>, int), n: Seq<char>) -> Seq<CollectionV> {
    let c = cs[p.0];
    match p.1 {
        None => cs.update(
            p.0,
            CollectionV {
                id: c.id,
                name: c.name,
                groups: c.groups,
                requests: c.requests.update(p.2, named_req(c.requests[p.2], n)),
            },
        ),
        Some(g) => {
            let gr = c.groups[g];
            cs.update(
                p.0,
                CollectionV {
                    id: c.id,
                    name: c.name,
                    groups: c.groups.update(
                        g,
                        GroupV {
                            id: gr.id,
                            parent: gr.parent,
                            name: gr.name,
                            requests: gr.requests.update(p.2, named_req(gr.requests[p.2], n)),
                        },
                    ),
                    requests: c.requests,
                },
            )
        },
    }
}

/// The tree after renaming the node `target` to `raw` with the surrounding
/// white space cut off. A blank name changes nothing; so does a node that is
/// not found. A collection is the first with the id; a group is the first with
/// the id in the first collection that has one; a request is found as
/// [`request_place_from`] finds it (inside groups too).
pub open spec fn renamed(cs: Seq<CollectionV>, target: SelectionV, raw: Seq<char>) -> Seq<CollectionV> {
    let n = trimmed(raw);
    if n.len() == 0 {
        cs
    } else {
        match target {
            SelectionV::Collection(id) => match first_col(cs, id, 0) {
                Some(i) => cs.update(i, named_col(cs[i], n)),
                None => cs,
            },
            SelectionV::Group(id) => match first_col_with_group(cs, id, 0) {
                Some(i) => {
                    let g = first_group_id(cs[i].groups, id, 0)->0;
                    cs.update(
                        i,
                        CollectionV {
                            id: cs[i].id,
                            name: cs[i].name,
                            groups: cs[i].groups.update(g, named_group(cs[i].groups[g], n)),
                            requests: cs[i].requests,
                        },
                    )
                },
                None => cs,
            },
            SelectionV::Request(id) => match request_place_from(cs, id, 0) {
                Some(p) => with_request_name(cs, p, n),
                None => cs,
            },
        }
    }
}

/// Whether [`renamed`] changes anything: the name is not blank and the node is found.
pub open spec fn rename_applies(cs: Seq<CollectionV>, target: SelectionV, raw: Seq<char>) -> bool {
    trimmed(raw).len() > 0 && match target {
        SelectionV::Collection(id) => first_col(cs, id, 0) is Some,
        SelectionV::Group(id) => first_col_with_group(cs, id, 0) is Some,
        SelectionV::Request(id) => request_place_from(cs, id, 0) is Some,
    }
}

proof fn lemma_first_request_in(rs: Seq<RequestV>, id: Seq<char>, k: int)
    requires
        0 <= k,
    ensures
        first_request(rs, id, k) matches Some(r) ==> k <= r < rs.len() && rs[r].0 == id,
    decreases rs.len() - k,
{
    if k < rs.len() {
        lemma_first_request_in(rs, id, k + 1);
    }
}

proof fn lemma_first_group_request_in(gs: Seq<GroupV>, id: Seq<char>, k: int)
    requires
        0 <= k,
    ensures
        first_group_request(gs, id, k) matches Some(p) ==> k <= p.0 < gs.len() && 0 <= p.1
            < gs[p.0].requests.len(),
    decreases gs.len() - k,
{
    if k < gs.len() {
        lemma_first_request_in(gs[k].requests, id, 0);
        lemma_first_group_request_in(gs, id, k + 1);
    }
}

/// A place that [`request_place_from`] gives lies inside the tree.
pub proof fn lemma_place_in(cs: Seq<CollectionV>, id: Seq<char>, i: int)
    requires
        0 <= i,
    ensures
        request_place_from(cs, id, i) matches Some(p) ==> i <= p.0 < cs.len() && 0 <= p.2 && match p.1 {
            None => p.2 < cs[p.0].requests.len(),
            Some(g) => 0 <= g < cs[p.0].groups.len() && p.2 < cs[p.0].groups[g].requests.len(),
        },
    decreases cs.len() - i,
{
    if i < cs.len() {
        lemma_first_request_in(cs[i].requests, id, 0);
        lemma_first_group_request_in(cs[i].groups, id, 0);
        lemma_place_in(cs, id, i + 1);
    }
}

proof fn lemma_first_col_in(cs: Seq<CollectionV>, id: Seq<char>, k: int)
    requires
        0 <= k,
    ensures
        first_col_with_group(cs, id, k) matches Some(i) ==> k <= i < cs.len() && first_group_id(
            cs[i].groups,
            id,
            0,
        ) is Some,
    decreases cs.len() - k,
{
    if k < cs.len() {
        lemma_first_col_in(cs, id, k + 1);
    }
}

/// Where group `id` is: the first collection that has it, and its index there.
fn find_group_place(cols: &[Collection], id: &str) -> (r: Option<(usize, usize)>)
    ensures
        match r {
            Some((i, g)) => first_col_with_group(cols_view(cols@), id@, 0) == Some(i as int)
                && first_group_id(cols_view(cols@)[i as int].groups, id@, 0) == Some(g as int),
            None => first_col_with_group(cols_view(cols@), id@, 0) is None,
        },
{
    let ghost cv = cols_view(cols@);
    let mut i: usize = 0;
    while i < cols.len()
        invariant
            cv == cols_view(cols@),
            i <= cols@.len(),
            first_col_with_group(cv, id@, 0) == first_col_with_group(cv, id@, i as int),
        decreases cols@.len() - i,
    {
        proof {
            assert(cv[i as int] == cols@[i as int]@);
            assert(cv[i as int].groups =~= groups_view(cols@[i as int].groups@));
        }
        match find_group(&cols[i].groups, id) {
            Some(g) => {
                return Some((i, g));
            },
            None => {},
        }
        i = i + 1;
    }
    None
}

/// Renames the node `target` to `raw` with the surrounding white space cut
/// off (see [`renamed`]); says whether anything changed. A blank name leaves
/// the old one.
pub fn rename_node(cols: &mut Vec<Collection>, target: &Selection, raw: &str) -> (changed: bool)
    ensures
        cols_view(final(cols)@) == renamed(cols_view(old(cols)@), target@, raw@),
        changed == rename_applies(cols_view(old(cols)@), target@, raw@),
{
    let ghost cv = cols_view(cols@);
    let name = trim_str(raw);
    if name.unicode_len() == 0 {
        return false;
    }
    match target {
        Selection::Collection(id) => {
            match find_col(cols, id.as_str()) {
                Some(i) => {
                    proof {
                        assert(cv[i as int] == cols@[i as int]@);
                    }
                    cols[i].name = name.to_string();
                    proof {
                        assert(cols_view(cols@) =~= cv.update(i as int, named_col(cv[i as int], name@)));
                    }
                    true
                },
                None => false,
            }
        },
        Selection::Group(id) => {
            match find_group_place(cols, id.as_str()) {
                Some((i, g)) => {
                    proof {
                        lemma_first_col_in(cv, id@, 0);
                        lemma_first_group_id(cv[i as int].groups, id@, 0);
                        assert(cv[i as int] == cols@[i as int]@);
                        assert(cv[i as int].groups[g as int] == cols@[i as int].groups@[g as int]@);
                    }
                    cols[i].groups[g].name = name.to_string();
                    proof {
                        let c = cv[i as int];
                        assert(cols_view(cols@)[i as int].groups =~= c.groups.update(
                            g as int,
                            named_group(c.groups[g as int], name@),
                        ));
                        assert(cols_view(cols@) =~= cv.update(
                            i as int,
                            CollectionV {
                                id: c.id,
                                name: c.name,
                                groups: c.groups.update(g as int, named_group(c.groups[g as int], name@)),
                                requests: c.requests,
                            },
                        ));
                    }
                    true
                },
                None => false,
            }
        },
        Selection::Request(id) => {
            match find_request(cols, id.as_str()) {
                Some((i, None, r)) => {
                    proof {
                        lemma_place_in(cv, id@, 0);
                        assert(cv[i as int] == cols@[i as int]@);
                        assert(cv[i as int].requests[r as int] == cols@[i as int].requests@[r as int]@);
                    }
                    cols[i].requests[r].name = name.to_string();
                    proof {
                        let c = cv[i as int];
                        assert(cols_view(cols@)[i as int].requests =~= c.requests.update(
                            r as int,
                            named_req(c.requests[r as int], name@),
                        ));
                        assert(cols_view(cols@) =~= with_request_name(cv, (i as int, None, r as int), name@));
                    }
                    true
                },
                Some((i, Some(g), r)) => {
                    proof {
                        lemma_place_in(cv, id@, 0);
                        assert(cv[i as int] == cols@[i as int]@);
                        assert(cv[i as int].groups[g as int] == cols@[i as int].groups@[g as int]@);
                        assert(cv[i as int].groups[g as int].requests[r as int]
                            == cols@[i as int].groups@[g as int].requests@[r as int]@);
                    }
                    cols[i].groups[g].requests[r].name = name.to_string();
                    proof {
                        let c = cv[i as int];
                        let gr = c.groups[g as int];
                        assert(cols_view(cols@)[i as int].groups[g as int].requests =~= gr.requests.update(
                            r as int,
                            named_req(gr.requests[r as int], name@),
                        ));
                        assert(cols_view(cols@)[i as int].groups =~= c.groups.update(
                            g as int,
                            GroupV {
                                id: gr.id,
                                parent: gr.parent,
                                name: gr.name,
                                requests: gr.requests.update(r as int, named_req(gr.requests[r as int], name@)),
                            },
                        ));
                        assert(cols_view(cols@) =~= with_request_name(cv, (i as int, Some(g as int), r as int), name@));
                    }
                    true
                },
                None => false,
            }
        },
    }
}

/// Two request lists with the same ids, one for one.
pub open spec fn same_req_ids(a: Seq<RequestV>, b: Seq<RequestV>) -> bool {
    a.len() == b.len() && forall|k: int| 0 <= k < a.len() ==> #[trigger] a[k].0 == b[k].0
}

/// Two trees whose requests have the same ids in the same places.
pub open spec fn same_request_places(a: Seq<CollectionV>, b: Seq<CollectionV>) -> bool {
    &&& a.len() == b.len()
    &&& forall|i: int| 0 <= i < a.len() ==> same_req_ids(#[trigger] a[i].requests, b[i].requests)
    &&& forall|i: int| 0 <= i < a.len() ==> (#[trigger] a[i].groups).len() == b[i].groups.len()
    &&& forall|i: int, g: int|
        0 <= i < a.len() && 0 <= g < a[i].groups.len() ==> same_req_ids(
            #[trigger] a[i].groups[g].requests,
            b[i].groups[g].requests,
        )
}

proof fn lemma_same_first_request(a: Seq<RequestV>, b: Seq<RequestV>, id: Seq<char>, k: int)
    requires
        same_req_ids(a, b),
    ensures
        first_request(a, id, k) == first_request(b, id, k),
    decreases a.len() - k,
{
    if 0 <= k < a.len() {
        lemma_same_first_request(a, b, id, k + 1);
    }
}

proof fn lemma_same_group_request(a: Seq<GroupV>, b: Seq<GroupV>, id: Seq<char>, k: int)
    requires
        a.len() == b.len(),
        forall|g: int| 0 <= g < a.len() ==> same_req_ids(#[trigger] a[g].requests, b[g].requests),
    ensures
        first_group_request(a, id, k) == first_group_request(b, id, k),
    decreases a.len() - k,
{
    if 0 <= k < a.len() {
        lemma_same_first_request(a[k].requests, b[k].requests, id, 0);
        lemma_same_group_request(a, b, id, k + 1);
    }
}

/// Where a request is depends on ids alone.
pub proof fn lemma_same_places(a: Seq<CollectionV>, b: Seq<CollectionV>, id: Seq<char>, i: int)
    requires
        same_request_places(a, b),
    ensures
        request_place_from(a, id, i) == request_place_from(b, id, i),
    decreases a.len() - i,
{
    if 0 <= i < a.len() {
        lemma_same_first_request(a[i].requests, b[i].requests, id, 0);
        assert forall|g: int| 0 <= g < a[i].groups.len() implies same_req_ids(
            #[trigger] a[i].groups[g].requests,
            b[i].groups[g].requests,
        ) by {}
        lemma_same_group_request(a[i].groups, b[i].groups, id, 0);
        lemma_same_places(a, b, id, i + 1);
    }
}

/// Renaming a request, inside a group or not, takes effect: the request is
/// still found in the same place, and it carries the new name (the given
/// one, trimmed), when that name is not blank.
pub proof fn law_rename_request_takes_effect(cs: Seq<CollectionV>, id: Seq<char>, raw: Seq<char>)
    requires
        request_place_from(cs, id, 0) is Some,
        trimmed(raw).len() > 0,
    ensures
        request_place_from(renamed(cs, SelectionV::Request(id), raw), id, 0) == request_place_from(cs, id, 0),
        ({
            let p = request_place_from(cs, id, 0)->0;
            let after = renamed(cs, SelectionV::Request(id), raw);
            match p.1 {
                None => after[p.0].requests[p.2].1 == trimmed(raw),
                Some(g) => after[p.0].groups[g].requests[p.2].1 == trimmed(raw),
            }
        }),
{
    let p = request_place_from(cs, id, 0)->0;
    let after = renamed(cs, SelectionV::Request(id), raw);
    lemma_place_in(cs, id, 0);
    assert(same_request_places(cs, after)) by {
        assert forall|i: int| 0 <= i < cs.len() implies same_req_ids(#[trigger] cs[i].requests, after[i].requests) by {}
        assert forall|i: int, g: int| 0 <= i < cs.len() && 0 <= g < cs[i].groups.len() implies same_req_ids(
            #[trigger] cs[i].groups[g].requests,
            after[i].groups[g].requests,
        ) by {}
    }
    lemma_same_places(cs, after, id, 0);
}

/// The requests of `rs` other than `id`, in their order.
pub open spec fn reqs_without(rs: Seq<RequestV>, id: Seq<char>) -> Seq<RequestV>
    decreases rs.len(),
{
    if rs.len() == 0 {
        seq![]
    } else if rs.last().0 == id {
        reqs_without(rs.drop_last(), id)
    } else {
        reqs_without(rs.drop_last(), id).push(rs.last())
    }
}

/// What [`reqs_without`] keeps: every request of `rs` but those with id `id`.
pub proof fn lemma_reqs_without(rs: Seq<RequestV>, id: Seq<char>, x: RequestV)
    ensures
        reqs_without(rs, id).contains(x) <==> (rs.contains(x) && x.0 != id),
    decreases rs.len(),
{
    if rs.len() > 0 {
        lemma_reqs_without(rs.drop_last(), id, x);
        let rest = rs.drop_last();
        let w = reqs_without(rest, id);
        if rs.contains(x) && x.0 != id {
            let k = choose|k: int| 0 <= k < rs.len() && rs[k] == x;
            if k < rs.len() - 1 {
                assert(rest[k] == x);
            } else {
                assert(w.push(rs.last())[w.len() as int] == x);
            }
        }
        if rest.contains(x) {
            let k = choose|k: int| 0 <= k < rest.len() && rest[k] == x;
            assert(rs[k] == x);
        }
        if rs.last().0 != id {
            let r = w.push(rs.last());
            if r.contains(x) {
                let k = choose|k: int| 0 <= k < r.len() && r[k] == x;
                if k < w.len() {
                    assert(w[k] == x);
                } else {
                    assert(rs[rs.len() - 1] == x);
                }
            }
            if w.contains(x) {
                let k = choose|k: int| 0 <= k < w.len() && w[k] == x;
                assert(r[k] == x);
            }
        }
    }
}

/// Group `g` without the request `id`.
pub open spec fn group_without_req(g: GroupV, id: Seq<char>) -> GroupV {
    GroupV { id: g.id, parent: g.parent, name: g.name, requests: reqs_without(g.requests, id) }
}

/// Collection `c` without the request `id`, at its root and in every group.
pub open spec fn col_without_req(c: CollectionV, id: Seq<char>) -> CollectionV {
    CollectionV {
        id: c.id,
        name: c.name,
        groups: c.groups.map_values(|g: GroupV| group_without_req(g, id)),
        requests: reqs_without(c.requests, id),
    }
}

/// The tree after the request `id` is taken out of the first collection whose
/// id is `col_id` (its root and all its groups); unchanged when there is none.
pub open spec fn tree_without_request(cs: Seq<CollectionV>, col_id: Seq<char>, id: Seq<char>) -> Seq<CollectionV> {
    match first_col(cs, col_id, 0) {
        Some(i) => cs.update(i, col_without_req(cs[i], id)),
        None => cs,
    }
}

/// Takes the requests with id `id` out of `rs`.
fn drop_requests(rs: &mut Vec<RequestItem>, id: &str)
    ensures
        reqs_view(final(rs)@) == reqs_without(reqs_view(old(rs)@), id@),
{
    let ghost before = reqs_view(rs@);
    let mut kept: Vec<RequestItem> = Vec::new();
    let mut k: usize = 0;
    while k < rs.len()
        invariant
            before == reqs_view(rs@),
            k <= rs@.len(),
            reqs_view(kept@) == reqs_without(before.take(k as int), id@),
        decreases rs@.len() - k,
    {
        proof {
            assert(before.take(k + 1).drop_last() =~= before.take(k as int));
            assert(before.take(k + 1).last() == rs@[k as int]@);
        }
        if !text_eq(rs[k].id.as_str(), id) {
            let r = RequestItem { id: rs[k].id.clone(), name: rs[k].name.clone() };
            kept.push(r);
            proof {
                assert(reqs_view(kept@) =~= reqs_view(kept@.drop_last()).push(kept@.last()@));
            }
        }
        k = k + 1;
    }
    proof {
        assert(before.take(k as int) =~= before);
    }
    *rs = kept;
}

/// Takes the request `id` out of the first collection whose id is `col_id`:
/// out of its root and out of every group in it. The caller first moves the
/// request's file to the trash; this is the change to the loaded tree.
pub fn remove_request(cols: &mut Vec<Collection>, col_id: &str, id: &str)
    ensures
        cols_view(final(cols)@) == tree_without_request(cols_view(old(cols)@), col_id@, id@),
{
    let ghost cv = cols_view(cols@);
    let i = match find_col(cols, col_id) {
        Some(i) => i,
        None => {
            return;
        },
    };
    proof {
        assert(cv[i as int] == cols@[i as int]@);
    }
    let mut groups: Vec<Group> = Vec::new();
    std::mem::swap(&mut groups, &mut cols[i].groups);
    let ghost gv = groups_view(groups@);
    proof {
        assert(gv =~= cv[i as int].groups);
    }
    let mut g: usize = 0;
    while g < groups.len()
        invariant
            gv.len() == groups@.len(),
            g <= groups@.len(),
            forall|j: int| 0 <= j < g ==> #[trigger] groups@[j]@ == group_without_req(gv[j], id@),
            forall|j: int| g <= j < groups@.len() ==> #[trigger] groups@[j]@ == gv[j],
        decreases groups@.len() - g,
    {
        let ghost og = groups@[g as int];
        let ghost gs0 = groups@;
        proof {
            assert(og@ == gv[g as int]);
        }
        let mut rs: Vec<RequestItem> = Vec::new();
        std::mem::swap(&mut rs, &mut groups[g].requests);
        proof {
            assert(rs@ == og.requests@);
            assert(reqs_view(rs@) =~= gv[g as int].requests);
        }
        drop_requests(&mut rs, id);
        std::mem::swap(&mut rs, &mut groups[g].requests);
        proof {
            assert(groups@[g as int].id == og.id);
            assert(groups@[g as int].name == og.name);
            assert(groups@[g as int].parent == og.parent);
            assert(groups@[g as int]@ == group_without_req(gv[g as int], id@)) by {
                assert(groups@[g as int]@.requests =~= reqs_view(groups@[g as int].requests@));
            }
            assert forall|j: int| 0 <= j < groups@.len() && j != g implies #[trigger] groups@[j] == gs0[j] by {}
        }
        g = g + 1;
    }
    std::mem::swap(&mut groups, &mut cols[i].groups);
    let mut rs: Vec<RequestItem> = Vec::new();
    std::mem::swap(&mut rs, &mut cols[i].requests);
    drop_requests(&mut rs, id);
    std::mem::swap(&mut rs, &mut cols[i].requests);
    proof {
        let c = cv[i as int];
        assert(cols@[i as int]@.groups =~= c.groups.map_values(|x: GroupV| group_without_req(x, id@)));
        assert(cols@[i as int]@.requests =~= reqs_without(c.requests, id@));
        assert(cols_view(cols@) =~= cv.update(i as int, col_without_req(c, id@)));
    }
}

/// After [`tree_without_request`], the collection it changed holds no request
/// with that id, neither at its root nor in any group.
pub proof fn law_removed_request_is_gone(cs: Seq<CollectionV>, col_id: Seq<char>, id: Seq<char>)
    requires
        first_col(cs, col_id, 0) is Some,
    ensures
        ({
            let i = first_col(cs, col_id, 0)->0;
            let after = tree_without_request(cs, col_id, id);
            &&& !holds_request(after[i].requests, id)
            &&& forall|g: int| 0 <= g < after[i].groups.len() ==> !holds_request(#[trigger] after[i].groups[g].requests, id)
        }),
{
    let i = first_col(cs, col_id, 0)->0;
    lemma_first_col_bounds(cs, col_id, 0);
    let after = tree_without_request(cs, col_id, id);
    let c = cs[i];
    if holds_request(after[i].requests, id) {
        let k = choose|k: int| 0 <= k < after[i].requests.len() && after[i].requests[k].0 == id;
        let x = after[i].requests[k];
        lemma_reqs_without(c.requests, id, x);
        assert(reqs_without(c.requests, id).contains(x));
    }
    assert forall|g: int| 0 <= g < after[i].groups.len() implies !holds_request(#[trigger] after[i].groups[g].requests, id) by {
        if holds_request(after[i].groups[g].requests, id) {
            let rs = after[i].groups[g].requests;
            assert(rs == reqs_without(c.groups[g].requests, id));
            let k = choose|k: int| 0 <= k < rs.len() && rs[k].0 == id;
            lemma_reqs_without(c.groups[g].requests, id, rs[k]);
            assert(rs.contains(rs[k]));
        }
    }
}

proof fn lemma_first_col_bounds(cs: Seq<CollectionV>, id: Seq<char>, k: int)
    requires
        0 <= k,
    ensures
        first_col(cs, id, k) matches Some(i) ==> k <= i < cs.len() && cs[i].id == id,
    decreases cs.len() - k,
{
    if k < cs.len() {
        lemma_first_col_bounds(cs, id, k + 1);
    }
}

/// Where request `id` lives: the id of its collection, and the id of its group
/// when it is inside one (found as [`request_place_from`] finds it).
pub open spec fn home_of(cs: Seq<CollectionV>, id: Seq<char>) -> Option<(Seq<char>, Option<Seq<char>>)> {
    match request_place_from(cs, id, 0) {
        Some(p) => Some((
            cs[p.0].id,
            match p.1 {
                Some(g) => Some(cs[p.0].groups[g].id),
                None => None,
            },
        )),
        None => None,
    }
}

/// The collection id and, for a request inside a group, the group id where the
/// request `id` lives; the trash needs both to find its file.
pub fn request_home(cols: &[Collection], id: &str) -> (r: Option<(String, Option<String>)>)
    ensures
        match r {
            Some(h) => home_of(cols_view(cols@), id@) == Some((h.0@, opt_view(h.1))),
            None => home_of(cols_view(cols@), id@) is None,
        },
{
    let ghost cv = cols_view(cols@);
    proof {
        lemma_place_in(cv, id@, 0);
    }
    match find_request(cols, id) {
        Some((i, None, _)) => {
            proof {
                assert(cv[i as int] == cols@[i as int]@);
            }
            Some((cols[i].id.clone(), None))
        },
        Some((i, Some(g), _)) => {
            proof {
                assert(cv[i as int] == cols@[i as int]@);
                assert(cv[i as int].groups[g as int] == cols@[i as int].groups@[g as int]@);
            }
            Some((cols[i].id.clone(), Some(cols[i].groups[g].id.clone())))
        },
        None => None,
    }
}

/// The selection goes when it is the deleted request.
pub fn request_delete_clears(sel: &Option<Selection>, id: &str) -> (r: bool)
    ensures
        r == (sel matches Some(s) && s@ == SelectionV::Request(id@)),
{
    match sel {
        Some(Selection::Request(x)) => text_eq(x.as_str(), id),
        _ => false,
    }
}

/// The collections other than those with id `id`, in their order.
pub open spec fn cols_without(cs: Seq<CollectionV>, id: Seq<char>) -> Seq<CollectionV>
    decreases cs.len(),
{
    if cs.len() == 0 {
        seq![]
    } else if cs.last().id == id {
        cols_without(cs.drop_last(), id)
    } else {
        cols_without(cs.drop_last(), id).push(cs.last())
    }
}

/// Takes every collection with id `id` out of the tree; the caller has moved
/// it to the trash first.
pub fn remove_collection(cols: &mut Vec<Collection>, id: &str)
    ensures
        cols_view(final(cols)@) == cols_without(cols_view(old(cols)@), id@),
{
    let ghost before = cols_view(cols@);
    let mut all: Vec<Collection> = Vec::new();
    std::mem::swap(&mut all, cols);
    let mut kept: Vec<Collection> = Vec::new();
    while all.len() > 0
        invariant
            before.len() >= all@.len(),
            cols_view(all@) == before.skip(before.len() - all@.len()),
            cols_view(kept@) == cols_without(before.take(before.len() - all@.len()), id@),
        decreases all@.len(),
    {
        let ghost n = before.len() - all@.len();
        let ghost a0 = all@;
        proof {
            assert(cols_view(a0)[0] == a0[0]@);
        }
        let c = all.remove(0);
        proof {
            assert(c@ == before[n]);
            assert forall|j: int| 0 <= j < all@.len() implies #[trigger] cols_view(all@)[j] == before.skip(n + 1)[j] by {
                assert(all@[j] == a0[j + 1]);
                assert(cols_view(a0)[j + 1] == a0[j + 1]@);
            }
            assert(cols_view(all@) =~= before.skip(n + 1));
            assert(before.take(n + 1).drop_last() =~= before.take(n));
            assert(before.take(n + 1).last() == before[n]);
        }
        if !text_eq(c.id.as_str(), id) {
            kept.push(c);
            proof {
                assert(cols_view(kept@) =~= cols_view(kept@.drop_last()).push(kept@.last()@));
            }
        }
    }
    proof {
        assert(before.take(before.len() as int) =~= before);
    }
    *cols = kept;
}

proof fn lemma_cols_without(cs: Seq<CollectionV>, id: Seq<char>, x: CollectionV)
    ensures
        cols_without(cs, id).contains(x) ==> cs.contains(x) && x.id != id,
    decreases cs.len(),
{
    if cs.len() > 0 {
        lemma_cols_without(cs.drop_last(), id, x);
        let w = cols_without(cs.drop_last(), id);
        if cols_without(cs, id).contains(x) {
            let k = choose|k: int| 0 <= k < cols_without(cs, id).len() && cols_without(cs, id)[k] == x;
            if k < w.len() {
                assert(w[k] == x);
                let m = choose|m: int| 0 <= m < cs.drop_last().len() && cs.drop_last()[m] == x;
                assert(cs[m] == x);
            } else {
                assert(cs[cs.len() - 1] == x);
            }
        }
    }
}

/// After a collection is deleted, no collection with its id is left.
pub proof fn law_deleted_collection_is_gone(cs: Seq<CollectionV>, id: Seq<char>)
    ensures
        forall|i: int| 0 <= i < cols_without(cs, id).len() ==> #[trigger] cols_without(cs, id)[i].id != id,
{
    assert forall|i: int| 0 <= i < cols_without(cs, id).len() implies #[trigger] cols_without(cs, id)[i].id != id by {
        lemma_cols_without(cs, id, cols_without(cs, id)[i]);
    }
}

/// Some group of some collection has id `gid`.
pub open spec fn group_anywhere(cs: Seq<CollectionV>, gid: Seq<char>) -> bool {
    exists|i: int, g: int| 0 <= i < cs.len() && 0 <= g < cs[i].groups.len() && #[trigger] cs[i].groups[g].id == gid
}

/// Collection `c` holds request `rid`, at its root or in a group.
pub open spec fn col_holds(c: CollectionV, rid: Seq<char>) -> bool {
    holds_request(c.requests, rid) || exists|q: int|
        0 <= q < c.groups.len() && holds_request(#[trigger] c.groups[q].requests, rid)
}

/// Some collection holds request `rid`, at its root or in a group.
pub open spec fn request_anywhere(cs: Seq<CollectionV>, rid: Seq<char>) -> bool {
    exists|i: int| 0 <= i < cs.len() && col_holds(#[trigger] cs[i], rid)
}

/// Whether the selection goes once collection `id` is deleted and `after` is
/// what is left: the deleted collection itself, or a group or request that is
/// no longer anywhere in the tree.
pub open spec fn collection_delete_clears_of(after: Seq<CollectionV>, sel: Option<SelectionV>, id: Seq<char>) -> bool {
    match sel {
        Some(SelectionV::Collection(x)) => x == id,
        Some(SelectionV::Group(g)) => !group_anywhere(after, g),
        Some(SelectionV::Request(r)) => !request_anywhere(after, r),
        None => false,
    }
}

/// The selection as plain values.
pub open spec fn opt_sel(s: Option<Selection>) -> Option<SelectionV> {
    match s {
        Some(x) => Some(x@),
        None => None,
    }
}

/// Whether some collection has a group with id `gid`.
pub fn group_exists(cols: &[Collection], gid: &str) -> (r: bool)
    ensures
        r == group_anywhere(cols_view(cols@), gid@),
{
    let ghost cv = cols_view(cols@);
    let mut i: usize = 0;
    while i < cols.len()
        invariant
            cv == cols_view(cols@),
            i <= cols@.len(),
            forall|a: int, g: int| 0 <= a < i && 0 <= g < cv[a].groups.len() ==> #[trigger] cv[a].groups[g].id != gid@,
        decreases cols@.len() - i,
    {
        proof {
            assert(cv[i as int] == cols@[i as int]@);
            assert(cv[i as int].groups =~= groups_view(cols@[i as int].groups@));
        }
        if let Some(g) = find_group(&cols[i].groups, gid) {
            proof {
                lemma_first_group_id(cv[i as int].groups, gid@, 0);
            }
            return true;
        }
        proof {
            assert forall|g: int| 0 <= g < cv[i as int].groups.len() implies #[trigger] cv[i as int].groups[g].id != gid@ by {
                lemma_no_group_id(cv[i as int].groups, gid@, 0, g);
            }
        }
        i = i + 1;
    }
    false
}

proof fn lemma_no_group_id(gs: Seq<GroupV>, id: Seq<char>, k: int, g: int)
    requires
        0 <= k <= g < gs.len(),
        first_group_id(gs, id, k) is None,
    ensures
        gs[g].id != id,
    decreases g - k,
{
    if k < g {
        lemma_no_group_id(gs, id, k + 1, g);
    }
}

fn holds_anywhere_in(c: &Collection, rid: &str) -> (r: bool)
    ensures
        r == col_holds(c@, rid@),
{
    proof {
        assert(c@.requests =~= reqs_view(c.requests@));
    }
    if has_request(&c.requests, rid) {
        return true;
    }
    let mut g: usize = 0;
    while g < c.groups.len()
        invariant
            g <= c.groups@.len(),
            forall|k: int| 0 <= k < g ==> !holds_request(#[trigger] c@.groups[k].requests, rid@),
        decreases c.groups@.len() - g,
    {
        proof {
            assert(c@.groups[g as int] == c.groups@[g as int]@);
            assert(c.groups@[g as int]@.requests =~= reqs_view(c.groups@[g as int].requests@));
        }
        if has_request(&c.groups[g].requests, rid) {
            proof {
                assert(holds_request(c@.groups[g as int].requests, rid@));
            }
            return true;
        }
        g = g + 1;
    }
    false
}

/// Whether some collection holds the request `rid`, at its root or in a group.
pub fn request_exists(cols: &[Collection], rid: &str) -> (r: bool)
    ensures
        r == request_anywhere(cols_view(cols@), rid@),
{
    let ghost cv = cols_view(cols@);
    let mut i: usize = 0;
    while i < cols.len()
        invariant
            cv == cols_view(cols@),
            i <= cols@.len(),
            forall|a: int| 0 <= a < i ==> !col_holds(#[trigger] cv[a], rid@),
        decreases cols@.len() - i,
    {
        proof {
            assert(cv[i as int] == cols@[i as int]@);
        }
        if holds_anywhere_in(&cols[i], rid) {
            return true;
        }
        i = i + 1;
    }
    false
}

/// Whether the selection goes once collection `id` is deleted, `cols` being
/// what is left (see [`collection_delete_clears_of`]).
pub fn collection_delete_clears(cols: &[Collection], sel: &Option<Selection>, id: &str) -> (r: bool)
    ensures
        r == collection_delete_clears_of(cols_view(cols@), opt_sel(*sel), id@),
{
    match sel {
        Some(Selection::Collection(x)) => text_eq(x.as_str(), id),
        Some(Selection::Group(g)) => !group_exists(cols, g.as_str()),
        Some(Selection::Request(r)) => !request_exists(cols, r.as_str()),
        None => false,
    }
}

/// The groups of `gs` whose ids are not listed in `doomed`, in their order.
pub open spec fn groups_without(gs: Seq<GroupV>, doomed: Seq<String>) -> Seq<GroupV>
    decreases gs.len(),
{
    if gs.len() == 0 {
        seq![]
    } else if listed(doomed, gs.last().id) {
        groups_without(gs.drop_last(), doomed)
    } else {
        groups_without(gs.drop_last(), doomed).push(gs.last())
    }
}

/// The tree after the groups listed in `doomed` are taken out of the first
/// collection whose id is `col_id`; unchanged when there is none.
pub open spec fn tree_without_groups(cs: Seq<CollectionV>, col_id: Seq<char>, doomed: Seq<String>) -> Seq<CollectionV> {
    match first_col(cs, col_id, 0) {
        Some(i) => cs.update(
            i,
            CollectionV {
                id: cs[i].id,
                name: cs[i].name,
                groups: groups_without(cs[i].groups, doomed),
                requests: cs[i].requests,
            },
        ),
        None => cs,
    }
}

/// Takes the groups listed in `doomed` (a group and all the groups below it)
/// out of the first collection whose id is `col_id`; the caller has moved
/// them to the trash first.
pub fn remove_groups(cols: &mut Vec<Collection>, col_id: &str, doomed: &[String])
    ensures
        cols_view(final(cols)@) == tree_without_groups(cols_view(old(cols)@), col_id@, doomed@),
{
    let ghost cv = cols_view(cols@);
    let i = match find_col(cols, col_id) {
        Some(i) => i,
        None => {
            return;
        },
    };
    proof {
        assert(cv[i as int] == cols@[i as int]@);
    }
    let mut all: Vec<Group> = Vec::new();
    std::mem::swap(&mut all, &mut cols[i].groups);
    let ghost before = groups_view(all@);
    proof {
        assert(before =~= cv[i as int].groups);
    }
    let mut kept: Vec<Group> = Vec::new();
    while all.len() > 0
        invariant
            before.len() >= all@.len(),
            groups_view(all@) == before.skip(before.len() - all@.len()),
            groups_view(kept@) == groups_without(before.take(before.len() - all@.len()), doomed@),
        decreases all@.len(),
    {
        let ghost n = before.len() - all@.len();
        let ghost a0 = all@;
        proof {
            assert(groups_view(a0)[0] == a0[0]@);
        }
        let g = all.remove(0);
        proof {
            assert(g@ == before[n]);
            assert forall|j: int| 0 <= j < all@.len() implies #[trigger] groups_view(all@)[j] == before.skip(n + 1)[j] by {
                assert(all@[j] == a0[j + 1]);
                assert(groups_view(a0)[j + 1] == a0[j + 1]@);
            }
            assert(groups_view(all@) =~= before.skip(n + 1));
            assert(before.take(n + 1).drop_last() =~= before.take(n));
            assert(before.take(n + 1).last() == before[n]);
        }
        if !is_listed(doomed, g.id.as_str()) {
            kept.push(g);
            proof {
                assert(groups_view(kept@) =~= groups_view(kept@.drop_last()).push(kept@.last()@));
            }
        }
    }
    proof {
        assert(before.take(before.len() as int) =~= before);
    }
    std::mem::swap(&mut kept, &mut cols[i].groups);
    proof {
        let c = cv[i as int];
        assert(cols@[i as int]@.groups =~= groups_without(c.groups, doomed@));
        assert(cols_view(cols@) =~= cv.update(
            i as int,
            CollectionV { id: c.id, name: c.name, groups: groups_without(c.groups, doomed@), requests: c.requests },
        ));
    }
}

/// The selection goes when it is one of the deleted groups.
pub fn group_delete_clears(sel: &Option<Selection>, doomed: &[String]) -> (r: bool)
    ensures
        r == (sel matches Some(s) && s@ matches SelectionV::Group(g) && listed(doomed@, g)),
{
    match sel {
        Some(Selection::Group(g)) => is_listed(doomed, g.as_str()),
        _ => false,
    }
}

proof fn lemma_groups_without(gs: Seq<GroupV>, doomed: Seq<String>, x: GroupV)
    ensures
        groups_without(gs, doomed).contains(x) ==> gs.contains(x) && !listed(doomed, x.id),
    decreases gs.len(),
{
    if gs.len() > 0 {
        lemma_groups_without(gs.drop_last(), doomed, x);
        let w = groups_without(gs.drop_last(), doomed);
        if groups_without(gs, doomed).contains(x) {
            let k = choose|k: int| 0 <= k < groups_without(gs, doomed).len() && groups_without(gs, doomed)[k] == x;
            if k < w.len() {
                assert(w[k] == x);
                let m = choose|m: int| 0 <= m < gs.drop_last().len() && gs.drop_last()[m] == x;
                assert(gs[m] == x);
            } else {
                assert(gs[gs.len() - 1] == x);
            }
        }
    }
}

/// After groups are deleted, none of them is left in their collection.
pub proof fn law_deleted_groups_are_gone(cs: Seq<CollectionV>, col_id: Seq<char>, doomed: Seq<String>)
    requires
        first_col(cs, col_id, 0) is Some,
    ensures
        ({
            let i = first_col(cs, col_id, 0)->0;
            let after = tree_without_groups(cs, col_id, doomed);
            forall|g: int| 0 <= g < after[i].groups.len() ==> !listed(doomed, #[trigger] after[i].groups[g].id)
        }),
{
    let i = first_col(cs, col_id, 0)->0;
    lemma_first_col_bounds(cs, col_id, 0);
    let after = tree_without_groups(cs, col_id, doomed);
    assert forall|g: int| 0 <= g < after[i].groups.len() implies !listed(doomed, #[trigger] after[i].groups[g].id) by {
        let gs = groups_without(cs[i].groups, doomed);
        assert(after[i].groups == gs);
        lemma_groups_without(cs[i].groups, doomed, gs[g]);
        assert(gs.contains(gs[g]));
    }
}

/// The tree with request `r` appended to the first collection whose id is
/// `col_id`: at its root, or at the end of its first group with id `gid`.
/// Unchanged when the collection (or the group in it) is not there.
pub open spec fn tree_with_request(cs: Seq<CollectionV>, col_id: Seq<char>, gid: Option<Seq<char>>, r: RequestV) -> Seq<CollectionV> {
    match first_col(cs, col_id, 0) {
        None => cs,
        Some(i) => {
            let c = cs[i];
            match gid {
                None => cs.update(
                    i,
                    CollectionV { id: c.id, name: c.name, groups: c.groups, requests: c.requests.push(r) },
                ),
                Some(g) => match first_group_id(c.groups, g, 0) {
                    Some(k) => {
                        let gr = c.groups[k];
                        cs.update(
                            i,
                            CollectionV {
                                id: c.id,
                                name: c.name,
                                groups: c.groups.update(
                                    k,
                                    GroupV { id: gr.id, parent: gr.parent, name: gr.name, requests: gr.requests.push(r) },
                                ),
                                requests: c.requests,
                            },
                        )
                    },
                    None => cs,
                },
            }
        },
    }
}

/// Appends the request `r` (just saved) to the first collection whose id is
/// `col_id`: at its root, or in its group `group_id` (see
/// [`tree_with_request`]).
pub fn add_request(cols: &mut Vec<Collection>, col_id: &str, group_id: Option<&str>, r: RequestItem)
    ensures
        cols_view(final(cols)@) == tree_with_request(
            cols_view(old(cols)@),
            col_id@,
            match group_id {
                Some(g) => Some(g@),
                None => None,
            },
            r@,
        ),
{
    let ghost cv = cols_view(cols@);
    let ghost rv = r@;
    let i = match find_col(cols, col_id) {
        Some(i) => i,
        None => {
            return;
        },
    };
    proof {
        assert(cv[i as int] == cols@[i as int]@);
    }
    match group_id {
        None => {
            cols[i].requests.push(r);
            proof {
                let c = cv[i as int];
                assert(cols@[i as int]@.requests =~= c.requests.push(rv));
                assert(cols_view(cols@) =~= cv.update(
                    i as int,
                    CollectionV { id: c.id, name: c.name, groups: c.groups, requests: c.requests.push(rv) },
                ));
            }
        },
        Some(g) => {
            proof {
                assert(cv[i as int].groups =~= groups_view(cols@[i as int].groups@));
            }
            match find_group(&cols[i].groups, g) {
                Some(k) => {
                    proof {
                        lemma_first_group_id(cv[i as int].groups, g@, 0);
                        assert(cv[i as int].groups[k as int] == cols@[i as int].groups@[k as int]@);
                    }
                    cols[i].groups[k].requests.push(r);
                    proof {
                        let c = cv[i as int];
                        let gr = c.groups[k as int];
                        assert(cols@[i as int].groups@[k as int]@.requests =~= gr.requests.push(rv));
                        assert(cols@[i as int]@.groups =~= c.groups.update(
                            k as int,
                            GroupV { id: gr.id, parent: gr.parent, name: gr.name, requests: gr.requests.push(rv) },
                        ));
                        assert(cols_view(cols@) =~= cv.update(
                            i as int,
                            CollectionV {
                                id: c.id,
                                name: c.name,
                                groups: c.groups.update(
                                    k as int,
                                    GroupV { id: gr.id, parent: gr.parent, name: gr.name, requests: gr.requests.push(rv) },
                                ),
                                requests: c.requests,
                            },
                        ));
                    }
                },
                None => {},
            }
        },
    }
}

/// A request added to a collection is there afterwards (at its root, or in
/// the group it was added to).
pub proof fn law_added_request_is_there(cs: Seq<CollectionV>, col_id: Seq<char>, gid: Option<Seq<char>>, r: RequestV)
    requires
        first_col(cs, col_id, 0) is Some,
        gid matches Some(g) ==> first_group_id(cs[first_col(cs, col_id, 0)->0].groups, g, 0) is Some,
    ensures
        ({
            let i = first_col(cs, col_id, 0)->0;
            let after = tree_with_request(cs, col_id, gid, r);
            match gid {
                None => holds_request(after[i].requests, r.0),
                Some(g) => holds_request(after[i].groups[first_group_id(cs[i].groups, g, 0)->0].requests, r.0),
            }
        }),
{
    let i = first_col(cs, col_id, 0)->0;
    lemma_first_col_bounds(cs, col_id, 0);
    let after = tree_with_request(cs, col_id, gid, r);
    match gid {
        None => {
            let rs = after[i].requests;
            assert(rs[rs.len() - 1] == r);
        },
        Some(g) => {
            lemma_first_group_id(cs[i].groups, g, 0);
            let k = first_group_id(cs[i].groups, g, 0)->0;
            let rs = after[i].groups[k].requests;
            assert(rs[rs.len() - 1] == r);
        },
    }
}

/// The name of a duplicated request: the original's name and the copy suffix
/// of the locale.
pub fn copy_name(locale: Locale, name: &str) -> (r: String)
    ensures
        r@ == name@ + tr_text(locale, "flash.copy_suffix"@),
{
    let mut out = String::from_str(name);
    out.append(tr(locale, "flash.copy_suffix"));
    out
}

/// The text the rename box starts with: the node's current name (for a
/// request, only when it is the selected one, whose fields are loaded);
/// empty when the node is not found.
pub open spec fn rename_start_of(cs: Seq<CollectionV>, selected: Option<RequestV>, target: SelectionV) -> Seq<char> {
    match target {
        SelectionV::Collection(id) => match first_col(cs, id, 0) {
            Some(i) => cs[i].name,
            None => Seq::<char>::empty(),
        },
        SelectionV::Request(id) => match selected {
            Some(r) => if r.0 == id {
                r.1
            } else {
                Seq::<char>::empty()
            },
            None => Seq::<char>::empty(),
        },
        SelectionV::Group(id) => match first_col_with_group(cs, id, 0) {
            Some(i) => cs[i].groups[first_group_id(cs[i].groups, id, 0)->0].name,
            None => Seq::<char>::empty(),
        },
    }
}

/// The text the rename box starts with (see [`rename_start_of`]).
pub fn rename_start(cols: &[Collection], selected: Option<&RequestItem>, target: &Selection) -> (r: String)
    ensures
        r@ == rename_start_of(
            cols_view(cols@),
            match selected {
                Some(q) => Some(q@),
                None => None,
            },
            target@,
        ),
{
    let ghost cv = cols_view(cols@);
    let empty = String::new();
    proof {
        assert(empty@ =~= Seq::<char>::empty());
    }
    match target {
        Selection::Collection(id) => match find_col(cols, id.as_str()) {
            Some(i) => {
                proof {
                    assert(cv[i as int] == cols@[i as int]@);
                }
                cols[i].name.clone()
            },
            None => empty,
        },
        Selection::Request(id) => match selected {
            Some(q) => {
                if text_eq(q.id.as_str(), id.as_str()) {
                    q.name.clone()
                } else {
                    empty
                }
            },
            None => empty,
        },
        Selection::Group(id) => match find_group_place(cols, id.as_str()) {
            Some((i, g)) => {
                proof {
                    lemma_first_col_in(cv, id@, 0);
                    lemma_first_group_id(cv[i as int].groups, id@, 0);
                    assert(cv[i as int] == cols@[i as int]@);
                    assert(cv[i as int].groups[g as int] == cols@[i as int].groups@[g as int]@);
                }
                cols[i].groups[g].name.clone()
            },
            None => empty,
        },
    }
}

} // verus!
