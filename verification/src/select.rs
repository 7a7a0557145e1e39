//! Choosing what the side tree selects: the first request when nothing is
//! selected, the label of the place a request is moved to, and the listing
//! of a workspace's requests that the command palette searches.

use vstd::prelude::*;
use crate::text::text_eq;
use crate::model::{Collection, CollectionV, GroupV, RequestItem, RequestV, cols_view};
use crate::tree::{reqs_view, groups_view, find_group, first_group_id, lemma_first_group_id};
use crate::tree_drag::{first_col, find_col};
use crate::i18n::{Locale, tr, tr_text};

verus! {

/// The requests of a collection in tree order: its own, then group by group.
pub open spec fn col_requests(c: CollectionV) -> Seq<RequestV> {
    c.requests + group_requests(c.groups)
}

/// The requests of the groups, group by group.
pub open spec fn group_requests(gs: Seq<GroupV>) -> Seq<RequestV>
    decreases gs.len(),
{
    if gs.len() == 0 {
        seq![]
    } else {
        group_requests(gs.drop_last()) + gs.last().requests
    }
}

/// All requests of the tree, collection by collection (see [`col_requests`]).
pub open spec fn all_requests(cs: Seq<CollectionV>) -> Seq<RequestV>
    decreases cs.len(),
{
    if cs.len() == 0 {
        seq![]
    } else {
        all_requests(cs.drop_last()) + col_requests(cs.last())
    }
}

/// The id of the first request of the tree, selected when nothing is.
pub fn first_request_id(cols: &[Collection]) -> (r: Option<String>)
    ensures
        match r {
            Some(id) => all_requests(cols_view(cols@)).len() > 0 && id@ == all_requests(cols_view(cols@))[0].0,
            None => all_requests(cols_view(cols@)).len() == 0,
        },
{
    let ghost cv = cols_view(cols@);
    let mut i: usize = 0;
    while i < cols.len()
        invariant
            cv == cols_view(cols@),
            i <= cols@.len(),
            all_requests(cv.take(i as int)).len() == 0,
        decreases cols@.len() - i,
    {
        let c = &cols[i];
        proof {
            assert(cv[i as int] == c@);
            assert(cv.take(i + 1).drop_last() =~= cv.take(i as int));
            assert(cv.take(i + 1).last() == c@);
            assert(all_requests(cv.take(i + 1)) == all_requests(cv.take(i as int)) + col_requests(c@));
        }
        if c.requests.len() > 0 {
            proof {
                assert(c@.requests[0] == c.requests@[0]@);
                assert(all_requests(cv.take(i + 1))[0] == c@.requests[0]);
                lemma_prefix_first(cv, i as int + 1);
            }
            return Some(c.requests[0].id.clone());
        }
        let ghost gs = c@.groups;
        let mut g: usize = 0;
        while g < c.groups.len()
            invariant
                gs == c@.groups,
                g <= c.groups@.len(),
                group_requests(gs.take(g as int)).len() == 0,
                cv == cols_view(cols@),
                i < cols@.len(),
                cv[i as int] == c@,
                c@.requests.len() == 0,
                all_requests(cv.take(i as int)).len() == 0,
                all_requests(cv.take(i + 1)) == all_requests(cv.take(i as int)) + col_requests(c@),
            decreases c.groups@.len() - g,
        {
            proof {
                assert(gs[g as int] == c.groups@[g as int]@);
                assert(gs.take(g + 1).drop_last() =~= gs.take(g as int));
                assert(gs.take(g + 1).last() == gs[g as int]);
            }
            if c.groups[g].requests.len() > 0 {
                proof {
                    let gr = gs[g as int];
                    assert(gr.requests[0] == c.groups@[g as int].requests@[0]@);
                    assert(group_requests(gs.take(g + 1)) =~= gr.requests);
                    lemma_groups_prefix_first(gs, g as int + 1);
                    assert(col_requests(c@)[0] == gr.requests[0]);
                    assert(all_requests(cv.take(i + 1))[0] == gr.requests[0]);
                    lemma_prefix_first(cv, i as int + 1);
                }
                return Some(c.groups[g].requests[0].id.clone());
            }
            g = g + 1;
        }
        proof {
            assert(gs.take(g as int) =~= gs);
        }
        i = i + 1;
    }
    proof {
        assert(cv.take(i as int) =~= cv);
    }
    None
}

/// When the first `n` collections hold a request, the first of them is the
/// first request of the whole tree.
proof fn lemma_prefix_first(cs: Seq<CollectionV>, n: int)
    requires
        0 <= n <= cs.len(),
        all_requests(cs.take(n)).len() > 0,
    ensures
        all_requests(cs).len() > 0,
        all_requests(cs)[0] == all_requests(cs.take(n))[0],
    decreases cs.len() - n,
{
    if n < cs.len() {
        let m = n + 1;
        assert(cs.take(m).drop_last() =~= cs.take(n));
        assert(all_requests(cs.take(m)) == all_requests(cs.take(n)) + col_requests(cs.take(m).last()));
        lemma_prefix_first(cs, m);
    } else {
        assert(cs.take(n) =~= cs);
    }
}

proof fn lemma_groups_prefix_first(gs: Seq<GroupV>, n: int)
    requires
        0 <= n <= gs.len(),
        group_requests(gs.take(n)).len() > 0,
    ensures
        group_requests(gs).len() > 0,
        group_requests(gs)[0] == group_requests(gs.take(n))[0],
    decreases gs.len() - n,
{
    if n < gs.len() {
        let m = n + 1;
        assert(gs.take(m).drop_last() =~= gs.take(n));
        assert(group_requests(gs.take(m)) == group_requests(gs.take(n)) + gs.take(m).last().requests);
        lemma_groups_prefix_first(gs, m);
    } else {
        assert(gs.take(n) =~= gs);
    }
}

/// Whether some collection has id `id` (a collection can be selected only then).
pub fn collection_exists(cols: &[Collection], id: &str) -> (r: bool)
    ensures
        r == (first_col(cols_view(cols@), id@, 0) is Some),
{
    find_col(cols, id).is_some()
}

/// The label of the place a request is moved to: `{collection} / {group}`
/// for a group (just the collection when that group is not in it),
/// `{collection}{root}` for the collection's root, and the collection id
/// itself when no collection has it.
pub open spec fn destination_of(locale: Locale, cs: Seq<CollectionV>, col_id: Seq<char>, gid: Option<Seq<char>>) -> Seq<char> {
    match first_col(cs, col_id, 0) {
        None => col_id,
        Some(i) => {
            let c = cs[i];
            match gid {
                Some(g) => match first_group_id(c.groups, g, 0) {
                    Some(k) => c.name + " / "@ + c.groups[k].name,
                    None => c.name,
                },
                None => c.name + tr_text(locale, "action.move_root"@),
            }
        },
    }
}

/// The label of the place a request is moved to (see [`destination_of`]).
pub fn move_destination(locale: Locale, cols: &[Collection], col_id: &str, group_id: Option<&str>) -> (r: String)
    ensures
        r@ == destination_of(
            locale,
            cols_view(cols@),
            col_id@,
            match group_id {
                Some(g) => Some(g@),
                None => None,
            },
        ),
{
    let ghost cv = cols_view(cols@);
    let i = match find_col(cols, col_id) {
        Some(i) => i,
        None => {
            return col_id.to_string();
        },
    };
    proof {
        assert(cv[i as int] == cols@[i as int]@);
    }
    let c = &cols[i];
    match group_id {
        Some(g) => {
            proof {
                assert(c@.groups =~= groups_view(c.groups@));
            }
            match find_group(&c.groups, g) {
                Some(k) => {
                    proof {
                        lemma_first_group_id(c@.groups, g@, 0);
                        assert(c@.groups[k as int] == c.groups@[k as int]@);
                    }
                    let mut out = c.name.clone();
                    out.append(" / ");
                    out.append(c.groups[k].name.as_str());
                    out
                },
                None => c.name.clone(),
            }
        },
        None => {
            let mut out = c.name.clone();
            out.append(tr(locale, "action.move_root"));
            out
        },
    }
}

/// Where a request lives, as the command palette shows it: the collection's
/// name, or `{collection}/{group}` inside a group.
pub open spec fn container_label(c: CollectionV, g: Option<GroupV>) -> Seq<char> {
    match g {
        Some(g) => c.name + seq!['/'] + g.name,
        None => c.name,
    }
}

/// The (container, request id) pairs of one group's requests.
pub open spec fn group_listing(c: CollectionV, g: GroupV) -> Seq<(Seq<char>, Seq<char>)> {
    g.requests.map_values(|r: RequestV| (container_label(c, Some(g)), r.0))
}

/// The (container, request id) pairs of a collection's groups, group by group.
pub open spec fn groups_listing(c: CollectionV, n: int) -> Seq<(Seq<char>, Seq<char>)>
    decreases n,
{
    if n <= 0 || n > c.groups.len() {
        seq![]
    } else {
        groups_listing(c, n - 1) + group_listing(c, c.groups[n - 1])
    }
}

/// The (container, request id) pairs of a collection: its own requests, then
/// those of its groups.
pub open spec fn col_listing(c: CollectionV) -> Seq<(Seq<char>, Seq<char>)> {
    c.requests.map_values(|r: RequestV| (container_label(c, None), r.0)) + groups_listing(c, c.groups.len() as int)
}

/// The (container, request id) pairs of a tree, collection by collection: what
/// the command palette indexes of a workspace.
pub open spec fn tree_listing_of(cs: Seq<CollectionV>) -> Seq<(Seq<char>, Seq<char>)>
    decreases cs.len(),
{
    if cs.len() == 0 {
        seq![]
    } else {
        tree_listing_of(cs.drop_last()) + col_listing(cs.last())
    }
}

fn push_listing(out: &mut Vec<(String, String)>, label: &String, reqs: &Vec<RequestItem>)
    ensures
        pairs_of(final(out)@) == pairs_of(old(out)@) + reqs_view(reqs@).map_values(|r: RequestV| (label@, r.0)),
{
    let ghost before = pairs_of(out@);
    let ghost rv = reqs_view(reqs@);
    let mut k: usize = 0;
    while k < reqs.len()
        invariant
            rv == reqs_view(reqs@),
            k <= reqs@.len(),
            pairs_of(out@) == before + rv.take(k as int).map_values(|r: RequestV| (label@, r.0)),
        decreases reqs@.len() - k,
    {
        let ghost prev = pairs_of(out@);
        out.push((label.clone(), reqs[k].id.clone()));
        proof {
            assert(rv[k as int] == reqs@[k as int]@);
            assert(rv.take(k + 1) =~= rv.take(k as int).push(rv[k as int]));
            assert(pairs_of(out@) =~= prev.push((label@, rv[k as int].0)));
            assert(rv.take(k + 1).map_values(|r: RequestV| (label@, r.0)) =~= rv.take(k as int).map_values(
                |r: RequestV| (label@, r.0),
            ).push((label@, rv[k as int].0)));
        }
        k = k + 1;
    }
    proof {
        assert(rv.take(k as int) =~= rv);
    }
}

/// Pairs as plain values.
pub open spec fn pairs_of(v: Seq<(String, String)>) -> Seq<(Seq<char>, Seq<char>)> {
    v.map_values(|p: (String, String)| (p.0@, p.1@))
}

/// What the command palette indexes of a workspace: each request's container
/// (see [`container_label`]) and id, in tree order.
pub fn tree_listing(cols: &[Collection]) -> (out: Vec<(String, String)>)
    ensures
        pairs_of(out@) == tree_listing_of(cols_view(cols@)),
{
    let ghost cv = cols_view(cols@);
    let mut out: Vec<(String, String)> = Vec::new();
    let mut i: usize = 0;
    while i < cols.len()
        invariant
            cv == cols_view(cols@),
            i <= cols@.len(),
            pairs_of(out@) == tree_listing_of(cv.take(i as int)),
        decreases cols@.len() - i,
    {
        let c = &cols[i];
        let ghost before = pairs_of(out@);
        proof {
            assert(cv[i as int] == c@);
            assert(cv.take(i + 1).drop_last() =~= cv.take(i as int));
            assert(cv.take(i + 1).last() == c@);
            assert(c@.requests =~= reqs_view(c.requests@));
        }
        push_listing(&mut out, &c.name, &c.requests);
        let mut g: usize = 0;
        while g < c.groups.len()
            invariant
                cv == cols_view(cols@),
                i < cols@.len(),
                cv[i as int] == c@,
                g <= c.groups@.len(),
                pairs_of(out@) == before + c@.requests.map_values(|r: RequestV| (container_label(c@, None), r.0))
                    + groups_listing(c@, g as int),
            decreases c.groups@.len() - g,
        {
            let gr = &c.groups[g];
            proof {
                assert(c@.groups[g as int] == gr@);
                assert(gr@.requests =~= reqs_view(gr.requests@));
            }
            let mut label = c.name.clone();
            label.append("/");
            label.append(gr.name.as_str());
            proof {
                reveal_strlit("/");
                assert(label@ =~= container_label(c@, Some(gr@)));
            }
            push_listing(&mut out, &label, &gr.requests);
            proof {
                assert(groups_listing(c@, g + 1) == groups_listing(c@, g as int) + group_listing(c@, gr@));
            }
            g = g + 1;
        }
        proof {
            assert(tree_listing_of(cv.take(i + 1)) == tree_listing_of(cv.take(i as int)) + col_listing(c@));
        }
        i = i + 1;
    }
    proof {
        assert(cv.take(i as int) =~= cv);
    }
    out
}

} // verus!
