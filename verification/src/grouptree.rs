//! The nesting of groups. Groups are stored flat and name their parent by
//! id; the side tree shows them depth first, each under its parent, and a
//! group that no parent chain reaches from the top (a cycle) still shows, as
//! a top-level group.

use vstd::prelude::*;
use crate::text::text_eq;
use crate::model::{Group, GroupV};
use crate::model::strings_view;
use crate::tree::{groups_view, group_ids, is_listed, listed, lemma_distinct_within, lemma_push_contains, lemma_push_no_dup};

verus! {

/// The last group before position `k` whose id is `id`; a later group with
/// the same id shadows an earlier one.
pub open spec fn last_id_below(gs: Seq<GroupV>, id: Seq<char>, k: int) -> Option<int>
    decreases k,
{
    if k <= 0 {
        None
    } else if gs[k - 1].id == id {
        Some(k - 1)
    } else {
        last_id_below(gs, id, k - 1)
    }
}

/// Position of the parent of group `i`: the last group with the parent id,
/// unless that is `i` itself. A missing parent makes `i` a top-level group.
pub open spec fn parent_index(gs: Seq<GroupV>, i: int) -> Option<int> {
    match gs[i].parent {
        Some(p) => match last_id_below(gs, p, gs.len() as int) {
            Some(j) => if j != i {
                Some(j)
            } else {
                None
            },
            None => None,
        },
        None => None,
    }
}

/// A position as a plain integer.
pub open spec fn opt_int(o: Option<usize>) -> Option<int> {
    match o {
        Some(j) => Some(j as int),
        None => None,
    }
}

/// One level deeper, saturating at the largest depth.
pub open spec fn step_down(d: u8) -> u8 {
    if d == 255 {
        255
    } else {
        (d + 1) as u8
    }
}

/// A row of the group tree: (group position, depth, parent position).
pub type TreeEntry = (usize, u8, Option<usize>);

/// The entry names the real parent of its group (`None` for a real
/// top-level group).
pub open spec fn placed(gs: Seq<GroupV>, e: TreeEntry) -> bool {
    opt_int(e.2) == parent_index(gs, e.0 as int)
}

/// Entry `k` sits under its parent's entry: that entry comes earlier, is
/// itself placed, is one level up, and every entry between them is at least
/// as deep as entry `k` (it is inside the parent's subtree).
pub open spec fn under_parent(gs: Seq<GroupV>, t: Seq<TreeEntry>, k: int) -> bool {
    exists|j: int|
        0 <= j < k && t[j].0 == t[k].2->0 && placed(gs, #[trigger] t[j]) && t[k].1 == step_down(
            t[j].1,
        ) && forall|m: int| j < m < k ==> #[trigger] t[m].1 >= t[k].1
}

/// `t` is the group tree of `gs`:
/// - every group appears exactly once;
/// - an entry with a parent is placed under that parent's entry, depth first;
/// - an entry without a parent is at depth 0; when its group does have a
///   parent, that parent is unplaced too (both sit on a parent cycle or
///   below one);
/// - the unplaced entries come last, in the order of the groups;
/// - children of one parent, and the top-level groups, keep the order of the
///   groups.
pub open spec fn tree_ok(gs: Seq<GroupV>, t: Seq<TreeEntry>) -> bool {
    &&& t.len() == gs.len()
    &&& forall|k: int| 0 <= k < t.len() ==> #[trigger] t[k].0 < gs.len()
    &&& forall|x: int| 0 <= x < gs.len() ==> #[trigger] appears(t, x)
    &&& forall|k1: int, k2: int| 0 <= k1 < k2 < t.len() ==> #[trigger] t[k1].0 != #[trigger] t[k2].0
    &&& forall|k: int|
        0 <= k < t.len() && #[trigger] t[k].2 is Some ==> placed(gs, t[k]) && under_parent(gs, t, k)
    &&& forall|k: int|
        0 <= k < t.len() && #[trigger] t[k].2 is None ==> t[k].1 == 0 && (!placed(gs, t[k])
            ==> exists|j: int|
            0 <= j < t.len() && t[j].0 == parent_index(gs, t[k].0 as int)->0 && !placed(
                gs,
                #[trigger] t[j],
            ))
    &&& forall|k1: int, k2: int|
        0 <= k1 < k2 < t.len() && !placed(gs, #[trigger] t[k1]) ==> !placed(gs, #[trigger] t[k2])
            && t[k1].0 < t[k2].0
    &&& forall|k1: int, k2: int|
        0 <= k1 < k2 < t.len() && placed(gs, #[trigger] t[k1]) && placed(gs, #[trigger] t[k2])
            && t[k1].2 == t[k2].2 ==> t[k1].0 < t[k2].0
}

/// Position of the last group whose id is `id`.
fn last_with_id(groups: &[Group], id: &str) -> (r: Option<usize>)
    ensures
        opt_int(r) == last_id_below(groups_view(groups@), id@, groups@.len() as int),
{
    let ghost gv = groups_view(groups@);
    let mut k: usize = groups.len();
    while k > 0
        invariant
            gv == groups_view(groups@),
            k <= groups@.len(),
            last_id_below(gv, id@, groups@.len() as int) == last_id_below(gv, id@, k as int),
        decreases k,
    {
        proof {
            assert(gv[k - 1] == groups@[k - 1]@);
        }
        if text_eq(groups[k - 1].id.as_str(), id) {
            return Some(k - 1);
        }
        k = k - 1;
    }
    None
}

/// The parent position of each group.
fn parent_positions(groups: &[Group]) -> (r: Vec<Option<usize>>)
    ensures
        r@.len() == groups@.len(),
        forall|i: int|
            0 <= i < groups@.len() ==> opt_int(#[trigger] r@[i]) == parent_index(
                groups_view(groups@),
                i,
            ),
{
    let ghost gv = groups_view(groups@);
    let mut r: Vec<Option<usize>> = Vec::new();
    let mut i: usize = 0;
    while i < groups.len()
        invariant
            gv == groups_view(groups@),
            i <= groups@.len(),
            r@.len() == i,
            forall|k: int| 0 <= k < i ==> opt_int(#[trigger] r@[k]) == parent_index(gv, k),
        decreases groups@.len() - i,
    {
        proof {
            assert(gv[i as int] == groups@[i as int]@);
        }
        let p = match &groups[i].parent {
            Some(pid) => match last_with_id(groups, pid.as_str()) {
                Some(j) => if j != i {
                    Some(j)
                } else {
                    None
                },
                None => None,
            },
            None => None,
        };
        r.push(p);
        i = i + 1;
    }
    r
}

/// The positions from `j` on whose parent is `p`, highest first.
pub open spec fn kids_from(pidx: Seq<Option<usize>>, p: usize, j: int) -> Seq<usize>
    decreases pidx.len() - j,
{
    if j >= pidx.len() {
        seq![]
    } else if pidx[j] == Some(p) {
        kids_from(pidx, p, j + 1).push(j as usize)
    } else {
        kids_from(pidx, p, j + 1)
    }
}

proof fn lemma_kids_from(pidx: Seq<Option<usize>>, p: usize, j: int)
    requires
        0 <= j <= pidx.len(),
        pidx.len() <= usize::MAX,
    ensures
        forall|a: int|
            0 <= a < kids_from(pidx, p, j).len() ==> j <= #[trigger] kids_from(pidx, p, j)[a]
                < pidx.len() && pidx[kids_from(pidx, p, j)[a] as int] == Some(p),
        forall|a: int, b: int|
            0 <= a < b < kids_from(pidx, p, j).len() ==> #[trigger] kids_from(pidx, p, j)[a]
                > #[trigger] kids_from(pidx, p, j)[b],
        forall|c: int|
            j <= c < pidx.len() && #[trigger] pidx[c] == Some(p) ==> exists|a: int|
                0 <= a < kids_from(pidx, p, j).len() && kids_from(pidx, p, j)[a] == c,
    decreases pidx.len() - j,
{
    if j < pidx.len() {
        lemma_kids_from(pidx, p, j + 1);
        let rest = kids_from(pidx, p, j + 1);
        if pidx[j] == Some(p) {
            let all = rest.push(j as usize);
            assert(kids_from(pidx, p, j) == all);
            assert(all[rest.len() as int] == j);
            assert forall|c: int| j <= c < pidx.len() && #[trigger] pidx[c] == Some(p) implies exists|a: int|
                0 <= a < all.len() && all[a] == c by {
                if c == j {
                    assert(all[rest.len() as int] == c);
                } else {
                    let a = choose|a: int| 0 <= a < rest.len() && rest[a] == c;
                    assert(all[a] == c);
                }
            }
        } else {
            assert(kids_from(pidx, p, j) == rest);
            assert forall|c: int| j <= c < pidx.len() && #[trigger] pidx[c] == Some(p) implies exists|a: int|
                0 <= a < rest.len() && rest[a] == c by {
                assert(c != j);
            }
        }
    }
}

/// Push `(c, d)` for each child position `c` of `p`, highest first, so that
/// the lowest comes off the stack first.
fn push_children(pidx: &Vec<Option<usize>>, p: usize, d: u8, stack: &mut Vec<(usize, u8)>)
    ensures
        final(stack)@ == old(stack)@ + kids_from(pidx@, p, 0).map_values(|c: usize| (c, d)),
{
    let mut j: usize = pidx.len();
    while j > 0
        invariant
            j <= pidx@.len(),
            stack@ == old(stack)@ + kids_from(pidx@, p, j as int).map_values(|c: usize| (c, d)),
        decreases j,
    {
        let ghost before = stack@;
        j = j - 1;
        match pidx[j] {
            Some(q) => {
                if q == p {
                    stack.push((j, d));
                    proof {
                        assert(kids_from(pidx@, p, j as int) == kids_from(pidx@, p, j + 1).push(j));
                        assert(stack@ =~= old(stack)@ + kids_from(pidx@, p, j as int).map_values(
                            |c: usize| (c, d),
                        ));
                    }
                } else {
                    proof {
                        assert(kids_from(pidx@, p, j as int) == kids_from(pidx@, p, j + 1));
                    }
                }
            },
            None => {
                proof {
                    assert(kids_from(pidx@, p, j as int) == kids_from(pidx@, p, j + 1));
                }
            },
        }
    }
}

/// How many entries of `s` are `false`.
pub open spec fn count_false(s: Seq<bool>) -> nat
    decreases s.len(),
{
    if s.len() == 0 {
        0
    } else {
        count_false(s.drop_last()) + if s.last() {
            0nat
        } else {
            1nat
        }
    }
}

proof fn lemma_count_false_set(s: Seq<bool>, i: int)
    requires
        0 <= i < s.len(),
        !s[i],
    ensures
        count_false(s.update(i, true)) + 1 == count_false(s),
    decreases s.len(),
{
    if i < s.len() - 1 {
        assert(s.update(i, true).drop_last() =~= s.drop_last().update(i, true));
        lemma_count_false_set(s.drop_last(), i);
    } else {
        assert(s.update(i, true).drop_last() =~= s.drop_last());
    }
}

/// Every position names an existing parent.
pub open spec fn parents_in_range(pidx: Seq<Option<usize>>) -> bool {
    forall|i: int| 0 <= i < pidx.len() ==> (#[trigger] pidx[i] matches Some(p) ==> p < pidx.len())
}

/// What a depth-first walk from the top-level positions yields: the entries
/// `out` and the positions `seen` that it reached.
pub open spec fn walk_ok(pidx: Seq<Option<usize>>, out: Seq<TreeEntry>, seen: Seq<bool>) -> bool {
    let n = pidx.len();
    &&& seen.len() == n
    &&& forall|k: int|
        0 <= k < out.len() ==> #[trigger] out[k].0 < n && seen[out[k].0 as int] && out[k].2
            == pidx[out[k].0 as int]
    &&& forall|k1: int, k2: int| 0 <= k1 < k2 < out.len() ==> #[trigger] out[k1].0 != #[trigger] out[k2].0
    &&& forall|i: int| 0 <= i < n && #[trigger] seen[i] ==> exists|k: int| 0 <= k < out.len() && out[k].0 == i
    &&& forall|k: int| 0 <= k < out.len() && #[trigger] out[k].2 is None ==> out[k].1 == 0
    &&& forall|k: int|
        0 <= k < out.len() && #[trigger] out[k].2 is Some ==> exists|j: int|
            0 <= j < k && out[j].0 == out[k].2->0 && out[k].1 == step_down(out[j].1) && forall|m: int|
                j < m < k ==> #[trigger] out[m].1 >= out[k].1
    &&& forall|k1: int, k2: int|
        0 <= k1 < k2 < out.len() && #[trigger] out[k1].2 == #[trigger] out[k2].2 ==> out[k1].0 < out[k2].0
    &&& forall|i: int| 0 <= i < n && #[trigger] pidx[i] is None ==> seen[i]
    &&& forall|c: int| 0 <= c < n && #[trigger] pidx[c] is Some && seen[pidx[c]->0 as int] ==> seen[c]
}

/// The depth-first walk from the top-level positions, children in order.
fn walk(pidx: &Vec<Option<usize>>) -> (r: (Vec<TreeEntry>, Vec<bool>))
    requires
        parents_in_range(pidx@),
    ensures
        walk_ok(pidx@, r.0@, r.1@),
{
    let n = pidx.len();
    let mut seen: Vec<bool> = Vec::new();
    let mut i0: usize = 0;
    while i0 < n
        invariant
            n == pidx@.len(),
            seen@.len() == i0,
            i0 <= n,
            forall|k: int| 0 <= k < i0 ==> !(#[trigger] seen@[k]),
        decreases n - i0,
    {
        seen.push(false);
        i0 = i0 + 1;
    }
    let mut stack: Vec<(usize, u8)> = Vec::new();
    let mut k0: usize = n;
    while k0 > 0
        invariant
            n == pidx@.len(),
            k0 <= n,
            forall|s: int|
                0 <= s < stack@.len() ==> (#[trigger] stack@[s]).1 == 0 && k0 <= stack@[s].0 < n
                    && pidx@[stack@[s].0 as int] is None,
            forall|s1: int, s2: int|
                0 <= s1 < s2 < stack@.len() ==> (#[trigger] stack@[s1]).0 > (#[trigger] stack@[s2]).0,
            forall|i: int|
                k0 <= i < n && #[trigger] pidx@[i] is None ==> exists|s: int|
                    0 <= s < stack@.len() && stack@[s].0 == i,
        decreases k0,
    {
        k0 = k0 - 1;
        if pidx[k0].is_none() {
            let ghost st = stack@;
            stack.push((k0, 0));
            proof {
                assert(stack@[st.len() as int].0 == k0);
                assert forall|s: int| 0 <= s < st.len() implies stack@[s] == st[s] by {}
                assert forall|s1: int, s2: int|
                    0 <= s1 < s2 < stack@.len() implies (#[trigger] stack@[s1]).0 > (#[trigger] stack@[s2]).0 by {
                    if s2 < st.len() {
                        assert(stack@[s1] == st[s1] && stack@[s2] == st[s2]);
                    } else {
                        assert(stack@[s1] == st[s1]);
                    }
                }
                assert forall|i: int|
                    k0 <= i < n && #[trigger] pidx@[i] is None implies exists|s: int|
                    0 <= s < stack@.len() && stack@[s].0 == i by {
                    if i == k0 {
                        assert(stack@[st.len() as int].0 == i);
                    } else {
                        let s = choose|s: int| 0 <= s < st.len() && st[s].0 == i;
                        assert(stack@[s].0 == i);
                    }
                }
            }
        }
    }
    let mut out: Vec<TreeEntry> = Vec::new();
    let ghost mut from: Seq<int> = Seq::new(stack@.len(), |s: int| -1int);
    let ghost mut opos: Seq<int> = Seq::empty();
    let ghost mut pos: Seq<int> = Seq::new(n as nat, |i: int| 0int);
    proof {
        assert forall|s: int| 0 <= s < stack@.len() implies #[trigger] from[s] == -1 by {}
    }
    while stack.len() > 0
        invariant
            n == pidx@.len(),
            parents_in_range(pidx@),
            seen@.len() == n,
            from.len() == stack@.len(),
            opos.len() == out@.len(),
            pos.len() == n,
            // what was emitted
            forall|k: int|
                0 <= k < out@.len() ==> #[trigger] out@[k].0 < n && seen@[out@[k].0 as int]
                    && out@[k].2 == pidx@[out@[k].0 as int],
            forall|k1: int, k2: int|
                0 <= k1 < k2 < out@.len() ==> #[trigger] out@[k1].0 != #[trigger] out@[k2].0,
            forall|i: int|
                0 <= i < n && #[trigger] seen@[i] ==> 0 <= pos[i] < out@.len() && out@[pos[i]].0
                    == i,
            forall|k: int|
                0 <= k < out@.len() ==> (#[trigger] opos[k] == -1 <==> out@[k].2 is None) && (
                opos[k] == -1 ==> out@[k].1 == 0) && (opos[k] != -1 ==> 0 <= opos[k] < k
                    && out@[opos[k]].0 == out@[k].2->0 && out@[k].1 == step_down(
                    out@[opos[k]].1,
                ) && forall|m: int| opos[k] < m < k ==> #[trigger] out@[m].1 >= out@[k].1),
            forall|t1: int, t2: int|
                0 <= t1 < t2 < out@.len() && #[trigger] opos[t1] == #[trigger] opos[t2]
                    ==> out@[t1].0 < out@[t2].0,
            // what waits on the stack
            forall|s: int|
                0 <= s < stack@.len() ==> #[trigger] stack@[s].0 < n && (from[s] == -1 ==> stack@[s].1
                    == 0 && pidx@[stack@[s].0 as int] is None) && (from[s] != -1 ==> 0 <= from[s]
                    < out@.len() && pidx@[stack@[s].0 as int] == Some(out@[from[s]].0)
                    && stack@[s].1 == step_down(out@[from[s]].1) && forall|m: int|
                    from[s] < m < out@.len() ==> #[trigger] out@[m].1 >= stack@[s].1),
            forall|s1: int, s2: int|
                0 <= s1 < s2 < stack@.len() ==> #[trigger] stack@[s1].1 <= #[trigger] stack@[s2].1,
            forall|s1: int, s2: int|
                0 <= s1 < s2 < stack@.len() && #[trigger] from[s1] == #[trigger] from[s2]
                    ==> stack@[s1].0 > stack@[s2].0,
            forall|t: int, s: int|
                0 <= t < out@.len() && 0 <= s < stack@.len() && #[trigger] opos[t] == #[trigger] from[s]
                    ==> out@[t].0 < stack@[s].0,
            // nothing reachable is lost
            forall|i: int|
                0 <= i < n && #[trigger] pidx@[i] is None ==> seen@[i] || exists|s: int|
                    0 <= s < stack@.len() && stack@[s].0 == i,
            forall|c: int|
                0 <= c < n && #[trigger] pidx@[c] is Some && seen@[pidx@[c]->0 as int] ==> seen@[c]
                    || exists|s: int| 0 <= s < stack@.len() && stack@[s].0 == c,
        decreases count_false(seen@), stack@.len(),
    {
        let ghost st0 = stack@;
        let ghost fr0 = from;
        let top = stack.pop().unwrap();
        let i = top.0;
        let d = top.1;
        let ghost f = fr0.last();
        proof {
            from = fr0.drop_last();
            assert(stack@ =~= st0.drop_last());
            assert(top == st0.last());
        }
        if seen[i] {
            proof {
                assert forall|x: int|
                    0 <= x < n && #[trigger] pidx@[x] is None implies seen@[x] || exists|s: int|
                    0 <= s < stack@.len() && stack@[s].0 == x by {
                    if !seen@[x] {
                        let s = choose|s: int| 0 <= s < st0.len() && st0[s].0 == x;
                        assert(s != st0.len() - 1);
                        assert(stack@[s].0 == x);
                    }
                }
                assert forall|c: int|
                    0 <= c < n && #[trigger] pidx@[c] is Some && seen@[pidx@[c]->0 as int] implies seen@[c]
                    || exists|s: int| 0 <= s < stack@.len() && stack@[s].0 == c by {
                    if !seen@[c] {
                        let s = choose|s: int| 0 <= s < st0.len() && st0[s].0 == c;
                        assert(s != st0.len() - 1);
                        assert(stack@[s].0 == c);
                    }
                }
            }
            continue;
        }
        let ghost out0 = out@;
        let ghost seen0 = seen@;
        let ghost opos0 = opos;
        let m = out.len();
        let par = pidx[i];
        proof {
            lemma_count_false_set(seen@, i as int);
        }
        seen.set(i, true);
        out.push((i, d, par));
        proof {
            opos = opos0.push(f);
            pos = pos.update(i as int, m as int);
        }
        let sd = d.saturating_add(1);
        let ghost st1 = stack@;
        let ghost fr1 = from;
        push_children(pidx, i, sd, &mut stack);
        proof {
            let kids = kids_from(pidx@, i, 0);
            lemma_kids_from(pidx@, i, 0);
            from = fr1 + Seq::new(kids.len(), |a: int| m as int);
            assert(sd == step_down(d));
            assert(stack@ == st1 + kids.map_values(|c: usize| (c, sd)));
            assert forall|s: int| 0 <= s < st1.len() implies stack@[s] == st1[s] && from[s] == fr1[s] by {}
            assert forall|a: int| 0 <= a < kids.len() implies stack@[st1.len() + a] == (kids[a], sd)
                && from[st1.len() + a] == m by {}
            assert forall|x: int|
                0 <= x < n && #[trigger] pidx@[x] is None implies seen@[x] || exists|s: int|
                0 <= s < stack@.len() && stack@[s].0 == x by {
                if !seen@[x] {
                    let s = choose|s: int| 0 <= s < st0.len() && st0[s].0 == x;
                    assert(s != st0.len() - 1);
                    assert(stack@[s].0 == x);
                }
            }
            assert forall|c: int|
                0 <= c < n && #[trigger] pidx@[c] is Some && seen@[pidx@[c]->0 as int] implies seen@[c]
                || exists|s: int| 0 <= s < stack@.len() && stack@[s].0 == c by {
                if !seen@[c] {
                    if pidx@[c]->0 == i {
                        let a = choose|a: int| 0 <= a < kids.len() && kids[a] == c;
                        assert(stack@[st1.len() + a].0 == c);
                    } else {
                        assert(seen0[pidx@[c]->0 as int]);
                        let s = choose|s: int| 0 <= s < st0.len() && st0[s].0 == c;
                        assert(s != st0.len() - 1);
                        assert(stack@[s].0 == c);
                    }
                }
            }

        }
    }
    proof {
        assert forall|i: int| 0 <= i < n && #[trigger] seen@[i] implies exists|k: int|
            0 <= k < out@.len() && out@[k].0 == i by {
            assert(out@[pos[i]].0 == i);
        }
        assert forall|k: int| 0 <= k < out@.len() && #[trigger] out@[k].2 is Some implies exists|j: int|
            0 <= j < k && out@[j].0 == out@[k].2->0 && out@[k].1 == step_down(out@[j].1)
                && forall|m: int| j < m < k ==> #[trigger] out@[m].1 >= out@[k].1 by {
            assert(opos[k] != -1);
        }
        assert forall|k1: int, k2: int|
            0 <= k1 < k2 < out@.len() && #[trigger] out@[k1].2 == #[trigger] out@[k2].2 implies out@[k1].0
                < out@[k2].0 by {
            if out@[k1].2 is None {
                assert(opos[k1] == -1 && opos[k2] == -1);
            } else {
                assert(opos[k1] != -1 && opos[k2] != -1);
                let j1 = opos[k1];
                let j2 = opos[k2];
                assert(out@[j1].0 == out@[j2].0);
                if j1 < j2 {
                    assert(out@[j1].0 != out@[j2].0);
                } else if j2 < j1 {
                    assert(out@[j2].0 != out@[j1].0);
                }
            }
        }
        assert(seen@.len() == n);
        assert(forall|k: int|
        0 <= k < out@.len() ==> #[trigger] out@[k].0 < n && seen@[out@[k].0 as int] && out@[k].2
            == pidx@[out@[k].0 as int]);
        assert forall|k: int| 0 <= k < out@.len() && #[trigger] out@[k].2 is None implies out@[k].1 == 0 by {
            assert(opos[k] == -1);
        }
        assert(forall|i: int| 0 <= i < n && #[trigger] pidx@[i] is None ==> seen@[i]);
        assert(forall|c: int| 0 <= c < n && #[trigger] pidx@[c] is Some && seen@[pidx@[c]->0 as int] ==> seen@[c]);
    }
    (out, seen)
}

/// Some entry of `t` is for group `x`.
pub open spec fn appears(t: Seq<TreeEntry>, x: int) -> bool {
    exists|k: int| 0 <= k < t.len() && t[k].0 == x
}

proof fn lemma_last_id_below(gs: Seq<GroupV>, id: Seq<char>, k: int)
    ensures
        last_id_below(gs, id, k) matches Some(j) ==> 0 <= j < k && gs[j].id == id,
    decreases k,
{
    if k > 0 && gs[k - 1].id != id {
        lemma_last_id_below(gs, id, k - 1);
    }
}

/// The groups as a tree, depth first: `(group position, depth, parent
/// position)` for each group. A group whose parent is missing is a top-level
/// group; groups on a parent cycle, which no walk from the top reaches, come
/// last as top-level groups, so that every group shows.
pub fn group_tree(groups: &[Group]) -> (out: Vec<TreeEntry>)
    ensures
        tree_ok(groups_view(groups@), out@),
{
    let ghost gv = groups_view(groups@);
    let n = groups.len();
    let pidx = parent_positions(groups);
    proof {
        assert forall|i: int| 0 <= i < pidx@.len() implies (#[trigger] pidx@[i] matches Some(p) ==> p
            < pidx@.len()) by {
            if pidx@[i] is Some {
                lemma_last_id_below(gv, gv[i].parent->0, n as int);
            }
        }
    }
    let (mut out, seen) = walk(&pidx);
    let ghost walked = out@;
    let mut i: usize = 0;
    while i < n
        invariant
            n == groups@.len(),
            n == pidx@.len(),
            gv == groups_view(groups@),
            walk_ok(pidx@, walked, seen@),
            i <= n,
            walked.len() <= out@.len(),
            forall|k: int| 0 <= k < walked.len() ==> #[trigger] out@[k] == walked[k],
            forall|k: int|
                walked.len() <= k < out@.len() ==> (#[trigger] out@[k]).2 is None && out@[k].1 == 0
                    && out@[k].0 < i && !seen@[out@[k].0 as int],
            forall|k1: int, k2: int|
                walked.len() <= k1 < k2 < out@.len() ==> (#[trigger] out@[k1]).0 < (#[trigger] out@[k2]).0,
            forall|x: int|
                0 <= x < i && !(#[trigger] seen@[x]) ==> exists|k: int|
                    walked.len() <= k < out@.len() && out@[k].0 == x,
        decreases n - i,
    {
        if !seen[i] {
            let ghost before = out@;
            out.push((i, 0, None));
            proof {
                assert(out@[before.len() as int].0 == i);
                assert forall|k: int| 0 <= k < before.len() implies out@[k] == before[k] by {}
                assert forall|x: int|
                    0 <= x <= i && !(#[trigger] seen@[x]) implies exists|k: int|
                    walked.len() <= k < out@.len() && out@[k].0 == x by {
                    if x == i {
                        assert(out@[before.len() as int].0 == x);
                    } else {
                        let k = choose|k: int| walked.len() <= k < before.len() && before[k].0 == x;
                        assert(out@[k].0 == x);
                    }
                }
            }
        }
        i = i + 1;
    }
    proof {
        let t = out@;
        let w = walked.len();
        // entries of the walk are placed; those after it are not
        assert forall|k: int| 0 <= k < w implies placed(gv, #[trigger] t[k]) by {
            assert(t[k] == walked[k]);
            assert(walked[k].0 < n);
        }
        assert forall|k: int| w <= k < t.len() implies !placed(gv, #[trigger] t[k]) by {
            let x = t[k].0 as int;
            if pidx@[x] is None {
                assert(seen@[x]);
            }
        }
        // every group appears, exactly once
        assert forall|x: int| 0 <= x < n implies #[trigger] appears(t, x) by {
            if seen@[x] {
                let k = choose|k: int| 0 <= k < walked.len() && walked[k].0 == x;
                assert(t[k] == walked[k]);
            } else {
                let k = choose|k: int| w <= k < t.len() && t[k].0 == x;
            }
        }
        assert forall|k1: int, k2: int| 0 <= k1 < k2 < t.len() implies #[trigger] t[k1].0 != #[trigger] t[k2].0 by {
            if k2 < w {
                assert(t[k1] == walked[k1] && t[k2] == walked[k2]);
            } else if k1 < w {
                assert(t[k1] == walked[k1]);
                assert(seen@[walked[k1].0 as int]);
            }
        }
        let idx = t.map_values(|e: TreeEntry| e.0 as int);
        assert(idx.no_duplicates()) by {
            assert forall|a: int, b: int| 0 <= a < idx.len() && 0 <= b < idx.len() && a != b implies idx[a] != idx[b] by {
                if a < b {
                    assert(t[a].0 != t[b].0);
                } else {
                    assert(t[b].0 != t[a].0);
                }
            }
        }
        assert(idx.to_set() =~= vstd::set_lib::set_int_range(0, n as int)) by {
            assert forall|x: int| idx.to_set().contains(x) implies 0 <= x < n by {
                let k = choose|k: int| 0 <= k < idx.len() && idx[k] == x;
                assert(t[k].0 < n);
            }
            assert forall|x: int| 0 <= x < n implies idx.to_set().contains(x) by {
                assert(appears(t, x));
                let k = choose|k: int| 0 <= k < t.len() && t[k].0 == x;
                assert(idx[k] == x);
            }
        }
        idx.unique_seq_to_set();
        vstd::set_lib::lemma_int_range(0, n as int);
        // entries with a parent come from the walk
        assert forall|k: int| 0 <= k < t.len() && #[trigger] t[k].2 is Some implies placed(gv, t[k])
            && under_parent(gv, t, k) by {
            assert(k < w);
            assert(t[k] == walked[k]);
            let j = choose|j: int|
                0 <= j < k && walked[j].0 == walked[k].2->0 && walked[k].1 == step_down(walked[j].1)
                    && forall|m: int| j < m < k ==> #[trigger] walked[m].1 >= walked[k].1;
            assert(t[j] == walked[j]);
            assert forall|m: int| j < m < k implies #[trigger] t[m].1 >= t[k].1 by {
                assert(t[m] == walked[m]);
            }
            assert(placed(gv, t[j]));
        }
        assert forall|k: int| 0 <= k < t.len() && #[trigger] t[k].2 is None implies t[k].1 == 0 && (!placed(gv, t[k])
            ==> exists|j: int| 0 <= j < t.len() && t[j].0 == parent_index(gv, t[k].0 as int)->0
                && !placed(gv, #[trigger] t[j])) by {
            if k < w {
                assert(t[k] == walked[k]);
            } else {
                let x = t[k].0 as int;
                assert(pidx@[x] is Some) by {
                    if pidx@[x] is None {
                        assert(seen@[x]);
                    }
                }
                let p = pidx@[x]->0 as int;
                assert(!seen@[p]);
                let j = choose|j: int| w <= j < t.len() && t[j].0 == p;
                assert(!placed(gv, t[j]));
            }
        }
        assert forall|k1: int, k2: int|
            0 <= k1 < k2 < t.len() && placed(gv, #[trigger] t[k1]) && placed(gv, #[trigger] t[k2])
                && t[k1].2 == t[k2].2 implies t[k1].0 < t[k2].0 by {
            assert(k2 < w);
            assert(t[k1] == walked[k1] && t[k2] == walked[k2]);
        }
    }
    out
}

/// Some group with id `id` has parent `p`.
pub open spec fn child_of(gs: Seq<GroupV>, id: Seq<char>, p: Seq<char>) -> bool {
    exists|g: int| 0 <= g < gs.len() && gs[g].id == id && gs[g].parent == Some(p)
}

/// `ids` is a group id followed by all the groups below it: it starts with
/// `id`, holds no id twice, holds each group whose parent it holds, and each
/// later id is that of a child of an id before it.
pub open spec fn subtree_ok(gs: Seq<GroupV>, id: Seq<char>, ids: Seq<Seq<char>>) -> bool {
    &&& ids.len() >= 1
    &&& ids[0] == id
    &&& ids.no_duplicates()
    &&& forall|g: int|
        0 <= g < gs.len() && (#[trigger] gs[g]).parent is Some && ids.contains(gs[g].parent->0)
            ==> ids.contains(gs[g].id)
    &&& forall|k: int|
        1 <= k < ids.len() ==> exists|j: int| 0 <= j < k && child_of(gs, #[trigger] ids[k], ids[j])
}

/// `ids` with the ids of the first `t` groups whose parent is `cur` appended,
/// in group order, each unless `ids` already holds it.
pub open spec fn with_children(gs: Seq<GroupV>, ids: Seq<Seq<char>>, cur: Seq<char>, t: int) -> Seq<Seq<char>>
    decreases t,
{
    if t <= 0 {
        ids
    } else {
        let prev = with_children(gs, ids, cur, t - 1);
        if gs[t - 1].parent == Some(cur) && !prev.contains(gs[t - 1].id) {
            prev.push(gs[t - 1].id)
        } else {
            prev
        }
    }
}

/// The level-by-level walk: from position `i` of `ids` on, each id in turn
/// appends its children (see [`with_children`]), for at most `steps` ids.
pub open spec fn subtree_walk(gs: Seq<GroupV>, ids: Seq<Seq<char>>, i: int, steps: nat) -> Seq<Seq<char>>
    decreases steps,
{
    if steps == 0 || i < 0 || i >= ids.len() {
        ids
    } else {
        subtree_walk(gs, with_children(gs, ids, ids[i], gs.len() as int), i + 1, (steps - 1) as nat)
    }
}

/// A group id and its descendants in walk order: the group, then its
/// children in group order, then theirs, and so on.
pub open spec fn subtree_order(gs: Seq<GroupV>, id: Seq<char>) -> Seq<Seq<char>> {
    subtree_walk(gs, seq![id], 0, (gs.len() + 1) as nat)
}

/// A group id followed by the ids of all its descendant groups, level by
/// level; a parent cycle does not make it loop.
pub fn group_subtree_ids(groups: &[Group], group_id: &str) -> (ids: Vec<String>)
    ensures
        subtree_ok(groups_view(groups@), group_id@, strings_view(ids@)),
        strings_view(ids@) == subtree_order(groups_view(groups@), group_id@),
{
    let ghost gv = groups_view(groups@);
    let ghost pool = group_ids(gv);
    let mut ids: Vec<String> = Vec::new();
    ids.push(group_id.to_string());
    proof {
        assert(strings_view(ids@) =~= seq![group_id@]);
    }
    let mut i: usize = 0;
    while i < ids.len()
        invariant
            gv == groups_view(groups@),
            pool == group_ids(gv),
            1 <= ids@.len() <= gv.len() + 1,
            i <= ids@.len(),
            strings_view(ids@)[0] == group_id@,
            strings_view(ids@).no_duplicates(),
            forall|k: int|
                1 <= k < ids@.len() ==> exists|j: int|
                    0 <= j < k && child_of(gv, #[trigger] strings_view(ids@)[k], strings_view(ids@)[j]),
            forall|g: int, j: int|
                0 <= g < gv.len() && 0 <= j < i && (#[trigger] gv[g]).parent == Some(
                    #[trigger] strings_view(ids@)[j],
                ) ==> strings_view(ids@).contains(gv[g].id),
            subtree_order(gv, group_id@) == subtree_walk(gv, strings_view(ids@), i as int, (gv.len() + 1 - i) as nat),
        decreases gv.len() + 1 - i,
    {
        let cur = ids[i].clone();
        let ghost start = strings_view(ids@);
        let mut t: usize = 0;
        while t < groups.len()
            invariant
                gv == groups_view(groups@),
                pool == group_ids(gv),
                i < ids@.len(),
                cur@ == strings_view(ids@)[i as int],
                t <= groups@.len(),
                strings_view(ids@)[0] == group_id@,
                strings_view(ids@).no_duplicates(),
                forall|k: int|
                    1 <= k < ids@.len() ==> exists|j: int|
                        0 <= j < k && child_of(gv, #[trigger] strings_view(ids@)[k], strings_view(ids@)[j]),
                forall|g: int, j: int|
                    0 <= g < gv.len() && 0 <= j < i && (#[trigger] gv[g]).parent == Some(
                        #[trigger] strings_view(ids@)[j],
                    ) ==> strings_view(ids@).contains(gv[g].id),
                forall|g: int|
                    0 <= g < t && (#[trigger] gv[g]).parent == Some(cur@) ==> strings_view(ids@).contains(
                        gv[g].id,
                    ),
                strings_view(ids@) == with_children(gv, start, cur@, t as int),
            decreases groups@.len() - t,
        {
            let g = &groups[t];
            proof {
                assert(gv[t as int] == g@);
            }
            let is_child = match &g.parent {
                Some(p) => text_eq(p.as_str(), cur.as_str()),
                None => false,
            };
            if is_child && !is_listed(ids.as_slice(), g.id.as_str()) {
                let ghost before = strings_view(ids@);
                proof {
                    assert(!before.contains(g.id@)) by {
                        if before.contains(g.id@) {
                            let k = choose|k: int| 0 <= k < before.len() && before[k] == g.id@;
                            assert(ids@[k]@ == g.id@);
                        }
                    }
                }
                ids.push(g.id.clone());
                proof {
                    let after = strings_view(ids@);
                    assert(after =~= before.push(g.id@));
                    lemma_push_no_dup(before, g.id@);
                    assert forall|x: Seq<char>| before.contains(x) implies after.contains(x) by {
                        lemma_push_contains(before, g.id@, x);
                    }
                    assert(after.contains(g.id@)) by {
                        lemma_push_contains(before, g.id@, g.id@);
                    }
                    assert(child_of(gv, after[before.len() as int], after[i as int]));
                    assert forall|k: int|
                        1 <= k < after.len() implies exists|j: int|
                            0 <= j < k && child_of(gv, #[trigger] after[k], after[j]) by {
                        if k < before.len() {
                            let j = choose|j: int| 0 <= j < k && child_of(gv, before[k], before[j]);
                            assert(after[j] == before[j]);
                        } else {
                            assert(after[i as int] == before[i as int]);
                        }
                    }
                    assert forall|gg: int, j: int|
                        0 <= gg < gv.len() && 0 <= j < i && (#[trigger] gv[gg]).parent == Some(
                            #[trigger] after[j],
                        ) implies after.contains(gv[gg].id) by {
                        assert(after[j] == before[j]);
                    }
                }
            } else {
                proof {
                    if is_child {
                        let k = choose|k: int| 0 <= k < ids@.len() && ids@[k]@ == g.id@;
                        assert(strings_view(ids@)[k] == g.id@);
                    }
                }
            }
            t = t + 1;
        }
        proof {
            let v = strings_view(ids@);
            let rest = v.drop_first();
            assert forall|k: int| 0 <= k < rest.len() implies pool.contains(#[trigger] rest[k]) by {
                let kk = k + 1;
                let j = choose|j: int| 0 <= j < kk && child_of(gv, v[kk], #[trigger] v[j]);
                let g = choose|g: int| 0 <= g < gv.len() && (#[trigger] gv[g]).id == v[kk] && gv[g].parent == Some(v[j]);
                assert(pool[g] == rest[k]);
            }
            assert(rest.no_duplicates()) by {
                assert forall|a: int, b: int| 0 <= a < rest.len() && 0 <= b < rest.len() && a != b implies rest[a] != rest[b] by {
                    assert(rest[a] == v[a + 1] && rest[b] == v[b + 1]);
                }
            }
            lemma_distinct_within(rest, pool);
        }
        i = i + 1;
    }
    proof {
        let v = strings_view(ids@);
        assert forall|g: int|
            0 <= g < gv.len() && (#[trigger] gv[g]).parent is Some && v.contains(gv[g].parent->0)
                implies v.contains(gv[g].id) by {
            let p = gv[g].parent->0;
            let j = choose|j: int| 0 <= j < v.len() && v[j] == p;
            assert(gv[g].parent == Some(v[j]));
        }
    }
    ids
}

/// In a group tree, every parent position names a group.
pub proof fn lemma_tree_parents_in_range(gs: Seq<GroupV>, t: Seq<TreeEntry>)
    requires
        tree_ok(gs, t),
    ensures
        forall|k: int| 0 <= k < t.len() && (#[trigger] t[k]).2 is Some ==> t[k].2->0 < gs.len(),
{
    assert forall|k: int| 0 <= k < t.len() && (#[trigger] t[k]).2 is Some implies t[k].2->0 < gs.len() by {
        assert(placed(gs, t[k]));
        let i = t[k].0 as int;
        lemma_last_id_below(gs, gs[i].parent->0, gs.len() as int);
    }
}

proof fn lemma_subtree_member(gs: Seq<GroupV>, root: Seq<char>, ids1: Seq<Seq<char>>, ids2: Seq<Seq<char>>, k: int)
    requires
        subtree_ok(gs, root, ids1),
        subtree_ok(gs, root, ids2),
        0 <= k < ids1.len(),
    ensures
        ids2.contains(ids1[k]),
    decreases k,
{
    if k == 0 {
        assert(ids2[0] == root);
    } else {
        let j = choose|j: int| 0 <= j < k && child_of(gs, ids1[k], #[trigger] ids1[j]);
        lemma_subtree_member(gs, root, ids1, ids2, j);
        let g = choose|g: int| 0 <= g < gs.len() && gs[g].id == ids1[k] && gs[g].parent == Some(ids1[j]);
        assert(gs[g].parent is Some && ids2.contains(gs[g].parent->0));
    }
}

/// Any two lists that [`subtree_ok`] accepts for the same group hold the
/// same ids: the subtree of a group is one set.
pub proof fn lemma_subtree_members(gs: Seq<GroupV>, root: Seq<char>, ids1: Seq<Seq<char>>, ids2: Seq<Seq<char>>)
    requires
        subtree_ok(gs, root, ids1),
        subtree_ok(gs, root, ids2),
    ensures
        forall|x: Seq<char>| ids1.contains(x) ==> ids2.contains(x),
{
    assert forall|x: Seq<char>| ids1.contains(x) implies ids2.contains(x) by {
        let k = choose|k: int| 0 <= k < ids1.len() && ids1[k] == x;
        lemma_subtree_member(gs, root, ids1, ids2, k);
    }
}

} // verus!
