//! The environment editor: its rows of (name, value), the edits on them,
//! and the variables that saving stores.

use vstd::prelude::*;
use crate::text::text_eq;

verus! {

/// The rows being edited for one environment (`"base"` is the base
/// environment, any other target an environment id).
#[derive(Debug, Clone, PartialEq, Eq)]
pub struct EnvRows {
    pub target: String,
    pub vars: Vec<(String, String)>,
}

/// Rows as plain values.
pub open spec fn pairs_view(v: Seq<(String, String)>) -> Seq<(Seq<char>, Seq<char>)> {
    v.map_values(|p: (String, String)| (p.0@, p.1@))
}

/// Sets the name of row `index`, when the editor is open for `target`;
/// anything else changes nothing (an input box of an editor that has been
/// closed or switched).
pub fn set_key_at(ed: &mut EnvRows, target: &str, index: usize, key: String)
    ensures
        final(ed).target@ == old(ed).target@,
        pairs_view(final(ed).vars@) == if old(ed).target@ == target@ && index < old(ed).vars@.len() {
            pairs_view(old(ed).vars@).update(index as int, (key@, pairs_view(old(ed).vars@)[index as int].1))
        } else {
            pairs_view(old(ed).vars@)
        },
{
    if !text_eq(ed.target.as_str(), target) || index >= ed.vars.len() {
        return;
    }
    let ghost before = pairs_view(ed.vars@);
    let ghost k = key@;
    proof {
        assert(before[index as int] == (ed.vars@[index as int].0@, ed.vars@[index as int].1@));
    }
    ed.vars[index].0 = key;
    proof {
        assert(pairs_view(ed.vars@) =~= before.update(index as int, (k, before[index as int].1)));
    }
}

/// Sets the value of row `index`, when the editor is open for `target`.
pub fn set_value_at(ed: &mut EnvRows, target: &str, index: usize, value: String)
    ensures
        final(ed).target@ == old(ed).target@,
        pairs_view(final(ed).vars@) == if old(ed).target@ == target@ && index < old(ed).vars@.len() {
            pairs_view(old(ed).vars@).update(index as int, (pairs_view(old(ed).vars@)[index as int].0, value@))
        } else {
            pairs_view(old(ed).vars@)
        },
{
    if !text_eq(ed.target.as_str(), target) || index >= ed.vars.len() {
        return;
    }
    let ghost before = pairs_view(ed.vars@);
    let ghost v = value@;
    proof {
        assert(before[index as int] == (ed.vars@[index as int].0@, ed.vars@[index as int].1@));
    }
    ed.vars[index].1 = value;
    proof {
        assert(pairs_view(ed.vars@) =~= before.update(index as int, (before[index as int].0, v)));
    }
}

/// Adds an empty row at the end.
pub fn add_var(ed: &mut EnvRows)
    ensures
        final(ed).target@ == old(ed).target@,
        pairs_view(final(ed).vars@) == pairs_view(old(ed).vars@).push((Seq::<char>::empty(), Seq::<char>::empty())),
{
    let ghost before = pairs_view(ed.vars@);
    let k = String::new();
    let v = String::new();
    proof {
        assert(k@ =~= Seq::<char>::empty());
        assert(v@ =~= Seq::<char>::empty());
    }
    ed.vars.push((k, v));
    proof {
        assert(pairs_view(ed.vars@) =~= before.push((Seq::<char>::empty(), Seq::<char>::empty())));
    }
}

/// Takes row `index` out; past the end, nothing.
pub fn remove_var(ed: &mut EnvRows, index: usize)
    ensures
        final(ed).target@ == old(ed).target@,
        pairs_view(final(ed).vars@) == if index < old(ed).vars@.len() {
            pairs_view(old(ed).vars@).remove(index as int)
        } else {
            pairs_view(old(ed).vars@)
        },
{
    if index < ed.vars.len() {
        let ghost before = ed.vars@;
        let _gone = ed.vars.remove(index);
        proof {
            assert(pairs_view(ed.vars@) =~= pairs_view(before).remove(index as int));
        }
    }
}

/// The variables that rows stand for: each row with a name sets that name to
/// its value; a later row of the same name wins; rows without a name are
/// dropped.
pub open spec fn vars_of(rows: Seq<(Seq<char>, Seq<char>)>) -> Map<Seq<char>, Seq<char>>
    decreases rows.len(),
{
    if rows.len() == 0 {
        Map::empty()
    } else if rows.last().0.len() == 0 {
        vars_of(rows.drop_last())
    } else {
        vars_of(rows.drop_last()).insert(rows.last().0, rows.last().1)
    }
}

/// The map that a list of pairs gives, later pairs winning.
pub open spec fn pairs_map(ps: Seq<(Seq<char>, Seq<char>)>) -> Map<Seq<char>, Seq<char>>
    decreases ps.len(),
{
    if ps.len() == 0 {
        Map::empty()
    } else {
        pairs_map(ps.drop_last()).insert(ps.last().0, ps.last().1)
    }
}

/// No two pairs share a name.
pub open spec fn names_distinct(ps: Seq<(Seq<char>, Seq<char>)>) -> bool {
    forall|i: int, j: int| 0 <= i < j < ps.len() ==> #[trigger] ps[i].0 != #[trigger] ps[j].0
}

proof fn lemma_pairs_map_update(ps: Seq<(Seq<char>, Seq<char>)>, j: int, v: Seq<char>)
    requires
        names_distinct(ps),
        0 <= j < ps.len(),
    ensures
        pairs_map(ps.update(j, (ps[j].0, v))) == pairs_map(ps).insert(ps[j].0, v),
    decreases ps.len(),
{
    let up = ps.update(j, (ps[j].0, v));
    let rest = ps.drop_last();
    if j == ps.len() - 1 {
        assert(up.drop_last() =~= rest);
        assert(pairs_map(ps).insert(ps[j].0, v) =~= pairs_map(rest).insert(ps[j].0, v));
    } else {
        assert(up.drop_last() =~= rest.update(j, (rest[j].0, v)));
        assert(names_distinct(rest));
        lemma_pairs_map_update(rest, j, v);
        assert(ps[j].0 != ps.last().0);
        assert(pairs_map(up) =~= pairs_map(rest).insert(ps[j].0, v).insert(ps.last().0, ps.last().1));
        assert(pairs_map(ps).insert(ps[j].0, v) =~= pairs_map(rest).insert(ps.last().0, ps.last().1).insert(
            ps[j].0,
            v,
        ));
    }
}

/// The variables to store from the editor's rows: one pair per name, each
/// with the value of its last row; rows without a name are dropped. Read as a
/// map, the pairs are [`vars_of`] the rows (their order carries no meaning).
pub fn rows_to_vars(rows: &[(String, String)]) -> (out: Vec<(String, String)>)
    ensures
        names_distinct(pairs_view(out@)),
        pairs_map(pairs_view(out@)) == vars_of(pairs_view(rows@)),
{
    let ghost rv = pairs_view(rows@);
    let mut out: Vec<(String, String)> = Vec::new();
    let mut k: usize = 0;
    while k < rows.len()
        invariant
            rv == pairs_view(rows@),
            k <= rows@.len(),
            names_distinct(pairs_view(out@)),
            pairs_map(pairs_view(out@)) == vars_of(rv.take(k as int)),
        decreases rows@.len() - k,
    {
        let ghost ov = pairs_view(out@);
        proof {
            assert(rv.take(k + 1).drop_last() =~= rv.take(k as int));
            assert(rv.take(k + 1).last() == rv[k as int]);
            assert(rv[k as int] == (rows@[k as int].0@, rows@[k as int].1@));
        }
        let name = rows[k].0.as_str();
        if name.unicode_len() > 0 {
            let mut j: usize = 0;
            let mut found: Option<usize> = None;
            while j < out.len()
                invariant_except_break
                    found is None,
                invariant
                    ov == pairs_view(out@),
                    j <= out@.len(),
                    forall|i: int| 0 <= i < j ==> #[trigger] ov[i].0 != name@,
                ensures
                    found matches Some(f) ==> f < out@.len() && ov[f as int].0 == name@,
                    found is None ==> forall|i: int| 0 <= i < out@.len() ==> #[trigger] ov[i].0 != name@,
                decreases out@.len() - j,
            {
                proof {
                    assert(ov[j as int] == (out@[j as int].0@, out@[j as int].1@));
                }
                if text_eq(out[j].0.as_str(), name) {
                    found = Some(j);
                    break;
                }
                j = j + 1;
            }
            let value = rows[k].1.clone();
            match found {
                Some(f) => {
                    out[f].1 = value;
                    proof {
                        assert(pairs_view(out@) =~= ov.update(f as int, (ov[f as int].0, rv[k as int].1)));
                        lemma_pairs_map_update(ov, f as int, rv[k as int].1);
                    }
                },
                None => {
                    out.push((rows[k].0.clone(), value));
                    proof {
                        assert(pairs_view(out@) =~= ov.push(rv[k as int]));
                        assert(pairs_view(out@).drop_last() =~= ov);
                    }
                },
            }
        }
        k = k + 1;
    }
    proof {
        assert(rv.take(k as int) =~= rv);
    }
    out
}

/// The active-environment setting for a choice in the environment menu: none
/// for the base environment, else the environment's id.
pub fn active_env_choice(env_id: &str) -> (r: Option<String>)
    ensures
        match r {
            Some(id) => env_id@ != "base"@ && id@ == env_id@,
            None => env_id@ == "base"@,
        },
{
    if text_eq(env_id, "base") {
        None
    } else {
        Some(env_id.to_string())
    }
}

} // verus!
