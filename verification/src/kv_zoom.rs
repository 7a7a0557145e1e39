//! The long-value viewer: its text split into the lines it shows.

use vstd::prelude::*;
use crate::text::{chars_of, push_char};

verus! {

/// `s` split at every newline; there is always one piece more than newlines,
/// so an empty text gives one empty line and a trailing newline an empty last line.
pub open spec fn split_newlines(s: Seq<char>) -> Seq<Seq<char>>
    decreases s.len(),
{
    if s.len() == 0 {
        seq![seq![]]
    } else {
        let r = split_newlines(s.drop_last());
        if s.last() == '\n' {
            r.push(seq![])
        } else {
            r.update(r.len() - 1, r.last().push(s.last()))
        }
    }
}

proof fn lemma_split_nonempty(s: Seq<char>)
    ensures
        split_newlines(s).len() >= 1,
    decreases s.len(),
{
    if s.len() > 0 {
        lemma_split_nonempty(s.drop_last());
    }
}

/// The lines of a value, split at `\n` (a `\r` before it stays in the line).
pub fn kv_zoom_lines(text: &str) -> (out: Vec<String>)
    ensures
        out@.map_values(|l: String| l@) == split_newlines(text@),
{
    let cs = chars_of(text);
    let mut out: Vec<String> = Vec::new();
    let mut cur = String::new();
    let mut i: usize = 0;
    while i < cs.len()
        invariant
            cs@ == text@,
            i <= cs@.len(),
            out@.map_values(|l: String| l@).push(cur@) == split_newlines(cs@.take(i as int)),
        decreases cs@.len() - i,
    {
        let c = cs[i];
        let ghost before = out@.map_values(|l: String| l@);
        proof {
            assert(cs@.take(i + 1).drop_last() =~= cs@.take(i as int));
            assert(cs@.take(i + 1).last() == c);
            lemma_split_nonempty(cs@.take(i as int));
        }
        if c == '\n' {
            let done = cur;
            cur = String::new();
            out.push(done);
            proof {
                assert(out@.map_values(|l: String| l@) =~= before.push(done@));
                assert(out@.map_values(|l: String| l@).push(cur@) =~= before.push(done@).push(
                    Seq::<char>::empty(),
                ));
            }
        } else {
            let ghost prev = cur@;
            push_char(&mut cur, c);
            proof {
                assert(before.push(prev).update(before.len() as int, prev.push(c)) =~= before.push(
                    cur@,
                ));
            }
        }
        i = i + 1;
    }
    proof {
        assert(cs@.take(i as int) =~= cs@);
    }
    let ghost before = out@.map_values(|l: String| l@);
    out.push(cur);
    proof {
        assert(out@.map_values(|l: String| l@) =~= before.push(cur@));
    }
    out
}

} // verus!

verus! {

/// Lines joined back with newlines between them.
pub open spec fn join_lines(ps: Seq<Seq<char>>) -> Seq<char>
    decreases ps.len(),
{
    if ps.len() == 0 {
        seq![]
    } else if ps.len() == 1 {
        ps[0]
    } else {
        join_lines(ps.drop_last()).push('\n') + ps.last()
    }
}

/// Splitting loses nothing: the lines joined with newlines give back the text,
/// and no line holds a newline.
pub proof fn law_lines_rejoin(s: Seq<char>)
    ensures
        join_lines(split_newlines(s)) == s,
        forall|k: int|
            0 <= k < split_newlines(s).len() ==> !(#[trigger] split_newlines(s)[k]).contains('\n'),
    decreases s.len(),
{
    if s.len() > 0 {
        let t = s.drop_last();
        law_lines_rejoin(t);
        lemma_split_nonempty(t);
        let r = split_newlines(t);
        let c = s.last();
        if c == '\n' {
            assert(split_newlines(s) == r.push(seq![]));
            assert(r.push(seq![]).drop_last() =~= r);
            assert(join_lines(r).push('\n') + Seq::<char>::empty() =~= s);
        } else {
            let u = r.update(r.len() - 1, r.last().push(c));
            assert(split_newlines(s) == u);
            if r.len() == 1 {
                assert(u[0] == r[0].push(c));
                assert(r[0] == join_lines(r));
                assert(join_lines(r).push(c) =~= s);
            } else {
                assert(u.drop_last() =~= r.drop_last());
                assert(join_lines(r.drop_last()).push('\n') + r.last().push(c) =~= (join_lines(
                    r.drop_last(),
                ).push('\n') + r.last()).push(c));
                assert(join_lines(r).push(c) =~= s);
            }
            assert forall|k: int| 0 <= k < u.len() implies !(#[trigger] u[k]).contains('\n') by {
                if k == u.len() - 1 {
                    assert(!r[k].contains('\n'));
                    if u[k].contains('\n') {
                        let j = choose|j: int| 0 <= j < u[k].len() && u[k][j] == '\n';
                        assert(j < r[k].len());
                        assert(r[k][j] == '\n');
                    }
                } else {
                    assert(u[k] == r[k]);
                }
            }
        }
    } else {
        assert(split_newlines(s) =~= seq![Seq::<char>::empty()]);
        assert(!Seq::<char>::empty().contains('\n'));
    }
}

} // verus!
