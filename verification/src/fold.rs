//! Folding of a pretty-printed JSON body: pair each line that opens a group
//! (`{` or `[`) with the line that closes it, and work out which lines stay
//! visible for a set of folded lines.

use vstd::prelude::*;
use vstd::utf8::encode_utf8;
use vstd::string::StringSliceAdditionalSpecFns;
use std::collections::HashSet;
use crate::jsonview::{
    TokKind, tokenize_line, text_tokens, line_tokens, lemma_lex_tiles,
};

verus! {

broadcast use vstd::std_specs::hash::group_hash_axioms;

/// The brackets among some bytes, in order: `true` for `{`/`[`, `false` for `}`/`]`.
pub open spec fn bracket_flags(w: Seq<u8>) -> Seq<bool>
    decreases w.len(),
{
    if w.len() == 0 {
        seq![]
    } else {
        let rest = bracket_flags(w.drop_last());
        let c = w.last();
        if c == 123 || c == 91 {
            rest.push(true)
        } else if c == 125 || c == 93 {
            rest.push(false)
        } else {
            rest
        }
    }
}

/// The brackets of the punctuation pieces among `toks`, in order (brackets
/// inside strings do not count).
pub open spec fn punct_flags(b: Seq<u8>, toks: Seq<(int, int, TokKind)>) -> Seq<bool>
    decreases toks.len(),
{
    if toks.len() == 0 {
        seq![]
    } else {
        let t = toks.last();
        punct_flags(b, toks.drop_last()) + if t.2 == TokKind::Punct {
            bracket_flags(b.subrange(t.0, t.1))
        } else {
            seq![]
        }
    }
}

/// The brackets of one line.
pub open spec fn line_brackets(t: Seq<char>) -> Seq<bool> {
    punct_flags(encode_utf8(t), text_tokens(t))
}

/// Matching state: the lines of the still open brackets (innermost last) and
/// the end line found so far for each line.
pub type MatchState = (Seq<usize>, Seq<Option<usize>>);

/// One bracket of line `line`: an opening one is pushed; a closing one pops the
/// innermost open bracket and, when that one was opened on another line, makes
/// `line` the end of the opening line. A closing bracket with nothing open is ignored.
pub open spec fn bracket_step(st: MatchState, line: usize, open: bool) -> MatchState {
    if open {
        (st.0.push(line), st.1)
    } else if st.0.len() == 0 {
        st
    } else {
        let o = st.0.last();
        (st.0.drop_last(), if o != line {
            st.1.update(o as int, Some(line))
        } else {
            st.1
        })
    }
}

/// The brackets `flags` of line `line`, applied one after the other.
pub open spec fn run_brackets(st: MatchState, line: usize, flags: Seq<bool>) -> MatchState
    decreases flags.len(),
{
    if flags.len() == 0 {
        st
    } else {
        bracket_step(run_brackets(st, line, flags.drop_last()), line, flags.last())
    }
}

/// The state after the first `k` lines.
pub open spec fn match_lines(lines: Seq<Seq<char>>, k: int) -> MatchState
    decreases k,
{
    if k <= 0 {
        (seq![], Seq::new(lines.len(), |i: int| None::<usize>))
    } else {
        run_brackets(match_lines(lines, k - 1), (k - 1) as usize, line_brackets(lines[k - 1]))
    }
}

/// For each line, the line that closes the group it opens, if any.
pub open spec fn group_ends_of(lines: Seq<Seq<char>>) -> Seq<Option<usize>> {
    match_lines(lines, lines.len() as int).1
}

/// The characters of each line.
pub open spec fn line_views(lines: Seq<String>) -> Seq<Seq<char>> {
    lines.map_values(|s: String| s@)
}

/// The state is sound after the lines before `line`: open brackets lie on lines
/// up to `line`, and each end lies after its opening line and not after `line`.
pub open spec fn match_sound(stack: Seq<usize>, ends: Seq<Option<usize>>, n: int, line: int) -> bool {
    &&& ends.len() == n
    &&& forall|k: int| 0 <= k < stack.len() ==> #[trigger] stack[k] <= line
    &&& forall|o: int|
        0 <= o < n ==> (#[trigger] ends[o] matches Some(e) ==> o < e && e <= line && e < n)
}

/// Applies one bracket of line `line` to the matching state.
fn apply_bracket(stack: &mut Vec<usize>, ends: &mut Vec<Option<usize>>, line: usize, open: bool)
    requires
        line < old(ends)@.len(),
        match_sound(old(stack)@, old(ends)@, old(ends)@.len() as int, line as int),
    ensures
        (final(stack)@, final(ends)@) == bracket_step((old(stack)@, old(ends)@), line, open),
        match_sound(final(stack)@, final(ends)@, old(ends)@.len() as int, line as int),
{
    if open {
        stack.push(line);
    } else {
        let ghost before = stack@;
        match stack.pop() {
            Some(o) => {
                proof {
                    assert(before.last() == o);
                    assert(stack@ =~= before.drop_last());
                    assert(o <= line) by {
                        assert(before[before.len() - 1] <= line);
                    }
                    assert(forall|k: int| 0 <= k < stack@.len() ==> stack@[k] == before[k]);
                }
                if o != line {
                    ends.set(o, Some(line));
                }
            },
            None => {},
        }
    }
}

/// Pairs each line that opens a group (`{` or `[`) with the line that closes it.
///
/// Only the punctuation of the JSON lexer counts, so a `{` inside a string is no
/// bracket. A line that opens and closes its own group (`{}`, `"a": [1, 2]`) gets
/// no end: there is nothing to fold. Every end lies after its line.
pub fn group_ends(lines: &[String]) -> (out: Vec<Option<usize>>)
    ensures
        out@ == group_ends_of(line_views(lines@)),
        out@.len() == lines@.len(),
        forall|o: int|
            0 <= o < out@.len() ==> (#[trigger] out@[o] matches Some(e) ==> o < e < lines@.len()),
{
    let n = lines.len();
    let ghost vs = line_views(lines@);
    let mut ends: Vec<Option<usize>> = Vec::new();
    let mut z: usize = 0;
    while z < n
        invariant
            n == lines@.len(),
            z <= n,
            ends@ == Seq::new(z as nat, |i: int| None::<usize>),
        decreases n - z,
    {
        ends.push(None);
        z = z + 1;
        proof {
            assert(ends@ =~= Seq::new(z as nat, |i: int| None::<usize>));
        }
    }
    let mut stack: Vec<usize> = Vec::new();
    let mut i: usize = 0;
    proof {
        assert((stack@, ends@) =~= match_lines(vs, 0));
    }
    while i < n
        invariant
            n == lines@.len(),
            vs == line_views(lines@),
            vs.len() == n,
            i <= n,
            (stack@, ends@) == match_lines(vs, i as int),
            match_sound(stack@, ends@, n as int, i as int),
        decreases n - i,
    {
        let line: &str = lines[i].as_str();
        proof {
            assert(vs[i as int] == lines@[i as int]@);
        }
        let toks = tokenize_line(line);
        let ghost b = encode_utf8(line@);
        let ghost lt = line_tokens(line);
        let ghost start = (stack@, ends@);
        proof {
            lemma_lex_tiles(b, 0);
            assert(lt.take(0) =~= Seq::<(int, int, TokKind)>::empty());
        }
        let mut k: usize = 0;
        while k < toks.len()
            invariant
                n == lines@.len(),
                ends@.len() == n,
                i < n,
                toks@.len() == lt.len(),
                b == encode_utf8(line@),
                forall|j: int|
                    0 <= j < toks@.len() ==> (#[trigger] toks@[j]).kind == lt[j].2
                        && toks@[j].text.spec_bytes() == b.subrange(lt[j].0, lt[j].1) && 0
                        <= lt[j].0 < lt[j].1 <= b.len(),
                0 <= k <= toks@.len(),
                (stack@, ends@) == run_brackets(start, i, punct_flags(b, lt.take(k as int))),
                match_sound(stack@, ends@, n as int, i as int),
            decreases toks@.len() - k,
        {
            let tok = toks[k];
            let ghost before_k = punct_flags(b, lt.take(k as int));
            proof {
                assert(toks@[k as int] == tok);
                assert(lt.take(k + 1).drop_last() =~= lt.take(k as int));
            }
            if tok.kind == TokKind::Punct {
                let bytes = tok.text.as_bytes();
                let ghost sub = b.subrange(lt[k as int].0, lt[k as int].1);
                let mut j: usize = 0;
                proof {
                    assert(bytes@ == sub);
                    assert(sub.take(0) =~= Seq::<u8>::empty());
                    assert(before_k + bracket_flags(sub.take(0)) =~= before_k);
                }
                while j < bytes.len()
                    invariant
                        n == lines@.len(),
                        ends@.len() == n,
                        i < n,
                        bytes@ == sub,
                        0 <= j <= sub.len(),
                        (stack@, ends@) == run_brackets(
                            start,
                            i,
                            before_k + bracket_flags(sub.take(j as int)),
                        ),
                        match_sound(stack@, ends@, n as int, i as int),
                    decreases sub.len() - j,
                {
                    let c = bytes[j];
                    let ghost f0 = before_k + bracket_flags(sub.take(j as int));
                    proof {
                        assert(sub.take(j + 1).drop_last() =~= sub.take(j as int));
                        assert(sub.take(j + 1).last() == c);
                    }
                    if c == 123 || c == 91 {
                        proof {
                            assert((f0.push(true)).drop_last() =~= f0);
                            assert(before_k + bracket_flags(sub.take(j + 1)) =~= f0.push(true));
                        }
                        apply_bracket(&mut stack, &mut ends, i, true);
                    } else if c == 125 || c == 93 {
                        proof {
                            assert((f0.push(false)).drop_last() =~= f0);
                            assert(before_k + bracket_flags(sub.take(j + 1)) =~= f0.push(false));
                        }
                        apply_bracket(&mut stack, &mut ends, i, false);
                    } else {
                        proof {
                            assert(before_k + bracket_flags(sub.take(j + 1)) =~= f0);
                        }
                    }
                    j = j + 1;
                }
                proof {
                    assert(sub.take(j as int) =~= sub);
                }
            } else {
                proof {
                    assert(before_k + Seq::<bool>::empty() =~= before_k);
                }
            }
            k = k + 1;
        }
        proof {
            assert(lt.take(k as int) =~= lt);
            assert(vs[i as int] == line@);
        }
        i = i + 1;
    }
    ends
}

/// Where the walk over the lines goes after line `i`: past the group when `i`
/// is folded and opens a group that ends later, else to the next line.
pub open spec fn next_visible(ends: Seq<Option<usize>>, folded: Set<usize>, i: int) -> int {
    match ends[i] {
        Some(e) => if folded.contains(i as usize) && e > i {
            e + 1
        } else {
            i + 1
        },
        None => i + 1,
    }
}

/// How many lines are left from `i` on.
pub open spec fn lines_left(n: int, i: int) -> int {
    if i < n {
        n - i
    } else {
        0
    }
}

/// The visible lines from `i` on.
pub open spec fn visible_from(ends: Seq<Option<usize>>, folded: Set<usize>, i: int) -> Seq<usize>
    decreases lines_left(ends.len() as int, i),
{
    if 0 <= i < ends.len() {
        seq![i as usize] + visible_from(ends, folded, next_visible(ends, folded, i))
    } else {
        seq![]
    }
}

/// No end is the largest index (the line after it must be computable).
pub open spec fn ends_bounded(ends: Seq<Option<usize>>) -> bool {
    forall|k: int| 0 <= k < ends.len() ==> (#[trigger] ends[k] matches Some(e) ==> e < usize::MAX)
}

/// The lines that stay visible when the lines in `folded` are folded: a folded
/// line that opens a group hides the lines after it up to and including its end.
/// Folded lines that open nothing are ignored.
pub fn visible_indices(ends: &[Option<usize>], folded: &HashSet<usize>) -> (out: Vec<usize>)
    requires
        ends_bounded(ends@),
    ensures
        out@ == visible_from(ends@, folded@, 0),
{
    let mut out: Vec<usize> = Vec::new();
    let mut i: usize = 0;
    while i < ends.len()
        invariant
            ends_bounded(ends@),
            visible_from(ends@, folded@, 0) == out@ + visible_from(ends@, folded@, i as int),
        decreases lines_left(ends@.len() as int, i as int),
    {
        out.push(i);
        let ghost prev = out@.drop_last();
        let hidden = folded.contains(&i);
        let mut next = i + 1;
        if let Some(end) = ends[i] {
            if hidden && end > i {
                next = end + 1;
            }
        }
        proof {
            assert(next == next_visible(ends@, folded@, i as int));
            assert(prev + visible_from(ends@, folded@, i as int) =~= out@ + visible_from(
                ends@,
                folded@,
                next as int,
            ));
        }
        i = next;
    }
    proof {
        assert(out@ + visible_from(ends@, folded@, i as int) =~= out@);
    }
    out
}

/// The folds of the top level: walking from `i`, every line that opens a group
/// is folded and the walk jumps past the group.
pub open spec fn outermost_from(ends: Seq<Option<usize>>, i: int) -> Set<usize>
    decreases lines_left(ends.len() as int, i),
{
    if 0 <= i < ends.len() {
        match ends[i] {
            Some(e) => if e > i {
                outermost_from(ends, e + 1).insert(i as usize)
            } else {
                outermost_from(ends, i + 1)
            },
            None => outermost_from(ends, i + 1),
        }
    } else {
        Set::empty()
    }
}

/// "Fold all": folds the outermost groups only. Inner groups stay unfolded, so
/// unfolding an outer group shows its whole content.
pub fn fold_all(ends: &[Option<usize>]) -> (set: HashSet<usize>)
    requires
        ends_bounded(ends@),
    ensures
        set@ == outermost_from(ends@, 0),
{
    let mut set: HashSet<usize> = HashSet::new();
    let mut i: usize = 0;
    while i < ends.len()
        invariant
            ends_bounded(ends@),
            outermost_from(ends@, 0) == set@ + outermost_from(ends@, i as int),
        decreases lines_left(ends@.len() as int, i as int),
    {
        let mut next = i + 1;
        if let Some(end) = ends[i] {
            if end > i {
                let ghost before = set@;
                set.insert(i);
                proof {
                    assert(before + outermost_from(ends@, i as int) =~= set@ + outermost_from(
                        ends@,
                        end + 1,
                    ));
                }
                next = end + 1;
            }
        }
        i = next;
    }
    proof {
        assert(set@ + outermost_from(ends@, i as int) =~= set@);
    }
    set
}

/// Line `i` opens a group that ends on a later line.
pub open spec fn is_foldable(ends: Seq<Option<usize>>, i: int) -> bool {
    match ends[i] {
        Some(e) => e > i,
        None => false,
    }
}

/// Whether anything can be folded (the UI offers "fold all" only then).
pub fn has_foldable(ends: &[Option<usize>]) -> (r: bool)
    ensures
        r == exists|i: int| 0 <= i < ends@.len() && is_foldable(ends@, i),
{
    let mut i: usize = 0;
    while i < ends.len()
        invariant
            forall|k: int| 0 <= k < i ==> !is_foldable(ends@, k),
        decreases ends@.len() - i,
    {
        if let Some(end) = ends[i] {
            if end > i {
                proof {
                    assert(is_foldable(ends@, i as int));
                }
                return true;
            }
        }
        i = i + 1;
    }
    false
}

/// `folded` and `other` fold the same lines among those from `i` on that open a group.
pub open spec fn same_folds_from(
    ends: Seq<Option<usize>>,
    folded: Set<usize>,
    other: Set<usize>,
    i: int,
) -> bool {
    forall|k: int|
        i <= k < ends.len() && is_foldable(ends, k) ==> (folded.contains(k as usize)
            <==> other.contains(k as usize))
}

/// Only folded lines that open a group, at or after `i`, matter to the visible lines from `i`.
pub proof fn lemma_visible_same_folds(
    ends: Seq<Option<usize>>,
    folded: Set<usize>,
    other: Set<usize>,
    i: int,
)
    requires
        0 <= i,
        same_folds_from(ends, folded, other, i),
    ensures
        visible_from(ends, folded, i) == visible_from(ends, other, i),
    decreases lines_left(ends.len() as int, i),
{
    if i < ends.len() {
        assert(next_visible(ends, folded, i) == next_visible(ends, other, i)) by {
            if is_foldable(ends, i) {
                assert(folded.contains(i as usize) <==> other.contains(i as usize));
            }
        }
        let j = next_visible(ends, folded, i);
        assert(j > i);
        lemma_visible_same_folds(ends, folded, other, j);
    }
}

/// Folding a line that opens no group (or a stale index) changes nothing: the
/// same lines stay visible.
pub proof fn law_unfoldable_fold_is_ignored(ends: Seq<Option<usize>>, folded: Set<usize>, k: usize)
    requires
        !(0 <= k < ends.len() && is_foldable(ends, k as int)),
    ensures
        visible_from(ends, folded.insert(k), 0) == visible_from(ends, folded, 0),
{
    assert(same_folds_from(ends, folded.insert(k), folded, 0));
    lemma_visible_same_folds(ends, folded.insert(k), folded, 0);
}

/// With nothing folded every line is visible, in order.
pub proof fn law_nothing_folded_shows_all(ends: Seq<Option<usize>>)
    ensures
        visible_from(ends, Set::empty(), 0) == Seq::new(ends.len(), |i: int| i as usize),
{
    lemma_nothing_folded_from(ends, 0);
    assert(Seq::new(ends.len(), |i: int| i as usize).subrange(0, ends.len() as int) =~= Seq::new(
        ends.len(),
        |i: int| i as usize,
    ));
}

proof fn lemma_nothing_folded_from(ends: Seq<Option<usize>>, i: int)
    requires
        0 <= i <= ends.len(),
    ensures
        visible_from(ends, Set::empty(), i) == Seq::new(ends.len(), |k: int| k as usize).subrange(
            i,
            ends.len() as int,
        ),
    decreases ends.len() - i,
{
    let all = Seq::new(ends.len(), |k: int| k as usize);
    if i < ends.len() {
        lemma_nothing_folded_from(ends, i + 1);
        assert(next_visible(ends, Set::empty(), i) == i + 1);
        assert(seq![i as usize] + all.subrange(i + 1, ends.len() as int) =~= all.subrange(
            i,
            ends.len() as int,
        ));
    } else {
        assert(all.subrange(i, ends.len() as int) =~= Seq::<usize>::empty());
    }
}

/// "Fold all" hides exactly what folding every line would hide: the groups of
/// the outermost level.
pub proof fn law_fold_all_hides_every_group(ends: Seq<Option<usize>>)
    ensures
        visible_from(ends, outermost_from(ends, 0), 0) == visible_from(ends, Set::full(), 0),
{
    lemma_outermost_from(ends, 0);
}

proof fn lemma_outermost_from(ends: Seq<Option<usize>>, i: int)
    requires
        0 <= i,
    ensures
        visible_from(ends, outermost_from(ends, i), i) == visible_from(ends, Set::full(), i),
    decreases lines_left(ends.len() as int, i),
{
    if i < ends.len() {
        if is_foldable(ends, i) {
            let e = ends[i]->0 as int;
            let rest = outermost_from(ends, e + 1);
            assert(outermost_from(ends, i) == rest.insert(i as usize));
            lemma_outermost_from(ends, e + 1);
            assert forall|k: int|
                e + 1 <= k < ends.len() && is_foldable(ends, k) implies (rest.insert(
                i as usize,
            ).contains(k as usize) <==> rest.contains(k as usize)) by {
                assert(k as usize != i as usize);
            }
            lemma_visible_same_folds(ends, rest.insert(i as usize), rest, e + 1);
            assert(next_visible(ends, rest.insert(i as usize), i) == e + 1);
            assert(next_visible(ends, Set::full(), i) == e + 1);
        } else {
            lemma_outermost_from(ends, i + 1);
            assert(next_visible(ends, outermost_from(ends, i), i) == i + 1);
            assert(next_visible(ends, Set::full(), i) == i + 1);
        }
    }
}

/// "Fold all" folds something exactly when some line can be folded.
pub proof fn law_fold_all_empty_iff_nothing_foldable(ends: Seq<Option<usize>>)
    requires
        ends.len() <= usize::MAX,
    ensures
        outermost_from(ends, 0) == Set::<usize>::empty() <==> !exists|i: int|
            0 <= i < ends.len() && is_foldable(ends, i),
{
    lemma_outermost_empty(ends, 0);
}

proof fn lemma_outermost_empty(ends: Seq<Option<usize>>, i: int)
    requires
        0 <= i,
        ends.len() <= usize::MAX,
    ensures
        outermost_from(ends, i) == Set::<usize>::empty() <==> !exists|k: int|
            i <= k < ends.len() && is_foldable(ends, k),
    decreases lines_left(ends.len() as int, i),
{
    if i < ends.len() {
        if is_foldable(ends, i) {
            let e = ends[i]->0 as int;
            lemma_outermost_empty(ends, e + 1);
            assert(outermost_from(ends, i).contains(i as usize));
        } else {
            lemma_outermost_empty(ends, i + 1);
            if exists|k: int| i <= k < ends.len() && is_foldable(ends, k) {
                let k = choose|k: int| i <= k < ends.len() && is_foldable(ends, k);
                assert(k != i);
                assert(i + 1 <= k);
            }
        }
    } else {
        assert(outermost_from(ends, i) =~= Set::<usize>::empty());
    }
}

/// The folded lines after a click on line `line`: folded when it was open,
/// open when it was folded; a line that opens no group (or is past the end)
/// changes nothing.
pub open spec fn fold_toggled(ends: Seq<Option<usize>>, folded: Set<usize>, line: usize) -> Set<usize> {
    if line < ends.len() && is_foldable(ends, line as int) {
        if folded.contains(line) {
            folded.remove(line)
        } else {
            folded.insert(line)
        }
    } else {
        folded
    }
}

/// Folds line `line` when it is open, opens it when it is folded (see
/// [`fold_toggled`]).
pub fn toggle_fold(ends: &[Option<usize>], folded: &mut HashSet<usize>, line: usize)
    ensures
        final(folded)@ == fold_toggled(ends@, old(folded)@, line),
{
    if line >= ends.len() {
        return;
    }
    let foldable = match ends[line] {
        Some(end) => end > line,
        None => false,
    };
    if !foldable {
        return;
    }
    if folded.contains(&line) {
        folded.remove(&line);
    } else {
        folded.insert(line);
    }
}

/// The rows of a response body that show: with a fold end per line (a JSON
/// body shown unfiltered), the lines that the folds leave visible; otherwise
/// (raw view, filter results, other bodies) every line.
pub open spec fn visible_rows_of(ends: Seq<Option<usize>>, folded: Set<usize>, n: nat) -> Seq<usize> {
    if ends.len() == n {
        visible_from(ends, folded, 0)
    } else {
        Seq::new(n, |i: int| i as usize)
    }
}

/// The rows of a response body with `n` lines that show (see
/// [`visible_rows_of`]).
pub fn visible_rows(ends: &[Option<usize>], folded: &HashSet<usize>, n: usize) -> (out: Vec<usize>)
    requires
        ends_bounded(ends@),
    ensures
        out@ == visible_rows_of(ends@, folded@, n as nat),
{
    if ends.len() == n {
        return visible_indices(ends, folded);
    }
    let mut out: Vec<usize> = Vec::new();
    let mut i: usize = 0;
    while i < n
        invariant
            i <= n,
            out@ =~= Seq::new(i as nat, |k: int| k as usize),
        decreases n - i,
    {
        out.push(i);
        i = i + 1;
    }
    out
}

/// Clicking the same line twice leaves the folds as they were.
pub proof fn law_fold_toggle_twice_restores(ends: Seq<Option<usize>>, folded: Set<usize>, line: usize)
    ensures
        fold_toggled(ends, fold_toggled(ends, folded, line), line) == folded,
{
    if line < ends.len() && is_foldable(ends, line as int) {
        if folded.contains(line) {
            assert(folded.remove(line).insert(line) =~= folded);
        } else {
            assert(folded.insert(line).remove(line) =~= folded);
        }
    }
}

/// What matching keeps: the open brackets lie on lines up to `line` in
/// order; each end lies after its line and not after `line`; no open bracket
/// lies strictly inside a closed group; and groups found so far nest.
pub open spec fn nest_inv(st: MatchState, line: int) -> bool {
    &&& forall|a: int, b: int| 0 <= a < b < st.0.len() ==> st.0[a] <= st.0[b]
    &&& forall|a: int| 0 <= a < st.0.len() ==> #[trigger] st.0[a] <= line
    &&& forall|o: int| 0 <= o < st.1.len() && (#[trigger] st.1[o]) is Some ==> o < st.1[o]->0 <= line
    &&& forall|o: int, a: int|
        0 <= o < st.1.len() && 0 <= a < st.0.len() && (#[trigger] st.1[o]) is Some ==> #[trigger] st.0[a]
            <= o || st.0[a] >= st.1[o]->0
    &&& forall|o: int, j: int|
        0 <= o < j < st.1.len() && (#[trigger] st.1[o]) is Some && j < st.1[o]->0 && (#[trigger] st.1[j]) is Some
            ==> st.1[j]->0 <= st.1[o]->0
}

proof fn lemma_nest_step(st: MatchState, line: usize, open: bool)
    requires
        nest_inv(st, line as int),
        line < st.1.len(),
    ensures
        nest_inv(bracket_step(st, line, open), line as int),
        bracket_step(st, line, open).1.len() == st.1.len(),
{
    let nx = bracket_step(st, line, open);
    if open {
        assert forall|a: int, b: int| 0 <= a < b < nx.0.len() implies nx.0[a] <= nx.0[b] by {
            if b == st.0.len() {
                assert(nx.0[a] == st.0[a]);
            } else {
                assert(nx.0[a] == st.0[a] && nx.0[b] == st.0[b]);
            }
        }
        assert forall|o: int, a: int|
            0 <= o < nx.1.len() && 0 <= a < nx.0.len() && (#[trigger] nx.1[o]) is Some implies #[trigger] nx.0[a]
                <= o || nx.0[a] >= nx.1[o]->0 by {
            if a < st.0.len() {
                assert(nx.0[a] == st.0[a]);
            }
        }
        assert forall|a: int| 0 <= a < nx.0.len() implies #[trigger] nx.0[a] <= line by {
            if a < st.0.len() {
                assert(nx.0[a] == st.0[a]);
            }
        }
    } else if st.0.len() > 0 {
        let o = st.0.last();
        let rest = st.0.drop_last();
        assert(o <= line);
        assert forall|a: int| 0 <= a < rest.len() implies #[trigger] rest[a] <= o by {
            assert(rest[a] == st.0[a]);
        }
        if o != line {
            let ends = st.1.update(o as int, Some(line));
            assert forall|p: int| 0 <= p < ends.len() && (#[trigger] ends[p]) is Some implies p < ends[p]->0
                <= line by {
            }
            assert forall|p: int, a: int|
                0 <= p < ends.len() && 0 <= a < rest.len() && (#[trigger] ends[p]) is Some implies #[trigger] rest[a]
                    <= p || rest[a] >= ends[p]->0 by {
                assert(rest[a] == st.0[a]);
                if p != o {
                    assert(ends[p] == st.1[p]);
                }
            }
            assert forall|p: int, j: int|
                0 <= p < j < ends.len() && (#[trigger] ends[p]) is Some && j < ends[p]->0 && (#[trigger] ends[j]) is Some
                    implies ends[j]->0 <= ends[p]->0 by {
                if j == o as int {
                    if p != o {
                        assert(ends[p] == st.1[p]);
                        assert(st.0[st.0.len() - 1] == o);
                    }
                } else if p == o as int {
                    assert(ends[j] == st.1[j]);
                } else {
                    assert(ends[p] == st.1[p]);
                    assert(ends[j] == st.1[j]);
                }
            }
        } else {
            assert forall|p: int, a: int|
                0 <= p < st.1.len() && 0 <= a < rest.len() && (#[trigger] st.1[p]) is Some implies #[trigger] rest[a]
                    <= p || rest[a] >= st.1[p]->0 by {
                assert(rest[a] == st.0[a]);
            }
        }
    }
}

proof fn lemma_nest_run(st: MatchState, line: usize, flags: Seq<bool>)
    requires
        nest_inv(st, line as int),
        line < st.1.len(),
    ensures
        nest_inv(run_brackets(st, line, flags), line as int),
        run_brackets(st, line, flags).1.len() == st.1.len(),
    decreases flags.len(),
{
    if flags.len() > 0 {
        lemma_nest_run(st, line, flags.drop_last());
        lemma_nest_step(run_brackets(st, line, flags.drop_last()), line, flags.last());
    }
}

proof fn lemma_nest_lines(lines: Seq<Seq<char>>, k: int)
    requires
        0 <= k <= lines.len(),
        lines.len() <= usize::MAX,
    ensures
        nest_inv(match_lines(lines, k), k - 1),
        match_lines(lines, k).1.len() == lines.len(),
    decreases k,
{
    if k > 0 {
        lemma_nest_lines(lines, k - 1);
        let st = match_lines(lines, k - 1);
        assert forall|a: int| 0 <= a < st.0.len() implies #[trigger] st.0[a] <= k - 1 by {
        }
        assert forall|o: int| 0 <= o < st.1.len() && (#[trigger] st.1[o]) is Some implies o < st.1[o]->0
            <= k - 1 by {
        }
        lemma_nest_run(st, (k - 1) as usize, line_brackets(lines[k - 1]));
    } else {
        let st = match_lines(lines, 0);
        assert(st.0.len() == 0);
    }
}

/// Fold ranges nest and never cross: a group that opens inside another one
/// also closes inside it.
pub proof fn law_group_ends_nest(lines: Seq<Seq<char>>)
    requires
        lines.len() <= usize::MAX,
    ensures
        forall|i: int, j: int|
            0 <= i < j < lines.len() && (#[trigger] group_ends_of(lines)[i]) is Some && j
                < group_ends_of(lines)[i]->0 && (#[trigger] group_ends_of(lines)[j]) is Some
                ==> group_ends_of(lines)[j]->0 <= group_ends_of(lines)[i]->0,
{
    lemma_nest_lines(lines, lines.len() as int);
}

/// Line `k` lies inside the group of a folded line among the visible lines
/// `v`: after that line and not after its end.
pub open spec fn hidden_by(ends: Seq<Option<usize>>, folded: Set<usize>, v: Seq<usize>, k: int) -> bool {
    exists|j: int|
        0 <= j < v.len() && folded.contains(#[trigger] v[j]) && ends[v[j] as int] is Some && v[j] < k
            <= ends[v[j] as int]->0
}

proof fn lemma_visible_from_shape(ends: Seq<Option<usize>>, folded: Set<usize>, i: int)
    requires
        0 <= i,
        ends.len() <= usize::MAX,
    ensures
        forall|a: int, b: int|
            0 <= a < b < visible_from(ends, folded, i).len() ==> visible_from(ends, folded, i)[a]
                < visible_from(ends, folded, i)[b],
        forall|a: int|
            0 <= a < visible_from(ends, folded, i).len() ==> i <= #[trigger] visible_from(ends, folded, i)[a]
                < ends.len(),
        i < ends.len() ==> visible_from(ends, folded, i).len() > 0 && visible_from(ends, folded, i)[0] == i,
        forall|k: int|
            i <= k < ends.len() ==> (!visible_from(ends, folded, i).contains(k as usize) <==> hidden_by(
                ends,
                folded,
                visible_from(ends, folded, i),
                k,
            )),
    decreases lines_left(ends.len() as int, i),
{
    if i < ends.len() {
        let n = next_visible(ends, folded, i);
        lemma_visible_from_shape(ends, folded, n);
        let w = visible_from(ends, folded, n);
        let v = visible_from(ends, folded, i);
        assert(v == seq![i as usize] + w);
        assert forall|a: int| 0 <= a < v.len() implies i <= #[trigger] v[a] < ends.len() by {
            if a > 0 {
                assert(v[a] == w[a - 1]);
            }
        }
        assert forall|a: int, b: int| 0 <= a < b < v.len() implies v[a] < v[b] by {
            assert(v[b] == w[b - 1]);
            if a > 0 {
                assert(v[a] == w[a - 1]);
            }
        }
        assert forall|k: int| i <= k < ends.len() implies (!v.contains(k as usize) <==> hidden_by(
            ends,
            folded,
            v,
            k,
        )) by {
            if k == i {
                assert(v[0] == k as usize);
                if hidden_by(ends, folded, v, k) {
                    let j = choose|j: int|
                        0 <= j < v.len() && folded.contains(#[trigger] v[j]) && ends[v[j] as int] is Some
                            && v[j] < k <= ends[v[j] as int]->0;
                }
            } else if k < n {
                assert(hidden_by(ends, folded, v, k)) by {
                    assert(v[0] == i as usize);
                }
                if v.contains(k as usize) {
                    let a = choose|a: int| 0 <= a < v.len() && v[a] == k as usize;
                    if a > 0 {
                        assert(v[a] == w[a - 1]);
                    }
                }
            } else {
                if v.contains(k as usize) {
                    let a = choose|a: int| 0 <= a < v.len() && v[a] == k as usize;
                    assert(a > 0);
                    assert(w[a - 1] == k as usize);
                    assert(w.contains(k as usize));
                }
                if w.contains(k as usize) {
                    let a = choose|a: int| 0 <= a < w.len() && w[a] == k as usize;
                    assert(v[a + 1] == k as usize);
                }
                if hidden_by(ends, folded, v, k) {
                    let j = choose|j: int|
                        0 <= j < v.len() && folded.contains(#[trigger] v[j]) && ends[v[j] as int] is Some
                            && v[j] < k <= ends[v[j] as int]->0;
                    assert(j > 0);
                    assert(v[j] == w[j - 1]);
                    assert(hidden_by(ends, folded, w, k));
                }
                if hidden_by(ends, folded, w, k) {
                    let j = choose|j: int|
                        0 <= j < w.len() && folded.contains(#[trigger] w[j]) && ends[w[j] as int] is Some
                            && w[j] < k <= ends[w[j] as int]->0;
                    assert(v[j + 1] == w[j]);
                    assert(hidden_by(ends, folded, v, k));
                }
            }
        }
    }
}

/// The visible lines come in order, start with the first line, and a line is
/// missing from them exactly when it lies inside the group of a visible
/// folded line (after that line, up to its end).
pub proof fn law_visible_lines_are_the_unfolded_ones(ends: Seq<Option<usize>>, folded: Set<usize>)
    requires
        ends.len() <= usize::MAX,
    ensures
        forall|a: int, b: int|
            0 <= a < b < visible_from(ends, folded, 0).len() ==> visible_from(ends, folded, 0)[a]
                < visible_from(ends, folded, 0)[b],
        forall|a: int|
            0 <= a < visible_from(ends, folded, 0).len() ==> #[trigger] visible_from(ends, folded, 0)[a]
                < ends.len(),
        ends.len() > 0 ==> visible_from(ends, folded, 0)[0] == 0,
        forall|k: int|
            0 <= k < ends.len() ==> (!visible_from(ends, folded, 0).contains(k as usize) <==> hidden_by(
                ends,
                folded,
                visible_from(ends, folded, 0),
                k,
            )),
{
    lemma_visible_from_shape(ends, folded, 0);
}

proof fn lemma_outermost_range(ends: Seq<Option<usize>>, i: int)
    requires
        0 <= i,
        ends.len() <= usize::MAX,
    ensures
        forall|x: usize| #[trigger] outermost_from(ends, i).contains(x) ==> i <= x < ends.len() && is_foldable(ends, x as int),
    decreases lines_left(ends.len() as int, i),
{
    if i < ends.len() {
        let o = outermost_from(ends, i);
        match ends[i] {
            Some(e) => if e > i {
                lemma_outermost_range(ends, e + 1);
                assert(o == outermost_from(ends, e + 1).insert(i as usize));
                assert(is_foldable(ends, i));
            } else {
                lemma_outermost_range(ends, i + 1);
                assert(o == outermost_from(ends, i + 1));
            },
            None => {
                lemma_outermost_range(ends, i + 1);
                assert(o == outermost_from(ends, i + 1));
            },
        }
        assert forall|x: usize| #[trigger] o.contains(x) implies i <= x < ends.len() && is_foldable(ends, x as int) by {
            if x as int != i {
            }
        }
    } else {
        assert(outermost_from(ends, i) == Set::<usize>::empty());
    }
}

proof fn lemma_outermost_visible(ends: Seq<Option<usize>>, f: Set<usize>, i: int)
    requires
        0 <= i,
        ends.len() <= usize::MAX,
        forall|k: usize| i <= k ==> (f.contains(k) <==> #[trigger] outermost_from(ends, i).contains(k)),
    ensures
        forall|x: usize|
            #[trigger] outermost_from(ends, i).contains(x) <==> (visible_from(ends, f, i).contains(x)
                && is_foldable(ends, x as int)),
    decreases lines_left(ends.len() as int, i),
{
    lemma_outermost_range(ends, i);
    lemma_visible_from_shape(ends, f, i);
    if i < ends.len() {
        let n = next_visible(ends, f, i);
        let v = visible_from(ends, f, i);
        let w = visible_from(ends, f, n);
        assert(v == seq![i as usize] + w);
        let o = outermost_from(ends, i);
        let on = outermost_from(ends, n);
        if is_foldable(ends, i) {
            assert(o.contains(i as usize));
            assert(f.contains(i as usize));
            assert(o == on.insert(i as usize));
        } else {
            assert(n == i + 1);
            assert(o == on);
        }
        lemma_outermost_range(ends, n);
        assert forall|k: usize| n <= k implies (f.contains(k) <==> #[trigger] on.contains(k)) by {
            assert(o.contains(k) == on.contains(k));
        }
        lemma_outermost_visible(ends, f, n);
        lemma_visible_from_shape(ends, f, n);
        assert forall|x: usize| #[trigger] o.contains(x) <==> (v.contains(x) && is_foldable(ends, x as int)) by {
            if v.contains(x) && x != i {
                let a = choose|a: int| 0 <= a < v.len() && v[a] == x;
                assert(a > 0 && w[a - 1] == x);
                assert(w.contains(x));
            }
            if w.contains(x) {
                let a = choose|a: int| 0 <= a < w.len() && w[a] == x;
                assert(v[a + 1] == x);
            }
            if x == i {
                assert(v[0] == x);
            }
        }
    }
}

/// "Fold all" folds exactly the groups that stay visible once it is applied:
/// every visible line that opens a group is folded, and nothing inside a
/// folded group is.
pub proof fn law_fold_all_folds_the_visible_groups(ends: Seq<Option<usize>>)
    requires
        ends.len() <= usize::MAX,
    ensures
        forall|x: usize|
            #[trigger] outermost_from(ends, 0).contains(x) <==> (visible_from(
                ends,
                outermost_from(ends, 0),
                0,
            ).contains(x) && is_foldable(ends, x as int)),
{
    lemma_outermost_visible(ends, outermost_from(ends, 0), 0);
}

} // verus!
