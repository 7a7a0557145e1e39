//! Styled runs of a line: the coloring of a JSON line by token, and the
//! selection highlight laid over it. A run covers a number of bytes of the
//! line; the runs of a line cover it exactly, in order.
//!
//! Styles are ids: the window keeps the fonts and colors they stand for.

use vstd::prelude::*;
use vstd::string::StringSliceAdditionalSpecFns;
use crate::jsonview::{
    tokenize_line, token_color, line_tokens, pieces_bytes, JsonToken, TokKind,
};

verus! {

/// A run: `len` bytes drawn with text style `style`, on `background` when
/// set; `decorated` when underlined or struck through.
#[derive(Debug, Clone, Copy, PartialEq, Eq, Structural)]
pub struct Run {
    pub len: usize,
    pub style: u32,
    pub background: Option<u32>,
    pub decorated: bool,
}

/// The text styles of the JSON token kinds.
#[derive(Debug, Clone, Copy, PartialEq, Eq, Structural)]
pub struct Palette {
    pub fg: u32,
    pub string: u32,
    pub key: u32,
    pub num: u32,
    pub konst: u32,
}

/// The style of a token kind.
pub open spec fn kind_style(p: Palette, fg: u32, kind: TokKind) -> u32 {
    match kind {
        TokKind::Str => p.string,
        TokKind::Key => p.key,
        TokKind::Num => p.num,
        TokKind::Const => p.konst,
        _ => fg,
    }
}

/// Total length of the runs.
pub open spec fn total_len(runs: Seq<Run>) -> int
    decreases runs.len(),
{
    if runs.len() == 0 {
        0
    } else {
        total_len(runs.drop_last()) + runs.last().len
    }
}

/// The runs of a line colored by token: one run per token, with the token
/// kind's style over `base`.
pub open spec fn token_runs(line: &str, base: Run, p: Palette) -> Seq<Run> {
    line_tokens(line).map_values(
        |t: (int, int, TokKind)|
            Run {
                len: (t.1 - t.0) as usize,
                style: kind_style(p, base.style, t.2),
                background: base.background,
                decorated: base.decorated,
            },
    )
}

fn runs_for_tokens(line: &str, base: Run, p: Palette) -> (runs: Vec<Run>)
    ensures
        runs@ == token_runs(line, base, p),
        total_len(runs@) == line.spec_bytes().len(),
        line.spec_bytes().len() == 0 ==> runs@.len() == 0,
{
    let toks = tokenize_line(line);
    let ghost lt = line_tokens(line);
    let ghost want = token_runs(line, base, p);
    proof {
        assert forall|j: int| 0 <= j < toks@.len() implies (#[trigger] toks@[j]).kind == lt[j].2
            && toks@[j].text.spec_bytes().len() == lt[j].1 - lt[j].0 && lt[j].0 < lt[j].1 by {
            assert(toks@[j].text.spec_bytes() == line.spec_bytes().subrange(lt[j].0, lt[j].1));
        }
        if line.spec_bytes().len() == 0 && toks@.len() > 0 {
            assert(toks@[0].text.spec_bytes() == line.spec_bytes().subrange(lt[0].0, lt[0].1));
        }
    }
    let mut runs: Vec<Run> = Vec::new();
    let mut k: usize = 0;
    while k < toks.len()
        invariant
            lt == line_tokens(line),
            want == token_runs(line, base, p),
            want.len() == lt.len(),
            toks@.len() == lt.len(),
            forall|j: int|
                0 <= j < toks@.len() ==> (#[trigger] toks@[j]).kind == lt[j].2
                    && toks@[j].text.spec_bytes().len() == lt[j].1 - lt[j].0 && lt[j].0 < lt[j].1,
            k <= toks@.len(),
            runs@ == want.take(k as int),
            total_len(runs@) == pieces_bytes(toks@.take(k as int)).len(),
        decreases toks@.len() - k,
    {
        let t = toks[k];
        let n = t.text.as_bytes().len();
        let ghost before = runs@;
        let r = Run {
            len: n,
            style: token_color(t.kind, base.style, p.string, p.key, p.num, p.konst),
            background: base.background,
            decorated: base.decorated,
        };
        proof {
            assert(toks@[k as int] == t);
            assert(r == want[k as int]);
        }
        runs.push(r);
        proof {
            assert(runs@ =~= want.take(k + 1));
            assert(runs@.drop_last() == before);
            assert(toks@.take(k + 1).drop_last() =~= toks@.take(k as int));
            assert(toks@.take(k + 1).last() == t);
        }
        k = k + 1;
    }
    proof {
        assert(toks@.take(k as int) =~= toks@);
        assert(want.take(k as int) =~= want);
    }
    runs
}

/// A JSON line as runs for the response body: one run per token, colored by
/// its kind, on no background.
pub fn line_runs(line: &str, p: Palette) -> (runs: Vec<Run>)
    ensures
        runs@ == token_runs(line, Run { len: 0, style: p.fg, background: None, decorated: false }, p),
        total_len(runs@) == line.spec_bytes().len(),
{
    runs_for_tokens(line, Run { len: 0, style: p.fg, background: None, decorated: false }, p)
}

/// A JSON line as runs for the editor: one run per token over the editor's
/// `base` run, colored by kind; an empty line gets one empty run, so that
/// there is always a run.
pub fn editor_runs(line: &str, base: Run, p: Palette) -> (runs: Vec<Run>)
    ensures
        line.spec_bytes().len() > 0 ==> runs@ == token_runs(line, base, p),
        line.spec_bytes().len() == 0 ==> runs@ == seq![Run { len: 0, ..base }],
        total_len(runs@) == line.spec_bytes().len(),
        runs@.len() > 0,
{
    let mut runs = runs_for_tokens(line, base, p);
    if runs.len() == 0 {
        runs.push(Run { len: 0, ..base });
        proof {
            assert(runs@.drop_last() =~= Seq::<Run>::empty());
            assert(total_len(runs@) == total_len(runs@.drop_last()) + runs@.last().len);
        }
    }
    runs
}

/// The highlighted part of run `r`, which starts at byte `start`: the part
/// inside `[from, to)` gets background `color`, the parts before and after
/// keep the run's own; a run outside the range stays whole.
pub open spec fn split_run(r: Run, start: int, from: int, to: int, color: u32) -> Seq<Run> {
    let end = start + r.len;
    let sf = if from > start {
        from
    } else {
        start
    };
    let st = if to < end {
        to
    } else {
        end
    };
    if sf >= st {
        seq![r]
    } else {
        (if sf > start {
            seq![Run { len: (sf - start) as usize, ..r }]
        } else {
            seq![]
        }) + seq![Run { len: (st - sf) as usize, background: Some(color), ..r }] + (if st < end {
            seq![Run { len: (end - st) as usize, ..r }]
        } else {
            seq![]
        })
    }
}

/// The runs from index `k` on, split at the highlight; run `k` starts at
/// byte `start`.
pub open spec fn split_from(runs: Seq<Run>, from: int, to: int, color: u32, k: int, start: int) -> Seq<Run>
    decreases runs.len() - k,
{
    if k >= runs.len() || k < 0 {
        seq![]
    } else {
        split_run(runs[k], start, from, to, color) + split_from(
            runs,
            from,
            to,
            color,
            k + 1,
            start + runs[k].len,
        )
    }
}

/// Two neighbor runs that draw alike, so that one run can stand for both.
pub open spec fn mergeable(a: Run, b: Run) -> bool {
    a.style == b.style && a.background == b.background && !a.decorated && !b.decorated
}

/// `acc` with `r` appended, or folded into its last run when they draw
/// alike.
pub open spec fn merge_into(acc: Seq<Run>, r: Run) -> Seq<Run> {
    if acc.len() > 0 && mergeable(acc.last(), r) {
        acc.drop_last().push(Run { len: (acc.last().len + r.len) as usize, ..acc.last() })
    } else {
        acc.push(r)
    }
}

/// The runs with neighbors that draw alike folded together, left to right
/// (a seam between two backgrounds that are the same would show).
pub open spec fn merged(s: Seq<Run>) -> Seq<Run>
    decreases s.len(),
{
    if s.len() == 0 {
        seq![]
    } else {
        merge_into(merged(s.drop_last()), s.last())
    }
}

/// The runs with the selection `[from, to)` highlighted: nothing changes
/// without a selection or with an empty one.
pub open spec fn selected_runs(runs: Seq<Run>, selection: Option<(usize, usize)>, color: u32) -> Seq<Run> {
    match selection {
        None => runs,
        Some(sel) => if sel.0 >= sel.1 {
            runs
        } else {
            merged(split_from(runs, sel.0 as int, sel.1 as int, color, 0, 0))
        },
    }
}

pub proof fn lemma_total_len_concat(a: Seq<Run>, b: Seq<Run>)
    ensures
        total_len(a + b) == total_len(a) + total_len(b),
    decreases b.len(),
{
    if b.len() > 0 {
        lemma_total_len_concat(a, b.drop_last());
        assert((a + b).drop_last() =~= a + b.drop_last());
    } else {
        assert(a + b =~= a);
    }
}

proof fn lemma_total_len_take(s: Seq<Run>, k: int)
    requires
        0 <= k < s.len(),
    ensures
        total_len(s.take(k + 1)) == total_len(s.take(k)) + s[k].len,
        total_len(s.take(k + 1)) <= total_len(s),
    decreases s.len() - k,
{
    assert(s.take(k + 1).drop_last() =~= s.take(k));
    lemma_total_len_concat(s.take(k + 1), s.skip(k + 1));
    assert(s.take(k + 1) + s.skip(k + 1) =~= s);
    lemma_total_len_nonneg(s.skip(k + 1));
}

proof fn lemma_total_len_nonneg(s: Seq<Run>)
    ensures
        total_len(s) >= 0,
        s.len() > 0 ==> total_len(s) >= s.last().len,
    decreases s.len(),
{
    if s.len() > 0 {
        lemma_total_len_nonneg(s.drop_last());
    }
}

fn can_merge(a: Run, b: Run) -> (r: bool)
    ensures
        r == mergeable(a, b),
{
    let same_bg = match (a.background, b.background) {
        (Some(x), Some(y)) => x == y,
        (None, None) => true,
        _ => false,
    };
    a.style == b.style && same_bg && !a.decorated && !b.decorated
}

/// Lays the selection highlight over the runs of a line: see
/// [`selected_runs`]. The total length stays the same.
pub fn apply_selection(runs: &mut Vec<Run>, selection: Option<(usize, usize)>, color: u32)
    requires
        total_len(old(runs)@) <= usize::MAX,
    ensures
        final(runs)@ == selected_runs(old(runs)@, selection, color),
{
    let (from, to) = match selection {
        None => {
            return;
        },
        Some(sel) => sel,
    };
    if from >= to {
        return;
    }
    let mut src: Vec<Run> = Vec::new();
    std::mem::swap(&mut src, runs);
    let ghost whole = split_from(src@, from as int, to as int, color, 0, 0);
    let mut out: Vec<Run> = Vec::new();
    let mut pos: usize = 0;
    let mut k: usize = 0;
    while k < src.len()
        invariant
            whole == split_from(src@, from as int, to as int, color, 0, 0),
            total_len(src@) <= usize::MAX,
            k <= src@.len(),
            pos == total_len(src@.take(k as int)),
            out@ + split_from(src@, from as int, to as int, color, k as int, pos as int) == whole,
        decreases src@.len() - k,
    {
        let run = src[k];
        proof {
            lemma_total_len_take(src@, k as int);
        }
        let start = pos;
        let end = pos + run.len;
        pos = end;
        let sel_from = if from > start {
            from
        } else {
            start
        };
        let sel_to = if to < end {
            to
        } else {
            end
        };
        let ghost before = out@;
        let ghost piece = split_run(run, start as int, from as int, to as int, color);
        if sel_from >= sel_to {
            out.push(run);
        } else {
            if sel_from > start {
                out.push(Run { len: sel_from - start, ..run });
            }
            out.push(Run { len: sel_to - sel_from, background: Some(color), ..run });
            if sel_to < end {
                out.push(Run { len: end - sel_to, ..run });
            }
        }
        proof {
            assert(out@ =~= before + piece);
            assert(out@ + split_from(src@, from as int, to as int, color, k + 1, pos as int)
                =~= before + split_from(src@, from as int, to as int, color, k as int, start as int));
        }
        k = k + 1;
    }
    proof {
        assert(out@ =~= whole);
        lemma_split_total(src@, from as int, to as int, color, 0, 0);
        assert(src@.skip(0) =~= src@);
    }
    let mut result: Vec<Run> = Vec::new();
    let mut j: usize = 0;
    while j < out.len()
        invariant
            out@ == whole,
            total_len(whole) <= usize::MAX,
            j <= out@.len(),
            result@ == merged(out@.take(j as int)),
            total_len(result@) == total_len(out@.take(j as int)),
        decreases out@.len() - j,
    {
        let r = out[j];
        proof {
            lemma_total_len_take(out@, j as int);
            assert(out@.take(j + 1).drop_last() =~= out@.take(j as int));
            assert(out@.take(j + 1).last() == r);
            lemma_total_len_nonneg(result@);
            lemma_merge_total(result@, r);
        }
        let n = result.len();
        if n > 0 && can_merge(result[n - 1], r) {
            let prev = result[n - 1];
            proof {
                lemma_total_len_nonneg(result@);
            }
            result.set(n - 1, Run { len: prev.len + r.len, ..prev });
            proof {
                assert(result@ =~= merge_into(merged(out@.take(j as int)), r));
            }
        } else {
            result.push(r);
        }
        j = j + 1;
    }
    proof {
        assert(out@.take(j as int) =~= out@);
    }
    *runs = result;
}

proof fn lemma_merge_total(acc: Seq<Run>, r: Run)
    requires
        acc.len() > 0 ==> acc.last().len + r.len <= usize::MAX,
    ensures
        total_len(merge_into(acc, r)) == total_len(acc) + r.len,
{
    if acc.len() > 0 && mergeable(acc.last(), r) {
        let m = merge_into(acc, r);
        assert(m.drop_last() =~= acc.drop_last());
    } else {
        assert(acc.push(r).drop_last() =~= acc);
    }
}

proof fn lemma_one_total(x: Run)
    ensures
        total_len(seq![x]) == x.len,
{
    assert(seq![x].drop_last() =~= Seq::<Run>::empty());
    assert(total_len(Seq::<Run>::empty()) == 0);
    assert(seq![x].last() == x);
    assert(total_len(seq![x]) == total_len(seq![x].drop_last()) + seq![x].last().len);
}

proof fn lemma_split_run_total(r: Run, start: int, from: int, to: int, color: u32)
    ensures
        total_len(split_run(r, start, from, to, color)) == r.len,
{
    let end = start + r.len;
    let sf = if from > start {
        from
    } else {
        start
    };
    let st = if to < end {
        to
    } else {
        end
    };
    if sf < st {
        let a: Seq<Run> = if sf > start {
            seq![Run { len: (sf - start) as usize, ..r }]
        } else {
            seq![]
        };
        let b: Seq<Run> = seq![Run { len: (st - sf) as usize, background: Some(color), ..r }];
        let c: Seq<Run> = if st < end {
            seq![Run { len: (end - st) as usize, ..r }]
        } else {
            seq![]
        };
        assert(split_run(r, start, from, to, color) == a + b + c);
        lemma_total_len_concat(a + b, c);
        lemma_total_len_concat(a, b);
        lemma_one_total(Run { len: (st - sf) as usize, background: Some(color), ..r });
        if sf > start {
            lemma_one_total(Run { len: (sf - start) as usize, ..r });
        }
        if st < end {
            lemma_one_total(Run { len: (end - st) as usize, ..r });
        }
        assert(total_len(a) == sf - start);
        assert(total_len(c) == end - st);
    } else {
        lemma_one_total(r);
    }
}

proof fn lemma_split_total(runs: Seq<Run>, from: int, to: int, color: u32, k: int, start: int)
    requires
        0 <= k <= runs.len(),
    ensures
        total_len(split_from(runs, from, to, color, k, start)) == total_len(runs.skip(k)),
    decreases runs.len() - k,
{
    if k < runs.len() {
        lemma_split_total(runs, from, to, color, k + 1, start + runs[k].len);
        lemma_split_run_total(runs[k], start, from, to, color);
        lemma_total_len_concat(
            split_run(runs[k], start, from, to, color),
            split_from(runs, from, to, color, k + 1, start + runs[k].len),
        );
        lemma_total_len_concat(seq![runs[k]], runs.skip(k + 1));
        assert(seq![runs[k]] + runs.skip(k + 1) =~= runs.skip(k));
        lemma_one_total(runs[k]);
    } else {
        assert(runs.skip(k) =~= Seq::<Run>::empty());
    }
}

proof fn lemma_merged_total(s: Seq<Run>)
    requires
        total_len(s) <= usize::MAX,
    ensures
        total_len(merged(s)) == total_len(s),
    decreases s.len(),
{
    if s.len() > 0 {
        lemma_total_len_nonneg(s.drop_last());
        lemma_merged_total(s.drop_last());
        lemma_total_len_nonneg(merged(s.drop_last()));
        lemma_merge_total(merged(s.drop_last()), s.last());
    }
}

/// Highlighting a selection keeps the total length of the runs: the line is
/// still covered exactly.
pub proof fn law_selection_keeps_length(runs: Seq<Run>, selection: Option<(usize, usize)>, color: u32)
    requires
        total_len(runs) <= usize::MAX,
    ensures
        total_len(selected_runs(runs, selection, color)) == total_len(runs),
{
    if let Some(sel) = selection {
        if sel.0 < sel.1 {
            lemma_split_total(runs, sel.0 as int, sel.1 as int, color, 0, 0);
            assert(runs.skip(0) =~= runs);
            lemma_merged_total(split_from(runs, sel.0 as int, sel.1 as int, color, 0, 0));
        }
    }
}

/// How byte `p` of the line is drawn: the style, background and decoration
/// of the run that covers it.
pub open spec fn look(runs: Seq<Run>, p: int) -> Option<(u32, Option<u32>, bool)>
    decreases runs.len(),
{
    if runs.len() == 0 {
        None
    } else if p < runs[0].len {
        Some((runs[0].style, runs[0].background, runs[0].decorated))
    } else {
        look(runs.drop_first(), p - runs[0].len)
    }
}

proof fn lemma_total_len_front(s: Seq<Run>)
    requires
        s.len() > 0,
    ensures
        total_len(s) == s[0].len + total_len(s.drop_first()),
    decreases s.len(),
{
    lemma_total_len_concat(seq![s[0]], s.drop_first());
    assert(seq![s[0]] + s.drop_first() =~= s);
    lemma_one_total(s[0]);
}

proof fn lemma_look_concat(a: Seq<Run>, b: Seq<Run>, p: int)
    requires
        0 <= p,
    ensures
        p < total_len(a) ==> look(a + b, p) == look(a, p),
        p >= total_len(a) ==> look(a + b, p) == look(b, p - total_len(a)),
    decreases a.len(),
{
    if a.len() == 0 {
        assert(a + b =~= b);
        assert(total_len(a) == 0);
    } else {
        lemma_total_len_front(a);
        lemma_total_len_nonneg(a.drop_first());
        assert((a + b)[0] == a[0]);
        assert((a + b).drop_first() =~= a.drop_first() + b);
        if p >= a[0].len {
            lemma_look_concat(a.drop_first(), b, p - a[0].len);
        }
    }
}

/// How byte `p` is drawn once the selection `[from, to)` is highlighted.
pub open spec fn painted(l: Option<(u32, Option<u32>, bool)>, p: int, from: int, to: int, color: u32) -> Option<(u32, Option<u32>, bool)> {
    match l {
        Some(x) => Some((x.0, if from <= p < to {
            Some(color)
        } else {
            x.1
        }, x.2)),
        None => None,
    }
}

proof fn lemma_look_one(x: Run, p: int)
    requires
        0 <= p < x.len,
    ensures
        look(seq![x], p) == Some((x.style, x.background, x.decorated)),
{
}

proof fn lemma_look_split_run(r: Run, start: int, from: int, to: int, color: u32, p: int)
    requires
        start <= p < start + r.len,
    ensures
        look(split_run(r, start, from, to, color), p - start) == painted(
            Some((r.style, r.background, r.decorated)),
            p,
            from,
            to,
            color,
        ),
{
    let end = start + r.len;
    let sf = if from > start {
        from
    } else {
        start
    };
    let st = if to < end {
        to
    } else {
        end
    };
    if sf < st {
        let a: Seq<Run> = if sf > start {
            seq![Run { len: (sf - start) as usize, ..r }]
        } else {
            seq![]
        };
        let bx = Run { len: (st - sf) as usize, background: Some(color), ..r };
        let b: Seq<Run> = seq![bx];
        let c: Seq<Run> = if st < end {
            seq![Run { len: (end - st) as usize, ..r }]
        } else {
            seq![]
        };
        assert(split_run(r, start, from, to, color) == a + b + c);
        lemma_one_total(bx);
        if sf > start {
            lemma_one_total(Run { len: (sf - start) as usize, ..r });
        }
        assert(total_len(a) == sf - start);
        lemma_total_len_concat(a, b);
        let q = p - start;
        lemma_look_concat(a + b, c, q);
        lemma_look_concat(a, b, q);
        if q < sf - start {
            lemma_look_one(Run { len: (sf - start) as usize, ..r }, q);
        } else if q < st - start {
            lemma_look_one(bx, q - (sf - start));
        } else {
            lemma_look_one(Run { len: (end - st) as usize, ..r }, q - (st - start));
        }
    } else {
        lemma_look_one(r, p - start);
    }
}

proof fn lemma_look_split_from(runs: Seq<Run>, from: int, to: int, color: u32, k: int, start: int, p: int)
    requires
        0 <= k <= runs.len(),
        start <= p < start + total_len(runs.skip(k)),
    ensures
        look(split_from(runs, from, to, color, k, start), p - start) == painted(
            look(runs.skip(k), p - start),
            p,
            from,
            to,
            color,
        ),
    decreases runs.len() - k,
{
    if k < runs.len() {
        let r = runs[k];
        let rest = split_from(runs, from, to, color, k + 1, start + r.len);
        lemma_total_len_front(runs.skip(k));
        assert(runs.skip(k)[0] == r);
        assert(runs.skip(k).drop_first() =~= runs.skip(k + 1));
        lemma_split_run_total(r, start, from, to, color);
        lemma_look_concat(split_run(r, start, from, to, color), rest, p - start);
        if p < start + r.len {
            lemma_look_split_run(r, start, from, to, color, p);
        } else {
            lemma_look_split_from(runs, from, to, color, k + 1, start + r.len, p);
        }
    } else {
        assert(runs.skip(k) =~= Seq::<Run>::empty());
    }
}

proof fn lemma_look_push(s: Seq<Run>, r: Run, p: int)
    requires
        0 <= p,
    ensures
        p < total_len(s) ==> look(s.push(r), p) == look(s, p),
        total_len(s) <= p ==> look(s.push(r), p) == look(seq![r], p - total_len(s)),
{
    lemma_look_concat(s, seq![r], p);
    assert(s + seq![r] =~= s.push(r));
}

proof fn lemma_look_merge_into(acc: Seq<Run>, r: Run, p: int)
    requires
        0 <= p < total_len(acc) + r.len,
        acc.len() > 0 ==> acc.last().len + r.len <= usize::MAX,
    ensures
        look(merge_into(acc, r), p) == look(acc.push(r), p),
{
    if acc.len() > 0 && mergeable(acc.last(), r) {
        let front = acc.drop_last();
        let last = acc.last();
        let m = Run { len: (last.len + r.len) as usize, ..last };
        assert(acc =~= front.push(last));
        assert(total_len(acc) == total_len(front) + last.len);
        lemma_total_len_nonneg(front);
        lemma_look_push(front, m, p);
        lemma_look_push(acc, r, p);
        lemma_look_push(front, last, p);
        if p >= total_len(front) {
            lemma_look_one(m, p - total_len(front));
            if p < total_len(acc) {
                lemma_look_one(last, p - total_len(front));
            } else {
                lemma_look_one(r, p - total_len(acc));
            }
        }
    }
}

proof fn lemma_look_merged(s: Seq<Run>, p: int)
    requires
        0 <= p < total_len(s),
        total_len(s) <= usize::MAX,
    ensures
        look(merged(s), p) == look(s, p),
    decreases s.len(),
{
    if s.len() > 0 {
        let front = s.drop_last();
        let r = s.last();
        assert(s =~= front.push(r));
        lemma_total_len_nonneg(front);
        lemma_merged_total(front);
        lemma_total_len_nonneg(merged(front));
        lemma_look_merge_into(merged(front), r, p);
        lemma_look_push(merged(front), r, p);
        lemma_look_push(front, r, p);
        if p < total_len(front) {
            lemma_look_merged(front, p);
        }
    }
}

/// Highlighting `[from, to)` gives exactly the bytes in that range the
/// highlight background; every byte keeps its style and decoration, and the
/// bytes outside the range keep their background.
pub proof fn law_selection_paints_exactly(runs: Seq<Run>, from: usize, to: usize, color: u32, p: int)
    requires
        total_len(runs) <= usize::MAX,
        from < to,
        0 <= p < total_len(runs),
    ensures
        look(selected_runs(runs, Some((from, to)), color), p) == painted(look(runs, p), p, from as int, to as int, color),
{
    let split = split_from(runs, from as int, to as int, color, 0, 0);
    assert(runs.skip(0) =~= runs);
    lemma_split_total(runs, from as int, to as int, color, 0, 0);
    lemma_look_split_from(runs, from as int, to as int, color, 0, 0, p);
    lemma_look_merged(split, p);
}

/// No two neighbors among `s` draw alike.
pub open spec fn no_seam(s: Seq<Run>) -> bool {
    forall|k: int| 0 <= k < s.len() - 1 ==> !mergeable(#[trigger] s[k], s[k + 1])
}

proof fn lemma_merged_no_seam(s: Seq<Run>)
    ensures
        no_seam(merged(s)),
    decreases s.len(),
{
    if s.len() > 0 {
        lemma_merged_no_seam(s.drop_last());
        let m = merged(s.drop_last());
        let x = s.last();
        let r = merge_into(m, x);
        if m.len() > 0 && mergeable(m.last(), x) {
            let y = Run { len: (m.last().len + x.len) as usize, ..m.last() };
            assert(r == m.drop_last().push(y));
            assert forall|k: int| 0 <= k < r.len() - 1 implies !mergeable(#[trigger] r[k], r[k + 1]) by {
                assert(r[k] == m[k]);
                if k + 1 < r.len() - 1 {
                    assert(r[k + 1] == m[k + 1]);
                } else {
                    assert(!mergeable(m[k], m[k + 1]));
                }
            }
        } else {
            assert forall|k: int| 0 <= k < r.len() - 1 implies !mergeable(#[trigger] r[k], r[k + 1]) by {
                assert(r[k] == m[k]);
                if k + 1 < m.len() {
                    assert(r[k + 1] == m[k + 1]);
                }
            }
        }
    }
}

/// Without a selection, or with an empty one, the runs stay as they are.
pub proof fn law_no_selection_changes_nothing(runs: Seq<Run>, from: usize, to: usize, color: u32)
    ensures
        selected_runs(runs, None, color) == runs,
        from >= to ==> selected_runs(runs, Some((from, to)), color) == runs,
{
}

/// After highlighting a selection, no two neighbor runs draw alike: runs that
/// would (same style and background, no decoration) have been joined.
pub proof fn law_selection_leaves_no_seam(runs: Seq<Run>, from: usize, to: usize, color: u32)
    requires
        from < to,
    ensures
        no_seam(selected_runs(runs, Some((from, to)), color)),
{
    lemma_merged_no_seam(split_from(runs, from as int, to as int, color, 0, 0));
}

} // verus!
