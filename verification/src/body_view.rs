//! Which form the response body is shown in, and its text cut into lines.
//! Rendering is skipped for a huge body unless the user asks for it; an
//! explicit filter always runs.

use vstd::prelude::*;
use crate::text::{trim_str, trimmed, chars_of, push_char};
use crate::jsonview::MAX_RENDER_BYTES;
use crate::i18n::{Locale, tr, tr_text};

verus! {

/// How the response body is shown.
#[derive(Debug, Clone, PartialEq, Eq)]
pub enum BodyMode {
    /// Too large to render unasked: a notice instead.
    TooBig,
    /// The result of this (trimmed) JSON filter.
    Filter(String),
    /// Re-indented when the body is JSON.
    Pretty,
    /// As it came.
    Raw,
}

/// How a body of `len` bytes is shown: a filter that is not blank always
/// runs; otherwise a body over the render limit is skipped unless forced;
/// otherwise pretty or raw, as chosen.
pub open spec fn body_mode_of(len: usize, filter: Seq<char>, pretty: bool, force_full: bool) -> (bool, Option<Seq<char>>) {
    let f = trimmed(filter);
    if !force_full && f.len() == 0 && len > MAX_RENDER_BYTES {
        (true, None)
    } else if f.len() > 0 {
        (false, Some(f))
    } else {
        (false, None)
    }
}

/// How the body is shown: see [`body_mode_of`]; without a filter and within
/// the limit, `Pretty` or `Raw` as `pretty` says.
pub fn body_mode(body_len: usize, filter: &str, pretty: bool, force_full: bool) -> (r: BodyMode)
    ensures
        body_mode_of(body_len, filter@, pretty, force_full).0 <==> r == BodyMode::TooBig,
        body_mode_of(body_len, filter@, pretty, force_full).1 matches Some(f) ==> (r matches BodyMode::Filter(g) && g@ == f),
        (!body_mode_of(body_len, filter@, pretty, force_full).0 && body_mode_of(body_len, filter@, pretty, force_full).1 is None)
            ==> r == (if pretty {
            BodyMode::Pretty
        } else {
            BodyMode::Raw
        }),
{
    let f = trim_str(filter);
    let blank = f.unicode_len() == 0;
    if !force_full && blank && body_len > MAX_RENDER_BYTES {
        BodyMode::TooBig
    } else if !blank {
        BodyMode::Filter(String::from_str(f))
    } else if pretty {
        BodyMode::Pretty
    } else {
        BodyMode::Raw
    }
}

/// Index of the first `\n` in `s` from `i` on.
pub open spec fn newline_from(s: Seq<char>, i: int) -> Option<int>
    decreases s.len() - i,
{
    if 0 <= i < s.len() {
        if s[i] == '\n' {
            Some(i)
        } else {
            newline_from(s, i + 1)
        }
    } else {
        None
    }
}

/// A line without the `\r` of a `\r\n` ending.
pub open spec fn without_cr(l: Seq<char>) -> Seq<char> {
    if l.len() > 0 && l.last() == '\r' {
        l.drop_last()
    } else {
        l
    }
}

/// The lines of `s` from `i` on, as `str::lines` gives them: cut after each
/// `\n`, the `\n` (and a `\r` before it) dropped; a last line without `\n`
/// kept as it is; no empty line after a final `\n`.
pub open spec fn lines_from(s: Seq<char>, i: int) -> Seq<Seq<char>>
    decreases s.len() - i,
{
    if i < 0 || i >= s.len() {
        seq![]
    } else {
        proof {
            lemma_newline_from(s, i);
        }
        match newline_from(s, i) {
            Some(j) => seq![without_cr(s.subrange(i, j))] + lines_from(s, j + 1),
            None => seq![s.subrange(i, s.len() as int)],
        }
    }
}

pub proof fn lemma_newline_from(s: Seq<char>, i: int)
    requires
        0 <= i,
    ensures
        newline_from(s, i) matches Some(j) ==> i <= j < s.len() && s[j] == '\n' && forall|k: int| i <= k < j ==> s[k] != '\n',
        newline_from(s, i) is None ==> forall|k: int| i <= k < s.len() ==> s[k] != '\n',
    decreases s.len() - i,
{
    if i < s.len() && s[i] != '\n' {
        lemma_newline_from(s, i + 1);
    }
}

/// `s[from..to]` as a new string.
fn collect_range(cs: &Vec<char>, from: usize, to: usize) -> (r: String)
    requires
        from <= to <= cs@.len(),
    ensures
        r@ == cs@.subrange(from as int, to as int),
{
    let mut out = String::new();
    let mut k = from;
    while k < to
        invariant
            from <= k <= to <= cs@.len(),
            out@ == cs@.subrange(from as int, k as int),
        decreases to - k,
    {
        push_char(&mut out, cs[k]);
        proof {
            assert(cs@.subrange(from as int, k + 1) =~= cs@.subrange(from as int, k as int).push(cs@[k as int]));
        }
        k = k + 1;
    }
    out
}

/// The lines of a text: see [`lines_from`].
pub fn text_lines(text: &str) -> (r: Vec<String>)
    ensures
        r@.map_values(|l: String| l@) == lines_from(text@, 0),
{
    let cs = chars_of(text);
    let n = cs.len();
    let mut out: Vec<String> = Vec::new();
    let mut i: usize = 0;
    while i < n
        invariant
            cs@ == text@,
            n == cs@.len(),
            i <= n,
            out@.map_values(|l: String| l@) + lines_from(text@, i as int) == lines_from(text@, 0),
        decreases n - i,
    {
        let mut j = i;
        while j < n && cs[j] != '\n'
            invariant
                i <= j <= n,
                n == cs@.len(),
                forall|k: int| i <= k < j ==> cs@[k] != '\n',
            decreases n - j,
        {
            j = j + 1;
        }
        proof {
            lemma_newline_from(text@, i as int);
            if j < n {
                assert(newline_from(text@, i as int) == Some(j as int)) by {
                    if newline_from(text@, i as int) != Some(j as int) {
                        let m = newline_from(text@, i as int)->0;
                        if m < j {
                            assert(cs@[m] != '\n');
                        }
                    }
                }
            } else {
                assert(newline_from(text@, i as int) is None) by {
                    if newline_from(text@, i as int) is Some {
                        let m = newline_from(text@, i as int)->0;
                        assert(cs@[m] != '\n');
                    }
                }
            }
        }
        let ghost before = out@.map_values(|l: String| l@);
        if j < n {
            let end = if j > i && cs[j - 1] == '\r' {
                j - 1
            } else {
                j
            };
            let line = collect_range(&cs, i, end);
            out.push(line);
            proof {
                assert(without_cr(text@.subrange(i as int, j as int)) =~= text@.subrange(i as int, end as int));
                assert(out@.map_values(|l: String| l@) =~= before.push(text@.subrange(i as int, end as int)));
                assert(lines_from(text@, i as int) == seq![text@.subrange(i as int, end as int)] + lines_from(text@, j + 1));
                assert(out@.map_values(|l: String| l@) + lines_from(text@, j + 1) =~= before + lines_from(text@, i as int));
            }
            i = j + 1;
        } else {
            let line = collect_range(&cs, i, n);
            out.push(line);
            proof {
                assert(out@.map_values(|l: String| l@) =~= before.push(text@.subrange(i as int, n as int)));
                assert(lines_from(text@, n as int) =~= Seq::<Seq<char>>::empty());
                assert(out@.map_values(|l: String| l@) + lines_from(text@, n as int) =~= before + lines_from(text@, i as int));
            }
            i = n;
        }
    }
    proof {
        assert(lines_from(text@, i as int) =~= Seq::<Seq<char>>::empty());
        assert(out@.map_values(|l: String| l@) + Seq::<Seq<char>>::empty() =~= out@.map_values(|l: String| l@));
    }
    out
}

/// A query result by its views: the number of hits and their printed text,
/// or the error message.
pub open spec fn query_view(q: Result<(usize, String), String>) -> Result<(usize, Seq<char>), Seq<char>> {
    match q {
        Ok((n, t)) => Ok((n, t@)),
        Err(e) => Err(e@),
    }
}

/// What a JSON filter shows, as (lines, whether they are JSON, notice): a body
/// that is not JSON, a query that fails and a query without hits each give no
/// lines and a notice; hits give the lines of their printed text, as JSON.
pub open spec fn filter_view_of(
    locale: Locale,
    parsed: bool,
    query: Result<(usize, Seq<char>), Seq<char>>,
) -> (Seq<Seq<char>>, bool, Option<Seq<char>>) {
    if !parsed {
        (seq![], false, Some(tr_text(locale, "response.filter.not_json"@)))
    } else {
        match query {
            Err(e) => (seq![], false, Some(tr_text(locale, "response.filter.bad"@) + ": "@ + e)),
            Ok((n, text)) => if n == 0 {
                (seq![], false, Some(tr_text(locale, "response.filter.empty"@)))
            } else {
                (lines_from(text, 0), true, None)
            },
        }
    }
}

/// The view of a filtered body from what the outside steps gave: `parsed`
/// tells whether the body read as JSON; `query` is the path query's outcome,
/// the number of hits with the hits printed as one re-indented JSON array, or
/// the query's error message (it is not looked at when `parsed` is false).
pub fn filter_view(locale: Locale, parsed: bool, query: Result<(usize, String), String>) -> (r: (
    Vec<String>,
    bool,
    Option<String>,
))
    ensures
        r.0@.map_values(|l: String| l@) == filter_view_of(locale, parsed, query_view(query)).0,
        r.1 == filter_view_of(locale, parsed, query_view(query)).1,
        r.2 is Some <==> filter_view_of(locale, parsed, query_view(query)).2 is Some,
        r.2 matches Some(m) ==> m@ == filter_view_of(locale, parsed, query_view(query)).2->0,
{
    if !parsed {
        let note = String::from_str(tr(locale, "response.filter.not_json"));
        let none: Vec<String> = Vec::new();
        proof {
            assert(none@.map_values(|l: String| l@) =~= Seq::<Seq<char>>::empty());
        }
        return (none, false, Some(note));
    }
    match query {
        Err(e) => {
            let mut note = String::from_str(tr(locale, "response.filter.bad"));
            note.append(": ");
            note.append(e.as_str());
            let none: Vec<String> = Vec::new();
            proof {
                assert(none@.map_values(|l: String| l@) =~= Seq::<Seq<char>>::empty());
            }
            (none, false, Some(note))
        },
        Ok((n, text)) => {
            if n == 0 {
                let note = String::from_str(tr(locale, "response.filter.empty"));
                let none: Vec<String> = Vec::new();
                proof {
                    assert(none@.map_values(|l: String| l@) =~= Seq::<Seq<char>>::empty());
                }
                (none, false, Some(note))
            } else {
                (text_lines(text.as_str()), true, None)
            }
        },
    }
}

} // verus!
