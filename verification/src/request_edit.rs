//! JSON reformatting for the body editor: a valid body is re-indented; an
//! invalid one is reported with the line and column where parsing stopped,
//! in a note made from the locale's template.

use vstd::prelude::*;
use crate::text::{text_eq, push_char};
use crate::i18n::{Locale, tr, tr_text};
use crate::quick::{decimal, push_decimal};

verus! {

/// The text is one JSON value, as `serde_json::from_str::<serde_json::Value>`
/// decides it.
pub uninterp spec fn parses_as_json(text: Seq<char>) -> bool;

/// The text of a JSON value as `serde_json::to_string_pretty` prints the value
/// that `serde_json::from_str` reads from `text` (two-space indentation).
pub uninterp spec fn json_pretty(text: Seq<char>) -> Seq<char>;

/// Where and why `serde_json::from_str::<serde_json::Value>` stops on `text`:
/// the error's one-based line and column and its `Display` message.
pub uninterp spec fn json_error(text: Seq<char>) -> (usize, usize, Seq<char>);

/// `serde_json::from_str::<serde_json::Value>` on the text, then
/// `serde_json::to_string_pretty` on the value read: the printed text exactly
/// when the text is JSON, else the parse error's line, column and message.
/// Printing a `Value` to memory does not fail (its map keys are strings), so a
/// parsed text always gives `Ok`.
#[verifier::external_body]
fn reformat_json(text: &str) -> (r: Result<String, (usize, usize, String)>)
    ensures
        r is Ok <==> parses_as_json(text@),
        r matches Ok(s) ==> s@ == json_pretty(text@),
        r matches Err(e) ==> (e.0, e.1, e.2@) == json_error(text@),
{
    match serde_json::from_str::<serde_json::Value>(text) {
        Ok(v) => match serde_json::to_string_pretty(&v) {
            Ok(s) => Ok(s),
            Err(e) => Err((e.line(), e.column(), e.to_string())),
        },
        Err(e) => Err((e.line(), e.column(), e.to_string())),
    }
}

/// Reformats JSON text: the re-indented text exactly when it is JSON;
/// otherwise `(line, column, message)` of the parse error (both one-based).
pub fn pretty_json(text: &str) -> (r: Result<String, (usize, usize, String)>)
    ensures
        r is Ok <==> parses_as_json(text@),
        r matches Ok(s) ==> s@ == json_pretty(text@),
        r matches Err(e) ==> (e.0, e.1, e.2@) == json_error(text@),
{
    reformat_json(text)
}

/// `s` with every occurrence of `pat` replaced by `rep`, taken from the left
/// without overlaps (as `str::replace` does for a non-empty pattern).
pub open spec fn replaced(s: Seq<char>, pat: Seq<char>, rep: Seq<char>) -> Seq<char>
    decreases s.len(),
{
    if s.len() == 0 || pat.len() == 0 {
        s
    } else if pat.len() <= s.len() && s.take(pat.len() as int) == pat {
        rep + replaced(s.skip(pat.len() as int), pat, rep)
    } else {
        seq![s[0]] + replaced(s.skip(1), pat, rep)
    }
}

/// `s` with every `pat` replaced by `rep` (see [`replaced`]).
fn replace_all(s: &str, pat: &str, rep: &str) -> (r: String)
    requires
        pat@.len() > 0,
    ensures
        r@ == replaced(s@, pat@, rep@),
{
    let n = s.unicode_len();
    let m = pat.unicode_len();
    let mut out = String::new();
    let mut i: usize = 0;
    proof {
        assert(out@ =~= Seq::<char>::empty());
        assert(s@.skip(0) =~= s@);
    }
    while i < n
        invariant
            n == s@.len(),
            m == pat@.len(),
            m > 0,
            i <= n,
            out@ + replaced(s@.skip(i as int), pat@, rep@) == replaced(s@, pat@, rep@),
        decreases n - i,
    {
        let ghost rest = s@.skip(i as int);
        let hit = m <= n - i && text_eq(s.substring_char(i, i + m), pat);
        if hit {
            proof {
                assert(rest.take(m as int) =~= s@.subrange(i as int, i + m));
                assert(rest.skip(m as int) =~= s@.skip(i + m));
            }
            let ghost before = out@;
            out.append(rep);
            proof {
                assert(out@ + replaced(s@.skip(i + m), pat@, rep@) =~= before + (rep@ + replaced(
                    rest.skip(m as int),
                    pat@,
                    rep@,
                )));
            }
            i = i + m;
        } else {
            proof {
                if m <= n - i {
                    assert(rest.take(m as int) =~= s@.subrange(i as int, i + m));
                }
                assert(rest.skip(1) =~= s@.skip(i + 1));
                assert(rest[0] == s@[i as int]);
            }
            let c = s.get_char(i);
            let ghost before = out@;
            push_char(&mut out, c);
            proof {
                assert(out@ + replaced(s@.skip(i + 1), pat@, rep@) =~= before + (seq![rest[0]] + replaced(
                    rest.skip(1),
                    pat@,
                    rep@,
                )));
            }
            i = i + 1;
        }
    }
    proof {
        assert(s@.skip(n as int) =~= Seq::<char>::empty());
        assert(out@ + Seq::<char>::empty() =~= out@);
    }
    out
}

/// The note under the body editor for invalid JSON: the locale's template
/// with `{line}`, `{col}` and `{msg}` filled in, in that order.
pub open spec fn json_error_text(locale: Locale, line: usize, col: usize, msg: Seq<char>) -> Seq<char> {
    replaced(
        replaced(
            replaced(tr_text(locale, "editor.body.json_error"@), "{line}"@, decimal(line as nat)),
            "{col}"@,
            decimal(col as nat),
        ),
        "{msg}"@,
        msg,
    )
}

/// The note under the body editor for invalid JSON (see [`json_error_text`]).
pub fn json_error_note(locale: Locale, line: usize, col: usize, msg: &str) -> (r: String)
    ensures
        r@ == json_error_text(locale, line, col, msg@),
{
    proof {
        reveal_strlit("{line}");
        reveal_strlit("{col}");
        reveal_strlit("{msg}");
    }
    let mut l = String::new();
    push_decimal(&mut l, line as u64);
    let mut c = String::new();
    push_decimal(&mut c, col as u64);
    proof {
        assert(Seq::<char>::empty() + decimal(line as nat) =~= decimal(line as nat));
        assert(Seq::<char>::empty() + decimal(col as nat) =~= decimal(col as nat));
    }
    let t1 = replace_all(tr(locale, "editor.body.json_error"), "{line}", l.as_str());
    let t2 = replace_all(t1.as_str(), "{col}", c.as_str());
    replace_all(t2.as_str(), "{msg}", msg)
}

} // verus!
