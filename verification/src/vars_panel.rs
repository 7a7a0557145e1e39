//! The variables panel: how a value shows (secrets masked), the line about
//! undefined variables, the line about the environment, and which
//! environment "edit" opens.

use vstd::prelude::*;
use crate::text::push_char;
use crate::i18n::{Locale, tr, tr_text};
use crate::quick::{decimal, push_decimal};

verus! {

/// How a variable's value shows: masked when its name looks secret, the
/// panel does not reveal values and there is a value; `（空）` for an empty
/// result.
pub open spec fn shown_value_of(value: Seq<char>, secret: bool, reveal: bool) -> Seq<char> {
    let shown = if secret && !reveal && value.len() > 0 {
        "••••••"@
    } else {
        value
    };
    if shown.len() == 0 {
        "（空）"@
    } else {
        shown
    }
}

/// How a variable's value shows (see [`shown_value_of`]); `secret` says
/// whether the name looks like that of a secret.
pub fn shown_value(value: &str, secret: bool, reveal: bool) -> (r: String)
    ensures
        r@ == shown_value_of(value@, secret, reveal),
{
    proof {
        reveal_strlit("••••••");
        reveal_strlit("（空）");
    }
    let empty = value.unicode_len() == 0;
    if secret && !reveal && !empty {
        String::from_str("••••••")
    } else if empty {
        String::from_str("（空）")
    } else {
        String::from_str(value)
    }
}

/// The names joined with `、`.
pub open spec fn joined(names: Seq<Seq<char>>) -> Seq<char>
    decreases names.len(),
{
    if names.len() == 0 {
        Seq::<char>::empty()
    } else if names.len() == 1 {
        names[0]
    } else {
        joined(names.drop_last()) + seq!['、'] + names.last()
    }
}

/// The head line when variables are undefined: how many, then their names.
pub open spec fn missing_line_of(locale: Locale, names: Seq<Seq<char>>) -> Seq<char> {
    tr_text(locale, "vars.missing"@) + decimal(names.len()) + seq!['：'] + joined(names)
}

/// Names as plain values.
pub open spec fn names_view(v: Seq<String>) -> Seq<Seq<char>> {
    v.map_values(|s: String| s@)
}

/// The head line when variables are undefined (see [`missing_line_of`]).
pub fn missing_line(locale: Locale, names: &[String]) -> (r: String)
    ensures
        r@ == missing_line_of(locale, names_view(names@)),
{
    let ghost nv = names_view(names@);
    let mut out = String::from_str(tr(locale, "vars.missing"));
    push_decimal(&mut out, names.len() as u64);
    push_char(&mut out, '：');
    let ghost head = out@;
    let mut k: usize = 0;
    while k < names.len()
        invariant
            nv == names_view(names@),
            k <= names@.len(),
            out@ == head + joined(nv.take(k as int)),
        decreases names@.len() - k,
    {
        proof {
            assert(nv.take(k + 1).drop_last() =~= nv.take(k as int));
            assert(nv.take(k + 1).last() == names@[k as int]@);
        }
        let ghost before = out@;
        if k > 0 {
            push_char(&mut out, '、');
        }
        out.append(names[k].as_str());
        proof {
            if k == 0 {
                assert(joined(nv.take(1)) == nv.take(1)[0]);
                assert(out@ =~= head + joined(nv.take(1)));
            } else {
                assert(out@ =~= head + joined(nv.take(k + 1)));
            }
        }
        k = k + 1;
    }
    proof {
        assert(nv.take(k as int) =~= nv);
    }
    out
}

/// The line about the environment: its name, and that secrets are masked.
pub fn env_line(locale: Locale, active_name: &str) -> (r: String)
    ensures
        r@ == tr_text(locale, "vars.env"@) + seq!['：'] + active_name@ + " · "@ + tr_text(
            locale,
            "vars.masked_hint"@,
        ),
{
    let mut out = String::from_str(tr(locale, "vars.env"));
    push_char(&mut out, '：');
    out.append(active_name);
    out.append(" · ");
    out.append(tr(locale, "vars.masked_hint"));
    out
}

/// The environment that "edit environment" in the panel opens: the active
/// one, or the base environment when none is active.
pub fn edit_target(active: Option<&str>) -> (r: String)
    ensures
        r@ == match active {
            Some(a) => a@,
            None => "base"@,
        },
{
    match active {
        Some(a) => a.to_string(),
        None => String::from_str("base"),
    }
}

} // verus!
