//! Saving a value of the response as an environment variable: the path the
//! dialog starts with, the check of the name, where the variable goes, and
//! the note afterwards.

use vstd::prelude::*;
use vstd::string::StringExecFns;
use crate::text::{trim_str, trimmed, chars_of, char_is_whitespace, is_white, text_eq};
use crate::i18n::{Locale, tr, tr_text};
use crate::quick::{decimal, push_decimal};
use crate::text::push_char;

verus! {

/// A character that a variable name may not hold: white space or a brace
/// (`{{ x }}` with a space inside does not resolve).
pub open spec fn bad_name_char(c: char) -> bool {
    is_white(c) || c == '{' || c == '}'
}

/// What the check decides: `Err(true)` for an empty name, `Err(false)` for a
/// name with white space or braces inside, `Ok` otherwise (after trimming).
pub open spec fn var_name_verdict(name: Seq<char>) -> Result<(), bool> {
    let t = trimmed(name);
    if t.len() == 0 {
        Err(true)
    } else if exists|i: int| 0 <= i < t.len() && bad_name_char(t[i]) {
        Err(false)
    } else {
        Ok(())
    }
}

/// Checks a variable name: not empty once trimmed, and without white space or
/// braces. The error says which.
pub fn check_var_name(name: &str) -> (r: Result<(), String>)
    ensures
        r is Ok <==> var_name_verdict(name@) is Ok,
        r matches Err(m) ==> (var_name_verdict(name@) == Err::<(), bool>(true) && m@
            == "变量名不能为空"@) || (var_name_verdict(name@) == Err::<(), bool>(false) && m@
            == "变量名不能带空格或花括号"@),
{
    let n = trim_str(name);
    let cs = chars_of(n);
    if cs.len() == 0 {
        return Err(String::from_str("变量名不能为空"));
    }
    let mut i: usize = 0;
    while i < cs.len()
        invariant
            cs@ == trimmed(name@),
            i <= cs@.len(),
            forall|k: int| 0 <= k < i ==> !bad_name_char(cs@[k]),
        decreases cs@.len() - i,
    {
        let c = cs[i];
        if char_is_whitespace(c) || c == '{' || c == '}' {
            proof {
                assert(bad_name_char(cs@[i as int]));
            }
            return Err(String::from_str("变量名不能带空格或花括号"));
        }
        i = i + 1;
    }
    Ok(())
}

/// The JSON path the save-variable dialog starts with: the one given (from a
/// line of the response), else the response filter trimmed, else `$` (the
/// whole body) when the filter is blank.
pub open spec fn default_path_of(given: Option<Seq<char>>, filter: Seq<char>) -> Seq<char> {
    match given {
        Some(p) => p,
        None => if trimmed(filter).len() == 0 {
            "$"@
        } else {
            trimmed(filter)
        },
    }
}

/// The JSON path the save-variable dialog starts with (see [`default_path_of`]).
pub fn default_var_path(given: Option<String>, filter: &str) -> (r: String)
    ensures
        r@ == default_path_of(
            match given {
                Some(p) => Some(p@),
                None => None,
            },
            filter@,
        ),
{
    match given {
        Some(p) => p,
        None => {
            let t = trim_str(filter);
            if t.unicode_len() == 0 {
                String::from_str("$")
            } else {
                t.to_string()
            }
        },
    }
}

/// An environment, by what the choice of target reads.
#[derive(Debug, Clone, PartialEq, Eq)]
pub struct EnvRef {
    pub id: String,
    pub name: String,
}

/// The first environment from `k` on whose id is `id`.
pub open spec fn first_env(envs: Seq<EnvRef>, id: Seq<char>, k: int) -> Option<int>
    decreases envs.len() - k,
{
    if 0 <= k < envs.len() {
        if envs[k].id@ == id {
            Some(k)
        } else {
            first_env(envs, id, k + 1)
        }
    } else {
        None
    }
}

/// Where a saved variable goes: the active environment (its index), or the
/// base environment (none) when no environment is active or the active one
/// is gone.
pub open spec fn var_target_of(envs: Seq<EnvRef>, active: Option<Seq<char>>) -> Option<int> {
    match active {
        Some(id) => first_env(envs, id, 0),
        None => None,
    }
}

/// Where a saved variable goes (see [`var_target_of`]): the index of the
/// environment, or none for the base environment.
pub fn var_target(envs: &[EnvRef], active: Option<&str>) -> (r: Option<usize>)
    ensures
        match r {
            Some(k) => var_target_of(envs@, match active { Some(a) => Some(a@), None => None }) == Some(k as int)
                && k < envs@.len(),
            None => var_target_of(envs@, match active { Some(a) => Some(a@), None => None }) is None,
        },
{
    let id = match active {
        Some(a) => a,
        None => {
            return None;
        },
    };
    assert(active == Some(id));
    let mut k: usize = 0;
    while k < envs.len()
        invariant
            active == Some(id),
            k <= envs@.len(),
            first_env(envs@, id@, 0) == first_env(envs@, id@, k as int),
        decreases envs@.len() - k,
    {
        if text_eq(envs[k].id.as_str(), id) {
            proof {
                assert(envs@[k as int].id@ == id@);
                assert(first_env(envs@, id@, k as int) == Some(k as int));
            }
            return Some(k);
        }
        k = k + 1;
    }
    None
}

/// The name of the environment a saved variable goes to (see [`var_target`]).
pub fn var_target_name(envs: &[EnvRef], active: Option<&str>, base_name: &str) -> (r: String)
    ensures
        r@ == match var_target_of(envs@, match active { Some(a) => Some(a@), None => None }) {
            Some(k) => envs@[k].name@,
            None => base_name@,
        },
{
    match var_target(envs, active) {
        Some(k) => envs[k].name.clone(),
        None => base_name.to_string(),
    }
}

/// The note after saving a variable: `{saved}{name}{saved to}{environment}`.
pub fn saved_var_note(locale: Locale, name: &str, env_name: &str) -> (r: String)
    ensures
        r@ == tr_text(locale, "vars.saved"@) + name@ + tr_text(locale, "vars.saved_to"@) + env_name@,
{
    let mut out = String::from_str(tr(locale, "vars.saved"));
    out.append(name);
    out.append(tr(locale, "vars.saved_to"));
    out.append(env_name);
    out
}

/// The preview of the value a variable would get: at most 80 characters, an
/// ellipsis after a cut; when the path matched several values, how many (the
/// first is used).
pub open spec fn var_preview_of(locale: Locale, value: Seq<char>, matches: u64) -> Seq<char> {
    (if value.len() > 80 {
        value.take(80) + seq!['…']
    } else {
        value
    }) + if matches > 1 {
        seq!['（', ' '] + decimal(matches as nat) + tr_text(locale, "vars.matched_first"@)
    } else {
        Seq::<char>::empty()
    }
}

/// The preview of the value a variable would get (see [`var_preview_of`]).
pub fn var_preview(locale: Locale, value: &str, matches: u64) -> (r: String)
    ensures
        r@ == var_preview_of(locale, value@, matches),
{
    let n = value.unicode_len();
    let mut out = if n > 80 {
        let mut t = String::from_str(value.substring_char(0, 80));
        push_char(&mut t, '…');
        proof {
            assert(value@.subrange(0, 80) =~= value@.take(80));
        }
        t
    } else {
        String::from_str(value)
    };
    let ghost head = out@;
    if matches > 1 {
        push_char(&mut out, '（');
        push_char(&mut out, ' ');
        push_decimal(&mut out, matches);
        out.append(tr(locale, "vars.matched_first"));
        proof {
            assert(out@ =~= head + (seq!['（', ' '] + decimal(matches as nat) + tr_text(locale, "vars.matched_first"@)));
        }
    } else {
        proof {
            assert(out@ =~= head + Seq::<char>::empty());
        }
    }
    out
}

} // verus!
