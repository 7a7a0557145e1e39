//! Importing: the name of a request imported from a curl command, the
//! collection it lands in, and the report after importing a file.

use vstd::prelude::*;
use crate::text::push_char;
use crate::model::{Collection, Selection, SelectionV, cols_view};
use crate::i18n::{Locale, tr, tr_text};
use crate::quick::{decimal, push_decimal};

verus! {

/// Index of the first `/` in `s` from `k` on.
pub open spec fn slash_from(s: Seq<char>, k: int) -> Option<int>
    decreases s.len() - k,
{
    if 0 <= k < s.len() {
        if s[k] == '/' {
            Some(k)
        } else {
            slash_from(s, k + 1)
        }
    } else {
        None
    }
}

/// The host part of a URL as the import takes it: split at `/` at most
/// twice, the third part up to its first `/` (`example.com` for
/// `https://example.com/a/b`); empty when the URL has fewer than two `/`.
pub open spec fn host_part(url: Seq<char>) -> Seq<char> {
    match slash_from(url, 0) {
        None => Seq::<char>::empty(),
        Some(a) => match slash_from(url, a + 1) {
            None => Seq::<char>::empty(),
            Some(b) => {
                let rest = url.skip(b + 1);
                match slash_from(rest, 0) {
                    Some(c) => rest.take(c),
                    None => rest,
                }
            },
        },
    }
}

proof fn lemma_slash_in(s: Seq<char>, k: int)
    requires
        0 <= k,
    ensures
        slash_from(s, k) matches Some(i) ==> k <= i < s.len() && s[i] == '/',
    decreases s.len() - k,
{
    if k < s.len() {
        lemma_slash_in(s, k + 1);
    }
}

fn find_slash(s: &str, from: usize) -> (r: Option<usize>)
    ensures
        match r {
            Some(i) => slash_from(s@, from as int) == Some(i as int),
            None => slash_from(s@, from as int) is None,
        },
{
    let n = s.unicode_len();
    let mut k = from;
    while k < n
        invariant
            n == s@.len(),
            from <= k,
            slash_from(s@, from as int) == slash_from(s@, k as int),
        decreases n - k,
    {
        if s.get_char(k) == '/' {
            return Some(k);
        }
        k = k + 1;
    }
    None
}

/// The host part of `url` (see [`host_part`]).
pub fn url_host(url: &str) -> (r: &str)
    ensures
        r@ == host_part(url@),
{
    let n = url.unicode_len();
    let a = match find_slash(url, 0) {
        Some(a) => a,
        None => {
            proof {
                reveal_strlit("");
            }
            return "";
        },
    };
    proof {
        lemma_slash_in(url@, 0);
    }
    let b = match find_slash(url, a + 1) {
        Some(b) => b,
        None => {
            proof {
                reveal_strlit("");
            }
            return "";
        },
    };
    proof {
        lemma_slash_in(url@, a + 1);
    }
    let rest = url.substring_char(b + 1, n);
    proof {
        assert(rest@ =~= url@.skip(b + 1));
        lemma_slash_in(rest@, 0);
    }
    match find_slash(rest, 0) {
        Some(c) => {
            let host = rest.substring_char(0, c);
            proof {
                assert(host@ =~= rest@.take(c as int));
            }
            host
        },
        None => rest,
    }
}

/// The name of a request imported from a curl command: its method, a space,
/// and the host part of its URL.
pub fn curl_request_name(method: &str, url: &str) -> (r: String)
    ensures
        r@ == method@ + seq![' '] + host_part(url@),
{
    let mut name = String::from_str(method);
    push_char(&mut name, ' ');
    name.append(url_host(url));
    name
}

/// The collection an imported curl request lands in: the selected collection,
/// else the first one; none when there is no collection (a new one is then
/// made).
pub open spec fn import_target_of(sel: Option<SelectionV>, first: Option<Seq<char>>) -> Option<Seq<char>> {
    match sel {
        Some(SelectionV::Collection(id)) => Some(id),
        _ => first,
    }
}

/// The collection id an imported curl request lands in (see
/// [`import_target_of`]).
pub fn import_target(sel: &Option<Selection>, cols: &[Collection]) -> (r: Option<String>)
    ensures
        r matches Some(id) ==> import_target_of(
            match *sel {
                Some(s) => Some(s@),
                None => None,
            },
            if cols@.len() > 0 {
                Some(cols_view(cols@)[0].id)
            } else {
                None
            },
        ) == Some(id@),
        r is None ==> import_target_of(
            match *sel {
                Some(s) => Some(s@),
                None => None,
            },
            if cols@.len() > 0 {
                Some(cols_view(cols@)[0].id)
            } else {
                None
            },
        ) is None,
{
    match sel {
        Some(Selection::Collection(id)) => Some(id.clone()),
        _ => {
            if cols.len() > 0 {
                Some(cols[0].id.clone())
            } else {
                None
            }
        },
    }
}

/// The report after importing a file: `{done}{collection}｜{format}｜{n}
/// {requests}｜{m} {groups}`.
pub open spec fn import_report_of(locale: Locale, name: Seq<char>, format: Seq<char>, requests: u64, groups: u64) -> Seq<char> {
    tr_text(locale, "import.done"@) + name + seq!['｜'] + format + seq!['｜'] + decimal(requests as nat)
        + seq![' '] + tr_text(locale, "import.requests"@) + seq!['｜'] + decimal(groups as nat) + seq![' ']
        + tr_text(locale, "import.groups"@)
}

/// The report after importing a file (see [`import_report_of`]).
pub fn import_report(locale: Locale, name: &str, format: &str, requests: u64, groups: u64) -> (r: String)
    ensures
        r@ == import_report_of(locale, name@, format@, requests, groups),
{
    let mut out = String::from_str(tr(locale, "import.done"));
    out.append(name);
    push_char(&mut out, '｜');
    out.append(format);
    push_char(&mut out, '｜');
    push_decimal(&mut out, requests);
    push_char(&mut out, ' ');
    out.append(tr(locale, "import.requests"));
    push_char(&mut out, '｜');
    push_decimal(&mut out, groups);
    push_char(&mut out, ' ');
    out.append(tr(locale, "import.groups"));
    proof {
        assert(out@ =~= import_report_of(locale, name@, format@, requests, groups));
    }
    out
}

} // verus!
