//! The default file name for saving a response:
//! `<request name>-<time stamp>.<extension guessed from the Content-Type>`.
//! Characters that file names cannot hold (`/`, `:`, spaces, ...) become `-`.

use vstd::prelude::*;
use vstd::string::{StrSliceExecFns, StringExecFns, StringSliceAdditionalSpecFns};
use crate::text::{contains_text, occurs_at, push_char, chars_of};

verus! {

/// Whether a character beyond ASCII has the Unicode `Alphabetic` or
/// `Numeric` property.
pub uninterp spec fn unicode_alnum(c: char) -> bool;

/// Whether `c` is alphabetic or numeric, as `char::is_alphanumeric` decides
/// it: among ASCII exactly the digits and the Latin letters.
pub open spec fn is_alnum(c: char) -> bool {
    if (c as u32) < 128 {
        ('0' <= c <= '9') || ('a' <= c <= 'z') || ('A' <= c <= 'Z')
    } else {
        unicode_alnum(c)
    }
}

/// `char::is_alphanumeric`: Unicode `Alphabetic` or `Numeric`, which among
/// ASCII characters are the digits and the Latin letters.
#[verifier::external_body]
fn char_is_alphanumeric(c: char) -> (r: bool)
    ensures
        (c as u32) < 128 ==> r == (('0' <= c <= '9') || ('a' <= c <= 'z') || ('A' <= c <= 'Z')),
        (c as u32) >= 128 ==> r == unicode_alnum(c),
{
    c.is_alphanumeric()
}

/// The character stays in a file name: a letter or digit, or anything from
/// the CJK blocks on (U+2E80 and above), which stays as it is.
pub open spec fn keeps(c: char) -> bool {
    is_alnum(c) || (c as u32) > 0x2e80
}

/// The name characters up to `n`, each run of characters that do not stay
/// turned into one `-`.
pub open spec fn sanitized(s: Seq<char>, n: int) -> Seq<char>
    decreases n,
{
    if n <= 0 {
        seq![]
    } else {
        let acc = sanitized(s, n - 1);
        let c = s[n - 1];
        if keeps(c) {
            acc.push(c)
        } else if acc.len() > 0 && acc.last() == '-' {
            acc
        } else {
            acc.push('-')
        }
    }
}

/// Number of `-` at the front of `s`.
pub open spec fn leading_dashes(s: Seq<char>) -> nat
    decreases s.len(),
{
    if s.len() > 0 && s[0] == '-' {
        1 + leading_dashes(s.drop_first())
    } else {
        0
    }
}

/// Number of `-` at the back of `s`.
pub open spec fn trailing_dashes(s: Seq<char>) -> nat
    decreases s.len(),
{
    if s.len() > 0 && s.last() == '-' {
        1 + trailing_dashes(s.drop_last())
    } else {
        0
    }
}

/// `s` without `-` at either end.
pub open spec fn dashes_trimmed(s: Seq<char>) -> Seq<char> {
    let rest = s.skip(leading_dashes(s) as int);
    rest.take(rest.len() - trailing_dashes(rest))
}

/// The name part: the first 60 characters of the request name, sanitized,
/// without `-` at the ends; `response` when nothing is left.
pub open spec fn name_base(name: Seq<char>) -> Seq<char> {
    let n = if name.len() < 60 {
        name.len() as int
    } else {
        60
    };
    let b = dashes_trimmed(sanitized(name, n));
    if b.len() == 0 {
        "response"@
    } else {
        b
    }
}

proof fn lemma_leading_dashes(s: Seq<char>)
    ensures
        leading_dashes(s) <= s.len(),
        forall|i: int| 0 <= i < leading_dashes(s) ==> s[i] == '-',
        leading_dashes(s) < s.len() ==> s[leading_dashes(s) as int] != '-',
    decreases s.len(),
{
    if s.len() > 0 && s[0] == '-' {
        lemma_leading_dashes(s.drop_first());
        assert forall|i: int| 0 <= i < leading_dashes(s) implies s[i] == '-' by {
            if i > 0 {
                assert(s[i] == s.drop_first()[i - 1]);
            }
        }
        if leading_dashes(s) < s.len() {
            assert(s[leading_dashes(s) as int] == s.drop_first()[leading_dashes(s.drop_first()) as int]);
        }
    }
}

proof fn lemma_trailing_dashes(s: Seq<char>)
    ensures
        trailing_dashes(s) <= s.len(),
        forall|i: int| s.len() - trailing_dashes(s) <= i < s.len() ==> s[i] == '-',
        trailing_dashes(s) < s.len() ==> s[s.len() - 1 - trailing_dashes(s)] != '-',
    decreases s.len(),
{
    if s.len() > 0 && s.last() == '-' {
        lemma_trailing_dashes(s.drop_last());
        assert forall|i: int| s.len() - trailing_dashes(s) <= i < s.len() implies s[i] == '-' by {
            if i < s.len() - 1 {
                assert(s[i] == s.drop_last()[i]);
            }
        }
    }
}

proof fn lemma_sanitized(s: Seq<char>, n: int)
    requires
        0 <= n <= s.len(),
    ensures
        sanitized(s, n).len() <= n,
        forall|i: int| 0 <= i < sanitized(s, n).len() ==> #[trigger] sanitized(s, n)[i] == '-' || keeps(sanitized(s, n)[i]),
        forall|i: int|
            0 <= i < sanitized(s, n).len() - 1 ==> !(#[trigger] sanitized(s, n)[i] == '-' && sanitized(s, n)[i + 1] == '-'),
    decreases n,
{
    if n > 0 {
        lemma_sanitized(s, n - 1);
        let acc = sanitized(s, n - 1);
        let c = s[n - 1];
        if keeps(c) {
            assert forall|i: int| 0 <= i < acc.push(c).len() implies #[trigger] acc.push(c)[i] == '-' || keeps(acc.push(c)[i]) by {
                if i < acc.len() {
                    assert(acc.push(c)[i] == acc[i]);
                }
            }
            assert forall|i: int| 0 <= i < acc.push(c).len() - 1 implies !(#[trigger] acc.push(c)[i] == '-' && acc.push(c)[i + 1] == '-') by {
                if i + 1 < acc.len() {
                    assert(acc.push(c)[i] == acc[i] && acc.push(c)[i + 1] == acc[i + 1]);
                } else {
                    assert(acc.push(c)[i + 1] == c);
                    assert(keeps(c));
                    if c == '-' {
                        assert((c as u32) == 45);
                    }
                }
            }
        } else if !(acc.len() > 0 && acc.last() == '-') {
            let a2 = acc.push('-');
            assert forall|i: int| 0 <= i < a2.len() implies #[trigger] a2[i] == '-' || keeps(a2[i]) by {
                if i < acc.len() {
                    assert(a2[i] == acc[i]);
                }
            }
            assert forall|i: int| 0 <= i < a2.len() - 1 implies !(#[trigger] a2[i] == '-' && a2[i + 1] == '-') by {
                if i + 1 < acc.len() {
                    assert(a2[i] == acc[i] && a2[i + 1] == acc[i + 1]);
                } else {
                    assert(a2[i] == acc.last());
                }
            }
        }
    }
}

/// The name part of a file name has no `/`, `:` or space, never two `-` in
/// a row, and at most 60 characters.
pub proof fn law_name_base_is_clean(name: Seq<char>)
    ensures
        name_base(name).len() <= 60,
        forall|i: int|
            0 <= i < name_base(name).len() ==> #[trigger] name_base(name)[i] != '/' && name_base(name)[i] != ':'
                && name_base(name)[i] != ' ',
        forall|i: int|
            0 <= i < name_base(name).len() - 1 ==> !(#[trigger] name_base(name)[i] == '-' && name_base(name)[i + 1] == '-'),
{
    reveal_strlit("response");
    let n = if name.len() < 60 {
        name.len() as int
    } else {
        60
    };
    let sa = sanitized(name, n);
    lemma_sanitized(name, n);
    lemma_leading_dashes(sa);
    let rest = sa.skip(leading_dashes(sa) as int);
    lemma_trailing_dashes(rest);
    let b = dashes_trimmed(sa);
    let off = leading_dashes(sa) as int;
    if b.len() > 0 {
        assert forall|i: int| 0 <= i < b.len() implies #[trigger] b[i] != '/' && b[i] != ':' && b[i] != ' ' by {
            assert(b[i] == sa[i + off]);
        }
        assert forall|i: int| 0 <= i < b.len() - 1 implies !(#[trigger] b[i] == '-' && b[i + 1] == '-') by {
            assert(b[i] == sa[i + off] && b[i + 1] == sa[i + 1 + off]);
        }
    }
}

/// `s` without `-` at either end (`str::trim_matches('-')`).
fn trim_dashes(s: &str) -> (r: &str)
    ensures
        r@ == dashes_trimmed(s@),
{
    let n = s.unicode_len();
    let mut a: usize = 0;
    while a < n && s.get_char(a) == '-'
        invariant
            n == s@.len(),
            a <= n,
            forall|i: int| 0 <= i < a ==> s@[i] == '-',
        decreases n - a,
    {
        a = a + 1;
    }
    proof {
        lemma_leading_dashes(s@);
        let l = leading_dashes(s@) as int;
        if a < l {
            assert(s@[a as int] == '-');
        }
        if a > l {
            assert(s@[l] == '-');
        }
        assert(a == l);
    }
    let ghost rest = s@.skip(a as int);
    let mut b: usize = n;
    while b > a && s.get_char(b - 1) == '-'
        invariant
            n == s@.len(),
            a <= b <= n,
            rest == s@.skip(a as int),
            forall|i: int| b <= i < n ==> s@[i] == '-',
        decreases b,
    {
        b = b - 1;
    }
    proof {
        lemma_trailing_dashes(rest);
        let t = trailing_dashes(rest) as int;
        let m = rest.len() as int;
        if (n - b) < t {
            assert(rest[m - 1 - (n - b)] == '-');
            assert(s@[b - 1] == rest[m - 1 - (n - b)]);
        }
        if (n - b) > t {
            assert(rest[m - 1 - t] != '-');
            assert(s@[n - 1 - t] == rest[m - 1 - t]);
        }
        assert(n - b == t);
        assert(s@.subrange(a as int, b as int) =~= rest.take(m - t));
    }
    s.substring_char(a, b)
}

/// The name part of the file name: see [`name_base`].
pub fn file_name_base(request_name: &str) -> (r: String)
    ensures
        r@ == name_base(request_name@),
{
    let len = request_name.unicode_len();
    let n = if len < 60 {
        len
    } else {
        60
    };
    let mut base = String::new();
    let mut last_dash = false;
    let mut i: usize = 0;
    while i < n
        invariant
            n <= request_name@.len(),
            i <= n,
            base@ == sanitized(request_name@, i as int),
            last_dash == (base@.len() > 0 && base@.last() == '-'),
        decreases n - i,
    {
        let ch = request_name.get_char(i);
        if char_is_alphanumeric(ch) || (ch as u32) > 0x2e80 {
            push_char(&mut base, ch);
            last_dash = ch == '-';
        } else if !last_dash {
            push_char(&mut base, '-');
            last_dash = true;
        }
        i = i + 1;
    }
    let trimmed = trim_dashes(base.as_str());
    if trimmed.unicode_len() == 0 {
        proof {
            reveal_strlit("response");
        }
        String::from_str("response")
    } else {
        String::from_str(trimmed)
    }
}

/// The ASCII lower-case form of a character.
pub open spec fn ascii_lower_char(c: char) -> char {
    if 'A' <= c <= 'Z' {
        ((c as u32) + 32) as char
    } else {
        c
    }
}

/// `s` with its ASCII letters lower-cased and everything else kept (what
/// `str::to_ascii_lowercase` gives).
pub(crate) fn ascii_lowercase(s: &str) -> (r: String)
    ensures
        r@ == s@.map_values(|c: char| ascii_lower_char(c)),
{
    let cs = chars_of(s);
    let mut out = String::new();
    let mut i: usize = 0;
    while i < cs.len()
        invariant
            cs@ == s@,
            i <= cs@.len(),
            out@ == s@.take(i as int).map_values(|c: char| ascii_lower_char(c)),
        decreases cs@.len() - i,
    {
        let c = cs[i];
        let l = if 'A' <= c && c <= 'Z' {
            ((c as u8) + 32) as char
        } else {
            c
        };
        proof {
            assert(l == ascii_lower_char(c));
            assert(s@.take(i + 1) =~= s@.take(i as int).push(c));
        }
        push_char(&mut out, l);
        proof {
            assert(out@ =~= s@.take(i + 1).map_values(|c: char| ascii_lower_char(c)));
        }
        i = i + 1;
    }
    proof {
        assert(s@.take(cs@.len() as int) =~= s@);
    }
    out
}

/// `word` occurs in the bytes of `text`.
pub open spec fn mentions(text: Seq<char>, word: &str) -> bool {
    exists|i: int| occurs_at(vstd::utf8::encode_utf8(text), word.spec_bytes(), i)
}

/// The extension for a Content-Type (compared in ASCII lower case):
/// JSON when it says so or when the body looks like JSON, then HTML, XML,
/// CSV, JavaScript and event streams; text otherwise.
pub open spec fn extension_of(content_type: Seq<char>, body_is_json: bool) -> Seq<char> {
    let ct = content_type.map_values(|c: char| ascii_lower_char(c));
    if mentions(ct, "json") || body_is_json {
        "json"@
    } else if mentions(ct, "html") {
        "html"@
    } else if mentions(ct, "xml") {
        "xml"@
    } else if mentions(ct, "csv") {
        "csv"@
    } else if mentions(ct, "javascript") {
        "js"@
    } else if mentions(ct, "event-stream") {
        "sse.txt"@
    } else {
        "txt"@
    }
}

/// The extension for a Content-Type: see [`extension_of`]. `body_is_json`
/// says whether the body looks like JSON (asked only when the Content-Type
/// does not say JSON).
pub fn file_extension(content_type: &str, body_is_json: bool) -> (r: &'static str)
    ensures
        r@ == extension_of(content_type@, body_is_json),
{
    let ct = ascii_lowercase(content_type);
    let c = ct.as_str();
    proof {
        assert(c.spec_bytes() == vstd::utf8::encode_utf8(c@));
    }
    if contains_text(c, "json") || body_is_json {
        "json"
    } else if contains_text(c, "html") {
        "html"
    } else if contains_text(c, "xml") {
        "xml"
    } else if contains_text(c, "csv") {
        "csv"
    } else if contains_text(c, "javascript") {
        "js"
    } else if contains_text(c, "event-stream") {
        "sse.txt"
    } else {
        "txt"
    }
}

/// The default file name for saving a response: the name part, `-`, the
/// time stamp, `.` and the extension.
pub fn suggested_file_name(request_name: &str, content_type: &str, body_is_json: bool, stamp: &str) -> (r: String)
    ensures
        r@ == name_base(request_name@) + seq!['-'] + stamp@ + seq!['.'] + extension_of(
            content_type@,
            body_is_json,
        ),
{
    let mut out = file_name_base(request_name);
    push_char(&mut out, '-');
    out.append(stamp);
    push_char(&mut out, '.');
    out.append(file_extension(content_type, body_is_json));
    out
}

} // verus!
