//! Byte-level facts about UTF-8 strings and safe slicing of `&str` by byte offsets.

use vstd::prelude::*;
use vstd::utf8::*;
use vstd::string::*;
use crate::files::ascii_lower_char;

verus! {

broadcast use vstd::utf8::is_char_boundary_iff_not_is_continuation_byte,
    vstd::utf8::is_char_boundary_start_end_of_seq,
    vstd::utf8::encode_utf8_valid_utf8;

/// An ASCII byte is never a UTF-8 continuation byte.
pub open spec fn is_ascii_byte(c: u8) -> bool {
    c < 0x80
}

/// In valid UTF-8, the position right after an ASCII byte is a character boundary.
pub proof fn lemma_boundary_after_ascii(b: Seq<u8>, k: int)
    requires
        valid_utf8(b),
        0 <= k < b.len(),
        is_ascii_byte(b[k]),
    ensures
        is_char_boundary(b, k + 1),
{
    lemma_boundary_at_ascii(b, k);
    if k + 1 == b.len() {
        assert(is_char_boundary(b, b.len() as int));
    } else {
        vstd::utf8::valid_utf8_split(b, k);
        let s = b.subrange(k, b.len() as int);
        assert(valid_utf8(s));
        assert(s.len() > 0);
        assert(s[0] == b[k]);
        assert(valid_first_scalar(s));
        assert(length_of_first_scalar(s) == 1);
        let p = pop_first_scalar(s);
        assert(p =~= b.subrange(k + 1, b.len() as int));
        assert(valid_utf8(p));
        assert(p.len() > 0);
        assert(valid_first_scalar(p));
        assert(p[0] == b[k + 1]);
        assert(!is_continuation_byte(b[k + 1]));
        vstd::utf8::is_char_boundary_iff_not_is_continuation_byte(b, k + 1);
    }
}

/// In valid UTF-8, the position of an ASCII byte is a character boundary.
pub proof fn lemma_boundary_at_ascii(b: Seq<u8>, k: int)
    requires
        valid_utf8(b),
        0 <= k < b.len(),
        is_ascii_byte(b[k]),
    ensures
        is_char_boundary(b, k),
{
    vstd::utf8::is_char_boundary_iff_not_is_continuation_byte(b, k);
}

/// A character boundary of a valid sequence is also one of any prefix that contains it.
pub proof fn lemma_boundary_in_prefix(b: Seq<u8>, end: int, k: int)
    requires
        valid_utf8(b),
        is_char_boundary(b, end),
        0 <= k <= end <= b.len(),
        is_char_boundary(b, k),
    ensures
        valid_utf8(b.subrange(0, end)),
        is_char_boundary(b.subrange(0, end), k),
{
    vstd::utf8::valid_utf8_split(b, end);
    let p = b.subrange(0, end);
    if k < end {
        vstd::utf8::is_char_boundary_iff_not_is_continuation_byte(b, k);
        assert(p[k] == b[k]);
        vstd::utf8::is_char_boundary_iff_not_is_continuation_byte(p, k);
    } else {
        assert(is_char_boundary(p, p.len() as int));
    }
}

/// The piece of `s` between byte offsets `start` and `end`.
pub fn byte_slice<'a>(s: &'a str, start: usize, end: usize) -> (r: &'a str)
    requires
        start <= end <= s.spec_bytes().len(),
        is_char_boundary(s.spec_bytes(), start as int),
        is_char_boundary(s.spec_bytes(), end as int),
    ensures
        r.spec_bytes() == s.spec_bytes().subrange(start as int, end as int),
{
    proof {
        lemma_boundary_in_prefix(s.spec_bytes(), end as int, start as int);
    }
    let (head, _) = s.split_at(end);
    proof {
        assert(head.spec_bytes() =~= s.spec_bytes().subrange(0, end as int));
    }
    let (_, piece) = head.split_at(start);
    assert(piece.spec_bytes() =~= s.spec_bytes().subrange(start as int, end as int));
    piece
}

/// Whether two strings hold the same characters (compared byte by byte).
pub fn text_eq(a: &str, b: &str) -> (r: bool)
    ensures
        r == (a@ == b@),
{
    let x = a.as_bytes();
    let y = b.as_bytes();
    proof {
        vstd::utf8::encode_utf8_decode_utf8(a@);
        vstd::utf8::encode_utf8_decode_utf8(b@);
    }
    if x.len() != y.len() {
        return false;
    }
    let mut i: usize = 0;
    while i < x.len()
        invariant
            x@ == a.spec_bytes(),
            y@ == b.spec_bytes(),
            x@.len() == y@.len(),
            0 <= i <= x@.len(),
            forall|k: int| 0 <= k < i ==> x@[k] == y@[k],
        decreases x@.len() - i,
    {
        if x[i] != y[i] {
            return false;
        }
        i = i + 1;
    }
    proof {
        assert(x@ =~= y@);
    }
    true
}

/// The Unicode `White_Space` property (which `char::is_whitespace` tests):
/// tab to carriage return, space, next line, no-break space, ogham space mark,
/// the spaces from en quad to hair space, line and paragraph separators,
/// narrow no-break space, medium mathematical space and ideographic space.
pub open spec fn is_white(c: char) -> bool {
    let u = c as u32;
    ||| 0x09 <= u <= 0x0D
    ||| u == 0x20
    ||| u == 0x85
    ||| u == 0xA0
    ||| u == 0x1680
    ||| 0x2000 <= u <= 0x200A
    ||| u == 0x2028
    ||| u == 0x2029
    ||| u == 0x202F
    ||| u == 0x205F
    ||| u == 0x3000
}

/// Unicode lower-casing of a whole string, as `str::to_lowercase` does it.
pub uninterp spec fn lowercase(s: Seq<char>) -> Seq<char>;

/// Number of white-space characters at the front of `s`.
pub open spec fn leading_white(s: Seq<char>) -> nat
    decreases s.len(),
{
    if s.len() > 0 && is_white(s[0]) {
        1 + leading_white(s.drop_first())
    } else {
        0
    }
}

/// Number of white-space characters at the back of `s`.
pub open spec fn trailing_white(s: Seq<char>) -> nat
    decreases s.len(),
{
    if s.len() > 0 && is_white(s.last()) {
        1 + trailing_white(s.drop_last())
    } else {
        0
    }
}

/// `s` without white space at either end.
pub open spec fn trimmed(s: Seq<char>) -> Seq<char> {
    let rest = s.skip(leading_white(s) as int);
    rest.take(rest.len() - trailing_white(rest))
}

/// Whether `c` has the Unicode `White_Space` property (see [`is_white`]), as
/// `char::is_whitespace` tests it.
pub(crate) fn char_is_whitespace(c: char) -> (r: bool)
    ensures
        r == is_white(c),
{
    let u = c as u32;
    (0x09 <= u && u <= 0x0D) || u == 0x20 || u == 0x85 || u == 0xA0 || u == 0x1680 || (0x2000 <= u
        && u <= 0x200A) || u == 0x2028 || u == 0x2029 || u == 0x202F || u == 0x205F || u == 0x3000
}

/// `str::trim`: `s` with leading and trailing `White_Space` characters removed.
#[verifier::external_body]
pub(crate) fn trim_str(s: &str) -> (r: &str)
    ensures
        r@ == trimmed(s@),
{
    s.trim()
}

/// `str::to_lowercase`: the Unicode lower-case form of `s`. Every character
/// maps to one or more characters, so the result is empty exactly when `s` is;
/// on ASCII text the Unicode mapping lower-cases `A`–`Z` and keeps the rest.
#[verifier::external_body]
pub(crate) fn to_lowercase(s: &str) -> (r: String)
    ensures
        r@ == lowercase(s@),
        r@.len() == 0 <==> s@.len() == 0,
        (forall|i: int| 0 <= i < s@.len() ==> (#[trigger] s@[i] as u32) < 128) ==> r@ == s@.map_values(
            |c: char| ascii_lower_char(c),
        ),
{
    s.to_lowercase()
}

/// `String::push`: appends one character.
#[verifier::external_body]
pub(crate) fn push_char(s: &mut String, c: char)
    ensures
        final(s)@ == old(s)@.push(c),
{
    s.push(c)
}

/// The characters of `s`, in order (`str::chars` collected).
#[verifier::external_body]
pub(crate) fn chars_of(s: &str) -> (r: Vec<char>)
    ensures
        r@ == s@,
{
    s.chars().collect()
}

/// `needle` occurs at byte offset `i` of `hay`.
pub open spec fn occurs_at(hay: Seq<u8>, needle: Seq<u8>, i: int) -> bool {
    0 <= i && i + needle.len() <= hay.len() && hay.subrange(i, i + needle.len()) == needle
}

/// Whether `needle` occurs in `hay` (`str::contains` with a string pattern).
pub fn contains_text(hay: &str, needle: &str) -> (r: bool)
    ensures
        r == exists|i: int| occurs_at(hay.spec_bytes(), needle.spec_bytes(), i),
{
    let h = hay.as_bytes();
    let n = needle.as_bytes();
    if n.len() > h.len() {
        proof {
            assert forall|i: int| !occurs_at(h@, n@, i) by {}
        }
        return false;
    }
    let last = h.len() - n.len();
    let hlen = h.len();
    let mut i: usize = 0;
    while i <= last
        invariant
            hlen == h@.len(),
            h@ == hay.spec_bytes(),
            n@ == needle.spec_bytes(),
            last == h@.len() - n@.len(),
            0 <= i <= last + 1,
            last + 1 <= usize::MAX + 1,
            forall|k: int| 0 <= k < i ==> !occurs_at(h@, n@, k),
        decreases last + 1 - i,
    {
        let mut j: usize = 0;
        while j < n.len() && h[i + j] == n[j]
            invariant
                hlen == h@.len(),
                h@ == hay.spec_bytes(),
                n@ == needle.spec_bytes(),
                i <= last,
                last == h@.len() - n@.len(),
                0 <= j <= n@.len(),
                forall|k: int| 0 <= k < j ==> h@[i + k] == n@[k],
            decreases n@.len() - j,
        {
            j = j + 1;
        }
        if j == n.len() {
            proof {
                assert(h@.subrange(i as int, i + n@.len()) =~= n@);
                assert(occurs_at(h@, n@, i as int));
            }
            return true;
        }
        proof {
            assert(h@.subrange(i as int, i + n@.len())[j as int] != n@[j as int]);
        }
        if i == last {
            proof {
                assert forall|k: int| !occurs_at(h@, n@, k) by {
                    if 0 <= k < i {
                    } else if k == i {
                    }
                }
            }
            return false;
        }
        i = i + 1;
    }
    false
}

} // verus!
