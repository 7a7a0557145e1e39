//! Syntax colouring of one line of JSON: a byte scanner that cuts the line into
//! coloured pieces, with escapes inside strings honoured.

use vstd::prelude::*;
use vstd::utf8::*;
use vstd::string::*;
use crate::text::{
    byte_slice, chars_of, lemma_boundary_after_ascii, lemma_boundary_at_ascii, push_char,
    trim_str, trimmed,
};
use vstd::string::StringExecFns;

verus! {

/// What a piece of a JSON line is, for colouring.
#[derive(Debug, PartialEq, Eq, Structural, Clone, Copy)]
pub enum TokKind {
    /// A string value `"..."`.
    Str,
    /// A string used as a key, including the spaces and the colon after it.
    Key,
    /// A number.
    Num,
    /// `true`, `false` or `null`.
    Const,
    /// Anything else: brackets, commas and unknown words.
    Punct,
    /// A run of spaces and tabs.
    Space,
}

/// One coloured piece of a line.
#[derive(Debug, Clone, Copy, PartialEq)]
pub struct JsonToken<'a> {
    pub text: &'a str,
    pub kind: TokKind,
}

/// Spaces and tabs.
pub open spec fn is_blank(c: u8) -> bool {
    c == 32 || c == 9
}

pub open spec fn is_digit(c: u8) -> bool {
    48 <= c <= 57
}

/// Bytes that may continue a number: digits, `-`, `+`, `.`, `e`, `E`.
pub open spec fn is_number_byte(c: u8) -> bool {
    is_digit(c) || c == 45 || c == 43 || c == 46 || c == 101 || c == 69
}

/// Bytes that end a word: space, `,`, `]`, `}`, newline, tab, and the quote
/// that opens a string.
pub open spec fn is_word_stop(c: u8) -> bool {
    c == 32 || c == 44 || c == 93 || c == 125 || c == 10 || c == 9 || c == 34
}

/// First position at or after `i` that does not hold a space or tab.
pub open spec fn blank_end(b: Seq<u8>, i: int) -> int
    decreases b.len() - i,
{
    if 0 <= i < b.len() && is_blank(b[i]) {
        blank_end(b, i + 1)
    } else {
        i
    }
}

/// First position at or after `i` that does not hold a space (tabs stop it).
pub open spec fn spaces_end(b: Seq<u8>, i: int) -> int
    decreases b.len() - i,
{
    if 0 <= i < b.len() && b[i] == 32 {
        spaces_end(b, i + 1)
    } else {
        i
    }
}

/// First position at or after `i` that does not hold a number byte.
pub open spec fn number_end(b: Seq<u8>, i: int) -> int
    decreases b.len() - i,
{
    if 0 <= i < b.len() && is_number_byte(b[i]) {
        number_end(b, i + 1)
    } else {
        i
    }
}

/// First position at or after `i` that holds a word stop, or the end of the line.
pub open spec fn word_end(b: Seq<u8>, i: int) -> int
    decreases b.len() - i,
{
    if 0 <= i < b.len() && !is_word_stop(b[i]) {
        word_end(b, i + 1)
    } else {
        i
    }
}

/// Where a string whose body starts at `i` ends: just past its closing quote.
/// A backslash skips the byte after it; a string still open when the line ends
/// (also right after a backslash) runs to the end of the line.
pub open spec fn string_close(b: Seq<u8>, i: int) -> int
    decreases b.len() + 1 - i,
{
    if 0 <= i < b.len() {
        if b[i] == 92 {
            if i + 2 <= b.len() {
                string_close(b, i + 2)
            } else {
                b.len() as int
            }
        } else if b[i] == 34 {
            i + 1
        } else {
            string_close(b, i + 1)
        }
    } else {
        i
    }
}

/// The bytes of `true`, `false` and `null`.
pub open spec fn is_literal(w: Seq<u8>) -> bool {
    ||| w.len() == 4 && w[0] == 116 && w[1] == 114 && w[2] == 117 && w[3] == 101
    ||| w.len() == 5 && w[0] == 102 && w[1] == 97 && w[2] == 108 && w[3] == 115 && w[4] == 101
    ||| w.len() == 4 && w[0] == 110 && w[1] == 117 && w[2] == 108 && w[3] == 108
}

/// The piece that starts at `i` (with `0 <= i < b.len()`): where it ends and what it is.
pub open spec fn token_at(b: Seq<u8>, i: int) -> (int, TokKind) {
    let c = b[i];
    if is_blank(c) {
        (blank_end(b, i), TokKind::Space)
    } else if c == 34 {
        let close = string_close(b, i + 1);
        let j = spaces_end(b, close);
        if 0 <= j < b.len() && b[j] == 58 {
            (j + 1, TokKind::Key)
        } else {
            (close, TokKind::Str)
        }
    } else if c == 45 || is_digit(c) {
        (number_end(b, i), TokKind::Num)
    } else {
        let w = word_end(b, i);
        let e = if w > i { w } else { i + 1 };
        (e, if is_literal(b.subrange(i, e)) { TokKind::Const } else { TokKind::Punct })
    }
}

pub proof fn lemma_blank_end(b: Seq<u8>, i: int)
    requires
        0 <= i <= b.len(),
    ensures
        i <= blank_end(b, i) <= b.len(),
        i < b.len() && is_blank(b[i]) ==> blank_end(b, i) > i,
        blank_end(b, i) > i ==> is_blank(b[blank_end(b, i) - 1]),
    decreases b.len() - i,
{
    if i < b.len() && is_blank(b[i]) {
        lemma_blank_end(b, i + 1);
    }
}

pub proof fn lemma_spaces_end(b: Seq<u8>, i: int)
    requires
        0 <= i,
    ensures
        i <= spaces_end(b, i),
        i <= b.len() ==> spaces_end(b, i) <= b.len(),
        i > b.len() ==> spaces_end(b, i) == i,
    decreases b.len() - i,
{
    if i < b.len() && b[i] == 32 {
        lemma_spaces_end(b, i + 1);
    }
}

pub proof fn lemma_number_end(b: Seq<u8>, i: int)
    requires
        0 <= i <= b.len(),
    ensures
        i <= number_end(b, i) <= b.len(),
        i < b.len() && is_number_byte(b[i]) ==> number_end(b, i) > i,
        number_end(b, i) > i ==> is_number_byte(b[number_end(b, i) - 1]),
    decreases b.len() - i,
{
    if i < b.len() && is_number_byte(b[i]) {
        lemma_number_end(b, i + 1);
    }
}

pub proof fn lemma_word_end(b: Seq<u8>, i: int)
    requires
        0 <= i <= b.len(),
    ensures
        i <= word_end(b, i) <= b.len(),
        word_end(b, i) < b.len() ==> is_word_stop(b[word_end(b, i)]),
    decreases b.len() - i,
{
    if i < b.len() && !is_word_stop(b[i]) {
        lemma_word_end(b, i + 1);
    }
}

pub proof fn lemma_string_close(b: Seq<u8>, i: int)
    requires
        0 <= i <= b.len(),
    ensures
        i <= string_close(b, i) <= b.len(),
        string_close(b, i) == b.len() || (string_close(b, i) > i && b[string_close(b, i) - 1]
            == 34),
    decreases b.len() + 1 - i,
{
    if i < b.len() {
        if b[i] == 92 {
            if i + 2 <= b.len() {
                lemma_string_close(b, i + 2);
            }
        } else if b[i] != 34 {
            lemma_string_close(b, i + 1);
        }
    }
}

/// Every piece is non-empty and ends within the line.
pub proof fn lemma_token_at(b: Seq<u8>, i: int)
    requires
        0 <= i < b.len(),
    ensures
        i < token_at(b, i).0 <= b.len(),
{
    let c = b[i];
    if is_blank(c) {
        lemma_blank_end(b, i);
    } else if c == 34 {
        lemma_string_close(b, i + 1);
        let close = string_close(b, i + 1);
        lemma_spaces_end(b, close);
    } else if c == 45 || is_digit(c) {
        lemma_number_end(b, i);
    } else {
        lemma_word_end(b, i);
    }
}

/// End of a word piece starting at `i`: the next word stop, but at least one byte.
pub open spec fn word_end_or_one(b: Seq<u8>, i: int) -> int {
    if word_end(b, i) > i {
        word_end(b, i)
    } else {
        i + 1
    }
}

/// The pieces of `b` from position `i` on, as (start, end, kind).
pub open spec fn lex(b: Seq<u8>, i: int) -> Seq<(int, int, TokKind)>
    decreases b.len() + 1 - i,
{
    if 0 <= i < b.len() {
        proof {
            lemma_token_at(b, i);
        }
        let t = token_at(b, i);
        seq![(i, t.0, t.1)] + lex(b, t.0)
    } else {
        seq![]
    }
}

/// The pieces of a line given by its characters.
pub open spec fn text_tokens(t: Seq<char>) -> Seq<(int, int, TokKind)> {
    lex(encode_utf8(t), 0)
}

/// The pieces of a whole line.
pub open spec fn line_tokens(line: &str) -> Seq<(int, int, TokKind)> {
    text_tokens(line@)
}

/// The pieces cover `[i, len)` without gaps, in order, each non-empty.
pub proof fn lemma_lex_tiles(b: Seq<u8>, i: int)
    requires
        0 <= i <= b.len(),
    ensures
        lex(b, i).len() == 0 <==> i == b.len(),
        lex(b, i).len() > 0 ==> lex(b, i)[0].0 == i,
        lex(b, i).len() > 0 ==> lex(b, i).last().1 == b.len(),
        forall|k: int| 0 <= k < lex(b, i).len() ==> #[trigger] lex(b, i)[k].0 < lex(b, i)[k].1,
        forall|k: int|
            0 <= k < lex(b, i).len() ==> i <= #[trigger] lex(b, i)[k].0 && lex(b, i)[k].1 <= b.len(),
        forall|k: int|
            0 <= k < lex(b, i).len() - 1 ==> #[trigger] lex(b, i)[k].1 == lex(b, i)[k + 1].0,
    decreases b.len() + 1 - i,
{
    if i < b.len() {
        lemma_token_at(b, i);
        let t = token_at(b, i);
        lemma_lex_tiles(b, t.0);
        let rest = lex(b, t.0);
        let all = lex(b, i);
        assert(all == seq![(i, t.0, t.1)] + rest);
        assert forall|k: int| 0 <= k < all.len() - 1 implies #[trigger] all[k].1 == all[k + 1].0 by {
            if k == 0 {
                if rest.len() == 0 {
                } else {
                    assert(all[1] == rest[0]);
                }
            } else {
                assert(all[k] == rest[k - 1]);
                assert(all[k + 1] == rest[k]);
            }
        }
        assert forall|k: int| 0 <= k < all.len() implies #[trigger] all[k].0 < all[k].1 by {
            if k > 0 {
                assert(all[k] == rest[k - 1]);
            }
        }
        assert forall|k: int| 0 <= k < all.len() implies i <= #[trigger] all[k].0 && all[k].1
            <= b.len() by {
            if k > 0 {
                assert(all[k] == rest[k - 1]);
            }
        }
    }
}

/// Every byte of a run of blanks is a space or a tab.
proof fn lemma_blank_run(b: Seq<u8>, i: int)
    requires
        0 <= i <= b.len(),
    ensures
        forall|x: int| i <= x < blank_end(b, i) ==> is_blank(#[trigger] b[x]),
    decreases b.len() - i,
{
    if i < b.len() && is_blank(b[i]) {
        lemma_blank_run(b, i + 1);
    }
}

/// What each kind of piece looks like: blanks are spaces and tabs only; a
/// string starts with a quote; a key starts with a quote and ends with its
/// colon; a number starts with `-` or a digit; a constant is `true`, `false`
/// or `null`.
pub open spec fn piece_shape(b: Seq<u8>, t: (int, int, TokKind)) -> bool {
    &&& t.2 == TokKind::Space ==> forall|x: int| t.0 <= x < t.1 ==> is_blank(#[trigger] b[x])
    &&& t.2 == TokKind::Str ==> b[t.0] == 34
    &&& t.2 == TokKind::Key ==> b[t.0] == 34 && b[t.1 - 1] == 58
    &&& t.2 == TokKind::Num ==> b[t.0] == 45 || is_digit(b[t.0])
    &&& t.2 == TokKind::Const ==> is_literal(b.subrange(t.0, t.1))
}

proof fn lemma_lex_shapes(b: Seq<u8>, i: int)
    requires
        0 <= i <= b.len(),
    ensures
        forall|k: int| 0 <= k < lex(b, i).len() ==> piece_shape(b, #[trigger] lex(b, i)[k]),
    decreases b.len() + 1 - i,
{
    if i < b.len() {
        lemma_token_at(b, i);
        let t = token_at(b, i);
        lemma_lex_shapes(b, t.0);
        if is_blank(b[i]) {
            lemma_blank_run(b, i);
        }
        let rest = lex(b, t.0);
        assert(lex(b, i) == seq![(i, t.0, t.1)] + rest);
        assert forall|k: int| 0 <= k < lex(b, i).len() implies piece_shape(b, #[trigger] lex(b, i)[k]) by {
            if k > 0 {
                assert(lex(b, i)[k] == rest[k - 1]);
            }
        }
    }
}

/// Every piece of a line has the shape of its kind (see [`piece_shape`]).
pub proof fn law_piece_shapes(line: Seq<char>)
    ensures
        forall|k: int|
            0 <= k < text_tokens(line).len() ==> piece_shape(
                encode_utf8(line),
                #[trigger] text_tokens(line)[k],
            ),
{
    lemma_lex_shapes(encode_utf8(line), 0);
}

/// End of the run of spaces and tabs that starts at `i`.
fn scan_blank(b: &[u8], i: usize) -> (end: usize)
    requires
        valid_utf8(b@),
        0 <= i < b@.len(),
        is_blank(b@[i as int]),
    ensures
        end == blank_end(b@, i as int),
        i < end <= b@.len(),
        is_char_boundary(b@, end as int),
{
    let mut k = i;
    while k < b.len() && (b[k] == 32 || b[k] == 9)
        invariant
            i <= k <= b@.len(),
            blank_end(b@, k as int) == blank_end(b@, i as int),
            k > i ==> is_blank(b@[k - 1]),
        decreases b@.len() - k,
    {
        k = k + 1;
    }
    proof {
        lemma_blank_end(b@, i as int);
        lemma_boundary_after_ascii(b@, k - 1);
    }
    k
}

/// End of the number that starts at `i`.
fn scan_number(b: &[u8], i: usize) -> (end: usize)
    requires
        valid_utf8(b@),
        0 <= i < b@.len(),
        is_number_byte(b@[i as int]),
    ensures
        end == number_end(b@, i as int),
        i < end <= b@.len(),
        is_char_boundary(b@, end as int),
{
    let mut k = i;
    while k < b.len() && (48 <= b[k] && b[k] <= 57 || b[k] == 45 || b[k] == 43 || b[k] == 46
        || b[k] == 101 || b[k] == 69)
        invariant
            i <= k <= b@.len(),
            number_end(b@, k as int) == number_end(b@, i as int),
            k > i ==> is_number_byte(b@[k - 1]),
        decreases b@.len() - k,
    {
        k = k + 1;
    }
    proof {
        lemma_number_end(b@, i as int);
        lemma_boundary_after_ascii(b@, k - 1);
    }
    k
}

/// End and kind of the string (or key) that starts with the quote at `i`.
fn scan_string(b: &[u8], i: usize) -> (r: (usize, TokKind))
    requires
        valid_utf8(b@),
        0 <= i < b@.len(),
        b@[i as int] == 34,
    ensures
        r.0 == token_at(b@, i as int).0,
        r.1 == token_at(b@, i as int).1,
        is_char_boundary(b@, r.0 as int),
{
    let ghost bs = b@;
    let ghost t = token_at(bs, i as int);
    let len = b.len();
    let mut k: usize = i + 1;
    let mut closed = false;
    while k < b.len() && !closed
        invariant
            b@ == bs,
            i + 1 <= k <= bs.len(),
            len == bs.len(),
            bs[i as int] == 34,
            t == token_at(bs, i as int),
            !closed ==> string_close(bs, k as int) == string_close(bs, i + 1),
            closed ==> k == string_close(bs, i + 1) && bs[k - 1] == 34,
        decreases bs.len() - k,
    {
        if b[k] == 92 {
            if k + 1 < len {
                k = k + 2;
            } else {
                k = len;
            }
        } else if b[k] == 34 {
            k = k + 1;
            closed = true;
        } else {
            k = k + 1;
        }
    }
    let close = k;
    proof {
        lemma_string_close(bs, i + 1);
    }
    let mut j = close;
    while j < b.len() && b[j] == 32
        invariant
            b@ == bs,
            close <= j <= bs.len(),
            spaces_end(bs, j as int) == spaces_end(bs, close as int),
        decreases bs.len() - j,
    {
        j = j + 1;
    }
    if j < b.len() && b[j] == 58 {
        proof {
            lemma_boundary_after_ascii(bs, j as int);
        }
        (j + 1, TokKind::Key)
    } else {
        proof {
            if close < bs.len() {
                lemma_boundary_after_ascii(bs, close - 1);
            } else {
                vstd::utf8::is_char_boundary_start_end_of_seq(bs);
            }
        }
        (close, TokKind::Str)
    }
}

/// End and kind of the word (a literal or punctuation) that starts at `i`.
fn scan_word(b: &[u8], i: usize) -> (r: (usize, TokKind))
    requires
        valid_utf8(b@),
        0 <= i < b@.len(),
        is_char_boundary(b@, i as int),
    ensures
        r.0 == word_end_or_one(b@, i as int),
        r.1 == (if is_literal(b@.subrange(i as int, r.0 as int)) {
            TokKind::Const
        } else {
            TokKind::Punct
        }),
        i < r.0 <= b@.len(),
        is_char_boundary(b@, r.0 as int),
{
    let ghost bs = b@;
    let mut w = i;
    while w < b.len() && !(b[w] == 32 || b[w] == 44 || b[w] == 93 || b[w] == 125 || b[w] == 10
        || b[w] == 9 || b[w] == 34)
        invariant
            b@ == bs,
            i <= w <= bs.len(),
            word_end(bs, w as int) == word_end(bs, i as int),
        decreases bs.len() - w,
    {
        w = w + 1;
    }
    let e = if w > i {
        w
    } else {
        i + 1
    };
    proof {
        lemma_word_end(bs, i as int);
        if w > i {
            if w < bs.len() {
                lemma_boundary_at_ascii(bs, w as int);
            }
        } else {
            lemma_boundary_after_ascii(bs, i as int);
        }
    }
    let n = e - i;
    let is_lit = (n == 4 && b[i] == 116 && b[i + 1] == 114 && b[i + 2] == 117 && b[i + 3] == 101)
        || (n == 5 && b[i] == 102 && b[i + 1] == 97 && b[i + 2] == 108 && b[i + 3] == 115 && b[i
        + 4] == 101) || (n == 4 && b[i] == 110 && b[i + 1] == 117 && b[i + 2] == 108 && b[i + 3]
        == 108);
    proof {
        let sub = bs.subrange(i as int, e as int);
        assert(sub.len() == n);
        assert(n >= 1 ==> sub[0] == bs[i as int]);
        assert(n >= 2 ==> sub[1] == bs[i + 1]);
        assert(n >= 3 ==> sub[2] == bs[i + 2]);
        assert(n >= 4 ==> sub[3] == bs[i + 3]);
        assert(n >= 5 ==> sub[4] == bs[i + 4]);
        if w == bs.len() {
            vstd::utf8::is_char_boundary_start_end_of_seq(bs);
        }
    }
    (
        e,
        if is_lit {
            TokKind::Const
        } else {
            TokKind::Punct
        },
    )
}

/// End and kind of the piece that starts at `i`.
fn scan_token(b: &[u8], i: usize) -> (r: (usize, TokKind))
    requires
        valid_utf8(b@),
        0 <= i < b@.len(),
        is_char_boundary(b@, i as int),
    ensures
        r.0 == token_at(b@, i as int).0,
        r.1 == token_at(b@, i as int).1,
        i < r.0 <= b@.len(),
        is_char_boundary(b@, r.0 as int),
{
    proof {
        lemma_token_at(b@, i as int);
    }
    let c = b[i];
    if c == 32 || c == 9 {
        (scan_blank(b, i), TokKind::Space)
    } else if c == 34 {
        scan_string(b, i)
    } else if c == 45 || (48 <= c && c <= 57) {
        (scan_number(b, i), TokKind::Num)
    } else {
        scan_word(b, i)
    }
}

/// The bytes of the pieces, one after the other.
pub open spec fn pieces_bytes(toks: Seq<JsonToken>) -> Seq<u8>
    decreases toks.len(),
{
    if toks.len() == 0 {
        seq![]
    } else {
        pieces_bytes(toks.drop_last()) + toks.last().text.spec_bytes()
    }
}

/// Cuts one line of JSON into coloured pieces, left to right; the pieces cover
/// the whole line, also one that stops inside an open string.
pub fn tokenize_line<'a>(line: &'a str) -> (out: Vec<JsonToken<'a>>)
    ensures
        out@.len() == line_tokens(line).len(),
        forall|k: int|
            0 <= k < out@.len() ==> (#[trigger] out@[k]).kind == line_tokens(line)[k].2
                && out@[k].text.spec_bytes() == line.spec_bytes().subrange(
                line_tokens(line)[k].0,
                line_tokens(line)[k].1,
            ) && 0 <= line_tokens(line)[k].0 < line_tokens(line)[k].1 <= line.spec_bytes().len(),
        pieces_bytes(out@) == line.spec_bytes(),
        forall|k: int| 0 <= k < out@.len() ==> (#[trigger] out@[k]).text.spec_bytes().len() > 0,
{
    let b = line.as_bytes();
    let ghost bs = line.spec_bytes();
    proof {
        vstd::utf8::encode_utf8_valid_utf8(line@);
        vstd::utf8::is_char_boundary_start_end_of_seq(bs);
    }
    let mut out: Vec<JsonToken<'a>> = Vec::new();
    let mut i: usize = 0;
    let ghost mut done: Seq<(int, int, TokKind)> = seq![];
    while i < b.len()
        invariant
            b@ == bs,
            bs == line.spec_bytes(),
            valid_utf8(bs),
            0 <= i <= bs.len(),
            is_char_boundary(bs, i as int),
            lex(bs, 0) == done + lex(bs, i as int),
            out@.len() == done.len(),
            forall|k: int|
                0 <= k < done.len() ==> (#[trigger] out@[k]).kind == done[k].2
                    && 0 <= done[k].0 <= done[k].1 <= bs.len()
                    && out@[k].text.spec_bytes() == bs.subrange(done[k].0, done[k].1)
                    && done[k].0 < done[k].1,
            pieces_bytes(out@) == bs.subrange(0, i as int),
        decreases bs.len() - i,
    {
        let start = i;
        let ghost before = out@;
        let (end, kind) = scan_token(b, i);
        let piece = byte_slice(line, start, end);
        out.push(JsonToken { text: piece, kind });
        proof {
            let x = (start as int, end as int, kind);
            assert(lex(bs, start as int) == seq![x] + lex(bs, end as int));
            assert(done.push(x) + lex(bs, end as int) =~= done + (seq![x] + lex(
                bs,
                end as int,
            )));
            assert(forall|k: int| 0 <= k < done.len() ==> out@[k] == before[k]);
            assert(out@.drop_last() =~= before);
            assert(bs.subrange(0, start as int) + bs.subrange(start as int, end as int) =~= bs.subrange(0, end as int));
            done = done.push(x);
        }
        i = end;
    }
    proof {
        assert(done + lex(bs, i as int) =~= done);
        assert(bs.subrange(0, i as int) =~= bs);
    }
    out
}

/// What an escape `\c` stands for: `\n`, `\t`, `\r` are control characters, any
/// other character stands for itself.
pub open spec fn escaped_char(c: char) -> char {
    if c == 'n' {
        '\n'
    } else if c == 't' {
        '\t'
    } else if c == 'r' {
        '\r'
    } else {
        c
    }
}

/// `s` with its backslash escapes resolved; a lone backslash at the end stays.
pub open spec fn unescaped(s: Seq<char>) -> Seq<char>
    decreases s.len(),
{
    if s.len() == 0 {
        seq![]
    } else if s[0] != '\\' {
        seq![s[0]] + unescaped(s.drop_first())
    } else if s.len() == 1 {
        seq!['\\']
    } else {
        seq![escaped_char(s[1])] + unescaped(s.skip(2))
    }
}

/// Text without a backslash has nothing to resolve: it comes back unchanged.
pub proof fn law_unescape_plain_text(s: Seq<char>)
    requires
        forall|i: int| 0 <= i < s.len() ==> s[i] != '\\',
    ensures
        unescaped(s) == s,
    decreases s.len(),
{
    if s.len() > 0 {
        law_unescape_plain_text(s.drop_first());
        assert(seq![s[0]] + s.drop_first() =~= s);
    }
}

/// An escape stands for one character and what follows is resolved on its
/// own; a backslash that ends the text is kept.
pub proof fn law_unescape_escape(c: char, rest: Seq<char>)
    ensures
        unescaped(seq!['\\', c] + rest) == seq![escaped_char(c)] + unescaped(rest),
        unescaped(seq!['\\']) == seq!['\\'],
{
    let s = seq!['\\', c] + rest;
    assert(s.skip(2) =~= rest);
}

/// Resolves the escapes in `cs[from..to]`.
fn unescape_range(cs: &Vec<char>, from: usize, to: usize) -> (out: String)
    requires
        from <= to <= cs@.len(),
    ensures
        out@ == unescaped(cs@.subrange(from as int, to as int)),
{
    let ghost whole = cs@.subrange(from as int, to as int);
    let mut out = String::new();
    let mut i = from;
    while i < to
        invariant
            from <= i <= to <= cs@.len(),
            whole == cs@.subrange(from as int, to as int),
            unescaped(whole) == out@ + unescaped(cs@.subrange(i as int, to as int)),
        decreases to - i,
    {
        let ghost rest = cs@.subrange(i as int, to as int);
        let c = cs[i];
        if c != '\\' {
            proof {
                assert(rest.drop_first() =~= cs@.subrange(i + 1, to as int));
                assert(out@.push(c) + unescaped(rest.drop_first()) =~= out@ + unescaped(rest));
            }
            push_char(&mut out, c);
            i = i + 1;
        } else if i + 1 == to {
            proof {
                assert(cs@.subrange(i + 1, to as int) =~= Seq::<char>::empty());
                assert(out@.push('\\') + unescaped(cs@.subrange(i + 1, to as int)) =~= out@
                    + unescaped(rest));
            }
            push_char(&mut out, '\\');
            i = i + 1;
        } else {
            let n = cs[i + 1];
            let e = if n == 'n' {
                '\n'
            } else if n == 't' {
                '\t'
            } else if n == 'r' {
                '\r'
            } else {
                n
            };
            proof {
                assert(rest.skip(2) =~= cs@.subrange(i + 2, to as int));
                assert(out@.push(e) + unescaped(rest.skip(2)) =~= out@ + unescaped(rest));
            }
            push_char(&mut out, e);
            i = i + 2;
        }
    }
    proof {
        assert(unescaped(cs@.subrange(i as int, to as int)) =~= Seq::<char>::empty());
        assert(out@ + Seq::<char>::empty() =~= out@);
    }
    out
}

/// Resolves the common escapes of a JSON string (the text is for people to read,
/// not for a parser).
fn unescape(s: &str) -> (out: String)
    ensures
        out@ == unescaped(s@),
{
    let cs = chars_of(s);
    proof {
        assert(cs@.subrange(0, cs@.len() as int) =~= cs@);
    }
    unescape_range(&cs, 0, cs.len())
}

/// Whether some byte is one of `{`, `[`, `}`, `]`.
pub open spec fn has_bracket(w: Seq<u8>) -> bool {
    exists|i: int| 0 <= i < w.len() && (w[i] == 123 || w[i] == 91 || w[i] == 125 || w[i] == 93)
}

/// Pieces that carry a scalar value.
pub open spec fn is_value_kind(k: TokKind) -> bool {
    k == TokKind::Str || k == TokKind::Num || k == TokKind::Const
}

/// Index of the first value piece at or after `k`, or the number of pieces.
pub open spec fn first_value(toks: Seq<(int, int, TokKind)>, k: int) -> int
    decreases toks.len() - k,
{
    if 0 <= k < toks.len() {
        if is_value_kind(toks[k].2) {
            k
        } else {
            first_value(toks, k + 1)
        }
    } else {
        toks.len() as int
    }
}

/// A quoted text loses its quotes and has its escapes resolved; anything else stays.
pub open spec fn unquoted(v: Seq<char>) -> Seq<char> {
    if v.len() >= 2 && v[0] == '"' && v.last() == '"' {
        unescaped(v.subrange(1, v.len() - 1))
    } else {
        v
    }
}

/// The simple value of a line: none when some punctuation holds a bracket (the value
/// is an object or array); otherwise the first value piece, trimmed, unquoted and
/// unescaped, unless that comes out empty.
pub open spec fn scalar_of(line: &str) -> Option<Seq<char>> {
    let b = line.spec_bytes();
    let toks = line_tokens(line);
    if exists|k: int|
        0 <= k < toks.len() && toks[k].2 == TokKind::Punct && has_bracket(
            #[trigger] b.subrange(toks[k].0, toks[k].1),
        ) {
        None
    } else {
        let f = first_value(toks, 0);
        if f >= toks.len() {
            None
        } else {
            let u = unquoted(trimmed(decode_utf8(b.subrange(toks[f].0, toks[f].1))));
            if u.len() == 0 {
                None
            } else {
                Some(u)
            }
        }
    }
}

/// Whether a piece holds a bracket byte.
fn text_has_bracket(s: &str) -> (r: bool)
    ensures
        r == has_bracket(s.spec_bytes()),
{
    let b = s.as_bytes();
    let mut i: usize = 0;
    while i < b.len()
        invariant
            b@ == s.spec_bytes(),
            0 <= i <= b@.len(),
            forall|k: int|
                0 <= k < i ==> !(b@[k] == 123 || b@[k] == 91 || b@[k] == 125 || b@[k] == 93),
        decreases b@.len() - i,
    {
        let c = b[i];
        if c == 123 || c == 91 || c == 125 || c == 93 {
            return true;
        }
        i = i + 1;
    }
    false
}

/// The simple value on a line, for "copy this value": `"key": "value",` gives
/// `value`, an array element line `  "x",` gives `x`. Lines that hold an object or
/// array (a bracket) have none, nor have lines whose value comes out empty.
pub fn line_scalar(line: &str) -> (r: Option<String>)
    ensures
        r is Some <==> scalar_of(line) is Some,
        r matches Some(x) ==> x@ == scalar_of(line)->0,
{
    let toks = tokenize_line(line);
    let ghost b = line.spec_bytes();
    let ghost lt = line_tokens(line);
    let mut value: Option<usize> = None;
    let mut k: usize = 0;
    proof {
        lemma_first_value_ge(lt, 0);
    }
    while k < toks.len()
        invariant
            toks@.len() == lt.len(),
            b == line.spec_bytes(),
            lt == line_tokens(line),
            forall|j: int|
                0 <= j < toks@.len() ==> (#[trigger] toks@[j]).kind == lt[j].2
                    && toks@[j].text.spec_bytes() == b.subrange(lt[j].0, lt[j].1),
            0 <= k <= toks@.len(),
            forall|j: int|
                0 <= j < k ==> !(lt[j].2 == TokKind::Punct && has_bracket(
                    #[trigger] b.subrange(lt[j].0, lt[j].1),
                )),
            match value {
                Some(f) => f < k && f == first_value(lt, 0),
                None => first_value(lt, 0) >= k,
            },
        decreases toks@.len() - k,
    {
        let tok = toks[k];
        proof {
            assert(toks@[k as int] == tok);
        }
        if tok.kind == TokKind::Punct && text_has_bracket(tok.text) {
            return None;
        }
        if value.is_none() && (tok.kind == TokKind::Str || tok.kind == TokKind::Num || tok.kind
            == TokKind::Const) {
            proof {
                lemma_first_value_at(lt, 0, k as int);
            }
            value = Some(k);
        } else if value.is_none() {
            proof {
                lemma_first_value_skip(lt, 0, k as int);
            }
        }
        k = k + 1;
    }
    let f = match value {
        Some(f) => f,
        None => {
            return None;
        },
    };
    let text = toks[f].text;
    proof {
        assert(toks@[f as int].text == text);
        vstd::utf8::encode_utf8_decode_utf8(text@);
        assert(text@ == decode_utf8(b.subrange(lt[f as int].0, lt[f as int].1)));
    }
    let v = trim_str(text);
    let cs = chars_of(v);
    let n = cs.len();
    let u = if n >= 2 && cs[0] == '"' && cs[n - 1] == '"' {
        unescape_range(&cs, 1, n - 1)
    } else {
        proof {
            assert(cs@.last() == cs@[n - 1]);
        }
        String::from_str(v)
    };
    proof {
        if n >= 2 {
            assert(cs@.last() == cs@[n - 1]);
        }
    }
    if u.as_str().is_empty() {
        None
    } else {
        Some(u)
    }
}

/// The first value piece at or after `from` is at `k` when `k` is one and none
/// of `from..k` is.
proof fn lemma_first_value_at(toks: Seq<(int, int, TokKind)>, from: int, k: int)
    requires
        0 <= from <= k < toks.len(),
        is_value_kind(toks[k].2),
        first_value(toks, from) >= k,
    ensures
        first_value(toks, from) == k,
    decreases k - from,
{
    if from < k {
        assert(!is_value_kind(toks[from].2));
        lemma_first_value_at(toks, from + 1, k);
    }
}

/// Passing a non-value piece at `k` moves the lower bound of the first value past it.
proof fn lemma_first_value_skip(toks: Seq<(int, int, TokKind)>, from: int, k: int)
    requires
        0 <= from <= k < toks.len(),
        !is_value_kind(toks[k].2),
        first_value(toks, from) >= k,
    ensures
        first_value(toks, from) >= k + 1,
    decreases k - from,
{
    if from < k {
        lemma_first_value_skip(toks, from + 1, k);
    } else {
        lemma_first_value_ge(toks, k + 1);
    }
}

/// The first value piece at or after `from` is not before `from`.
proof fn lemma_first_value_ge(toks: Seq<(int, int, TokKind)>, from: int)
    requires
        0 <= from <= toks.len(),
    ensures
        first_value(toks, from) >= from,
    decreases toks.len() - from,
{
    if from < toks.len() && !is_value_kind(toks[from].2) {
        lemma_first_value_ge(toks, from + 1);
    }
}

/// Largest body, in bytes, that is rendered without being asked for in full.
pub const MAX_RENDER_BYTES: usize = 2097152;

/// Whether a body is too large to render unasked.
pub fn over_render_limit(body: &[u8]) -> (r: bool)
    ensures
        r == (body@.len() > MAX_RENDER_BYTES),
{
    body.len() > MAX_RENDER_BYTES
}

/// Picks the colour of a piece: strings, keys, numbers and literals have their
/// own, everything else has the foreground colour.
pub fn token_color<C>(kind: TokKind, fg: C, string: C, key: C, num: C, konst: C) -> (r: C)
    ensures
        r == match kind {
            TokKind::Str => string,
            TokKind::Key => key,
            TokKind::Num => num,
            TokKind::Const => konst,
            _ => fg,
        },
{
    match kind {
        TokKind::Str => string,
        TokKind::Key => key,
        TokKind::Num => num,
        TokKind::Const => konst,
        _ => fg,
    }
}

} // verus!
