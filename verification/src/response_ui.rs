//! Mouse selection in the response body: ordering the two ends, the byte range
//! selected on each row, and the selected text.

use vstd::prelude::*;
use vstd::utf8::{encode_utf8, decode_utf8, is_char_boundary, valid_utf8};
use vstd::string::{StringSliceAdditionalSpecFns, StringExecFns};
use crate::text::{byte_slice, push_char};

verus! {

/// A selection in the response body: where the button went down and where the
/// pointer is, each as (visible row, byte column).
#[derive(Debug, Clone, Copy)]
pub struct RespSel {
    pub a_row: usize,
    pub a_col: usize,
    pub c_row: usize,
    pub c_col: usize,
}

/// `(r1, c1)` comes before `(r2, c2)`.
pub open spec fn pos_before(r1: usize, c1: usize, r2: usize, c2: usize) -> bool {
    r1 < r2 || (r1 == r2 && c1 < c2)
}

/// The two ends in order, start first.
pub open spec fn sel_range(s: RespSel) -> ((usize, usize), (usize, usize)) {
    if pos_before(s.c_row, s.c_col, s.a_row, s.a_col) {
        ((s.c_row, s.c_col), (s.a_row, s.a_col))
    } else {
        ((s.a_row, s.a_col), (s.c_row, s.c_col))
    }
}

pub open spec fn min_usize(a: usize, b: usize) -> usize {
    if a < b {
        a
    } else {
        b
    }
}

/// The selected byte range of row `row` (of length `row_len`), if any.
pub open spec fn sel_row_range(s: RespSel, row: usize, row_len: usize) -> Option<(usize, usize)> {
    let ((sr, sc), (er, ec)) = sel_range(s);
    if row < sr || row > er {
        None
    } else {
        let from = if row == sr {
            min_usize(sc, row_len)
        } else {
            0
        };
        let to = if row == er {
            min_usize(ec, row_len)
        } else {
            row_len
        };
        if from < to {
            Some((from, to))
        } else {
            None
        }
    }
}

impl RespSel {
    /// The two ends in order (start first).
    pub fn range(&self) -> (r: ((usize, usize), (usize, usize)))
        ensures
            r == sel_range(*self),
    {
        if self.c_row < self.a_row || (self.c_row == self.a_row && self.c_col < self.a_col) {
            ((self.c_row, self.c_col), (self.a_row, self.a_col))
        } else {
            ((self.a_row, self.a_col), (self.c_row, self.c_col))
        }
    }

    /// The byte range selected on row `row` whose length is `row_len`; `None`
    /// when nothing of it is selected.
    pub fn row_range(&self, row: usize, row_len: usize) -> (r: Option<(usize, usize)>)
        ensures
            r == sel_row_range(*self, row, row_len),
    {
        let ((sr, sc), (er, ec)) = self.range();
        if row < sr || row > er {
            return None;
        }
        let from = if row == sr {
            if sc < row_len {
                sc
            } else {
                row_len
            }
        } else {
            0
        };
        let to = if row == er {
            if ec < row_len {
                ec
            } else {
                row_len
            }
        } else {
            row_len
        };
        if from < to {
            Some((from, to))
        } else {
            None
        }
    }
}

/// The last character boundary at or before `i` (counted down from `i`).
pub open spec fn boundary_down(b: Seq<u8>, i: int) -> int
    decreases i,
{
    if i <= 0 {
        0
    } else if is_char_boundary(b, i) {
        i
    } else {
        boundary_down(b, i - 1)
    }
}

/// `i` clamped to the length, then moved back to a character boundary.
pub open spec fn floor_boundary(b: Seq<u8>, i: int) -> int {
    boundary_down(b, if i < b.len() {
        i
    } else {
        b.len() as int
    })
}

proof fn lemma_boundary_down(b: Seq<u8>, i: int)
    requires
        valid_utf8(b),
        0 <= i <= b.len(),
    ensures
        0 <= boundary_down(b, i) <= i,
        is_char_boundary(b, boundary_down(b, i)),
    decreases i,
{
    if i <= 0 {
        vstd::utf8::is_char_boundary_start_end_of_seq(b);
    } else if !is_char_boundary(b, i) {
        lemma_boundary_down(b, i - 1);
    }
}

proof fn lemma_boundary_down_ge(b: Seq<u8>, i: int, k: int)
    requires
        0 <= k <= i,
        is_char_boundary(b, k),
    ensures
        boundary_down(b, i) >= k,
    decreases i,
{
    if i > k && !is_char_boundary(b, i) {
        lemma_boundary_down_ge(b, i - 1, k);
    }
}

/// The piece of `line` between two byte columns, each moved back to a
/// character boundary so that a column in the middle of a character never cuts it.
pub open spec fn slice_bytes(b: Seq<u8>, from: int, to: int) -> Seq<u8> {
    let f = floor_boundary(b, from);
    let t = floor_boundary(b, if to > f {
        to
    } else {
        f
    });
    b.subrange(f, t)
}

/// Cuts `line` between byte columns `from` and `to`, moving each back to a
/// character boundary (a column inside a multi-byte character is clamped).
pub fn slice_chars(line: &str, from: usize, to: usize) -> (r: &str)
    ensures
        r.spec_bytes() == slice_bytes(line.spec_bytes(), from as int, to as int),
{
    proof {
        vstd::utf8::encode_utf8_valid_utf8(line@);
    }
    let f = boundary(line, from);
    let t = boundary(line, if to > f {
        to
    } else {
        f
    });
    proof {
        let b = line.spec_bytes();
        let x: int = if to > f {
            to as int
        } else {
            f as int
        };
        let xc: int = if x < b.len() {
            x
        } else {
            b.len() as int
        };
        lemma_boundary_down_ge(b, xc, f as int);
    }
    byte_slice(line, f, t)
}

/// `i` clamped to the length of `s` and moved back to a character boundary.
fn boundary(s: &str, i: usize) -> (r: usize)
    requires
        valid_utf8(s.spec_bytes()),
    ensures
        r == floor_boundary(s.spec_bytes(), i as int),
        r <= s.spec_bytes().len(),
        is_char_boundary(s.spec_bytes(), r as int),
{
    let n = s.as_bytes().len();
    let mut j = if i < n {
        i
    } else {
        n
    };
    let ghost start = j;
    while j > 0 && !s.is_char_boundary(j)
        invariant
            valid_utf8(s.spec_bytes()),
            n == s.spec_bytes().len(),
            j <= start <= n,
            boundary_down(s.spec_bytes(), j as int) == boundary_down(s.spec_bytes(), start as int),
        decreases j,
    {
        j = j - 1;
    }
    proof {
        lemma_boundary_down(s.spec_bytes(), j as int);
    }
    j
}

/// The text of rows `s_row ..= row - 1` as the selection joins them: each row's
/// selected piece (empty for a row with nothing selected), rows separated by
/// newlines; rows past the last line end the text.
pub open spec fn joined_upto(lines: Seq<Seq<char>>, s: RespSel, row: int) -> Seq<char>
    decreases row,
{
    let s_row = sel_range(s).0.0 as int;
    if row <= s_row {
        seq![]
    } else {
        let t = joined_upto(lines, s, row - 1);
        let r = row - 1;
        if r >= lines.len() {
            t
        } else {
            let b = encode_utf8(lines[r]);
            let piece = match sel_row_range(s, r as usize, b.len() as usize) {
                None => Seq::<char>::empty(),
                Some(rg) => decode_utf8(slice_bytes(b, rg.0 as int, rg.1 as int)),
            };
            (if r > s_row {
                t.push('\n')
            } else {
                t
            }) + piece
        }
    }
}

/// The selected text: `None` for an empty selection or when the text comes
/// out empty.
pub open spec fn selection_text(lines: Seq<Seq<char>>, s: RespSel) -> Option<Seq<char>> {
    let ((sr, sc), (er, ec)) = sel_range(s);
    if sr == er && sc == ec {
        None
    } else {
        let t = joined_upto(lines, s, er + 1);
        if t.len() == 0 {
            None
        } else {
            Some(t)
        }
    }
}

/// The selected text of the response rows `lines`: within a row cut by bytes
/// (clamped to character boundaries), rows joined with newlines; a row with
/// nothing selected adds an empty piece.
pub fn join_resp_selection(lines: &[String], sel: RespSel) -> (r: Option<String>)
    ensures
        match r {
            Some(t) => selection_text(lines@.map_values(|l: String| l@), sel) == Some(t@),
            None => selection_text(lines@.map_values(|l: String| l@), sel) is None,
        },
{
    let ghost ls = lines@.map_values(|l: String| l@);
    let ((s_row, s_col), (e_row, e_col)) = sel.range();
    if s_row == e_row && s_col == e_col {
        return None;
    }
    let mut out = String::new();
    let mut row = s_row;
    let n = lines.len();
    while row <= e_row && row < n
        invariant
            n == lines@.len(),
            ls == lines@.map_values(|l: String| l@),
            ls.len() == n,
            sel_range(sel) == ((s_row, s_col), (e_row, e_col)),
            s_row <= row,
            row <= e_row + 1,
            joined_upto(ls, sel, row as int) == out@,
        decreases n - row,
    {
        let line = lines[row].as_str();
        proof {
            assert(ls[row as int] == line@);
        }
        if row > s_row {
            push_char(&mut out, '\n');
        }
        match sel.row_range(row, line.len()) {
            Some(range) => {
                let piece = slice_chars(line, range.0, range.1);
                proof {
                    vstd::utf8::encode_utf8_decode_utf8(piece@);
                }
                out.append(piece);
            },
            None => {
                proof {
                    assert(out@ + Seq::<char>::empty() =~= out@);
                }
            },
        }
        row = row + 1;
    }
    proof {
        lemma_joined_past_end(ls, sel, row as int, e_row + 1);
    }
    if out.as_str().is_empty() {
        None
    } else {
        Some(out)
    }
}

/// Rows past the end add nothing.
proof fn lemma_joined_past_end(lines: Seq<Seq<char>>, s: RespSel, row: int, to: int)
    requires
        row <= to,
        row >= lines.len() || row == to,
        row >= sel_range(s).0.0,
    ensures
        joined_upto(lines, s, to) == joined_upto(lines, s, row),
    decreases to - row,
{
    if row < to {
        lemma_joined_past_end(lines, s, row, to - 1);
    }
}

} // verus!

verus! {

/// The same selection dragged the other way.
pub open spec fn reversed(s: RespSel) -> RespSel {
    RespSel { a_row: s.c_row, a_col: s.c_col, c_row: s.a_row, c_col: s.a_col }
}

/// Dragging backwards selects the same text as dragging forwards.
pub proof fn law_reversed_drag_same_text(lines: Seq<Seq<char>>, s: RespSel)
    ensures
        selection_text(lines, reversed(s)) == selection_text(lines, s),
{
    assert(sel_range(reversed(s)) == sel_range(s));
    assert forall|row: int| joined_upto(lines, reversed(s), row) == joined_upto(lines, s, row) by {
        lemma_joined_same_range(lines, reversed(s), s, row);
    }
}

proof fn lemma_joined_same_range(lines: Seq<Seq<char>>, s: RespSel, t: RespSel, row: int)
    requires
        sel_range(s) == sel_range(t),
    ensures
        joined_upto(lines, s, row) == joined_upto(lines, t, row),
    decreases row,
{
    if row > sel_range(s).0.0 {
        lemma_joined_same_range(lines, s, t, row - 1);
        assert forall|r: usize, len: usize| sel_row_range(s, r, len) == sel_row_range(t, r, len) by {}
    }
}

/// What a drag selects on each row, from its two ends (in either order): rows
/// outside the rows of the ends nothing; a row strictly between them the
/// whole row; the upper end's row from its column to the end of the row; the
/// lower end's row from the start to its column; a drag within one row the
/// bytes between the two columns. Columns past the row count as its end, and
/// an empty range selects nothing.
pub proof fn law_selection_rows(s: RespSel, row: usize, row_len: usize)
    ensures
        row < s.a_row && row < s.c_row ==> sel_row_range(s, row, row_len) is None,
        row > s.a_row && row > s.c_row ==> sel_row_range(s, row, row_len) is None,
        (s.a_row < row < s.c_row || s.c_row < row < s.a_row) ==> sel_row_range(s, row, row_len) == (
        if row_len > 0 {
            Some((0usize, row_len))
        } else {
            None
        }),
        (s.a_row < s.c_row && row == s.a_row) ==> sel_row_range(s, row, row_len) == (if s.a_col
            < row_len {
            Some((s.a_col, row_len))
        } else {
            None
        }),
        (s.c_row < s.a_row && row == s.c_row) ==> sel_row_range(s, row, row_len) == (if s.c_col
            < row_len {
            Some((s.c_col, row_len))
        } else {
            None
        }),
        (s.a_row < s.c_row && row == s.c_row) ==> sel_row_range(s, row, row_len) == (if s.c_col > 0
            && row_len > 0 {
            Some((0usize, min_usize(s.c_col, row_len)))
        } else {
            None
        }),
        (s.c_row < s.a_row && row == s.a_row) ==> sel_row_range(s, row, row_len) == (if s.a_col > 0
            && row_len > 0 {
            Some((0usize, min_usize(s.a_col, row_len)))
        } else {
            None
        }),
        (s.a_row == s.c_row && row == s.a_row) ==> sel_row_range(s, row, row_len) == (if min_usize(
            min_usize(s.a_col, s.c_col),
            row_len,
        ) < min_usize(if s.a_col < s.c_col {
            s.c_col
        } else {
            s.a_col
        }, row_len) {
            Some(
                (
                    min_usize(min_usize(s.a_col, s.c_col), row_len),
                    min_usize(if s.a_col < s.c_col {
                        s.c_col
                    } else {
                        s.a_col
                    }, row_len),
                ),
            )
        } else {
            None
        }),
{
}

} // verus!
