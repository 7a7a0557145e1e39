//! Line bookkeeping of a streamed response body.

use vstd::prelude::*;

verus! {

/// Number of newline bytes in `s`.
pub open spec fn newline_count(s: Seq<u8>) -> nat
    decreases s.len(),
{
    if s.len() == 0 {
        0
    } else {
        newline_count(s.drop_last()) + if s.last() == 10 {
            1nat
        } else {
            0nat
        }
    }
}

/// A chunk of body arrived: returns the line number (from 0) it starts on and
/// moves the running line count past its newlines.
pub fn next_mark_line(total: &mut usize, chunk: &[u8]) -> (start: usize)
    requires
        *old(total) + newline_count(chunk@) <= usize::MAX,
    ensures
        start == *old(total),
        *final(total) == *old(total) + newline_count(chunk@),
{
    let start = *total;
    let mut n: usize = 0;
    let mut i: usize = 0;
    while i < chunk.len()
        invariant
            i <= chunk@.len(),
            n == newline_count(chunk@.take(i as int)),
            start + newline_count(chunk@) <= usize::MAX,
        decreases chunk@.len() - i,
    {
        proof {
            assert(chunk@.take(i + 1).drop_last() =~= chunk@.take(i as int));
            lemma_newline_count_prefix(chunk@, i + 1);
        }
        if chunk[i] == 10 {
            n = n + 1;
        }
        i = i + 1;
    }
    proof {
        assert(chunk@.take(i as int) =~= chunk@);
    }
    *total = start + n;
    start
}

/// A prefix has no more newlines than the whole.
proof fn lemma_newline_count_prefix(s: Seq<u8>, k: int)
    requires
        0 <= k <= s.len(),
    ensures
        newline_count(s.take(k)) <= newline_count(s),
    decreases s.len() - k,
{
    if k < s.len() {
        lemma_newline_count_prefix(s, k + 1);
        assert(s.take(k + 1).drop_last() =~= s.take(k));
    } else {
        assert(s.take(k) =~= s);
    }
}

/// Marking chunk after chunk counts the newlines of all of them together.
pub proof fn law_marks_add_up(a: Seq<u8>, b: Seq<u8>)
    ensures
        newline_count(a + b) == newline_count(a) + newline_count(b),
    decreases b.len(),
{
    if b.len() == 0 {
        assert(a + b =~= a);
    } else {
        law_marks_add_up(a, b.drop_last());
        assert((a + b).drop_last() =~= a + b.drop_last());
    }
}

} // verus!
