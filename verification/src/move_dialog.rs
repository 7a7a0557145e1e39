//! The "move request" dialog: the request being moved, the filter typed so
//! far and the highlighted candidate. The candidates themselves are computed
//! from the tree on each draw (see [`crate::tree::move_targets`]).

use vstd::prelude::*;

verus! {

/// State of the "move request" dialog.
pub struct MoveDialog {
    pub req_id: String,
    pub request_name: String,
    pub query: String,
    /// Index of the highlighted candidate.
    pub selected: usize,
}

impl MoveDialog {
    /// A dialog for moving request `req_id`, with an empty filter and the
    /// first candidate highlighted.
    pub fn new(req_id: String, request_name: String) -> (d: MoveDialog)
        ensures
            d.req_id@ == req_id@,
            d.request_name@ == request_name@,
            d.query@ == Seq::<char>::empty(),
            d.selected == 0,
    {
        MoveDialog { req_id, request_name, query: String::new(), selected: 0 }
    }

    /// A new filter: the highlight goes back to the first candidate.
    pub fn set_query(&mut self, q: String)
        ensures
            final(self).query@ == q@,
            final(self).selected == 0,
            final(self).req_id@ == old(self).req_id@,
            final(self).request_name@ == old(self).request_name@,
    {
        self.query = q;
        self.selected = 0;
    }

    /// Moves the highlight by `delta` among `n` candidates, wrapping around
    /// at both ends; with no candidates nothing changes.
    pub fn step(&mut self, delta: isize, n: usize)
        requires
            n <= isize::MAX,
            old(self).selected <= isize::MAX,
            isize::MIN <= old(self).selected + delta <= isize::MAX,
        ensures
            n == 0 ==> final(self).selected == old(self).selected,
            n > 0 ==> final(self).selected == (old(self).selected + delta) % (n as int),
            final(self).query@ == old(self).query@,
            final(self).req_id@ == old(self).req_id@,
            final(self).request_name@ == old(self).request_name@,
    {
        if n == 0 {
            return;
        }
        let s: i128 = self.selected as i128 + delta as i128;
        let m: u128 = n as u128;
        if s >= 0 {
            let r = (s as u128) % m;
            self.selected = r as usize;
        } else {
            let a = ((0 - s) as u128) % m;
            proof {
                lemma_negative_mod(s as int, m as int, a as int);
            }
            if a == 0 {
                self.selected = 0;
            } else {
                self.selected = (m - a) as usize;
            }
        }
    }
}

proof fn lemma_negative_mod(s: int, m: int, a: int)
    requires
        s < 0,
        m > 0,
        a == (-s) % m,
    ensures
        a == 0 ==> s % m == 0,
        a != 0 ==> s % m == m - a,
{
    let q = (-s) / m;
    assert(-s == q * m + a) by (nonlinear_arith)
        requires
            m > 0,
            q == (-s) / m,
            a == (-s) % m,
    ;
    assert(0 <= a < m);
    if a == 0 {
        assert(s == (-q) * m) by (nonlinear_arith)
            requires
                -s == q * m + a,
                a == 0,
        ;
        vstd::arithmetic::div_mod::lemma_mod_multiples_basic(-q, m);
    } else {
        assert(s == (-q - 1) * m + (m - a)) by (nonlinear_arith)
            requires
                -s == q * m + a,
        ;
        vstd::arithmetic::div_mod::lemma_mod_multiples_vanish(-q - 1, m - a, m);
        vstd::arithmetic::div_mod::lemma_small_mod((m - a) as nat, m as nat);
    }
}

} // verus!
