//! Browser-like back / forward history of visited (workspace, request) places.
//!
//! Visiting a new place drops the forward branch after the current place and
//! appends; back and forward only move the cursor; visiting the current place
//! again adds nothing.

use vstd::prelude::*;
use crate::text::text_eq;

verus! {

/// Whether two workspace paths name the same path, as `std::path::Path` equality
/// decides it (component by component).
pub uninterp spec fn same_path(a: Seq<char>, b: Seq<char>) -> bool;

/// A path written plainly: no backslash or colon (so no platform prefix), no
/// repeated separator, no `.` component and no trailing separator (but for
/// the root itself). Its components are exactly its `/`-separated pieces.
pub open spec fn simple_path(s: Seq<char>) -> bool {
    &&& forall|i: int| 0 <= i < s.len() ==> #[trigger] s[i] != '\\' && s[i] != ':'
    &&& forall|i: int| 1 <= i < s.len() ==> !(#[trigger] s[i] == '/' && s[i - 1] == '/')
    &&& (s.len() > 1 ==> s.last() != '/')
    &&& forall|i: int|
        0 <= i < s.len() && #[trigger] s[i] == '.' ==> !((i == 0 || s[i - 1] == '/') && (i + 1
            == s.len() || s[i + 1] == '/'))
}

/// Whether two workspace paths are the same workspace: equal text always is;
/// two different plainly written paths never are; otherwise `Path` decides.
pub open spec fn same_workspace(a: Seq<char>, b: Seq<char>) -> bool {
    if a == b {
        true
    } else if simple_path(a) && simple_path(b) {
        false
    } else {
        same_path(a, b)
    }
}

/// `Path::new(a) == Path::new(b)`. `Path` compares the components, so a path
/// equals itself; and since `Path::components` drops only repeated
/// separators, `.` components and a trailing separator, two plainly written
/// paths are equal exactly when their text is.
#[verifier::external_body]
pub(crate) fn paths_equal(a: &str, b: &str) -> (r: bool)
    ensures
        r == same_path(a@, b@),
        a@ == b@ ==> r,
        simple_path(a@) && simple_path(b@) && a@ != b@ ==> !r,
{
    std::path::Path::new(a) == std::path::Path::new(b)
}

/// One visited place.
#[derive(Debug, Clone, PartialEq, Eq)]
pub struct NavEntry {
    /// Root directory of the workspace (project).
    pub workspace: String,
    /// Id of the request.
    pub request: String,
}

impl View for NavEntry {
    type V = (Seq<char>, Seq<char>);

    open spec fn view(&self) -> (Seq<char>, Seq<char>) {
        (self.workspace@, self.request@)
    }
}

/// Two places are the same place: same workspace path and same request id.
pub open spec fn same_place(a: (Seq<char>, Seq<char>), b: (Seq<char>, Seq<char>)) -> bool {
    same_workspace(a.0, b.0) && a.1 == b.1
}

impl NavEntry {
    pub fn new(workspace: &str, request: &str) -> (e: Self)
        ensures
            e@ == (workspace@, request@),
    {
        NavEntry { workspace: workspace.to_owned(), request: request.to_owned() }
    }

    /// A copy of this place.
    pub fn duplicate(&self) -> (e: Self)
        ensures
            e@ == self@,
    {
        NavEntry { workspace: self.workspace.clone(), request: self.request.clone() }
    }

    /// Whether `self` and `other` are the same place.
    pub fn same_as(&self, other: &NavEntry) -> (r: bool)
        ensures
            r == same_place(self@, other@),
    {
        paths_equal(&self.workspace, &other.workspace) && text_eq(&self.request, &other.request)
    }
}

/// The history and the cursor into it.
pub struct NavStack {
    entries: Vec<NavEntry>,
    /// Where the cursor is; `None` exactly when the history is empty.
    pos: Option<usize>,
}

/// The abstract history: the places, in order, and the cursor.
pub struct NavView {
    pub entries: Seq<(Seq<char>, Seq<char>)>,
    pub pos: Option<int>,
}

/// The place under the cursor.
pub open spec fn current_of(v: NavView) -> Option<(Seq<char>, Seq<char>)> {
    match v.pos {
        Some(p) => Some(v.entries[p]),
        None => None,
    }
}

/// A sound history: the cursor is on a place, or there are none.
pub open spec fn nav_sound(v: NavView) -> bool {
    match v.pos {
        Some(p) => 0 <= p < v.entries.len(),
        None => v.entries.len() == 0,
    }
}

/// Whether there is a place before the cursor.
pub open spec fn can_back_of(v: NavView) -> bool {
    v.pos matches Some(p) && p > 0
}

/// Whether there is a place after the cursor.
pub open spec fn can_forward_of(v: NavView) -> bool {
    v.pos matches Some(p) && p + 1 < v.entries.len()
}

/// The history after a step back (unchanged when there is no place before).
pub open spec fn back_of(v: NavView) -> NavView {
    if can_back_of(v) {
        NavView { entries: v.entries, pos: Some(v.pos->0 - 1) }
    } else {
        v
    }
}

/// The history after a step forward (unchanged when there is no place after).
pub open spec fn forward_of(v: NavView) -> NavView {
    if can_forward_of(v) {
        NavView { entries: v.entries, pos: Some(v.pos->0 + 1) }
    } else {
        v
    }
}

/// The history after visiting `e`: unchanged when `e` is the current place;
/// otherwise the places after the cursor are dropped, `e` is appended and the
/// cursor moves onto it.
pub open spec fn push_of(v: NavView, e: (Seq<char>, Seq<char>)) -> NavView {
    if current_of(v) matches Some(c) && same_place(c, e) {
        v
    } else {
        let kept = match v.pos {
            Some(p) => v.entries.take(p + 1),
            None => v.entries,
        };
        NavView { entries: kept.push(e), pos: Some(kept.len() as int) }
    }
}

/// The history after keeping only the places that `keep` accepts: the cursor goes
/// to the first kept place at or after its old position, or to the last kept
/// place when none is left after it.
pub open spec fn retain_of(v: NavView, keep: spec_fn((Seq<char>, Seq<char>)) -> bool) -> NavView {
    let kept = v.entries.filter(keep);
    if kept.len() == 0 {
        NavView { entries: kept, pos: None }
    } else {
        let p = match v.pos {
            Some(p) => {
                let before = v.entries.take(p).filter(keep).len() as int;
                if before < kept.len() {
                    before
                } else {
                    kept.len() - 1
                }
            },
            None => kept.len() - 1,
        };
        NavView { entries: kept, pos: Some(p) }
    }
}

impl NavStack {
    /// The abstract history.
    pub closed spec fn view(&self) -> NavView {
        NavView {
            entries: self.entries@.map_values(|e: NavEntry| e@),
            pos: match self.pos {
                Some(p) => Some(p as int),
                None => None,
            },
        }
    }

    /// The cursor is on a place, or there are none.
    pub closed spec fn wf(&self) -> bool {
        match self.pos {
            Some(p) => p < self.entries@.len(),
            None => self.entries@.len() == 0,
        }
    }

    /// A well-formed history is sound.
    pub proof fn lemma_wf_sound(&self)
        requires
            self.wf(),
        ensures
            nav_sound(self.view()),
    {
    }

    /// An empty history.
    pub fn new() -> (n: Self)
        ensures
            n.wf(),
            n.view().entries.len() == 0,
            n.view().pos is None,
    {
        NavStack { entries: Vec::new(), pos: None }
    }

    /// Number of places.
    pub fn len(&self) -> (r: usize)
        ensures
            r == self.view().entries.len(),
    {
        self.entries.len()
    }

    /// Whether there are no places.
    pub fn is_empty(&self) -> (r: bool)
        ensures
            r == (self.view().entries.len() == 0),
    {
        self.entries.len() == 0
    }

    /// The place under the cursor.
    pub fn current(&self) -> (r: Option<&NavEntry>)
        requires
            self.wf(),
        ensures
            match r {
                Some(e) => current_of(self.view()) == Some(e@),
                None => current_of(self.view()) is None,
            },
    {
        match self.pos {
            Some(p) => Some(&self.entries[p]),
            None => None,
        }
    }

    /// Visits `entry`: drops the forward branch, appends, and moves the cursor to
    /// the end. Visiting the current place again changes nothing.
    pub fn push(&mut self, entry: NavEntry)
        requires
            old(self).wf(),
        ensures
            final(self).wf(),
            final(self).view() == push_of(old(self).view(), entry@),
    {
        let same = match self.current() {
            Some(c) => c.same_as(&entry),
            None => false,
        };
        if same {
            return;
        }
        let ghost old_entries = self.entries@;
        let n = self.entries.len();
        if let Some(p) = self.pos {
            self.entries.truncate(p + 1);
        }
        self.entries.push(entry);
        self.pos = Some(self.entries.len() - 1);
        proof {
            let v = self.view();
            let ov = NavView {
                entries: old_entries.map_values(|e: NavEntry| e@),
                pos: v.pos,
            };
            let want = push_of(old(self).view(), entry@);
            assert(v.entries =~= want.entries);
        }
    }

    /// Whether there is a place before the cursor.
    pub fn can_back(&self) -> (r: bool)
        ensures
            r == can_back_of(self.view()),
    {
        match self.pos {
            Some(p) => p > 0,
            None => false,
        }
    }

    /// Whether there is a place after the cursor.
    pub fn can_forward(&self) -> (r: bool)
        requires
            self.wf(),
        ensures
            r == can_forward_of(self.view()),
    {
        let n = self.entries.len();
        match self.pos {
            Some(p) => p + 1 < n,
            None => false,
        }
    }

    /// Steps back one place and returns the place to show; `None` (and no move)
    /// when there is no place before.
    pub fn back(&mut self) -> (r: Option<NavEntry>)
        requires
            old(self).wf(),
        ensures
            final(self).wf(),
            final(self).view() == back_of(old(self).view()),
            match r {
                Some(e) => can_back_of(old(self).view()) && current_of(final(self).view())
                    == Some(e@),
                None => !can_back_of(old(self).view()),
            },
    {
        let p = match self.pos {
            Some(p) => p,
            None => {
                return None;
            },
        };
        if p == 0 {
            return None;
        }
        self.pos = Some(p - 1);
        let e = self.entries[p - 1].duplicate();
        Some(e)
    }

    /// Steps forward one place and returns the place to show; `None` (and no
    /// move) when there is no place after.
    pub fn forward(&mut self) -> (r: Option<NavEntry>)
        requires
            old(self).wf(),
        ensures
            final(self).wf(),
            final(self).view() == forward_of(old(self).view()),
            match r {
                Some(e) => can_forward_of(old(self).view()) && current_of(final(self).view())
                    == Some(e@),
                None => !can_forward_of(old(self).view()),
            },
    {
        let p = match self.pos {
            Some(p) => p,
            None => {
                return None;
            },
        };
        let n = self.entries.len();
        if p + 1 >= n {
            return None;
        }
        self.pos = Some(p + 1);
        let e = self.entries[p + 1].duplicate();
        Some(e)
    }

    /// Forgets every visit of the request `req_id` (after it was deleted); the
    /// cursor stays on the same place when that place remains.
    pub fn forget_request(&mut self, req_id: &str)
        requires
            old(self).wf(),
        ensures
            final(self).wf(),
            final(self).view() == retain_of(
                old(self).view(),
                |v: (Seq<char>, Seq<char>)| v.1 != req_id@,
            ),
    {
        let keep = |e: &NavEntry| -> (r: bool)
            ensures
                r == (e.request@ != req_id@),
            { !text_eq(&e.request, req_id) };
        self.retain(keep, Ghost(|v: (Seq<char>, Seq<char>)| v.1 != req_id@));
    }

    /// Forgets every visit of the workspace `ws` (after it was removed); the
    /// cursor stays on the same place when that place remains.
    pub fn forget_workspace(&mut self, ws: &str)
        requires
            old(self).wf(),
        ensures
            final(self).wf(),
            final(self).view() == retain_of(
                old(self).view(),
                |v: (Seq<char>, Seq<char>)| !same_workspace(v.0, ws@),
            ),
    {
        let keep = |e: &NavEntry| -> (r: bool)
            ensures
                r == !same_workspace(e.workspace@, ws@),
            { !paths_equal(&e.workspace, ws) };
        self.retain(keep, Ghost(|v: (Seq<char>, Seq<char>)| !same_workspace(v.0, ws@)));
    }

    /// Keeps the places that `keep` accepts; the cursor goes to the first kept
    /// place at or after its old position, else to the last kept place.
    fn retain<F: Fn(&NavEntry) -> bool>(
        &mut self,
        keep: F,
        Ghost(pred): Ghost<spec_fn((Seq<char>, Seq<char>)) -> bool>,
    )
        requires
            old(self).wf(),
            forall|e: NavEntry| #[trigger] keep.requires((&e,)),
            forall|e: NavEntry, r: bool| #[trigger] keep.ensures((&e,), r) ==> r == pred(e@),
        ensures
            final(self).wf(),
            final(self).view() == retain_of(old(self).view(), pred),
    {
        let ghost vs = self.view().entries;
        let p0 = self.pos;
        proof {
            assert(self.wf());
        }
        let mut at: usize = 0;
        let mut kept: Vec<NavEntry> = Vec::new();
        let n = self.entries.len();
        let mut i: usize = 0;
        proof {
            assert(vs.take(0) =~= Seq::<(Seq<char>, Seq<char>)>::empty());
            assert(kept@.map_values(|e: NavEntry| e@) =~= vs.take(0).filter(pred));
        }
        while i < n
            invariant
                n == self.entries@.len(),
                vs == self.entries@.map_values(|e: NavEntry| e@),
                i <= n,
                kept@.map_values(|e: NavEntry| e@) == vs.take(i as int).filter(pred),
                p0 == old(self).pos,
                p0 is Some && p0->0 < i ==> at == vs.take(p0->0 as int).filter(pred).len(),
                p0 is Some ==> p0->0 < n,
                forall|e: NavEntry| #[trigger] keep.requires((&e,)),
                forall|e: NavEntry, r: bool| #[trigger] keep.ensures((&e,), r) ==> r == pred(e@),
            decreases n - i,
        {
            if p0 == Some(i) {
                at = kept.len();
            }
            let e = &self.entries[i];
            let ghost before = kept@;
            let k = keep(e);
            proof {
                assert(vs[i as int] == e@);
                assert(vs.take(i + 1).drop_last() =~= vs.take(i as int));
                assert(vs.take(i + 1).last() == e@);
                assert(k == pred(e@));
                reveal_with_fuel(Seq::<(Seq<char>, Seq<char>)>::filter, 1);
                assert(vs.take(i + 1).filter(pred) == if pred(e@) {
                    vs.take(i as int).filter(pred).push(e@)
                } else {
                    vs.take(i as int).filter(pred)
                });
            }
            if k {
                kept.push(e.duplicate());
                proof {
                    assert(kept@.map_values(|e: NavEntry| e@) =~= before.map_values(
                        |e: NavEntry| e@,
                    ).push(e@));
                }
            }
            i = i + 1;
        }
        proof {
            assert(vs.take(n as int) =~= vs);
        }
        let m = kept.len();
        if m == 0 {
            self.entries = kept;
            self.pos = None;
            return;
        }
        let p = match p0 {
            Some(_) => {
                if at < m {
                    at
                } else {
                    m - 1
                }
            },
            None => m - 1,
        };
        self.entries = kept;
        self.pos = Some(p);
    }
}

} // verus!

verus! {

/// A step back followed by a step forward returns to the same place.
pub proof fn law_back_then_forward(v: NavView)
    requires
        nav_sound(v),
        can_back_of(v),
    ensures
        forward_of(back_of(v)) == v,
{
}

/// A step forward followed by a step back returns to the same place.
pub proof fn law_forward_then_back(v: NavView)
    requires
        nav_sound(v),
        can_forward_of(v),
    ensures
        back_of(forward_of(v)) == v,
{
}

/// Stepping back or forward never adds or drops a place.
pub proof fn law_moves_keep_places(v: NavView)
    ensures
        back_of(v).entries == v.entries,
        forward_of(v).entries == v.entries,
{
}

/// After a visit the history stays sound and the current place is the visited
/// one (or was already the same place); after a visit of a new place there is
/// nothing to go forward to.
pub proof fn law_visit_ends_history(v: NavView, e: (Seq<char>, Seq<char>))
    requires
        nav_sound(v),
    ensures
        nav_sound(push_of(v, e)),
        !(current_of(v) matches Some(c) && same_place(c, e)) ==> !can_forward_of(push_of(v, e)),
        current_of(push_of(v, e)) matches Some(c) && (c == e || same_place(c, e)),
{
}

/// Visiting the place just visited again adds nothing.
pub proof fn law_repeat_visit_adds_nothing(v: NavView, e: (Seq<char>, Seq<char>))
    requires
        nav_sound(v),
    ensures
        push_of(push_of(v, e), e) == push_of(v, e),
{
}

/// A place of another workspace is a new place: visiting it keeps the places up
/// to the cursor and appends it (for two different, plainly written paths).
pub proof fn law_other_workspace_is_new_place(v: NavView, e: (Seq<char>, Seq<char>))
    requires
        nav_sound(v),
        v.pos is Some,
        simple_path((current_of(v)->0).0),
        simple_path(e.0),
        (current_of(v)->0).0 != e.0,
    ensures
        push_of(v, e).entries == v.entries.take(v.pos->0 + 1).push(e),
        current_of(push_of(v, e)) == Some(e),
{
}

/// Forgetting places keeps the cursor on a place (or the history empty), and no
/// kept place is one that was to be forgotten.
pub proof fn law_forget_keeps_cursor_valid(
    v: NavView,
    keep: spec_fn((Seq<char>, Seq<char>)) -> bool,
)
    requires
        nav_sound(v),
    ensures
        nav_sound(retain_of(v, keep)),
        forall|k: int|
            0 <= k < retain_of(v, keep).entries.len() ==> keep(
                #[trigger] retain_of(v, keep).entries[k],
            ),
{
    let kept = v.entries.filter(keep);
    assert forall|k: int| 0 <= k < kept.len() implies keep(#[trigger] kept[k]) by {
        v.entries.lemma_filter_pred(keep, k);
    }
}

/// A kept element sits, among the kept ones, after the kept elements before it.
proof fn lemma_filter_at<A>(s: Seq<A>, keep: spec_fn(A) -> bool, j: int)
    requires
        0 <= j < s.len(),
        keep(s[j]),
    ensures
        s.take(j).filter(keep).len() < s.filter(keep).len(),
        s.filter(keep)[s.take(j).filter(keep).len() as int] == s[j],
{
    let a = s.take(j).push(s[j]);
    let b = s.skip(j + 1);
    assert(s.take(j + 1) =~= a);
    assert(s =~= a + b);
    Seq::filter_distributes_over_add(a, b, keep);
    s.take(j).lemma_filter_push(s[j], keep);
}

/// Skipping elements that are not kept adds nothing to the kept prefix.
proof fn lemma_filter_gap<A>(s: Seq<A>, keep: spec_fn(A) -> bool, p: int, j: int)
    requires
        0 <= p <= j <= s.len(),
        forall|m: int| p <= m < j ==> !keep(#[trigger] s[m]),
    ensures
        s.take(j).filter(keep) == s.take(p).filter(keep),
    decreases j - p,
{
    if j > p {
        lemma_filter_gap(s, keep, p, j - 1);
        assert(s.take(j) =~= s.take(j - 1).push(s[j - 1]));
        s.take(j - 1).lemma_filter_push(s[j - 1], keep);
    }
}

/// After forgetting places, the cursor follows the place the user was on: it
/// stays on that place when it is kept; otherwise it moves to the next kept
/// place after it, or to the last kept place when none follows.
pub proof fn law_forget_follows_the_current_place(
    v: NavView,
    keep: spec_fn((Seq<char>, Seq<char>)) -> bool,
)
    requires
        nav_sound(v),
        v.pos is Some,
    ensures
        keep(current_of(v)->0) ==> current_of(retain_of(v, keep)) == current_of(v),
        forall|j: int|
            v.pos->0 < j < v.entries.len() && #[trigger] keep(v.entries[j]) && (forall|m: int|
                v.pos->0 <= m < j ==> !keep(#[trigger] v.entries[m])) ==> current_of(retain_of(v, keep))
                == Some(v.entries[j]),
        (forall|m: int| v.pos->0 <= m < v.entries.len() ==> !keep(#[trigger] v.entries[m]))
            && v.entries.filter(keep).len() > 0 ==> current_of(retain_of(v, keep)) == Some(
            v.entries.filter(keep).last(),
        ),
{
    let p = v.pos->0;
    let s = v.entries;
    if keep(s[p]) {
        lemma_filter_at(s, keep, p);
    }
    assert forall|j: int|
        p < j < s.len() && #[trigger] keep(s[j]) && (forall|m: int| p <= m < j ==> !keep(#[trigger] s[m]))
            implies current_of(retain_of(v, keep)) == Some(s[j]) by {
        lemma_filter_gap(s, keep, p, j);
        lemma_filter_at(s, keep, j);
    }
    if (forall|m: int| p <= m < s.len() ==> !keep(#[trigger] s[m])) {
        lemma_filter_gap(s, keep, p, s.len() as int);
        assert(s.take(s.len() as int) =~= s);
    }
}

} // verus!
