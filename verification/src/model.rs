//! The workspace tree as the logic sees it (collections, nested groups,
//! requests), selections in it, the rows of its flattened form, and the rules
//! for dropping a dragged item.

use vstd::prelude::*;
use crate::text::text_eq;

verus! {

/// A request, by the fields the tree logic reads.
#[derive(Debug, Clone, PartialEq, Eq)]
pub struct RequestItem {
    pub id: String,
    pub name: String,
}

/// A request as plain values: (id, name).
pub type RequestV = (Seq<char>, Seq<char>);

impl View for RequestItem {
    type V = RequestV;

    open spec fn view(&self) -> RequestV {
        (self.id@, self.name@)
    }
}

/// A group of requests. Groups are stored flat; nesting lives in `parent`.
#[derive(Debug, Clone, PartialEq, Eq)]
pub struct Group {
    pub id: String,
    /// Id of the parent group; `None` for a first-level group.
    pub parent: Option<String>,
    pub name: String,
    pub requests: Vec<RequestItem>,
}

/// A group as plain values.
pub struct GroupV {
    pub id: Seq<char>,
    pub parent: Option<Seq<char>>,
    pub name: Seq<char>,
    pub requests: Seq<RequestV>,
}

impl View for Group {
    type V = GroupV;

    open spec fn view(&self) -> GroupV {
        GroupV {
            id: self.id@,
            parent: match self.parent {
                Some(p) => Some(p@),
                None => None,
            },
            name: self.name@,
            requests: self.requests@.map_values(|r: RequestItem| r@),
        }
    }
}

/// A collection: its groups and the requests directly under it.
#[derive(Debug, Clone, PartialEq, Eq)]
pub struct Collection {
    pub id: String,
    pub name: String,
    pub groups: Vec<Group>,
    pub requests: Vec<RequestItem>,
}

/// A collection as plain values.
pub struct CollectionV {
    pub id: Seq<char>,
    pub name: Seq<char>,
    pub groups: Seq<GroupV>,
    pub requests: Seq<RequestV>,
}

impl View for Collection {
    type V = CollectionV;

    open spec fn view(&self) -> CollectionV {
        CollectionV {
            id: self.id@,
            name: self.name@,
            groups: self.groups@.map_values(|g: Group| g@),
            requests: self.requests@.map_values(|r: RequestItem| r@),
        }
    }
}

/// The collections as plain values.
pub open spec fn cols_view(cols: Seq<Collection>) -> Seq<CollectionV> {
    cols.map_values(|c: Collection| c@)
}

/// The selected node of the tree.
#[derive(Debug, Clone, PartialEq, Eq)]
pub enum Selection {
    Collection(String),
    Group(String),
    Request(String),
}

/// A selection as plain values.
pub enum SelectionV {
    Collection(Seq<char>),
    Group(Seq<char>),
    Request(Seq<char>),
}

impl View for Selection {
    type V = SelectionV;

    open spec fn view(&self) -> SelectionV {
        match self {
            Selection::Collection(id) => SelectionV::Collection(id@),
            Selection::Group(id) => SelectionV::Group(id@),
            Selection::Request(id) => SelectionV::Request(id@),
        }
    }
}

impl Selection {
    /// The id of the selected node, whatever its kind.
    pub fn id(&self) -> (r: &String)
        ensures
            r@ == match self@ {
                SelectionV::Collection(id) => id,
                SelectionV::Group(id) => id,
                SelectionV::Request(id) => id,
            },
    {
        match self {
            Selection::Collection(id) => id,
            Selection::Group(id) => id,
            Selection::Request(id) => id,
        }
    }

    /// Whether two selections pick the same node (same kind, same id).
    pub fn same_as(&self, other: &Selection) -> (r: bool)
        ensures
            r == (self@ == other@),
    {
        match (self, other) {
            (Selection::Collection(a), Selection::Collection(b)) => text_eq(a, b),
            (Selection::Group(a), Selection::Group(b)) => text_eq(a, b),
            (Selection::Request(a), Selection::Request(b)) => text_eq(a, b),
            _ => false,
        }
    }
}

/// Where a row of the flattened tree points: `req` set = a request row; only
/// `grp` set = a group row; neither = a collection row.
#[derive(Debug, Clone, Copy, PartialEq, Eq, Structural)]
pub struct RowRef {
    pub col: usize,
    pub grp: Option<usize>,
    pub req: Option<usize>,
}

/// One row of the side tree: its place and its state; names are looked up
/// when drawn.
#[derive(Clone, Copy)]
pub struct TreeRow {
    pub at: RowRef,
    /// Status code of the last send, for request rows.
    pub status: Option<u16>,
    pub selected: bool,
    pub renaming: bool,
    pub collapsed: bool,
    /// Indentation level.
    pub depth: u8,
}

/// What kind of node a row is.
#[derive(Debug, Clone, Copy, PartialEq, Eq, Structural)]
pub enum RowKind {
    Collection,
    Group,
    Request,
}

/// The kind of node a row points at.
pub fn row_kind(at: RowRef) -> (k: RowKind)
    ensures
        k == (if at.req is Some {
            RowKind::Request
        } else if at.grp is Some {
            RowKind::Group
        } else {
            RowKind::Collection
        }),
{
    match (at.grp, at.req) {
        (_, Some(_)) => RowKind::Request,
        (Some(_), None) => RowKind::Group,
        (None, None) => RowKind::Collection,
    }
}

/// Where a dragged node lands relative to the row under the pointer.
#[derive(Clone, Copy, PartialEq, Eq, Debug, Structural)]
pub enum DropZone {
    /// Before the row.
    Before,
    /// Into the row (a group or collection).
    Inside,
    /// After the row.
    After,
}

/// Index of the first id in `ids` equal to `t`.
pub open spec fn first_index(ids: Seq<Seq<char>>, t: Seq<char>, j: int) -> Option<int>
    decreases ids.len() - j,
{
    if 0 <= j < ids.len() {
        if ids[j] == t {
            Some(j)
        } else {
            first_index(ids, t, j + 1)
        }
    } else {
        None
    }
}

/// The strings as plain values.
pub open spec fn strings_view(v: Seq<String>) -> Seq<Seq<char>> {
    v.map_values(|s: String| s@)
}

/// Where a dropped id goes: before or after the first occurrence of the target
/// id; at the end when dropped inside, without a target, or when the target is
/// not there.
pub open spec fn insert_position(ids: Seq<Seq<char>>, target: Option<Seq<char>>, zone: DropZone) -> int {
    match target {
        None => ids.len() as int,
        Some(t) => match zone {
            DropZone::Inside => ids.len() as int,
            DropZone::Before => match first_index(ids, t, 0) {
                Some(k) => k,
                None => ids.len() as int,
            },
            DropZone::After => match first_index(ids, t, 0) {
                Some(k) => k + 1,
                None => ids.len() as int,
            },
        },
    }
}

pub(crate) proof fn lemma_first_index_range(ids: Seq<Seq<char>>, t: Seq<char>, j: int)
    requires
        0 <= j,
    ensures
        first_index(ids, t, j) matches Some(k) ==> j <= k < ids.len() && ids[k] == t,
    decreases ids.len() - j,
{
    if j < ids.len() && ids[j] != t {
        lemma_first_index_range(ids, t, j + 1);
    }
}

/// Inserts the dragged `id` into the ordered `ids` at its drop position (the
/// caller takes it out first, so moving within one list does not shift by one).
pub fn insert_into(ids: &mut Vec<String>, id: &str, target_id: Option<&str>, zone: DropZone)
    ensures
        strings_view(final(ids)@) == strings_view(old(ids)@).insert(
            insert_position(
                strings_view(old(ids)@),
                match target_id {
                    Some(t) => Some(t@),
                    None => None,
                },
                zone,
            ),
            id@,
        ),
{
    let ghost vs = strings_view(ids@);
    let ghost tv = match target_id {
        Some(t) => Some(t@),
        None => None::<Seq<char>>,
    };
    let n = ids.len();
    let at = match (target_id, zone) {
        (None, _) => n,
        (_, DropZone::Inside) => n,
        (Some(t), z) => {
            let mut j: usize = 0;
            let mut found: Option<usize> = None;
            while j < n && found.is_none()
                invariant
                    n == ids@.len(),
                    vs == strings_view(ids@),
                    j <= n,
                    found is None ==> first_index(vs, t@, 0) == first_index(vs, t@, j as int),
                    found matches Some(k) ==> first_index(vs, t@, 0) == Some(k as int) && k < n,
                decreases n - j,
            {
                if text_eq(&ids[j], t) {
                    found = Some(j);
                }
                j = j + 1;
            }
            match found {
                Some(k) => if z == DropZone::After {
                    k + 1
                } else {
                    k
                },
                None => n,
            }
        },
    };
    proof {
        lemma_first_index_range(vs, if tv is Some { tv->0 } else { Seq::empty() }, 0);
        assert(at == insert_position(vs, tv, zone));
    }
    ids.insert(at, id.to_owned());
    proof {
        assert(strings_view(ids@) =~= vs.insert(at as int, id@));
    }
}

} // verus!

verus! {

/// Number of event breaks (blank lines, `\n\n` or `\r\n\r\n`) from position `i` on.
pub open spec fn event_breaks_from(b: Seq<u8>, i: int) -> nat
    decreases b.len() - i,
{
    if 0 <= i < b.len() {
        if b[i] == 10 && i + 1 < b.len() && b[i + 1] == 10 {
            1 + event_breaks_from(b, i + 2)
        } else if b[i] == 10 && i + 2 < b.len() && b[i + 1] == 13 && b[i + 2] == 10 {
            1 + event_breaks_from(b, i + 3)
        } else {
            event_breaks_from(b, i + 1)
        }
    } else {
        0
    }
}

/// Counts the event breaks of server-sent events in a chunk: a blank line,
/// with `\n` or `\r\n` line ends.
pub fn count_event_breaks(bytes: &[u8]) -> (n: usize)
    ensures
        n == event_breaks_from(bytes@, 0),
{
    let len = bytes.len();
    let mut n: usize = 0;
    let mut i: usize = 0;
    while i < len
        invariant
            len == bytes@.len(),
            i <= len,
            n <= i,
            n + event_breaks_from(bytes@, i as int) == event_breaks_from(bytes@, 0),
        decreases len - i,
    {
        if bytes[i] == 10 {
            if i + 1 < len && bytes[i + 1] == 10 {
                n = n + 1;
                i = i + 2;
                continue;
            }
            if i + 1 < len && i + 2 < len && bytes[i + 1] == 13 && bytes[i + 2] == 10 {
                n = n + 1;
                i = i + 3;
                continue;
            }
        }
        i = i + 1;
    }
    n
}

} // verus!
