//! The rows of the trash dialog: how a deleted node is labelled, and the key
//! that tells the rows apart.

use vstd::prelude::*;

verus! {

/// What kind of node a trash entry holds.
#[derive(Debug, Clone, Copy, PartialEq, Eq, Structural)]
pub enum TrashKind {
    Collection,
    Group,
    Request,
}

/// The icon of a kind of node.
pub open spec fn kind_icon(kind: TrashKind) -> Seq<char> {
    match kind {
        TrashKind::Collection => "📁 "@,
        TrashKind::Group => "🗂 "@,
        TrashKind::Request => "📄 "@,
    }
}

/// The label of a trash entry: the icon of its kind, then its name.
pub fn trash_label(kind: TrashKind, name: &str) -> (r: String)
    ensures
        r@ == kind_icon(kind) + name@,
{
    let icon = match kind {
        TrashKind::Collection => "📁 ",
        TrashKind::Group => "🗂 ",
        TrashKind::Request => "📄 ",
    };
    let mut out = String::from_str(icon);
    out.append(name);
    out
}

/// The key of a trash entry's row: the id of the deleted node (the request,
/// else the group, else the collection).
pub fn trash_entry_key(col_id: &str, group_id: Option<&str>, req_id: Option<&str>) -> (r: String)
    ensures
        r@ == match req_id {
            Some(r) => r@,
            None => match group_id {
                Some(g) => g@,
                None => col_id@,
            },
        },
{
    match req_id {
        Some(r) => r.to_string(),
        None => match group_id {
            Some(g) => g.to_string(),
            None => col_id.to_string(),
        },
    }
}

} // verus!
