//! The key-value tables of a request (query parameters, headers and the
//! fields of a multipart body): which cell an input box edits, and the edits
//! the table offers (set a cell, switch a row on or off, add, remove, clear).

use vstd::prelude::*;
use crate::text::{text_eq, push_char};
use crate::panes::{KvWhich, kv_prefix};
use crate::menu::{
    split_colon, colon_from, usize_text, parse_usize, split_at_colon, in_col, no_colon, all_digits,
    digits_value, lemma_no_colon, lemma_split_in_col,
};
use crate::quick::{decimal, push_decimal, lemma_decimal};
use crate::files::{ascii_lowercase, ascii_lower_char};

verus! {

/// One row of a key-value table. Parameters and headers use `description`;
/// multipart fields use `is_file` (the value is then a file path).
#[derive(Debug, Clone, PartialEq, Eq)]
pub struct KvRow {
    pub key: String,
    pub value: String,
    pub description: String,
    pub enabled: bool,
    pub is_file: bool,
}

/// A row as plain values.
pub struct KvRowV {
    pub key: Seq<char>,
    pub value: Seq<char>,
    pub description: Seq<char>,
    pub enabled: bool,
    pub is_file: bool,
}

impl View for KvRow {
    type V = KvRowV;

    open spec fn view(&self) -> KvRowV {
        KvRowV {
            key: self.key@,
            value: self.value@,
            description: self.description@,
            enabled: self.enabled,
            is_file: self.is_file,
        }
    }
}

/// The rows as plain values.
pub open spec fn rows_view(rs: Seq<KvRow>) -> Seq<KvRowV> {
    rs.map_values(|r: KvRow| r@)
}

/// The three tables of a request.
#[derive(Debug, Clone, PartialEq, Eq)]
pub struct KvTables {
    pub params: Vec<KvRow>,
    pub headers: Vec<KvRow>,
    pub form_data: Vec<KvRow>,
}

impl KvTables {
    /// The rows of table `which`.
    pub open spec fn table(&self, which: KvWhich) -> Seq<KvRowV> {
        match which {
            KvWhich::Params => rows_view(self.params@),
            KvWhich::Headers => rows_view(self.headers@),
            KvWhich::FormData => rows_view(self.form_data@),
        }
    }

    /// The other two tables are as in `other`.
    pub open spec fn others_same(&self, other: &KvTables, which: KvWhich) -> bool {
        &&& which != KvWhich::Params ==> rows_view(self.params@) == rows_view(other.params@)
        &&& which != KvWhich::Headers ==> rows_view(self.headers@) == rows_view(other.headers@)
        &&& which != KvWhich::FormData ==> rows_view(self.form_data@) == rows_view(other.form_data@)
    }
}

/// Which part of a row an input box edits.
#[derive(Debug, Clone, Copy, PartialEq, Eq, Structural)]
pub enum KvSlot {
    Key,
    Value,
    Desc,
}

/// The cell an input box edits: table, row, part.
#[derive(Debug, Clone, Copy, PartialEq, Eq, Structural)]
pub struct KvCell {
    pub which: KvWhich,
    pub index: usize,
    pub slot: KvSlot,
}

/// The table a tag names: `P` parameters, `FD` multipart fields, anything
/// else headers.
pub open spec fn which_of(tag: Seq<char>) -> KvWhich {
    if tag == "P"@ {
        KvWhich::Params
    } else if tag == "FD"@ {
        KvWhich::FormData
    } else {
        KvWhich::Headers
    }
}

/// The part a slot name edits. A multipart field has no description: there
/// anything but `key` edits the value.
pub open spec fn slot_of(which: KvWhich, slot: Seq<char>) -> KvSlot {
    if slot == "key"@ {
        KvSlot::Key
    } else if slot == "desc"@ && which != KvWhich::FormData {
        KvSlot::Desc
    } else {
        KvSlot::Value
    }
}

/// The cell named by an input box key `{table}:{request id}:{row}:{part}`:
/// exactly four parts split at `:`; a row number that does not parse counts
/// as row 0.
pub open spec fn cell_of(key: Seq<char>) -> Option<KvCell> {
    match split_colon(key) {
        Some((tag, r1)) => match split_colon(r1) {
            Some((_, r2)) => match split_colon(r2) {
                Some((row, slot)) => if colon_from(slot, 0) is None {
                    let which = which_of(tag);
                    let index = match usize_text(row) {
                        Some(n) => n,
                        None => 0,
                    };
                    Some(KvCell { which, index, slot: slot_of(which, slot) })
                } else {
                    None
                },
                None => None,
            },
            None => None,
        },
        None => None,
    }
}

/// The cell that the input box with key `key` edits (see [`cell_of`]).
pub fn kv_cell(key: &str) -> (r: Option<KvCell>)
    ensures
        r == cell_of(key@),
{
    let (tag, r1) = match split_at_colon(key) {
        Some(p) => p,
        None => {
            return None;
        },
    };
    let (_, r2) = match split_at_colon(r1) {
        Some(p) => p,
        None => {
            return None;
        },
    };
    let (row, slot) = match split_at_colon(r2) {
        Some(p) => p,
        None => {
            return None;
        },
    };
    if split_at_colon(slot).is_some() {
        return None;
    }
    let which = if text_eq(tag, "P") {
        KvWhich::Params
    } else if text_eq(tag, "FD") {
        KvWhich::FormData
    } else {
        KvWhich::Headers
    };
    let index = match parse_usize(row) {
        Some(n) => n,
        None => 0,
    };
    let part = if text_eq(slot, "key") {
        KvSlot::Key
    } else if text_eq(slot, "desc") && which != KvWhich::FormData {
        KvSlot::Desc
    } else {
        KvSlot::Value
    };
    Some(KvCell { which, index, slot: part })
}

/// Row `r` with the part `slot` set to `v`.
pub open spec fn with_cell(r: KvRowV, slot: KvSlot, v: Seq<char>) -> KvRowV {
    match slot {
        KvSlot::Key => KvRowV { key: v, ..r },
        KvSlot::Value => KvRowV { value: v, ..r },
        KvSlot::Desc => KvRowV { description: v, ..r },
    }
}

/// The rows after setting one cell; a row number past the end changes nothing.
pub open spec fn rows_with_cell(rs: Seq<KvRowV>, index: int, slot: KvSlot, v: Seq<char>) -> Seq<KvRowV> {
    if 0 <= index < rs.len() {
        rs.update(index, with_cell(rs[index], slot, v))
    } else {
        rs
    }
}

fn set_row_cell(rows: &mut Vec<KvRow>, index: usize, slot: KvSlot, value: String)
    ensures
        rows_view(final(rows)@) == rows_with_cell(rows_view(old(rows)@), index as int, slot, value@),
{
    let ghost before = rows_view(rows@);
    if index < rows.len() {
        proof {
            assert(before[index as int] == rows@[index as int]@);
        }
        match slot {
            KvSlot::Key => {
                rows[index].key = value;
            },
            KvSlot::Value => {
                rows[index].value = value;
            },
            KvSlot::Desc => {
                rows[index].description = value;
            },
        }
        proof {
            assert(rows_view(rows@) =~= before.update(
                index as int,
                with_cell(before[index as int], slot, value@),
            ));
        }
    }
}

/// Writes `value` into the cell `cell`; a row number past the end of its
/// table changes nothing.
pub fn set_cell(t: &mut KvTables, cell: KvCell, value: String)
    ensures
        final(t).table(cell.which) == rows_with_cell(old(t).table(cell.which), cell.index as int, cell.slot, value@),
        final(t).others_same(old(t), cell.which),
{
    match cell.which {
        KvWhich::Params => set_row_cell(&mut t.params, cell.index, cell.slot, value),
        KvWhich::Headers => set_row_cell(&mut t.headers, cell.index, cell.slot, value),
        KvWhich::FormData => set_row_cell(&mut t.form_data, cell.index, cell.slot, value),
    }
}

/// The rows with row `index` switched on or off; past the end, unchanged.
pub open spec fn rows_toggled(rs: Seq<KvRowV>, index: int) -> Seq<KvRowV> {
    if 0 <= index < rs.len() {
        rs.update(index, KvRowV { enabled: !rs[index].enabled, ..rs[index] })
    } else {
        rs
    }
}

fn toggle_row(rows: &mut Vec<KvRow>, index: usize)
    ensures
        rows_view(final(rows)@) == rows_toggled(rows_view(old(rows)@), index as int),
{
    let ghost before = rows_view(rows@);
    if index < rows.len() {
        proof {
            assert(before[index as int] == rows@[index as int]@);
        }
        let on = rows[index].enabled;
        rows[index].enabled = !on;
        proof {
            assert(rows_view(rows@) =~= before.update(
                index as int,
                KvRowV { enabled: !before[index as int].enabled, ..before[index as int] },
            ));
        }
    }
}

/// Switches row `index` of table `which` on or off; past the end, nothing.
pub fn toggle_enabled(t: &mut KvTables, which: KvWhich, index: usize)
    ensures
        final(t).table(which) == rows_toggled(old(t).table(which), index as int),
        final(t).others_same(old(t), which),
{
    match which {
        KvWhich::Params => toggle_row(&mut t.params, index),
        KvWhich::Headers => toggle_row(&mut t.headers, index),
        KvWhich::FormData => toggle_row(&mut t.form_data, index),
    }
}

/// Switches multipart field `index` between text and file; past the end, nothing.
pub fn toggle_file(t: &mut KvTables, index: usize)
    ensures
        final(t).table(KvWhich::FormData) == if 0 <= index < old(t).table(KvWhich::FormData).len() {
            old(t).table(KvWhich::FormData).update(
                index as int,
                KvRowV {
                    is_file: !old(t).table(KvWhich::FormData)[index as int].is_file,
                    ..old(t).table(KvWhich::FormData)[index as int]
                },
            )
        } else {
            old(t).table(KvWhich::FormData)
        },
        final(t).others_same(old(t), KvWhich::FormData),
{
    let ghost before = rows_view(t.form_data@);
    if index < t.form_data.len() {
        proof {
            assert(before[index as int] == t.form_data@[index as int]@);
        }
        let f = t.form_data[index].is_file;
        t.form_data[index].is_file = !f;
        proof {
            assert(rows_view(t.form_data@) =~= before.update(
                index as int,
                KvRowV { is_file: !before[index as int].is_file, ..before[index as int] },
            ));
        }
    }
}

/// Appends the fresh row `row` to table `which`.
pub fn add_row(t: &mut KvTables, which: KvWhich, row: KvRow)
    ensures
        final(t).table(which) == old(t).table(which).push(row@),
        final(t).others_same(old(t), which),
{
    let ghost r = row@;
    match which {
        KvWhich::Params => {
            t.params.push(row);
            proof {
                assert(rows_view(t.params@) =~= rows_view(old(t).params@).push(r));
            }
        },
        KvWhich::Headers => {
            t.headers.push(row);
            proof {
                assert(rows_view(t.headers@) =~= rows_view(old(t).headers@).push(r));
            }
        },
        KvWhich::FormData => {
            t.form_data.push(row);
            proof {
                assert(rows_view(t.form_data@) =~= rows_view(old(t).form_data@).push(r));
            }
        },
    }
}

/// Empties table `which` ("Delete All").
pub fn clear_table(t: &mut KvTables, which: KvWhich)
    ensures
        final(t).table(which) == Seq::<KvRowV>::empty(),
        final(t).others_same(old(t), which),
{
    match which {
        KvWhich::Params => t.params.clear(),
        KvWhich::Headers => t.headers.clear(),
        KvWhich::FormData => t.form_data.clear(),
    }
    proof {
        assert(t.table(which) =~= Seq::<KvRowV>::empty());
    }
}

/// The rows without row `index`; past the end, unchanged.
pub open spec fn rows_removed(rs: Seq<KvRowV>, index: int) -> Seq<KvRowV> {
    if 0 <= index < rs.len() {
        rs.remove(index)
    } else {
        rs
    }
}

fn remove_at(rows: &mut Vec<KvRow>, index: usize)
    ensures
        rows_view(final(rows)@) == rows_removed(rows_view(old(rows)@), index as int),
{
    let ghost before = rows@;
    if index < rows.len() {
        let _gone = rows.remove(index);
        proof {
            assert(rows_view(rows@) =~= rows_view(before).remove(index as int));
        }
    }
}

/// Takes row `index` out of table `which`; past the end, nothing.
pub fn remove_row(t: &mut KvTables, which: KvWhich, index: usize)
    ensures
        final(t).table(which) == rows_removed(old(t).table(which), index as int),
        final(t).others_same(old(t), which),
{
    match which {
        KvWhich::Params => remove_at(&mut t.params, index),
        KvWhich::Headers => remove_at(&mut t.headers, index),
        KvWhich::FormData => remove_at(&mut t.form_data, index),
    }
}

/// Header `h` is an enabled `Authorization` header (the name compared
/// without regard to ASCII case).
pub open spec fn is_auth_header(h: KvRowV) -> bool {
    h.enabled && h.key.map_values(|c: char| ascii_lower_char(c)) == "authorization"@
}

/// Whether the headers already carry an enabled `Authorization` header
/// written by hand (the auth settings then do not replace it).
pub fn has_manual_auth_header(headers: &[KvRow]) -> (r: bool)
    ensures
        r == exists|k: int| 0 <= k < headers@.len() && is_auth_header(#[trigger] headers@[k]@),
{
    let mut k: usize = 0;
    while k < headers.len()
        invariant
            k <= headers@.len(),
            forall|j: int| 0 <= j < k ==> !is_auth_header(#[trigger] headers@[j]@),
        decreases headers@.len() - k,
    {
        let h = &headers[k];
        if h.enabled {
            let low = ascii_lowercase(h.key.as_str());
            if text_eq(low.as_str(), "authorization") {
                proof {
                    assert(is_auth_header(headers@[k as int]@));
                }
                return true;
            }
        }
        k = k + 1;
    }
    false
}

/// The name of a part in an input box key.
pub open spec fn slot_name(slot: KvSlot) -> Seq<char> {
    match slot {
        KvSlot::Key => "key"@,
        KvSlot::Value => "value"@,
        KvSlot::Desc => "desc"@,
    }
}

/// The tag of a table in an input box key.
pub open spec fn tag_of(which: KvWhich) -> Seq<char> {
    match which {
        KvWhich::Params => "P"@,
        KvWhich::Headers => "H"@,
        KvWhich::FormData => "FD"@,
    }
}

/// The key of the input box for one cell: `{table}:{request id}:{row}:{part}`.
pub open spec fn cell_key(which: KvWhich, req_id: Seq<char>, index: nat, slot: KvSlot) -> Seq<char> {
    in_col(tag_of(which), in_col(req_id, in_col(decimal(index), slot_name(slot))))
}

/// The key of the input box that edits part `slot` of row `index` of table
/// `which` of request `req_id` (see [`cell_key`]).
pub fn kv_field_key(which: KvWhich, req_id: &str, index: usize, slot: KvSlot) -> (r: String)
    ensures
        r@ == cell_key(which, req_id@, index as nat, slot),
{
    let mut out = String::from_str(kv_prefix(which));
    push_char(&mut out, ':');
    out.append(req_id);
    push_char(&mut out, ':');
    push_decimal(&mut out, index as u64);
    push_char(&mut out, ':');
    let name = match slot {
        KvSlot::Key => "key",
        KvSlot::Value => "value",
        KvSlot::Desc => "desc",
    };
    out.append(name);
    proof {
        assert(out@ =~= cell_key(which, req_id@, index as nat, slot));
    }
    out
}

proof fn lemma_tags()
    ensures
        "P"@ == seq!['P'],
        "H"@ == seq!['H'],
        "FD"@ == seq!['F', 'D'],
        "key"@ == seq!['k', 'e', 'y'],
        "value"@ == seq!['v', 'a', 'l', 'u', 'e'],
        "desc"@ == seq!['d', 'e', 's', 'c'],
{
    reveal_strlit("P");
    reveal_strlit("H");
    reveal_strlit("FD");
    reveal_strlit("key");
    reveal_strlit("value");
    reveal_strlit("desc");
}

/// The key that the table gives an input box names the cell it edits: read
/// back, it gives the same table, row and part (a multipart field has no
/// description, so there `desc` edits the value). The request id must hold no
/// `:`, or the key would split at it.
pub proof fn law_cell_key_reads_back(which: KvWhich, req_id: Seq<char>, index: usize, slot: KvSlot)
    requires
        no_colon(req_id),
    ensures
        cell_of(cell_key(which, req_id, index as nat, slot)) == Some(KvCell {
            which,
            index,
            slot: if which == KvWhich::FormData && slot == KvSlot::Desc {
                KvSlot::Value
            } else {
                slot
            },
        }),
{
    lemma_tags();
    lemma_decimal(index as nat);
    let d = decimal(index as nat);
    let name = slot_name(slot);
    let tag = tag_of(which);
    assert(no_colon(tag));
    assert(no_colon(d)) by {
        assert forall|i: int| 0 <= i < d.len() implies d[i] != ':' by {
            assert('0' <= d[i] <= '9');
        }
    }
    assert(no_colon(name));
    let r2 = in_col(d, name);
    let r1 = in_col(req_id, r2);
    lemma_split_in_col(tag, r1);
    lemma_split_in_col(req_id, r2);
    lemma_split_in_col(d, name);
    lemma_no_colon(name, 0);
    assert(which_of(tag) == which);
    assert(d.len() > 0 && d[0] != '+');
    assert(usize_text(d) == Some(index));
}

/// Header `h` is an enabled `Cookie` or `Set-Cookie` header (names compared
/// without regard to ASCII case).
pub open spec fn is_cookie_header(h: KvRowV) -> bool {
    h.enabled && (h.key.map_values(|c: char| ascii_lower_char(c)) == "cookie"@ || h.key.map_values(
        |c: char| ascii_lower_char(c),
    ) == "set-cookie"@)
}

/// Whether the headers carry a cookie header written by hand (the cookie jar
/// then stays out of the request).
pub fn has_manual_cookie_header(headers: &[KvRow]) -> (r: bool)
    ensures
        r == exists|k: int| 0 <= k < headers@.len() && is_cookie_header(#[trigger] headers@[k]@),
{
    let mut k: usize = 0;
    while k < headers.len()
        invariant
            k <= headers@.len(),
            forall|j: int| 0 <= j < k ==> !is_cookie_header(#[trigger] headers@[j]@),
        decreases headers@.len() - k,
    {
        let h = &headers[k];
        if h.enabled {
            let low = ascii_lowercase(h.key.as_str());
            if text_eq(low.as_str(), "cookie") || text_eq(low.as_str(), "set-cookie") {
                proof {
                    assert(is_cookie_header(headers@[k as int]@));
                }
                return true;
            }
        }
        k = k + 1;
    }
    false
}

/// Adds the cookies of the jar to a request's headers: an enabled `Cookie`
/// header with `jar_value` (what the jar holds for the request's URL), unless
/// the request has a cookie header of its own or the jar has nothing for it.
pub fn inject_cookies(headers: &mut Vec<KvRow>, jar_value: Option<String>)
    ensures
        ({
            let manual = exists|k: int| 0 <= k < old(headers)@.len() && is_cookie_header(#[trigger] old(headers)@[k]@);
            rows_view(final(headers)@) == match jar_value {
                Some(v) => if manual {
                    rows_view(old(headers)@)
                } else {
                    rows_view(old(headers)@).push(
                        KvRowV {
                            key: "Cookie"@,
                            value: v@,
                            description: Seq::<char>::empty(),
                            enabled: true,
                            is_file: false,
                        },
                    )
                },
                None => rows_view(old(headers)@),
            }
        }),
{
    if has_manual_cookie_header(headers.as_slice()) {
        return;
    }
    match jar_value {
        Some(v) => {
            let ghost before = rows_view(headers@);
            let row = KvRow {
                key: String::from_str("Cookie"),
                value: v,
                description: String::new(),
                enabled: true,
                is_file: false,
            };
            proof {
                assert(row.description@ =~= Seq::<char>::empty());
            }
            headers.push(row);
            proof {
                assert(rows_view(headers@) =~= before.push(row@));
            }
        },
        None => {},
    }
}

/// Writing a cell changes exactly that cell: the key box sets the key, the
/// value box the value, the description box the description, and every other
/// part of the row, and every other row, stays as it was.
pub proof fn law_cell_edit_changes_only_its_cell(rs: Seq<KvRowV>, index: int, slot: KvSlot, v: Seq<char>)
    requires
        0 <= index < rs.len(),
    ensures
        rows_with_cell(rs, index, slot, v).len() == rs.len(),
        forall|k: int| 0 <= k < rs.len() && k != index ==> #[trigger] rows_with_cell(rs, index, slot, v)[k] == rs[k],
        rows_with_cell(rs, index, slot, v)[index].key == (if slot == KvSlot::Key {
            v
        } else {
            rs[index].key
        }),
        rows_with_cell(rs, index, slot, v)[index].value == (if slot == KvSlot::Value {
            v
        } else {
            rs[index].value
        }),
        rows_with_cell(rs, index, slot, v)[index].description == (if slot == KvSlot::Desc {
            v
        } else {
            rs[index].description
        }),
        rows_with_cell(rs, index, slot, v)[index].enabled == rs[index].enabled,
        rows_with_cell(rs, index, slot, v)[index].is_file == rs[index].is_file,
{
}

} // verus!
