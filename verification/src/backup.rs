//! Backups: which one the restore dialog picks by default, what a restore
//! reports, and when the automatic backup takes one.

use vstd::prelude::*;
use vstd::string::StringSliceAdditionalSpecFns;
use crate::text::{contains_text, occurs_at};
use crate::i18n::{Locale, tr, tr_text};
use crate::quick::{decimal, push_decimal};

verus! {

/// What each round of the automatic backup uses: which workspace to watch
/// (its root directory), how many minutes apart, and how many copies to keep.
/// A change of the settings is written here and picked up by the next round.
#[derive(Debug, Clone, Default)]
pub struct BackupCfg {
    pub root: String,
    pub interval_min: u64,
    pub keep: usize,
}

/// A backup file, by the field the choice reads.
#[derive(Debug, Clone, PartialEq, Eq)]
pub struct BackupInfo {
    /// File name of the backup.
    pub name: String,
}

/// What the name of a safety copy taken before a restore contains.
pub const SAFETY_MARK: &'static str = "before-restore";

/// The backup at this name is a safety copy taken before a restore.
pub open spec fn is_safety_copy(name: Seq<char>) -> bool {
    exists|i: int| occurs_at(vstd::utf8::encode_utf8(name), SAFETY_MARK.spec_bytes(), i)
}

/// Index of the first backup from `k` on that is not a safety copy.
pub open spec fn first_regular(items: Seq<BackupInfo>, k: int) -> Option<int>
    decreases items.len() - k,
{
    if 0 <= k < items.len() {
        if !is_safety_copy(items[k].name@) {
            Some(k)
        } else {
            first_regular(items, k + 1)
        }
    } else {
        None
    }
}

/// The backup selected by default (the list runs newest first): the newest
/// regular backup; a safety copy taken before a restore is only used when the
/// user picks it, otherwise "overwrite" would undo the last restore. When there
/// is none, the first item (index 0, also for an empty list).
pub fn default_backup_index(items: &[BackupInfo]) -> (r: usize)
    ensures
        r == match first_regular(items@, 0) {
            Some(k) => k,
            None => 0,
        },
{
    let mut k: usize = 0;
    while k < items.len()
        invariant
            k <= items@.len(),
            first_regular(items@, 0) == first_regular(items@, k as int),
        decreases items@.len() - k,
    {
        let name = items[k].name.as_str();
        let safety = contains_text(name, SAFETY_MARK);
        proof {
            assert(name@ == items@[k as int].name@);
            assert(name.spec_bytes() == vstd::utf8::encode_utf8(items@[k as int].name@));
            if safety {
                let w = choose|i: int| occurs_at(name.spec_bytes(), SAFETY_MARK.spec_bytes(), i);
                assert(occurs_at(vstd::utf8::encode_utf8(items@[k as int].name@), SAFETY_MARK.spec_bytes(), w));
            }
            assert(safety == is_safety_copy(items@[k as int].name@));
        }
        if !safety {
            return k;
        }
        k = k + 1;
    }
    0
}

/// The name of the safety copy that a restore reports: the one the restore
/// took itself when it names one, else the one taken just before (empty when
/// there is none).
pub fn safety_name(taken_by_restore: Option<String>, taken_before: String) -> (r: String)
    ensures
        r@ == match taken_by_restore {
            Some(n) => if n@.len() > 0 {
                n@
            } else {
                taken_before@
            },
            None => taken_before@,
        },
{
    match taken_by_restore {
        Some(n) => {
            if n.as_str().unicode_len() > 0 {
                n
            } else {
                taken_before
            }
        },
        None => taken_before,
    }
}

/// The report after a restore: `{done}{backup file} · {collections} {label} ·
/// {requests} {label}`, then ` · {safety label} {name}` when a safety copy was
/// taken. `done` says whether the backup was merged in or replaced the
/// workspace.
pub open spec fn restore_report(
    locale: Locale,
    overwrite: bool,
    zip_name: Seq<char>,
    cols: u64,
    reqs: u64,
    safety: Seq<char>,
) -> Seq<char> {
    let done = if overwrite {
        tr_text(locale, "backup.done_overwrite"@)
    } else {
        tr_text(locale, "backup.done_merge"@)
    };
    let base = done + zip_name + " · "@ + decimal(cols as nat) + " "@ + tr_text(
        locale,
        "backup.collections"@,
    ) + " · "@ + decimal(reqs as nat) + " "@ + tr_text(locale, "backup.requests"@);
    if safety.len() > 0 {
        base + " · "@ + tr_text(locale, "backup.safety"@) + " "@ + safety
    } else {
        base
    }
}

/// The report shown after a restore (see [`restore_report`]).
pub fn restore_message(
    locale: Locale,
    overwrite: bool,
    zip_name: &str,
    cols: u64,
    reqs: u64,
    safety: &str,
) -> (r: String)
    ensures
        r@ == restore_report(locale, overwrite, zip_name@, cols, reqs, safety@),
{
    let key = if overwrite {
        "backup.done_overwrite"
    } else {
        "backup.done_merge"
    };
    let mut msg = String::from_str(tr(locale, key));
    msg.append(zip_name);
    msg.append(" · ");
    push_decimal(&mut msg, cols);
    msg.append(" ");
    msg.append(tr(locale, "backup.collections"));
    msg.append(" · ");
    push_decimal(&mut msg, reqs);
    msg.append(" ");
    msg.append(tr(locale, "backup.requests"));
    let ghost base = msg@;
    if safety.unicode_len() > 0 {
        msg.append(" · ");
        msg.append(tr(locale, "backup.safety"));
        msg.append(" ");
        msg.append(safety);
    }
    proof {
        assert(base =~= (if overwrite {
            tr_text(locale, "backup.done_overwrite"@)
        } else {
            tr_text(locale, "backup.done_merge"@)
        }) + zip_name@ + " · "@ + decimal(cols as nat) + " "@ + tr_text(locale, "backup.collections"@)
            + " · "@ + decimal(reqs as nat) + " "@ + tr_text(locale, "backup.requests"@));
        assert(msg@ =~= restore_report(locale, overwrite, zip_name@, cols, reqs, safety@));
    }
    msg
}

/// Whether a round of the automatic backup takes a backup: the interval is
/// up and the workspace changed after the newest backup (no copy of an
/// unchanged workspace).
pub fn auto_backup_due(interval_up: bool, newest_change: u64, last_backup: u64) -> (r: bool)
    ensures
        r == (interval_up && newest_change > last_backup),
{
    interval_up && newest_change > last_backup
}

/// The values of `v` are strictly increasing.
pub open spec fn increasing(v: Seq<u64>) -> bool {
    forall|i: int, j: int| 0 <= i < j < v.len() ==> v[i] < v[j]
}

/// `x` put into the increasing list `s` at its place (once).
pub open spec fn inserted(s: Seq<u64>, x: u64) -> Seq<u64>
    decreases s.len(),
{
    if s.len() == 0 {
        seq![x]
    } else if x < s[0] {
        seq![x] + s
    } else if x == s[0] {
        s
    } else {
        seq![s[0]] + inserted(s.drop_first(), x)
    }
}

/// Putting a value into an increasing list keeps it increasing, and adds
/// exactly that value.
pub proof fn lemma_inserted(s: Seq<u64>, x: u64)
    requires
        increasing(s),
    ensures
        increasing(inserted(s, x)),
        forall|y: u64| #[trigger] inserted(s, x).contains(y) <==> (s.contains(y) || y == x),
        inserted(s, x).len() > 0 && inserted(s, x)[0] == if s.len() > 0 && s[0] < x {
            s[0]
        } else {
            x
        },
    decreases s.len(),
{
    let r = inserted(s, x);
    if s.len() == 0 {
        assert forall|y: u64| r.contains(y) <==> (s.contains(y) || y == x) by {
            if y == x {
                assert(r[0] == y);
            }
        }
    } else if x < s[0] {
        assert forall|y: u64| r.contains(y) <==> (s.contains(y) || y == x) by {
            if r.contains(y) {
                let i = choose|i: int| 0 <= i < r.len() && r[i] == y;
                if i > 0 {
                    assert(s[i - 1] == y);
                }
            }
            if s.contains(y) {
                let i = choose|i: int| 0 <= i < s.len() && s[i] == y;
                assert(r[i + 1] == y);
            }
            if y == x {
                assert(r[0] == y);
            }
        }
    } else if x == s[0] {
        assert(s.contains(x)) by {
            assert(s[0] == x);
        }
    } else {
        let t = s.drop_first();
        assert(increasing(t));
        lemma_inserted(t, x);
        let rt = inserted(t, x);
        assert(r == seq![s[0]] + rt);
        assert forall|i: int, j: int| 0 <= i < j < r.len() implies r[i] < r[j] by {
            if i == 0 {
                assert(r[j] == rt[j - 1]);
                assert(rt.contains(rt[j - 1]));
                if t.contains(rt[j - 1]) {
                    let m = choose|m: int| 0 <= m < t.len() && t[m] == rt[j - 1];
                    assert(s[m + 1] == t[m]);
                }
            } else {
                assert(r[i] == rt[i - 1] && r[j] == rt[j - 1]);
            }
        }
        assert forall|y: u64| r.contains(y) <==> (s.contains(y) || y == x) by {
            if r.contains(y) {
                let i = choose|i: int| 0 <= i < r.len() && r[i] == y;
                if i > 0 {
                    assert(rt[i - 1] == y);
                    assert(rt.contains(y));
                    if t.contains(y) {
                        let m = choose|m: int| 0 <= m < t.len() && t[m] == y;
                        assert(s[m + 1] == y);
                    }
                } else {
                    assert(s[0] == y);
                }
            }
            if s.contains(y) {
                let i = choose|i: int| 0 <= i < s.len() && s[i] == y;
                if i == 0 {
                    assert(r[0] == y);
                } else {
                    assert(t[i - 1] == y);
                    assert(t.contains(y));
                    assert(rt.contains(y));
                    let m = choose|m: int| 0 <= m < rt.len() && rt[m] == y;
                    assert(r[m + 1] == y);
                }
            }
            if y == x {
                assert(rt.contains(x));
                let m = choose|m: int| 0 <= m < rt.len() && rt[m] == x;
                assert(r[m + 1] == x);
            }
        }
    }
}

proof fn lemma_inserted_skip(s: Seq<u64>, k: int, x: u64)
    requires
        0 <= k < s.len(),
        s[k] < x,
    ensures
        inserted(s.skip(k), x) == seq![s[k]] + inserted(s.skip(k + 1), x),
{
    assert(s.skip(k).drop_first() =~= s.skip(k + 1));
}

/// The choices a settings row offers: the usual ones (`base`, increasing)
/// with the current value put in at its place when it is not among them.
pub fn choices_with(base: &[u64], cur: u64) -> (out: Vec<u64>)
    requires
        increasing(base@),
    ensures
        out@ == inserted(base@, cur),
        increasing(out@),
        forall|x: u64| out@.contains(x) <==> (base@.contains(x) || x == cur),
{
    let n = base.len();
    let mut out: Vec<u64> = Vec::new();
    let mut k: usize = 0;
    proof {
        assert(base@.skip(0) =~= base@);
    }
    while k < n && base[k] < cur
        invariant
            n == base@.len(),
            k <= n,
            out@ == base@.take(k as int),
            inserted(base@, cur) == base@.take(k as int) + inserted(base@.skip(k as int), cur),
        decreases n - k,
    {
        proof {
            lemma_inserted_skip(base@, k as int, cur);
            assert(base@.take(k + 1) =~= base@.take(k as int).push(base@[k as int]));
            assert(base@.take(k as int) + (seq![base@[k as int]] + inserted(base@.skip(k + 1), cur))
                =~= base@.take(k + 1) + inserted(base@.skip(k + 1), cur));
        }
        out.push(base[k]);
        k = k + 1;
    }
    let ghost rest = base@.skip(k as int);
    if k < n && base[k] == cur {
        proof {
            assert(rest[0] == cur);
        }
    } else {
        out.push(cur);
    }
    let ghost mid = out@;
    let mut j = k;
    while j < n
        invariant
            n == base@.len(),
            k <= j <= n,
            out@ == mid + base@.subrange(k as int, j as int),
        decreases n - j,
    {
        out.push(base[j]);
        proof {
            assert(base@.subrange(k as int, j + 1) =~= base@.subrange(k as int, j as int).push(base@[j as int]));
        }
        j = j + 1;
    }
    proof {
        assert(base@.subrange(k as int, n as int) =~= rest);
        if k < n && base@[k as int] == cur {
            assert(out@ =~= base@.take(k as int) + rest);
        } else {
            assert(out@ =~= base@.take(k as int) + (seq![cur] + rest));
        }
        lemma_inserted(base@, cur);
    }
    out
}

/// The choices of the automatic backup interval (minutes; 0 is off, 1440 a
/// day), with the current one when it is unusual.
pub fn interval_choices(cur: u64) -> (out: Vec<u64>)
    ensures
        out@ == inserted(seq![0, 30, 60, 1440], cur),
{
    let base: [u64; 4] = [0, 30, 60, 1440];
    proof {
        assert(base@ =~= seq![0u64, 30, 60, 1440]);
    }
    choices_with(&base, cur)
}

/// The choices of how many backups to keep, with the current one when it is
/// unusual.
pub fn keep_choices(cur: u64) -> (out: Vec<u64>)
    ensures
        out@ == inserted(seq![3, 5, 10, 20, 30], cur),
{
    let base: [u64; 5] = [3, 5, 10, 20, 30];
    proof {
        assert(base@ =~= seq![3u64, 5, 10, 20, 30]);
    }
    choices_with(&base, cur)
}

/// The label of a backup interval: off for 0, one day for 1440, else the
/// minutes.
pub open spec fn interval_label_of(locale: Locale, v: u64) -> Seq<char> {
    if v == 0 {
        tr_text(locale, "settings.backup.off"@)
    } else if v == 1440 {
        seq!['1'] + tr_text(locale, "settings.backup.day"@)
    } else {
        decimal(v as nat) + tr_text(locale, "settings.backup.minutes"@)
    }
}

/// The label of a backup interval (see [`interval_label_of`]).
pub fn interval_label(locale: Locale, v: u64) -> (r: String)
    ensures
        r@ == interval_label_of(locale, v),
{
    if v == 0 {
        String::from_str(tr(locale, "settings.backup.off"))
    } else if v == 1440 {
        let mut out = String::from_str("1");
        out.append(tr(locale, "settings.backup.day"));
        proof {
            reveal_strlit("1");
        }
        out
    } else {
        let mut out = String::new();
        push_decimal(&mut out, v);
        out.append(tr(locale, "settings.backup.minutes"));
        proof {
            assert(out@ =~= decimal(v as nat) + tr_text(locale, "settings.backup.minutes"@));
        }
        out
    }
}

/// The label of a number of backups to keep.
pub fn keep_label(locale: Locale, n: u64) -> (r: String)
    ensures
        r@ == decimal(n as nat) + tr_text(locale, "settings.backup.files"@),
{
    let mut out = String::new();
    push_decimal(&mut out, n);
    out.append(tr(locale, "settings.backup.files"));
    proof {
        assert(out@ =~= decimal(n as nat) + tr_text(locale, "settings.backup.files"@));
    }
    out
}

} // verus!
