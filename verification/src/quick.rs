//! The command palette list: recent history first (with the status of each
//! send), then requests from every workspace, those of the current workspace
//! first, all filtered by the keyword.

use vstd::prelude::*;
use vstd::string::{StringExecFns, StringSliceAdditionalSpecFns};
use vstd::utf8::encode_utf8;
use crate::text::{contains_text, occurs_at, lowercase, trimmed, to_lowercase, trim_str, push_char};
use crate::panes::{shortened, truncate_url};
use crate::nav::{paths_equal, same_workspace};
use crate::search::{rank_entries, ranked, ranked_part, strs_view, Hit};
use crate::i18n::{tr, tr_text, Locale};
use crate::menu::{all_digits, digits_value};

verus! {

/// How many history entries the palette lists at most.
pub const QUICK_HISTORY_MAX: usize = 30;

/// How many entries the palette lists at most.
pub const QUICK_MAX: usize = 60;

/// A history entry, by what the palette shows of it.
#[derive(Debug, Clone, PartialEq, Eq)]
pub struct HistoryItem {
    pub id: i64,
    pub method: String,
    pub name: String,
    pub url: String,
    /// Status code of the response, when one came.
    pub status: Option<u16>,
    /// The send failed without a response.
    pub failed: bool,
}

/// A request of some workspace, indexed for the palette.
#[derive(Debug, Clone, PartialEq, Eq)]
pub struct CrossEntry {
    /// Root directory of the workspace.
    pub workspace: String,
    pub workspace_name: String,
    /// `collection` or `collection/group`.
    pub container: String,
    pub request_id: String,
    pub method: String,
    pub name: String,
    pub url: String,
    /// The lower-case search text (see [`crate::search::haystack`]).
    pub index_text: String,
}

impl Hit for CrossEntry {
    open spec fn hit_workspace(&self) -> Seq<char> {
        self.workspace@
    }

    open spec fn hit_text(&self) -> Seq<char> {
        self.index_text@
    }

    fn workspace(&self) -> (r: &str) {
        self.workspace.as_str()
    }

    fn haystack(&self) -> (r: &str) {
        self.index_text.as_str()
    }
}

/// What a palette entry leads to.
#[derive(Debug, Clone, PartialEq, Eq)]
pub enum QuickTarget {
    /// A history entry, by id.
    History(i64),
    /// A request of a workspace (possibly another one than the current).
    CrossRequest { workspace: String, request: String },
}

/// A palette target as plain values.
pub enum QuickTargetV {
    History(i64),
    CrossRequest(Seq<char>, Seq<char>),
}

impl View for QuickTarget {
    type V = QuickTargetV;

    open spec fn view(&self) -> QuickTargetV {
        match self {
            QuickTarget::History(h) => QuickTargetV::History(*h),
            QuickTarget::CrossRequest { workspace, request } => QuickTargetV::CrossRequest(workspace@, request@),
        }
    }
}

/// The digit character of `d` (0 to 9).
pub open spec fn digit_char(d: int) -> char {
    ((48 + d) as u8) as char
}

/// `n` in decimal.
pub open spec fn decimal(n: nat) -> Seq<char>
    decreases n,
{
    if n < 10 {
        seq![digit_char(n as int)]
    } else {
        decimal(n / 10).push(digit_char((n % 10) as int))
    }
}

proof fn lemma_digit(d: int)
    requires
        0 <= d < 10,
    ensures
        '0' <= digit_char(d) <= '9',
        digit_char(d) as int - '0' as int == d,
{
}

/// A number in decimal: digits only, reading back as the number.
pub proof fn lemma_decimal(n: nat)
    ensures
        all_digits(decimal(n)),
        digits_value(decimal(n)) == n,
    decreases n,
{
    if n < 10 {
        lemma_digit(n as int);
        assert(decimal(n).drop_last() =~= Seq::<char>::empty());
        assert(digits_value(Seq::<char>::empty()) == 0);
    } else {
        lemma_decimal(n / 10);
        lemma_digit((n % 10) as int);
        let s = decimal(n);
        assert(s.drop_last() =~= decimal(n / 10));
        assert(s.last() == digit_char((n % 10) as int));
        assert(digits_value(s) == digits_value(s.drop_last()) * 10 + (s.last() as int - '0' as int));
        assert(n == (n / 10) * 10 + n % 10);
        assert forall|i: int| 0 <= i < s.len() implies '0' <= #[trigger] s[i] <= '9' by {
            if i < s.len() - 1 {
                assert(s[i] == decimal(n / 10)[i]);
            }
        }
    }
}

/// Appends `n` in decimal.
pub fn push_decimal(out: &mut String, n: u64)
    ensures
        final(out)@ == old(out)@ + decimal(n as nat),
    decreases n,
{
    if n >= 10 {
        push_decimal(out, n / 10);
    }
    let d = (n % 10) as u8;
    push_char(out, (48u8 + d) as char);
    proof {
        if n >= 10 {
            assert(decimal(n as nat) == decimal((n / 10) as nat).push(digit_char((n % 10) as int)));
        }
    }
}

/// `q` occurs in the bytes of `text`.
pub open spec fn mentions(text: Seq<char>, q: Seq<char>) -> bool {
    exists|i: int| occurs_at(encode_utf8(text), encode_utf8(q), i)
}

/// The history entry matches the (lower-case) keyword: an empty keyword
/// matches all; otherwise its name, URL or method in lower case contains it.
pub open spec fn history_hit(h: HistoryItem, q: Seq<char>) -> bool {
    q.len() == 0 || mentions(lowercase(h.name@), q) || mentions(lowercase(h.url@), q) || mentions(
        lowercase(h.method@),
        q,
    )
}

/// The status shown for a history entry: the code, `✗` for a failed send,
/// nothing otherwise.
pub open spec fn status_text(h: HistoryItem) -> Seq<char> {
    match h.status {
        Some(s) => decimal(s as nat),
        None => if h.failed {
            "✗"@
        } else {
            seq![]
        },
    }
}

/// The label of a history entry: method, name, shortened URL, status.
pub open spec fn history_label(h: HistoryItem) -> Seq<char> {
    h.method@ + "  "@ + h.name@ + "  —  "@ + shortened(h.url@, 50) + "  ...  "@ + status_text(h)
}

/// The palette entry of a history entry.
pub open spec fn history_entry(h: HistoryItem) -> (QuickTargetV, Seq<char>) {
    (QuickTargetV::History(h.id), history_label(h))
}

/// The entries of the matching history entries among the first `n`, in order.
pub open spec fn history_hits(hs: Seq<HistoryItem>, q: Seq<char>, n: int) -> Seq<(QuickTargetV, Seq<char>)>
    decreases n,
{
    if n <= 0 {
        seq![]
    } else if history_hit(hs[n - 1], q) {
        history_hits(hs, q, n - 1).push(history_entry(hs[n - 1]))
    } else {
        history_hits(hs, q, n - 1)
    }
}

/// The history part of the palette: the first [`QUICK_HISTORY_MAX`] matches.
pub open spec fn history_part(hs: Seq<HistoryItem>, q: Seq<char>) -> Seq<(QuickTargetV, Seq<char>)> {
    let all = history_hits(hs, q, hs.len() as int);
    if all.len() <= QUICK_HISTORY_MAX {
        all
    } else {
        all.take(QUICK_HISTORY_MAX as int)
    }
}

/// Where a request lies: its container in the current workspace, else the
/// workspace name and the container.
pub open spec fn scope_of(e: CrossEntry, current: Seq<char>) -> Seq<char> {
    if same_workspace(e.workspace@, current) {
        e.container@
    } else {
        e.workspace_name@ + " › "@ + e.container@
    }
}

/// The label of a request: method, name, shortened URL, and where it lies.
pub open spec fn cross_label(e: CrossEntry, current: Seq<char>) -> Seq<char> {
    e.method@ + "  "@ + e.name@ + "  —  "@ + shortened(e.url@, 44) + "  ("@ + scope_of(e, current) + ")"@
}

/// The palette entry of a request.
pub open spec fn cross_entry(e: CrossEntry, current: Seq<char>) -> (QuickTargetV, Seq<char>) {
    (QuickTargetV::CrossRequest(e.workspace@, e.request_id@), cross_label(e, current))
}

/// The palette: the history part, then the requests ranked by the search
/// (see [`ranked`]) up to [`QUICK_MAX`] entries in all. The keyword is taken
/// trimmed and in lower case.
pub open spec fn palette_of(hs: Seq<HistoryItem>, es: Seq<CrossEntry>, current: Seq<char>, query: Seq<char>) -> Seq<(QuickTargetV, Seq<char>)> {
    let q = lowercase(trimmed(query));
    let hist = history_part(hs, q);
    let order = ranked(
        es.map_values(|e: CrossEntry| e.workspace@),
        es.map_values(|e: CrossEntry| e.index_text@),
        current,
        q,
        (QUICK_MAX - hist.len()) as usize,
    );
    hist + order.map_values(|i: usize| cross_entry(es[i as int], current))
}

/// The palette entries as plain values.
pub open spec fn entries_view(v: Seq<(QuickTarget, String)>) -> Seq<(QuickTargetV, Seq<char>)> {
    v.map_values(|p: (QuickTarget, String)| (p.0@, p.1@))
}

fn history_matches(h: &HistoryItem, q: &str) -> (r: bool)
    ensures
        r == history_hit(*h, q@),
{
    if q.as_bytes().len() == 0 {
        proof {
            if q@.len() > 0 {
                assert(q.spec_bytes() == encode_utf8(q@));
                vstd::utf8::encode_utf8_decode_utf8(q@);
            }
        }
        return true;
    }
    proof {
        assert(q.spec_bytes().len() > 0);
        if q@.len() == 0 {
            assert(q@ =~= Seq::<char>::empty());
            assert(encode_utf8(Seq::<char>::empty()) =~= Seq::<u8>::empty());
        }
    }
    let n = to_lowercase(h.name.as_str());
    let u = to_lowercase(h.url.as_str());
    let m = to_lowercase(h.method.as_str());
    let ns = n.as_str();
    let us = u.as_str();
    let ms = m.as_str();
    proof {
        assert(ns.spec_bytes() == encode_utf8(ns@));
        assert(us.spec_bytes() == encode_utf8(us@));
        assert(ms.spec_bytes() == encode_utf8(ms@));
        assert(q.spec_bytes() == encode_utf8(q@));
    }
    contains_text(ns, q) || contains_text(us, q) || contains_text(ms, q)
}

fn history_label_of(h: &HistoryItem) -> (r: String)
    ensures
        r@ == history_label(*h),
{
    let mut out = String::from_str(h.method.as_str());
    out.append("  ");
    out.append(h.name.as_str());
    out.append("  —  ");
    let short = truncate_url(h.url.as_str(), 50);
    out.append(short.as_str());
    out.append("  ...  ");
    match h.status {
        Some(s) => push_decimal(&mut out, s as u64),
        None => {
            if h.failed {
                out.append("✗");
            }
        },
    }
    proof {
        if h.status is None && !h.failed {
            assert(out@ =~= history_label(*h));
        }
    }
    out
}

fn cross_label_of(e: &CrossEntry, current: &str) -> (r: String)
    ensures
        r@ == cross_label(*e, current@),
{
    let mut out = String::from_str(e.method.as_str());
    out.append("  ");
    out.append(e.name.as_str());
    out.append("  —  ");
    let short = truncate_url(e.url.as_str(), 44);
    out.append(short.as_str());
    out.append("  (");
    if paths_equal(e.workspace.as_str(), current) {
        out.append(e.container.as_str());
    } else {
        out.append(e.workspace_name.as_str());
        out.append(" › ");
        out.append(e.container.as_str());
    }
    out.append(")");
    out
}

proof fn lemma_ranked_part_range(
    wss: Seq<Seq<char>>,
    hays: Seq<Seq<char>>,
    current: Seq<char>,
    q: Seq<char>,
    same: bool,
    n: int,
)
    requires
        n <= usize::MAX,
    ensures
        forall|t: int| 0 <= t < ranked_part(wss, hays, current, q, same, n).len() ==> (#[trigger] ranked_part(
            wss,
            hays,
            current,
            q,
            same,
            n,
        )[t]) < n,
    decreases n,
{
    if n > 0 {
        lemma_ranked_part_range(wss, hays, current, q, same, n - 1);
        let rest = ranked_part(wss, hays, current, q, same, n - 1);
        let i = n - 1;
        if same_workspace(wss[i], current) == same && crate::search::hit_matches(hays[i], q) {
            assert forall|t: int| 0 <= t < rest.push(i as usize).len() implies (#[trigger] rest.push(i as usize)[t]) < n by {
                if t < rest.len() {
                    assert(rest.push(i as usize)[t] == rest[t]);
                }
            }
        }
    }
}

proof fn lemma_ranked_range(wss: Seq<Seq<char>>, hays: Seq<Seq<char>>, current: Seq<char>, query: Seq<char>, limit: usize)
    requires
        wss.len() <= usize::MAX,
    ensures
        forall|t: int| 0 <= t < ranked(wss, hays, current, query, limit).len() ==> (#[trigger] ranked(
            wss,
            hays,
            current,
            query,
            limit,
        )[t]) < wss.len(),
{
    let q = lowercase(trimmed(query));
    let n = wss.len() as int;
    lemma_ranked_part_range(wss, hays, current, q, true, n);
    lemma_ranked_part_range(wss, hays, current, q, false, n);
    let a = ranked_part(wss, hays, current, q, true, n);
    let b = ranked_part(wss, hays, current, q, false, n);
    assert forall|t: int| 0 <= t < (a + b).len() implies (#[trigger] (a + b)[t]) < n by {
        if t < a.len() {
            assert((a + b)[t] == a[t]);
        } else {
            assert((a + b)[t] == b[t - a.len()]);
        }
    }
}

proof fn lemma_history_hits_prefix(hs: Seq<HistoryItem>, q: Seq<char>, n: int, m: int)
    requires
        0 <= n <= m,
    ensures
        history_hits(hs, q, n).len() <= history_hits(hs, q, m).len(),
        history_hits(hs, q, m).take(history_hits(hs, q, n).len() as int) == history_hits(hs, q, n),
    decreases m - n,
{
    if n < m {
        lemma_history_hits_prefix(hs, q, n, m - 1);
        let a = history_hits(hs, q, n);
        let b = history_hits(hs, q, m - 1);
        if history_hit(hs[m - 1], q) {
            assert(history_hits(hs, q, m).take(a.len() as int) =~= b.take(a.len() as int));
        }
    } else {
        assert(history_hits(hs, q, m).take(history_hits(hs, q, n).len() as int) =~= history_hits(hs, q, n));
    }
}

/// Builds the palette list: see [`palette_of`].
pub fn quick_list(history: &[HistoryItem], entries: &[CrossEntry], current: &str, query: &str) -> (r: Vec<
    (QuickTarget, String),
>)
    ensures
        entries_view(r@) == palette_of(history@, entries@, current@, query@),
{
    let q = to_lowercase(trim_str(query));
    let ghost ql = q@;
    let mut list: Vec<(QuickTarget, String)> = Vec::new();
    let mut i: usize = 0;
    let mut full = false;
    while i < history.len() && !full
        invariant
            ql == q@,
            ql == lowercase(trimmed(query@)),
            i <= history@.len(),
            entries_view(list@) == history_hits(history@, ql, i as int),
            !full ==> list@.len() < QUICK_HISTORY_MAX,
            full ==> list@.len() == QUICK_HISTORY_MAX,
        decreases history@.len() - i, if full { 0int } else { 1int },
    {
        let h = &history[i];
        if history_matches(h, q.as_str()) {
            let ghost before = entries_view(list@);
            list.push((QuickTarget::History(h.id), history_label_of(h)));
            proof {
                assert(entries_view(list@) =~= before.push(history_entry(history@[i as int])));
            }
            if list.len() >= QUICK_HISTORY_MAX {
                full = true;
            }
        }
        i = i + 1;
    }
    proof {
        let hs = history@;
        let all = history_hits(hs, ql, hs.len() as int);
        lemma_history_hits_prefix(hs, ql, i as int, hs.len() as int);
        if full {
            assert(all.take(QUICK_HISTORY_MAX as int) == history_hits(hs, ql, i as int));
            assert(history_part(hs, ql) == entries_view(list@));
        } else {
            assert(i == hs.len());
            assert(history_part(hs, ql) == entries_view(list@));
        }
    }
    let ghost hist = entries_view(list@);
    let mut wss: Vec<&str> = Vec::new();
    let mut hays: Vec<&str> = Vec::new();
    let mut k: usize = 0;
    while k < entries.len()
        invariant
            k <= entries@.len(),
            strs_view(wss@) == entries@.take(k as int).map_values(|e: CrossEntry| e.workspace@),
            strs_view(hays@) == entries@.take(k as int).map_values(|e: CrossEntry| e.index_text@),
        decreases entries@.len() - k,
    {
        let ghost w0 = wss@;
        let ghost h0 = hays@;
        let e = &entries[k];
        wss.push(e.workspace.as_str());
        hays.push(e.index_text.as_str());
        proof {
            assert(e == &entries@[k as int]);
            assert(strs_view(wss@) =~= strs_view(w0).push(entries@[k as int].workspace@));
            assert(strs_view(hays@) =~= strs_view(h0).push(entries@[k as int].index_text@));
            assert(entries@.take(k + 1) =~= entries@.take(k as int).push(entries@[k as int]));
            assert(strs_view(wss@) =~= entries@.take(k + 1).map_values(|e: CrossEntry| e.workspace@));
            assert(strs_view(hays@) =~= entries@.take(k + 1).map_values(|e: CrossEntry| e.index_text@));
        }
        k = k + 1;
    }
    proof {
        assert(entries@.take(k as int) =~= entries@);
    }
    let order = rank_entries(&wss, &hays, current, q.as_str(), QUICK_MAX - list.len());
    let ghost ord = order@;
    proof {
        lemma_ranked_range(strs_view(wss@), strs_view(hays@), current@, q@, (QUICK_MAX - list@.len()) as usize);
    }
    let mut j: usize = 0;
    while j < order.len()
        invariant
            ord == order@,
            hist.len() <= QUICK_HISTORY_MAX,
            entries_view(list@) == hist + ord.take(j as int).map_values(|x: usize| cross_entry(entries@[x as int], current@)),
            j <= ord.len(),
            forall|t: int| 0 <= t < ord.len() ==> (#[trigger] ord[t]) < entries@.len(),
        decreases ord.len() - j,
    {
        let x = order[j];
        let e = &entries[x];
        let ghost before = entries_view(list@);
        list.push((QuickTarget::CrossRequest { workspace: e.workspace.clone(), request: e.request_id.clone() }, cross_label_of(e, current)));
        proof {
            assert(entries_view(list@) =~= before.push(cross_entry(entries@[x as int], current@)));
            assert(ord.take(j + 1).map_values(|x: usize| cross_entry(entries@[x as int], current@))
                =~= ord.take(j as int).map_values(|x: usize| cross_entry(entries@[x as int], current@)).push(
                cross_entry(entries@[x as int], current@),
            ));
        }
        j = j + 1;
    }
    proof {
        assert(ord.take(j as int) =~= ord);
    }
    list
}

/// The highlight after the list changed: kept, but moved onto the last entry
/// when it lies past the end (0 for an empty list).
pub fn clamp_selected(selected: usize, len: usize) -> (r: usize)
    ensures
        r == if len == 0 {
            0
        } else if selected < len {
            selected
        } else {
            (len - 1) as usize
        },
{
    let last = if len == 0 {
        0
    } else {
        len - 1
    };
    if selected < last {
        selected
    } else {
        last
    }
}

/// Whole minutes from `sent_at` to `now` (both in milliseconds); a time in
/// the future counts as now.
pub open spec fn minutes_ago(sent_at: i64, now: i64) -> int {
    let d = now - sent_at;
    if d < 0 {
        0
    } else {
        d / 60000
    }
}

/// How long ago something happened: "just now" under a minute, then
/// minutes under an hour, hours under a day, days beyond.
pub open spec fn ago_text(locale: Locale, sent_at: i64, now: i64) -> Seq<char> {
    let m = minutes_ago(sent_at, now);
    if m == 0 {
        tr_text(locale, "history.just_now"@)
    } else if m < 60 {
        decimal(m as nat) + tr_text(locale, "history.min_ago"@)
    } else if m < 1440 {
        decimal((m / 60) as nat) + tr_text(locale, "history.hour_ago"@)
    } else {
        decimal((m / 1440) as nat) + tr_text(locale, "history.day_ago"@)
    }
}

/// The "how long ago" label of a history entry: see [`ago_text`].
pub fn ago_label(locale: Locale, sent_at: i64, now: i64) -> (r: String)
    requires
        i64::MIN <= now - sent_at <= i64::MAX,
    ensures
        r@ == ago_text(locale, sent_at, now),
{
    let d = now - sent_at;
    let m: u64 = if d < 0 {
        0
    } else {
        (d / 60000) as u64
    };
    let mut out = String::new();
    if m == 0 {
        out.append(tr(locale, "history.just_now"));
    } else if m < 60 {
        push_decimal(&mut out, m);
        out.append(tr(locale, "history.min_ago"));
    } else if m < 1440 {
        push_decimal(&mut out, m / 60);
        out.append(tr(locale, "history.hour_ago"));
    } else {
        push_decimal(&mut out, m / 1440);
        out.append(tr(locale, "history.day_ago"));
    }
    out
}

proof fn lemma_history_hits_len(hs: Seq<HistoryItem>, q: Seq<char>, n: int)
    requires
        0 <= n,
    ensures
        history_hits(hs, q, n).len() <= n,
    decreases n,
{
    if n > 0 {
        lemma_history_hits_len(hs, q, n - 1);
    }
}

/// Every listed history match comes from a history entry that matches.
proof fn lemma_history_hits_from(hs: Seq<HistoryItem>, q: Seq<char>, n: int)
    requires
        0 <= n <= hs.len(),
    ensures
        forall|j: int|
            0 <= j < history_hits(hs, q, n).len() ==> exists|k: int|
                0 <= k < n && #[trigger] history_hits(hs, q, n)[j] == history_entry(hs[k]) && history_hit(
                    hs[k],
                    q,
                ),
    decreases n,
{
    if n > 0 {
        lemma_history_hits_from(hs, q, n - 1);
        let a = history_hits(hs, q, n - 1);
        let b = history_hits(hs, q, n);
        assert forall|j: int| 0 <= j < b.len() implies exists|k: int|
            0 <= k < n && #[trigger] b[j] == history_entry(hs[k]) && history_hit(hs[k], q) by {
            if j < a.len() {
                assert(b[j] == a[j]);
                let k = choose|k: int| 0 <= k < n - 1 && #[trigger] a[j] == history_entry(hs[k]) && history_hit(hs[k], q);
                assert(b[j] == history_entry(hs[k]));
            } else {
                assert(b[j] == history_entry(hs[n - 1]));
            }
        }
    }
}

/// The palette lists a history entry of the first [`QUICK_HISTORY_MAX`]
/// whenever its name, URL or method, in lower case, contains the keyword
/// (taken trimmed and in lower case), or the keyword is empty; and every
/// history entry it lists is one that matches so.
pub proof fn law_palette_lists_matching_history(
    hs: Seq<HistoryItem>,
    es: Seq<CrossEntry>,
    current: Seq<char>,
    query: Seq<char>,
)
    ensures
        forall|k: int|
            0 <= k < hs.len() && k < QUICK_HISTORY_MAX && (lowercase(trimmed(query)).len() == 0 || mentions(
                lowercase(#[trigger] hs[k].name@),
                lowercase(trimmed(query)),
            ) || mentions(lowercase(hs[k].url@), lowercase(trimmed(query))) || mentions(
                lowercase(hs[k].method@),
                lowercase(trimmed(query)),
            )) ==> palette_of(hs, es, current, query).contains(history_entry(hs[k])),
        forall|j: int|
            0 <= j < palette_of(hs, es, current, query).len() && (#[trigger] palette_of(
                hs,
                es,
                current,
                query,
            )[j]).0 is History ==> exists|k: int|
                0 <= k < hs.len() && palette_of(hs, es, current, query)[j] == history_entry(hs[k]) && (
                lowercase(trimmed(query)).len() == 0 || mentions(
                    lowercase(hs[k].name@),
                    lowercase(trimmed(query)),
                ) || mentions(lowercase(hs[k].url@), lowercase(trimmed(query))) || mentions(
                    lowercase(hs[k].method@),
                    lowercase(trimmed(query)),
                )),
{
    let q = lowercase(trimmed(query));
    let n = hs.len() as int;
    let all = history_hits(hs, q, n);
    let hist = history_part(hs, q);
    let pal = palette_of(hs, es, current, query);
    let order = ranked(
        es.map_values(|e: CrossEntry| e.workspace@),
        es.map_values(|e: CrossEntry| e.index_text@),
        current,
        q,
        (QUICK_MAX - hist.len()) as usize,
    );
    let cross = order.map_values(|i: usize| cross_entry(es[i as int], current));
    assert(pal == hist + cross);
    assert forall|k: int|
        0 <= k < hs.len() && k < QUICK_HISTORY_MAX && (q.len() == 0 || mentions(
            lowercase(#[trigger] hs[k].name@),
            q,
        ) || mentions(lowercase(hs[k].url@), q) || mentions(lowercase(hs[k].method@), q))
        implies pal.contains(history_entry(hs[k])) by {
        assert(history_hit(hs[k], q));
        let i0 = history_hits(hs, q, k).len() as int;
        lemma_history_hits_len(hs, q, k);
        lemma_history_hits_prefix(hs, q, k + 1, n);
        let upto = history_hits(hs, q, k + 1);
        assert(upto == history_hits(hs, q, k).push(history_entry(hs[k])));
        assert(upto[i0] == history_entry(hs[k]));
        assert(all.take(upto.len() as int) == upto);
        assert(all[i0] == history_entry(hs[k]));
        assert(hist[i0] == history_entry(hs[k]));
        assert(pal[i0] == history_entry(hs[k]));
    }
    lemma_history_hits_from(hs, q, n);
    assert forall|j: int| 0 <= j < pal.len() && (#[trigger] pal[j]).0 is History implies exists|k: int|
        0 <= k < hs.len() && pal[j] == history_entry(hs[k]) && (q.len() == 0 || mentions(
            lowercase(hs[k].name@),
            q,
        ) || mentions(lowercase(hs[k].url@), q) || mentions(lowercase(hs[k].method@), q)) by {
        if j >= hist.len() {
            assert(pal[j] == cross[j - hist.len()]);
            assert(false);
        }
        assert(pal[j] == hist[j]);
        assert(hist[j] == all[j]);
        let k = choose|k: int| 0 <= k < n && #[trigger] all[j] == history_entry(hs[k]) && history_hit(hs[k], q);
        assert(pal[j] == history_entry(hs[k]));
    }
}

} // verus!
