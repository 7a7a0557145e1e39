//! Small rules of the panes: the arrival-time column of an event stream, URL
//! shortening for the command palette, the colors of status codes, label
//! keys, and what a click on a menu button does.

use vstd::prelude::*;
use vstd::string::{StrSliceExecFns, StringExecFns};
use crate::text::{push_char, text_eq};
use crate::i18n::{Locale, tr, tr_text};
use crate::menu::BodyKind;

verus! {

/// Some mark is for line `line`.
pub open spec fn has_mark(marks: Seq<(usize, String)>, line: usize) -> bool {
    exists|i: int| 0 <= i < marks.len() && marks[i].0 == line
}

/// The marks are in line order.
pub open spec fn marks_sorted(marks: Seq<(usize, String)>) -> bool {
    forall|i: int, j: int| 0 <= i <= j < marks.len() ==> (#[trigger] marks[i]).0 <= (#[trigger] marks[j]).0
}

/// The time column of an event stream at line `line`: `None` when the
/// column is off or there are no marks (not an event stream); otherwise the
/// arrival time when an event starts on that line, and an empty cell (which
/// keeps the line numbers aligned) when none does. The marks run in line
/// order, so a binary search finds the line.
pub fn sse_time_for(marks: &[(usize, String)], show: bool, line: usize) -> (r: Option<&str>)
    requires
        marks_sorted(marks@),
    ensures
        r is None <==> (!show || marks@.len() == 0),
        r matches Some(t) ==> (has_mark(marks@, line) ==> exists|i: int|
            0 <= i < marks@.len() && marks@[i].0 == line && t@ == marks@[i].1@),
        r matches Some(t) ==> (!has_mark(marks@, line) ==> t@ == Seq::<char>::empty()),
{
    if !show || marks.len() == 0 {
        return None;
    }
    let mut lo: usize = 0;
    let mut hi: usize = marks.len();
    while lo < hi
        invariant
            marks_sorted(marks@),
            show,
            marks@.len() > 0,
            lo <= hi <= marks@.len(),
            forall|i: int| 0 <= i < lo ==> (#[trigger] marks@[i]).0 < line,
            forall|i: int| hi <= i < marks@.len() ==> (#[trigger] marks@[i]).0 > line,
        decreases hi - lo,
    {
        let mid = lo + (hi - lo) / 2;
        let at = marks[mid].0;
        if at == line {
            return Some(marks[mid].1.as_str());
        } else if at < line {
            proof {
                assert forall|i: int| 0 <= i < mid + 1 implies (#[trigger] marks@[i]).0 < line by {
                    assert(marks@[i].0 <= marks@[mid as int].0);
                }
            }
            lo = mid + 1;
        } else {
            proof {
                assert forall|i: int| mid <= i < marks@.len() implies (#[trigger] marks@[i]).0 > line by {
                    assert(marks@[mid as int].0 <= marks@[i].0);
                }
            }
            hi = mid;
        }
    }
    proof {
        reveal_strlit("");
        if has_mark(marks@, line) {
            let i = choose|i: int| 0 <= i < marks@.len() && marks@[i].0 == line;
            assert(marks@[i].0 == line);
        }
    }
    Some("")
}

/// A URL shortened to at most `max` characters for the command palette:
/// unchanged when it fits; cut at `max` when `max` is small; otherwise its
/// first and last `(max - 3) / 2` characters around an ellipsis.
pub open spec fn shortened(url: Seq<char>, max: usize) -> Seq<char> {
    if url.len() <= max {
        url
    } else if max <= 15 {
        url.take(max as int)
    } else {
        let keep = ((max - 3) / 2) as int;
        url.take(keep) + seq!['\u{2026}'] + url.skip(url.len() - keep)
    }
}

/// A shortened URL is at most `max` characters long; one that fits is left
/// as it is.
pub proof fn law_shortened_fits(url: Seq<char>, max: usize)
    ensures
        url.len() <= max ==> shortened(url, max) == url,
        url.len() > max ==> shortened(url, max).len() <= max,
{
}

/// Shortens a URL in the middle: see [`shortened`].
pub fn truncate_url(url: &str, max: usize) -> (r: String)
    ensures
        r@ == shortened(url@, max),
{
    let n = url.unicode_len();
    if n <= max {
        String::from_str(url)
    } else if max <= 15 {
        String::from_str(url.substring_char(0, max))
    } else {
        let keep = (max - 3) / 2;
        let mut out = String::from_str(url.substring_char(0, keep));
        push_char(&mut out, '\u{2026}');
        out.append(url.substring_char(n - keep, n));
        proof {
            assert(url@.subrange(0, keep as int) == url@.take(keep as int));
            assert(url@.subrange((n - keep) as int, n as int) == url@.skip(url@.len() - keep));
        }
        out
    }
}

/// The label key of an auth kind.
pub open spec fn auth_key_of(kind: Seq<char>) -> Seq<char> {
    if kind == "bearer"@ {
        "auth.kind.bearer"@
    } else if kind == "basic"@ {
        "auth.kind.basic"@
    } else if kind == "apikey"@ {
        "auth.kind.apikey"@
    } else {
        "auth.kind.none"@
    }
}

/// The translation key for the label of an auth kind; an unknown kind is
/// shown as "none".
pub fn auth_kind_key(kind: &str) -> (r: &'static str)
    ensures
        r@ == auth_key_of(kind@),
{
    if text_eq(kind, "bearer") {
        "auth.kind.bearer"
    } else if text_eq(kind, "basic") {
        "auth.kind.basic"
    } else if text_eq(kind, "apikey") {
        "auth.kind.apikey"
    } else {
        "auth.kind.none"
    }
}

/// Which key-value table of a request.
#[derive(Debug, Clone, Copy, PartialEq, Eq, Structural)]
pub enum KvWhich {
    Params,
    Headers,
    /// The fields of a multipart/form-data body.
    FormData,
}

/// The short tag of a key-value table.
pub fn kv_prefix(which: KvWhich) -> (r: &'static str)
    ensures
        r@ == match which {
            KvWhich::Params => "P"@,
            KvWhich::Headers => "H"@,
            KvWhich::FormData => "FD"@,
        },
{
    match which {
        KvWhich::Params => "P",
        KvWhich::Headers => "H",
        KvWhich::FormData => "FD",
    }
}

/// How the status pill of a response looks.
#[derive(Debug, Clone, Copy, PartialEq, Eq, Structural)]
pub enum PillTone {
    Success,
    Info,
    Warning,
    Danger,
}

/// The tone of a status pill: 2xx success, 3xx info, 4xx warning; any other
/// status, or none (the request failed), danger.
pub open spec fn tone_of(status: Option<u16>) -> PillTone {
    match status {
        Some(s) => if 200 <= s < 300 {
            PillTone::Success
        } else if 300 <= s < 400 {
            PillTone::Info
        } else if 400 <= s < 500 {
            PillTone::Warning
        } else {
            PillTone::Danger
        },
        None => PillTone::Danger,
    }
}

/// The tone of the status pill of a response (see [`tone_of`]).
pub fn status_tone(status: Option<u16>) -> (r: PillTone)
    ensures
        r == tone_of(status),
{
    match status {
        Some(s) => {
            if 200 <= s && s < 300 {
                PillTone::Success
            } else if 300 <= s && s < 400 {
                PillTone::Info
            } else if 400 <= s && s < 500 {
                PillTone::Warning
            } else {
                PillTone::Danger
            }
        },
        None => PillTone::Danger,
    }
}

/// The color of a status code in the tree and the history.
#[derive(Debug, Clone, Copy, PartialEq, Eq, Structural)]
pub enum StatusColor {
    Green,
    Blue,
    Orange,
    Red,
    /// No status yet: dimmed text.
    Dim,
}

/// The color of a status code: as its pill's tone, but dimmed when there is
/// no status.
pub fn status_color(status: Option<u16>) -> (r: StatusColor)
    ensures
        r == match status {
            None => StatusColor::Dim,
            Some(_) => match tone_of(status) {
                PillTone::Success => StatusColor::Green,
                PillTone::Info => StatusColor::Blue,
                PillTone::Warning => StatusColor::Orange,
                PillTone::Danger => StatusColor::Red,
            },
        },
{
    match status {
        None => StatusColor::Dim,
        Some(_) => match status_tone(status) {
            PillTone::Success => StatusColor::Green,
            PillTone::Info => StatusColor::Blue,
            PillTone::Warning => StatusColor::Orange,
            PillTone::Danger => StatusColor::Red,
        },
    }
}

/// The text key of the label of a body kind.
pub open spec fn body_kind_key_of(kind: BodyKind) -> Seq<char> {
    match kind {
        BodyKind::NoBody => "editor.tab.none"@,
        BodyKind::Json => "editor.tab.json"@,
        BodyKind::Text => "editor.tab.text"@,
        BodyKind::Form => "editor.tab.form"@,
        BodyKind::Multipart => "editor.tab.multipart"@,
        BodyKind::File => "editor.tab.file"@,
        BodyKind::Raw => "editor.tab.raw"@,
    }
}

/// The label of a body kind in the locale.
pub fn body_kind_label(locale: Locale, kind: BodyKind) -> (r: &'static str)
    ensures
        r@ == tr_text(locale, body_kind_key_of(kind)),
{
    let key = match kind {
        BodyKind::NoBody => "editor.tab.none",
        BodyKind::Json => "editor.tab.json",
        BodyKind::Text => "editor.tab.text",
        BodyKind::Form => "editor.tab.form",
        BodyKind::Multipart => "editor.tab.multipart",
        BodyKind::File => "editor.tab.file",
        BodyKind::Raw => "editor.tab.raw",
    };
    tr(locale, key)
}

/// What clicking a menu button does to the popup: `true` closes it (it is
/// open and came from the same button), `false` opens it for this button.
pub fn popup_click_closes(open: bool, source: Option<&str>, clicked: &str) -> (r: bool)
    ensures
        r == (open && (source matches Some(s) && s@ == clicked@)),
{
    match source {
        Some(s) => open && text_eq(s, clicked),
        None => false,
    }
}

} // verus!
