//! What the response pane shows: its tabs (with the header count on the
//! headers tab), what fills the pane for the chosen tab, and the status shown
//! in the timeline.

use vstd::prelude::*;
use crate::text::{push_char, trim_str, trimmed};
use crate::i18n::{Locale, tr, tr_text};
use crate::panes::{PillTone, status_tone, tone_of};
use crate::quick::{decimal, push_decimal};

verus! {

/// The tabs of the response pane.
#[derive(Debug, Clone, Copy, PartialEq, Eq, Structural)]
pub enum ResponseTab {
    Body,
    Headers,
    Cookies,
    Timeline,
    History,
}

/// A tab of the pane as drawn: the tab, its text key, and the count shown on
/// it (the headers tab only).
pub open spec fn tab_strip_of(header_count: usize) -> Seq<(ResponseTab, Seq<char>, Option<usize>)> {
    seq![
        (ResponseTab::Body, "response.tab.preview"@, None),
        (ResponseTab::Headers, "response.tab.headers"@, Some(header_count)),
        (ResponseTab::Cookies, "response.tab.cookies"@, None),
        (ResponseTab::Timeline, "response.tab.timeline"@, None),
        (ResponseTab::History, "response.tab.history"@, None),
    ]
}

/// The tabs of the response pane in order (see [`tab_strip_of`]).
pub fn tab_strip(header_count: usize) -> (r: Vec<(ResponseTab, &'static str, Option<usize>)>)
    ensures
        r@.map_values(|t: (ResponseTab, &'static str, Option<usize>)| (t.0, t.1@, t.2)) == tab_strip_of(header_count),
{
    let r = vec![
        (ResponseTab::Body, "response.tab.preview", None),
        (ResponseTab::Headers, "response.tab.headers", Some(header_count)),
        (ResponseTab::Cookies, "response.tab.cookies", None),
        (ResponseTab::Timeline, "response.tab.timeline", None),
        (ResponseTab::History, "response.tab.history", None),
    ];
    proof {
        assert(r@.map_values(|t: (ResponseTab, &'static str, Option<usize>)| (t.0, t.1@, t.2)) =~= tab_strip_of(
            header_count,
        ));
    }
    r
}

/// What fills the response pane.
#[derive(Debug, Clone, Copy, PartialEq, Eq, Structural)]
pub enum PaneContent {
    /// The history of the request is empty.
    NoHistory,
    /// The history list.
    History,
    /// No response yet, and a request is on its way.
    Sending,
    /// No response (none sent, or none kept).
    NoResponse,
    Body,
    Headers,
    /// The response set no cookies.
    NoCookies,
    Cookies,
    Timeline,
}

/// What fills the response pane for a tab: the history tab shows the
/// history (or that it is empty) whatever the response; the other tabs need a
/// response (the body tab says when one is on its way); the cookies tab says
/// when the response set none.
pub open spec fn pane_content_of(tab: ResponseTab, history: usize, has_response: bool, sending: bool, cookies: usize) -> PaneContent {
    match tab {
        ResponseTab::History => if history == 0 {
            PaneContent::NoHistory
        } else {
            PaneContent::History
        },
        ResponseTab::Body => if has_response {
            PaneContent::Body
        } else if sending {
            PaneContent::Sending
        } else {
            PaneContent::NoResponse
        },
        ResponseTab::Headers => if has_response {
            PaneContent::Headers
        } else {
            PaneContent::NoResponse
        },
        ResponseTab::Cookies => if cookies == 0 {
            PaneContent::NoCookies
        } else {
            PaneContent::Cookies
        },
        ResponseTab::Timeline => if has_response {
            PaneContent::Timeline
        } else {
            PaneContent::NoResponse
        },
    }
}

/// What fills the response pane (see [`pane_content_of`]); `cookies` is the
/// number of cookies the response set (none without a response).
pub fn pane_content(tab: ResponseTab, history: usize, has_response: bool, sending: bool, cookies: usize) -> (r: PaneContent)
    ensures
        r == pane_content_of(tab, history, has_response, sending, cookies),
{
    match tab {
        ResponseTab::History => {
            if history == 0 {
                PaneContent::NoHistory
            } else {
                PaneContent::History
            }
        },
        ResponseTab::Body => {
            if has_response {
                PaneContent::Body
            } else if sending {
                PaneContent::Sending
            } else {
                PaneContent::NoResponse
            }
        },
        ResponseTab::Headers => {
            if has_response {
                PaneContent::Headers
            } else {
                PaneContent::NoResponse
            }
        },
        ResponseTab::Cookies => {
            if cookies == 0 {
                PaneContent::NoCookies
            } else {
                PaneContent::Cookies
            }
        },
        ResponseTab::Timeline => {
            if has_response {
                PaneContent::Timeline
            } else {
                PaneContent::NoResponse
            }
        },
    }
}

/// The status shown in the timeline: the code, or a dash when the request
/// got no response.
pub fn status_text(status: Option<u16>) -> (r: String)
    ensures
        r@ == match status {
            Some(s) => decimal(s as nat),
            None => seq!['—'],
        },
{
    let mut out = String::new();
    proof {
        assert(out@ =~= Seq::<char>::empty());
    }
    match status {
        Some(s) => {
            push_decimal(&mut out, s as u64);
            proof {
                assert(Seq::<char>::empty() + decimal(s as nat) =~= decimal(s as nat));
            }
        },
        None => {
            push_char(&mut out, '—');
            proof {
                assert(Seq::<char>::empty().push('—') =~= seq!['—']);
            }
        },
    }
    out
}

/// The status pill of a response: the code and the reason phrase (trimmed),
/// in the tone of the code; without a status (the request failed), the error
/// label in the danger tone.
pub open spec fn status_pill_of(locale: Locale, status: Option<u16>, reason: Seq<char>) -> (PillTone, Seq<char>) {
    match status {
        Some(s) => (tone_of(status), decimal(s as nat) + seq![' '] + trimmed(reason)),
        None => (PillTone::Danger, tr_text(locale, "response.error"@)),
    }
}

/// The status pill of a response (see [`status_pill_of`]).
pub fn status_pill(locale: Locale, status: Option<u16>, reason: &str) -> (r: (PillTone, String))
    ensures
        (r.0, r.1@) == status_pill_of(locale, status, reason@),
{
    match status {
        Some(s) => {
            let mut text = String::new();
            push_decimal(&mut text, s as u64);
            push_char(&mut text, ' ');
            text.append(trim_str(reason));
            proof {
                assert(text@ =~= decimal(s as nat) + seq![' '] + trimmed(reason@));
            }
            (status_tone(status), text)
        },
        None => (PillTone::Danger, String::from_str(tr(locale, "response.error"))),
    }
}

} // verus!
