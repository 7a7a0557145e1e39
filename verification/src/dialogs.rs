//! Decisions of the overlays and dialogs: which overlay Esc closes, the two
//! presses that empty the trash, what the network settings show and store,
//! and the note after clearing cookies.

use vstd::prelude::*;
use crate::text::{trim_str, trimmed};
use crate::quick::{decimal, push_decimal};
use crate::i18n::{Locale, tr, tr_text};

verus! {

/// The overlays that can be open at once, from the top down.
#[derive(Debug, Clone, Copy, PartialEq, Eq, Structural)]
pub enum Overlay {
    /// The command palette.
    Quick,
    /// The `{{` completion list of an input box.
    Suggest,
    /// A popup menu.
    Popup,
    SaveVar,
    Import,
    VarsPanel,
    EnvEditor,
    Trash,
    Codegen,
}

/// Which overlays are open.
#[derive(Debug, Clone, Copy, PartialEq, Eq, Structural)]
pub struct OpenOverlays {
    pub quick: bool,
    pub suggest: bool,
    pub popup: bool,
    pub save_var: bool,
    pub import: bool,
    pub vars_panel: bool,
    pub env_editor: bool,
    pub trash: bool,
    pub codegen: bool,
}

/// The place of an overlay in the order Esc closes them (0 first).
pub open spec fn rank(o: Overlay) -> int {
    match o {
        Overlay::Quick => 0,
        Overlay::Suggest => 1,
        Overlay::Popup => 2,
        Overlay::SaveVar => 3,
        Overlay::Import => 4,
        Overlay::VarsPanel => 5,
        Overlay::EnvEditor => 6,
        Overlay::Trash => 7,
        Overlay::Codegen => 8,
    }
}

/// Whether overlay `o` is open.
pub open spec fn is_open(s: OpenOverlays, o: Overlay) -> bool {
    match o {
        Overlay::Quick => s.quick,
        Overlay::Suggest => s.suggest,
        Overlay::Popup => s.popup,
        Overlay::SaveVar => s.save_var,
        Overlay::Import => s.import,
        Overlay::VarsPanel => s.vars_panel,
        Overlay::EnvEditor => s.env_editor,
        Overlay::Trash => s.trash,
        Overlay::Codegen => s.codegen,
    }
}

/// The overlay that Esc closes: the open one that comes first in the order
/// palette, completion list, popup menu, save-variable dialog, import
/// dialog, variables panel, environment editor, trash, code view; none when
/// nothing is open. (Closing keeps the drafts of the palette, the import text
/// and the environment editor for the next opening.)
pub fn overlay_to_close(s: OpenOverlays) -> (r: Option<Overlay>)
    ensures
        match r {
            Some(o) => is_open(s, o) && forall|p: Overlay| #[trigger] rank(p) < rank(o) ==> !is_open(s, p),
            None => forall|p: Overlay| !#[trigger] is_open(s, p),
        },
{
    if s.quick {
        Some(Overlay::Quick)
    } else if s.suggest {
        Some(Overlay::Suggest)
    } else if s.popup {
        Some(Overlay::Popup)
    } else if s.save_var {
        Some(Overlay::SaveVar)
    } else if s.import {
        Some(Overlay::Import)
    } else if s.vars_panel {
        Some(Overlay::VarsPanel)
    } else if s.env_editor {
        Some(Overlay::EnvEditor)
    } else if s.trash {
        Some(Overlay::Trash)
    } else if s.codegen {
        Some(Overlay::Codegen)
    } else {
        None
    }
}

/// What pressing "empty the trash" does: the first press only arms it (the
/// dialog asks for confirmation); a second press empties the trash, which
/// cannot be undone, and disarms. Returns (empty now, armed after).
pub fn trash_empty_press(armed: bool) -> (r: (bool, bool))
    ensures
        r == (if armed { (true, false) } else { (false, true) }),
{
    if armed {
        (true, false)
    } else {
        (false, true)
    }
}

/// What saving the network settings stores.
#[derive(Debug, Clone, PartialEq, Eq)]
pub struct NetSettings {
    /// The proxy, none when the box was blank.
    pub proxy: Option<String>,
    /// The request timeout, in seconds.
    pub timeout_sec: u64,
    /// What the proxy box shows afterwards: the trimmed proxy.
    pub proxy_draft: String,
    /// What the timeout box shows afterwards: empty for the default timeout,
    /// else the seconds in decimal.
    pub timeout_draft: String,
}

/// What saving the network settings stores, over plain values: `Err` with
/// the proxy's error when it is refused, else with the timeout's error when
/// that is refused, else the settings.
pub open spec fn net_settings_of(
    proxy_raw: Seq<char>,
    proxy_check: Result<(), Seq<char>>,
    timeout_check: Result<u64, Seq<char>>,
    default_secs: u64,
) -> Result<(Option<Seq<char>>, u64, Seq<char>, Seq<char>), Seq<char>> {
    let proxy = trimmed(proxy_raw);
    match (proxy_check, timeout_check) {
        (Err(e), _) => Err(e),
        (Ok(()), Err(e)) => Err(e),
        (Ok(()), Ok(secs)) => Ok((
            if proxy.len() == 0 {
                None
            } else {
                Some(proxy)
            },
            secs,
            proxy,
            if secs == default_secs {
                Seq::<char>::empty()
            } else {
                decimal(secs as nat)
            },
        )),
    }
}

/// The stored settings as plain values.
pub open spec fn net_view(r: Result<NetSettings, String>) -> Result<(Option<Seq<char>>, u64, Seq<char>, Seq<char>), Seq<char>> {
    match r {
        Ok(n) => Ok((
            match n.proxy {
                Some(p) => Some(p@),
                None => None,
            },
            n.timeout_sec,
            n.proxy_draft@,
            n.timeout_draft@,
        )),
        Err(e) => Err(e@),
    }
}

/// A check result as plain values.
pub open spec fn check_view(r: Result<(), String>) -> Result<(), Seq<char>> {
    match r {
        Ok(()) => Ok(()),
        Err(e) => Err(e@),
    }
}

/// A parsed timeout as plain values.
pub open spec fn secs_view(r: Result<u64, String>) -> Result<u64, Seq<char>> {
    match r {
        Ok(n) => Ok(n),
        Err(e) => Err(e@),
    }
}

/// What saving the network settings stores (see [`net_settings_of`]).
/// `proxy_check` is the verdict on the trimmed proxy (`Ok` when it is blank);
/// `timeout_check` the timeout parsed from the trimmed timeout box, with
/// `default_secs` for a blank box. Both are checked before anything is
/// stored: on an error the dialog stays open and shows it.
pub fn net_settings(
    proxy_raw: &str,
    proxy_check: Result<(), String>,
    timeout_check: Result<u64, String>,
    default_secs: u64,
) -> (r: Result<NetSettings, String>)
    ensures
        net_view(r) == net_settings_of(proxy_raw@, check_view(proxy_check), secs_view(timeout_check), default_secs),
{
    let proxy = trim_str(proxy_raw);
    let secs = match (proxy_check, timeout_check) {
        (Err(e), _) => {
            return Err(e);
        },
        (Ok(()), Err(e)) => {
            return Err(e);
        },
        (Ok(()), Ok(secs)) => secs,
    };
    let stored = if proxy.unicode_len() == 0 {
        None
    } else {
        Some(proxy.to_string())
    };
    let mut draft = String::new();
    proof {
        assert(draft@ =~= Seq::<char>::empty());
    }
    if secs != default_secs {
        push_decimal(&mut draft, secs);
        proof {
            assert(Seq::<char>::empty() + decimal(secs as nat) =~= decimal(secs as nat));
        }
    }
    Ok(NetSettings { proxy: stored, timeout_sec: secs, proxy_draft: proxy.to_string(), timeout_draft: draft })
}

/// The note after clearing cookies: how many went, for one host or for all.
pub open spec fn cookies_cleared_text(locale: Locale, one_host: bool, n: u64) -> Seq<char> {
    (if one_host {
        tr_text(locale, "cookies.cleared_host"@)
    } else {
        tr_text(locale, "cookies.cleared_all"@)
    }) + decimal(n as nat) + tr_text(locale, "cookies.unit"@)
}

/// The note after clearing cookies (see [`cookies_cleared_text`]).
pub fn cookies_cleared_note(locale: Locale, one_host: bool, n: u64) -> (r: String)
    ensures
        r@ == cookies_cleared_text(locale, one_host, n),
{
    let key = if one_host {
        "cookies.cleared_host"
    } else {
        "cookies.cleared_all"
    };
    let mut out = String::from_str(tr(locale, key));
    push_decimal(&mut out, n);
    out.append(tr(locale, "cookies.unit"));
    out
}

/// What the network boxes show when the network settings open: a box that
/// still holds a draft keeps it; an empty one shows the stored setting (the
/// proxy, the timeout in decimal), or stays empty when none is stored.
pub fn net_drafts(proxy_draft: String, timeout_draft: String, proxy: Option<String>, timeout_sec: Option<u64>) -> (r: (String, String))
    ensures
        r.0@ == if proxy_draft@.len() > 0 {
            proxy_draft@
        } else {
            match proxy {
                Some(p) => p@,
                None => Seq::<char>::empty(),
            }
        },
        r.1@ == if timeout_draft@.len() > 0 {
            timeout_draft@
        } else {
            match timeout_sec {
                Some(t) => decimal(t as nat),
                None => Seq::<char>::empty(),
            }
        },
{
    let p = if proxy_draft.as_str().unicode_len() > 0 {
        proxy_draft
    } else {
        match proxy {
            Some(p) => p,
            None => {
                let e = String::new();
                proof {
                    assert(e@ =~= Seq::<char>::empty());
                }
                e
            },
        }
    };
    let t = if timeout_draft.as_str().unicode_len() > 0 {
        timeout_draft
    } else {
        let mut t = String::new();
        proof {
            assert(t@ =~= Seq::<char>::empty());
        }
        match timeout_sec {
            Some(n) => {
                push_decimal(&mut t, n);
                proof {
                    assert(Seq::<char>::empty() + decimal(n as nat) =~= decimal(n as nat));
                }
            },
            None => {},
        }
        t
    };
    (p, t)
}

} // verus!
