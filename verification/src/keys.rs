//! The record of recent key presses that a crash report carries: how a key
//! press is written, and the bounded list of the latest ones.

use vstd::prelude::*;
use vstd::string::StringExecFns;
use crate::text::push_char;

verus! {

/// How many recent key presses are kept.
pub const RECENT_KEYS_MAX: usize = 12;

/// A crash log larger than this many bytes is started afresh.
pub const PANIC_LOG_MAX_BYTES: u64 = 262144;

/// The modifier prefix of a key press: `cmd+`, `ctrl+`, `alt+`, `shift+` for
/// those held, in that order.
pub open spec fn mods_text(platform: bool, control: bool, alt: bool, shift: bool) -> Seq<char> {
    (if platform {
        "cmd+"@
    } else {
        seq![]
    }) + (if control {
        "ctrl+"@
    } else {
        seq![]
    }) + (if alt {
        "alt+"@
    } else {
        seq![]
    }) + (if shift {
        "shift+"@
    } else {
        seq![]
    })
}

/// A key press as text: the modifiers, the key, and the typed character in
/// brackets when there is one, as in `cmd+shift+k [K]`.
pub open spec fn keystroke_text(
    platform: bool,
    control: bool,
    alt: bool,
    shift: bool,
    key: Seq<char>,
    key_char: Option<Seq<char>>,
) -> Seq<char> {
    let base = mods_text(platform, control, alt, shift) + key;
    match key_char {
        Some(c) => base + seq![' ', '['] + c + seq![']'],
        None => base,
    }
}

/// Writes a key press as text: see [`keystroke_text`].
pub fn keystroke_desc(
    platform: bool,
    control: bool,
    alt: bool,
    shift: bool,
    key: &str,
    key_char: Option<&str>,
) -> (r: String)
    ensures
        r@ == keystroke_text(platform, control, alt, shift, key@, match key_char {
            Some(c) => Some(c@),
            None => None,
        }),
{
    let mut out = String::new();
    if platform {
        out.append("cmd+");
    }
    if control {
        out.append("ctrl+");
    }
    if alt {
        out.append("alt+");
    }
    if shift {
        out.append("shift+");
    }
    out.append(key);
    match key_char {
        Some(c) => {
            push_char(&mut out, ' ');
            push_char(&mut out, '[');
            out.append(c);
            push_char(&mut out, ']');
        },
        None => {},
    }
    out
}

/// The strings as plain values.
pub open spec fn texts(v: Seq<String>) -> Seq<Seq<char>> {
    v.map_values(|s: String| s@)
}

/// The recent key presses after `d` is recorded: appended last; when the
/// list is full, the oldest goes first.
pub open spec fn remembered(keys: Seq<Seq<char>>, d: Seq<char>) -> Seq<Seq<char>> {
    if keys.len() >= RECENT_KEYS_MAX {
        keys.drop_first().push(d)
    } else {
        keys.push(d)
    }
}

/// Records a key press: see [`remembered`].
pub fn remember_key(keys: &mut Vec<String>, desc: String)
    ensures
        texts(final(keys)@) == remembered(texts(old(keys)@), desc@),
{
    let ghost before = texts(keys@);
    if keys.len() >= RECENT_KEYS_MAX {
        keys.remove(0);
        proof {
            assert(texts(keys@) =~= before.drop_first());
        }
    }
    let ghost mid = texts(keys@);
    keys.push(desc);
    proof {
        assert(texts(keys@) =~= mid.push(desc@));
    }
}

/// The record never holds more than [`RECENT_KEYS_MAX`] key presses, and the
/// newest is always last.
pub proof fn law_recent_keys_stay_bounded(keys: Seq<Seq<char>>, d: Seq<char>)
    requires
        keys.len() <= RECENT_KEYS_MAX,
    ensures
        remembered(keys, d).len() <= RECENT_KEYS_MAX,
        remembered(keys, d).last() == d,
{
}

/// Whether the crash log has grown too large and is started afresh.
pub fn log_too_big(len: u64) -> (r: bool)
    ensures
        r == (len > PANIC_LOG_MAX_BYTES),
{
    len > PANIC_LOG_MAX_BYTES
}

} // verus!
