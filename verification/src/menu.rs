//! Menu item ids and what they ask for. Every popup menu entry carries an id
//! such as `new-group:<collection>:<group>` or `resp-line:copy:12`; this
//! module turns an id into a command, which the window then carries out.

use vstd::prelude::*;
use vstd::string::{StrSliceExecFns, StringExecFns};
use crate::model::{Selection, SelectionV};
use crate::text::text_eq;
use crate::i18n::{tr, tr_text, Locale};
use crate::panes::{body_kind_key_of, body_kind_label};
use crate::quick::{decimal, push_decimal, lemma_decimal};
use crate::text::{push_char, chars_of};

verus! {

/// What to do with a line of the response body.
#[derive(Debug, Clone, Copy, PartialEq, Eq, Structural)]
pub enum LineVerb {
    /// Copy the line.
    Copy,
    /// Copy the value on the line.
    Value,
    /// Copy the JSON path of the line.
    Path,
    /// Save the value as a variable.
    Var,
}

/// The kind of a request body.
#[derive(Debug, Clone, Copy, PartialEq, Eq, Structural)]
pub enum BodyKind {
    /// No body.
    NoBody,
    Json,
    Text,
    Form,
    Multipart,
    File,
    Raw,
}

/// A menu command.
#[derive(Debug, Clone, PartialEq, Eq)]
pub enum MenuCmd {
    NewCollection,
    ImportCurl,
    ImportFile,
    NetSettings,
    CookieSettings,
    BackupNow,
    BackupRestore,
    OpenCodegen,
    AddWorkspace,
    ForgetWorkspace(String),
    SwitchWorkspace(String),
    /// Pick a code generator by its id.
    CodegenLang(String),
    OpenSettings,
    ToggleLocale,
    ChooseWorkspace,
    Reload,
    OpenTrash,
    /// Generate code for the request with this id.
    CodegenFor(String),
    CopyUrl(String),
    CopyCurl(String),
    DuplicateRequest(String),
    AskMove(String),
    /// A response line action, with the line number.
    RespLine(LineVerb, usize),
    /// Restore the history entry with this id.
    RestoreHistory(i64),
    /// Show the response body pretty (`true`) or raw.
    RespView(bool),
    /// New group in a collection, under a parent group when given.
    NewGroup(String, Option<String>),
    /// New request in a collection, inside a group when given.
    NewRequest(String, Option<String>),
    BeginRename(Selection),
    /// Delete group (collection id, group id).
    DeleteGroup(String, String),
    CollapseOthers(Selection),
    DeleteCollection(String),
    DeleteRequest(String),
    EditEnv(String),
    VarsPanel,
    SetEnv(String),
    SetMethod(String),
    SetBodyKind(BodyKind),
    /// A known prefix with a payload that asks for nothing: do nothing.
    Ignore,
    /// An unknown id: nothing to do but redraw.
    Refresh,
}

/// A menu command as plain values.
pub enum MenuCmdV {
    NewCollection,
    ImportCurl,
    ImportFile,
    NetSettings,
    CookieSettings,
    BackupNow,
    BackupRestore,
    OpenCodegen,
    AddWorkspace,
    ForgetWorkspace(Seq<char>),
    SwitchWorkspace(Seq<char>),
    CodegenLang(Seq<char>),
    OpenSettings,
    ToggleLocale,
    ChooseWorkspace,
    Reload,
    OpenTrash,
    CodegenFor(Seq<char>),
    CopyUrl(Seq<char>),
    CopyCurl(Seq<char>),
    DuplicateRequest(Seq<char>),
    AskMove(Seq<char>),
    RespLine(LineVerb, usize),
    RestoreHistory(i64),
    RespView(bool),
    NewGroup(Seq<char>, Option<Seq<char>>),
    NewRequest(Seq<char>, Option<Seq<char>>),
    BeginRename(SelectionV),
    DeleteGroup(Seq<char>, Seq<char>),
    CollapseOthers(SelectionV),
    DeleteCollection(Seq<char>),
    DeleteRequest(Seq<char>),
    EditEnv(Seq<char>),
    VarsPanel,
    SetEnv(Seq<char>),
    SetMethod(Seq<char>),
    SetBodyKind(BodyKind),
    Ignore,
    Refresh,
}

/// An optional string as plain values.
pub open spec fn opt_str(o: Option<String>) -> Option<Seq<char>> {
    match o {
        Some(s) => Some(s@),
        None => None,
    }
}

impl View for MenuCmd {
    type V = MenuCmdV;

    open spec fn view(&self) -> MenuCmdV {
        match self {
            MenuCmd::NewCollection => MenuCmdV::NewCollection,
            MenuCmd::ImportCurl => MenuCmdV::ImportCurl,
            MenuCmd::ImportFile => MenuCmdV::ImportFile,
            MenuCmd::NetSettings => MenuCmdV::NetSettings,
            MenuCmd::CookieSettings => MenuCmdV::CookieSettings,
            MenuCmd::BackupNow => MenuCmdV::BackupNow,
            MenuCmd::BackupRestore => MenuCmdV::BackupRestore,
            MenuCmd::OpenCodegen => MenuCmdV::OpenCodegen,
            MenuCmd::AddWorkspace => MenuCmdV::AddWorkspace,
            MenuCmd::ForgetWorkspace(s) => MenuCmdV::ForgetWorkspace(s@),
            MenuCmd::SwitchWorkspace(s) => MenuCmdV::SwitchWorkspace(s@),
            MenuCmd::CodegenLang(s) => MenuCmdV::CodegenLang(s@),
            MenuCmd::OpenSettings => MenuCmdV::OpenSettings,
            MenuCmd::ToggleLocale => MenuCmdV::ToggleLocale,
            MenuCmd::ChooseWorkspace => MenuCmdV::ChooseWorkspace,
            MenuCmd::Reload => MenuCmdV::Reload,
            MenuCmd::OpenTrash => MenuCmdV::OpenTrash,
            MenuCmd::CodegenFor(s) => MenuCmdV::CodegenFor(s@),
            MenuCmd::CopyUrl(s) => MenuCmdV::CopyUrl(s@),
            MenuCmd::CopyCurl(s) => MenuCmdV::CopyCurl(s@),
            MenuCmd::DuplicateRequest(s) => MenuCmdV::DuplicateRequest(s@),
            MenuCmd::AskMove(s) => MenuCmdV::AskMove(s@),
            MenuCmd::RespLine(v, n) => MenuCmdV::RespLine(*v, *n),
            MenuCmd::RestoreHistory(h) => MenuCmdV::RestoreHistory(*h),
            MenuCmd::RespView(p) => MenuCmdV::RespView(*p),
            MenuCmd::NewGroup(c, g) => MenuCmdV::NewGroup(c@, opt_str(*g)),
            MenuCmd::NewRequest(c, g) => MenuCmdV::NewRequest(c@, opt_str(*g)),
            MenuCmd::BeginRename(s) => MenuCmdV::BeginRename(s@),
            MenuCmd::DeleteGroup(c, g) => MenuCmdV::DeleteGroup(c@, g@),
            MenuCmd::CollapseOthers(s) => MenuCmdV::CollapseOthers(s@),
            MenuCmd::DeleteCollection(s) => MenuCmdV::DeleteCollection(s@),
            MenuCmd::DeleteRequest(s) => MenuCmdV::DeleteRequest(s@),
            MenuCmd::EditEnv(s) => MenuCmdV::EditEnv(s@),
            MenuCmd::VarsPanel => MenuCmdV::VarsPanel,
            MenuCmd::SetEnv(s) => MenuCmdV::SetEnv(s@),
            MenuCmd::SetMethod(s) => MenuCmdV::SetMethod(s@),
            MenuCmd::SetBodyKind(k) => MenuCmdV::SetBodyKind(*k),
            MenuCmd::Ignore => MenuCmdV::Ignore,
            MenuCmd::Refresh => MenuCmdV::Refresh,
        }
    }
}

/// `s` starts with `p`.
pub open spec fn starts(s: Seq<char>, p: Seq<char>) -> bool {
    p.len() <= s.len() && s.take(p.len() as int) == p
}

/// What follows the prefix `p` in `s`.
pub open spec fn after(s: Seq<char>, p: Seq<char>) -> Seq<char> {
    s.skip(p.len() as int)
}

/// Index of the first `:` in `s` from `k` on.
pub open spec fn colon_from(s: Seq<char>, k: int) -> Option<int>
    decreases s.len() - k,
{
    if 0 <= k < s.len() {
        if s[k] == ':' {
            Some(k)
        } else {
            colon_from(s, k + 1)
        }
    } else {
        None
    }
}

/// `s` split at its first `:`, the colon dropped.
pub open spec fn split_colon(s: Seq<char>) -> Option<(Seq<char>, Seq<char>)> {
    match colon_from(s, 0) {
        Some(k) => Some((s.take(k), s.skip(k + 1))),
        None => None,
    }
}

/// Value of a non-empty run of decimal digits.
pub open spec fn digits_value(s: Seq<char>) -> int
    decreases s.len(),
{
    if s.len() == 0 {
        0
    } else {
        digits_value(s.drop_last()) * 10 + (s.last() as int - '0' as int)
    }
}

/// `s` is one or more decimal digits.
pub open spec fn all_digits(s: Seq<char>) -> bool {
    s.len() > 0 && forall|i: int| 0 <= i < s.len() ==> '0' <= #[trigger] s[i] <= '9'
}

/// What `str::parse::<usize>` gives: an optional `+`, then decimal digits
/// whose value fits.
pub open spec fn usize_text(s: Seq<char>) -> Option<usize> {
    let body = if s.len() > 0 && s[0] == '+' {
        s.drop_first()
    } else {
        s
    };
    if all_digits(body) && digits_value(body) <= usize::MAX {
        Some(digits_value(body) as usize)
    } else {
        None
    }
}

/// What `str::parse::<i64>` gives: an optional `+` or `-`, then decimal
/// digits whose signed value fits.
pub open spec fn i64_text(s: Seq<char>) -> Option<i64> {
    if s.len() > 0 && s[0] == '-' {
        let body = s.drop_first();
        if all_digits(body) && -digits_value(body) >= i64::MIN {
            Some((-digits_value(body)) as i64)
        } else {
            None
        }
    } else {
        let body = if s.len() > 0 && s[0] == '+' {
            s.drop_first()
        } else {
            s
        };
        if all_digits(body) && digits_value(body) <= i64::MAX {
            Some(digits_value(body) as i64)
        } else {
            None
        }
    }
}

/// A run of digits is worth at least any of its prefixes.
proof fn lemma_digits_prefix(t: Seq<char>, j: int)
    requires
        0 <= j <= t.len(),
        forall|i: int| 0 <= i < t.len() ==> '0' <= #[trigger] t[i] <= '9',
    ensures
        digits_value(t.take(j)) <= digits_value(t),
        0 <= digits_value(t),
    decreases t.len(),
{
    if t.len() > 0 {
        assert(t.drop_last().take(j) =~= t.take(j) || j == t.len());
        if j < t.len() {
            lemma_digits_prefix(t.drop_last(), j);
        } else {
            assert(t.take(j) =~= t);
            lemma_digits_prefix(t.drop_last(), 0);
        }
    } else {
        assert(t.take(j) =~= t);
    }
}

/// The value of `cs[from..]` when it is one or more decimal digits worth at
/// most `max`; nothing otherwise.
fn digits_upto(cs: &Vec<char>, from: usize, max: u64) -> (r: Option<u64>)
    requires
        from <= cs@.len(),
    ensures
        r is Some <==> all_digits(cs@.skip(from as int)) && digits_value(cs@.skip(from as int))
            <= max,
        r matches Some(v) ==> v == digits_value(cs@.skip(from as int)),
{
    let ghost t = cs@.skip(from as int);
    let n = cs.len();
    if from >= n {
        return None;
    }
    let mut acc: u128 = 0;
    let mut k: usize = from;
    proof {
        assert(t.take(0) =~= Seq::<char>::empty());
    }
    while k < n
        invariant
            n == cs@.len(),
            t == cs@.skip(from as int),
            from <= k <= n,
            forall|i: int| 0 <= i < k - from ==> '0' <= #[trigger] t[i] <= '9',
            acc == digits_value(t.take(k - from)),
            acc <= max,
        decreases n - k,
    {
        let c = cs[k];
        proof {
            assert(t[k - from] == c);
        }
        if !('0' <= c && c <= '9') {
            return None;
        }
        let d = (c as u32 - '0' as u32) as u128;
        proof {
            assert(t.take(k - from + 1).drop_last() =~= t.take(k - from));
            assert(t.take(k - from + 1).last() == c);
        }
        acc = acc * 10 + d;
        if acc > max as u128 {
            proof {
                if all_digits(t) {
                    lemma_digits_prefix(t, k - from + 1);
                }
            }
            return None;
        }
        k = k + 1;
    }
    proof {
        assert(t.take(n - from) =~= t);
    }
    Some(acc as u64)
}

/// `str::parse::<usize>`: an optional `+`, then decimal digits whose value
/// fits, as a value; anything else gives nothing.
pub(crate) fn parse_usize(s: &str) -> (r: Option<usize>)
    ensures
        r == usize_text(s@),
{
    let cs = chars_of(s);
    let from: usize = if cs.len() > 0 && cs[0] == '+' {
        1
    } else {
        0
    };
    proof {
        if from == 1 {
            assert(cs@.skip(1) =~= s@.drop_first());
        } else {
            assert(cs@.skip(0) =~= s@);
        }
    }
    match digits_upto(&cs, from, usize::MAX as u64) {
        Some(v) => Some(v as usize),
        None => None,
    }
}

/// `str::parse::<i64>`: an optional `+` or `-`, then decimal digits whose
/// signed value fits, as a value; anything else gives nothing.
fn parse_i64(s: &str) -> (r: Option<i64>)
    ensures
        r == i64_text(s@),
{
    let cs = chars_of(s);
    if cs.len() > 0 && cs[0] == '-' {
        proof {
            assert(cs@.skip(1) =~= s@.drop_first());
        }
        match digits_upto(&cs, 1, 9223372036854775808u64) {
            Some(v) => {
                let x: i128 = -(v as i128);
                Some(x as i64)
            },
            None => None,
        }
    } else {
        let from: usize = if cs.len() > 0 && cs[0] == '+' {
            1
        } else {
            0
        };
        proof {
            if from == 1 {
                assert(cs@.skip(1) =~= s@.drop_first());
            } else {
                assert(cs@.skip(0) =~= s@);
            }
        }
        match digits_upto(&cs, from, 9223372036854775807u64) {
            Some(v) => Some(v as i64),
            None => None,
        }
    }
}

/// What follows `p` in `s`, when `s` starts with `p`.
fn strip<'a>(s: &'a str, p: &str) -> (r: Option<&'a str>)
    ensures
        r is Some <==> starts(s@, p@),
        r matches Some(t) ==> t@ == after(s@, p@),
{
    let n = s.unicode_len();
    let m = p.unicode_len();
    if m > n {
        return None;
    }
    let mut i: usize = 0;
    while i < m
        invariant
            m == p@.len(),
            n == s@.len(),
            m <= n,
            i <= m,
            forall|j: int| 0 <= j < i ==> s@[j] == p@[j],
        decreases m - i,
    {
        if s.get_char(i) != p.get_char(i) {
            return None;
        }
        i = i + 1;
    }
    proof {
        assert(s@.take(m as int) =~= p@);
    }
    Some(s.substring_char(m, n))
}

/// `s` split at its first `:`.
pub(crate) fn split_at_colon(s: &str) -> (r: Option<(&str, &str)>)
    ensures
        match r {
            Some(pair) => split_colon(s@) == Some((pair.0@, pair.1@)),
            None => split_colon(s@) is None,
        },
{
    let n = s.unicode_len();
    let mut k: usize = 0;
    while k < n
        invariant
            n == s@.len(),
            k <= n,
            colon_from(s@, 0) == colon_from(s@, k as int),
        decreases n - k,
    {
        if s.get_char(k) == ':' {
            proof {
                assert(s@.subrange(0, k as int) == s@.take(k as int));
                assert(s@.subrange(k + 1, n as int) == s@.skip(k + 1));
            }
            return Some((s.substring_char(0, k), s.substring_char(k + 1, n)));
        }
        k = k + 1;
    }
    None
}

/// The verb of a response-line action.
pub open spec fn line_verb_of(v: Seq<char>) -> Option<LineVerb> {
    if v == "copy"@ {
        Some(LineVerb::Copy)
    } else if v == "value"@ {
        Some(LineVerb::Value)
    } else if v == "path"@ {
        Some(LineVerb::Path)
    } else if v == "var"@ {
        Some(LineVerb::Var)
    } else {
        None
    }
}

/// `resp-line:<verb>:<line>`: the verb is what precedes the first `:` (all of
/// it when there is none); the line number what follows.
pub open spec fn resp_line_cmd(rest: Seq<char>) -> MenuCmdV {
    match split_colon(rest) {
        Some(parts) => match usize_text(parts.1) {
            Some(line) => match line_verb_of(parts.0) {
                Some(v) => MenuCmdV::RespLine(v, line),
                None => MenuCmdV::Ignore,
            },
            None => MenuCmdV::Ignore,
        },
        None => MenuCmdV::Ignore,
    }
}

/// The body kind named by a menu id; an unknown name is a raw body.
pub open spec fn body_kind_of(k: Seq<char>) -> BodyKind {
    if k == "None"@ {
        BodyKind::NoBody
    } else if k == "Json"@ {
        BodyKind::Json
    } else if k == "Text"@ {
        BodyKind::Text
    } else if k == "Form"@ {
        BodyKind::Form
    } else if k == "Multipart"@ {
        BodyKind::Multipart
    } else if k == "File"@ {
        BodyKind::File
    } else {
        BodyKind::Raw
    }
}

/// `prefs:<what>` for the preference entries not matched exactly before.
pub open spec fn prefs_cmd(rest: Seq<char>) -> MenuCmdV {
    if rest == "settings"@ {
        MenuCmdV::OpenSettings
    } else if rest == "locale"@ {
        MenuCmdV::ToggleLocale
    } else if rest == "workspace"@ {
        MenuCmdV::ChooseWorkspace
    } else if rest == "reload"@ {
        MenuCmdV::Reload
    } else if rest == "codegen"@ {
        MenuCmdV::OpenCodegen
    } else if rest == "trash"@ {
        MenuCmdV::OpenTrash
    } else {
        MenuCmdV::Ignore
    }
}

/// The entries that name a container by `<collection>` or
/// `<collection>:<group>`.
pub open spec fn in_container(rest: Seq<char>) -> (Seq<char>, Option<Seq<char>>) {
    match split_colon(rest) {
        Some(parts) => (parts.0, Some(parts.1)),
        None => (rest, None),
    }
}

/// The command of the ids without a payload and of those whose prefix is
/// checked first.
pub open spec fn menu_cmd_first(id: Seq<char>) -> Option<MenuCmdV> {
    if id == "new-collection"@ {
        Some(MenuCmdV::NewCollection)
    } else if id == "import-curl"@ {
        Some(MenuCmdV::ImportCurl)
    } else if id == "import-file"@ {
        Some(MenuCmdV::ImportFile)
    } else if id == "prefs:net"@ {
        Some(MenuCmdV::NetSettings)
    } else if id == "prefs:cookies"@ {
        Some(MenuCmdV::CookieSettings)
    } else if id == "backup-now"@ {
        Some(MenuCmdV::BackupNow)
    } else if id == "backup-restore"@ {
        Some(MenuCmdV::BackupRestore)
    } else if id == "plugin:codegen"@ {
        Some(MenuCmdV::OpenCodegen)
    } else if id == "ws-add"@ {
        Some(MenuCmdV::AddWorkspace)
    } else if starts(id, "ws-forget:"@) {
        Some(MenuCmdV::ForgetWorkspace(after(id, "ws-forget:"@)))
    } else if starts(id, "ws:"@) {
        Some(MenuCmdV::SwitchWorkspace(after(id, "ws:"@)))
    } else if starts(id, "codegen:"@) {
        Some(MenuCmdV::CodegenLang(after(id, "codegen:"@)))
    } else if starts(id, "prefs:"@) {
        Some(prefs_cmd(after(id, "prefs:"@)))
    } else if starts(id, "codegen-req:"@) {
        Some(MenuCmdV::CodegenFor(after(id, "codegen-req:"@)))
    } else if starts(id, "copy-url:"@) {
        Some(MenuCmdV::CopyUrl(after(id, "copy-url:"@)))
    } else if starts(id, "copy-curl:"@) {
        Some(MenuCmdV::CopyCurl(after(id, "copy-curl:"@)))
    } else if starts(id, "dup-req:"@) {
        Some(MenuCmdV::DuplicateRequest(after(id, "dup-req:"@)))
    } else if starts(id, "move-ask:"@) {
        Some(MenuCmdV::AskMove(after(id, "move-ask:"@)))
    } else {
        None
    }
}

/// The command of the ids of the tree and response menus.
pub open spec fn menu_cmd_second(id: Seq<char>) -> Option<MenuCmdV> {
    if starts(id, "resp-line:"@) {
        Some(resp_line_cmd(after(id, "resp-line:"@)))
    } else if starts(id, "hist:"@) {
        Some(
            match i64_text(after(id, "hist:"@)) {
                Some(h) => MenuCmdV::RestoreHistory(h),
                None => MenuCmdV::Ignore,
            },
        )
    } else if starts(id, "resp-view:"@) {
        Some(MenuCmdV::RespView(after(id, "resp-view:"@) == "pretty"@))
    } else if starts(id, "new-group:"@) {
        let c = in_container(after(id, "new-group:"@));
        Some(MenuCmdV::NewGroup(c.0, c.1))
    } else if starts(id, "new-request:"@) {
        let c = in_container(after(id, "new-request:"@));
        Some(MenuCmdV::NewRequest(c.0, c.1))
    } else if starts(id, "rename-group:"@) {
        Some(
            match split_colon(after(id, "rename-group:"@)) {
                Some(parts) => MenuCmdV::BeginRename(SelectionV::Group(parts.1)),
                None => MenuCmdV::Ignore,
            },
        )
    } else if starts(id, "delete-group:"@) {
        Some(
            match split_colon(after(id, "delete-group:"@)) {
                Some(parts) => MenuCmdV::DeleteGroup(parts.0, parts.1),
                None => MenuCmdV::Ignore,
            },
        )
    } else if starts(id, "rename-col:"@) {
        Some(MenuCmdV::BeginRename(SelectionV::Collection(after(id, "rename-col:"@))))
    } else if starts(id, "rename-req:"@) {
        Some(MenuCmdV::BeginRename(SelectionV::Request(after(id, "rename-req:"@))))
    } else {
        None
    }
}

/// The command of the remaining ids; an unknown id only asks for a redraw.
pub open spec fn menu_cmd_third(id: Seq<char>) -> MenuCmdV {
    if starts(id, "collapse-others-col:"@) {
        MenuCmdV::CollapseOthers(SelectionV::Collection(after(id, "collapse-others-col:"@)))
    } else if starts(id, "collapse-others-group:"@) {
        MenuCmdV::CollapseOthers(SelectionV::Group(after(id, "collapse-others-group:"@)))
    } else if starts(id, "collapse-others-req:"@) {
        MenuCmdV::CollapseOthers(SelectionV::Request(after(id, "collapse-others-req:"@)))
    } else if starts(id, "delete-col:"@) {
        MenuCmdV::DeleteCollection(after(id, "delete-col:"@))
    } else if starts(id, "delete-req:"@) {
        MenuCmdV::DeleteRequest(after(id, "delete-req:"@))
    } else if starts(id, "env-edit:"@) {
        MenuCmdV::EditEnv(after(id, "env-edit:"@))
    } else if id == "env-vars"@ {
        MenuCmdV::VarsPanel
    } else if starts(id, "env:"@) {
        MenuCmdV::SetEnv(after(id, "env:"@))
    } else if starts(id, "method:"@) {
        MenuCmdV::SetMethod(after(id, "method:"@))
    } else if starts(id, "body-kind:"@) {
        MenuCmdV::SetBodyKind(body_kind_of(after(id, "body-kind:"@)))
    } else {
        MenuCmdV::Refresh
    }
}

/// The command a menu id asks for, the prefixes tried in a fixed order.
#[verifier::opaque]
pub open spec fn menu_cmd_of(id: Seq<char>) -> MenuCmdV {
    match menu_cmd_first(id) {
        Some(c) => c,
        None => match menu_cmd_second(id) {
            Some(c) => c,
            None => menu_cmd_third(id),
        },
    }
}

fn owned(s: &str) -> (r: String)
    ensures
        r@ == s@,
{
    String::from_str(s)
}

fn prefs_command(rest: &str) -> (r: MenuCmd)
    ensures
        r@ == prefs_cmd(rest@),
{
    if text_eq(rest, "settings") {
        MenuCmd::OpenSettings
    } else if text_eq(rest, "locale") {
        MenuCmd::ToggleLocale
    } else if text_eq(rest, "workspace") {
        MenuCmd::ChooseWorkspace
    } else if text_eq(rest, "reload") {
        MenuCmd::Reload
    } else if text_eq(rest, "codegen") {
        MenuCmd::OpenCodegen
    } else if text_eq(rest, "trash") {
        MenuCmd::OpenTrash
    } else {
        MenuCmd::Ignore
    }
}

fn first_command(id: &str) -> (r: Option<MenuCmd>)
    ensures
        match r {
            Some(c) => menu_cmd_first(id@) == Some(c@),
            None => menu_cmd_first(id@) is None,
        },
{
    if text_eq(id, "new-collection") {
        return Some(MenuCmd::NewCollection);
    }
    if text_eq(id, "import-curl") {
        return Some(MenuCmd::ImportCurl);
    }
    if text_eq(id, "import-file") {
        return Some(MenuCmd::ImportFile);
    }
    if text_eq(id, "prefs:net") {
        return Some(MenuCmd::NetSettings);
    }
    if text_eq(id, "prefs:cookies") {
        return Some(MenuCmd::CookieSettings);
    }
    if text_eq(id, "backup-now") {
        return Some(MenuCmd::BackupNow);
    }
    if text_eq(id, "backup-restore") {
        return Some(MenuCmd::BackupRestore);
    }
    if text_eq(id, "plugin:codegen") {
        return Some(MenuCmd::OpenCodegen);
    }
    if text_eq(id, "ws-add") {
        return Some(MenuCmd::AddWorkspace);
    }
    if let Some(rest) = strip(id, "ws-forget:") {
        return Some(MenuCmd::ForgetWorkspace(owned(rest)));
    }
    if let Some(rest) = strip(id, "ws:") {
        return Some(MenuCmd::SwitchWorkspace(owned(rest)));
    }
    if let Some(rest) = strip(id, "codegen:") {
        return Some(MenuCmd::CodegenLang(owned(rest)));
    }
    if let Some(rest) = strip(id, "prefs:") {
        return Some(prefs_command(rest));
    }
    if let Some(rest) = strip(id, "codegen-req:") {
        return Some(MenuCmd::CodegenFor(owned(rest)));
    }
    if let Some(rest) = strip(id, "copy-url:") {
        return Some(MenuCmd::CopyUrl(owned(rest)));
    }
    if let Some(rest) = strip(id, "copy-curl:") {
        return Some(MenuCmd::CopyCurl(owned(rest)));
    }
    if let Some(rest) = strip(id, "dup-req:") {
        return Some(MenuCmd::DuplicateRequest(owned(rest)));
    }
    if let Some(rest) = strip(id, "move-ask:") {
        return Some(MenuCmd::AskMove(owned(rest)));
    }
    None
}

fn resp_line_command(rest: &str) -> (r: MenuCmd)
    ensures
        r@ == resp_line_cmd(rest@),
{
    match split_at_colon(rest) {
        Some((verb, line)) => match parse_usize(line) {
            Some(n) => {
                if text_eq(verb, "copy") {
                    MenuCmd::RespLine(LineVerb::Copy, n)
                } else if text_eq(verb, "value") {
                    MenuCmd::RespLine(LineVerb::Value, n)
                } else if text_eq(verb, "path") {
                    MenuCmd::RespLine(LineVerb::Path, n)
                } else if text_eq(verb, "var") {
                    MenuCmd::RespLine(LineVerb::Var, n)
                } else {
                    MenuCmd::Ignore
                }
            },
            None => MenuCmd::Ignore,
        },
        None => MenuCmd::Ignore,
    }
}

fn container_of(rest: &str) -> (r: (String, Option<String>))
    ensures
        (r.0@, opt_str(r.1)) == in_container(rest@),
{
    match split_at_colon(rest) {
        Some((c, g)) => (owned(c), Some(owned(g))),
        None => (owned(rest), None),
    }
}

fn second_command(id: &str) -> (r: Option<MenuCmd>)
    ensures
        match r {
            Some(c) => menu_cmd_second(id@) == Some(c@),
            None => menu_cmd_second(id@) is None,
        },
{
    if let Some(rest) = strip(id, "resp-line:") {
        return Some(resp_line_command(rest));
    }
    if let Some(rest) = strip(id, "hist:") {
        return Some(
            match parse_i64(rest) {
                Some(h) => MenuCmd::RestoreHistory(h),
                None => MenuCmd::Ignore,
            },
        );
    }
    if let Some(rest) = strip(id, "resp-view:") {
        return Some(MenuCmd::RespView(text_eq(rest, "pretty")));
    }
    if let Some(rest) = strip(id, "new-group:") {
        let (c, g) = container_of(rest);
        return Some(MenuCmd::NewGroup(c, g));
    }
    if let Some(rest) = strip(id, "new-request:") {
        let (c, g) = container_of(rest);
        return Some(MenuCmd::NewRequest(c, g));
    }
    if let Some(rest) = strip(id, "rename-group:") {
        return Some(
            match split_at_colon(rest) {
                Some((_c, g)) => MenuCmd::BeginRename(Selection::Group(owned(g))),
                None => MenuCmd::Ignore,
            },
        );
    }
    if let Some(rest) = strip(id, "delete-group:") {
        return Some(
            match split_at_colon(rest) {
                Some((c, g)) => MenuCmd::DeleteGroup(owned(c), owned(g)),
                None => MenuCmd::Ignore,
            },
        );
    }
    if let Some(rest) = strip(id, "rename-col:") {
        return Some(MenuCmd::BeginRename(Selection::Collection(owned(rest))));
    }
    if let Some(rest) = strip(id, "rename-req:") {
        return Some(MenuCmd::BeginRename(Selection::Request(owned(rest))));
    }
    None
}

fn body_kind_named(k: &str) -> (r: BodyKind)
    ensures
        r == body_kind_of(k@),
{
    if text_eq(k, "None") {
        BodyKind::NoBody
    } else if text_eq(k, "Json") {
        BodyKind::Json
    } else if text_eq(k, "Text") {
        BodyKind::Text
    } else if text_eq(k, "Form") {
        BodyKind::Form
    } else if text_eq(k, "Multipart") {
        BodyKind::Multipart
    } else if text_eq(k, "File") {
        BodyKind::File
    } else {
        BodyKind::Raw
    }
}

fn third_command(id: &str) -> (r: MenuCmd)
    ensures
        r@ == menu_cmd_third(id@),
{
    if let Some(rest) = strip(id, "collapse-others-col:") {
        return MenuCmd::CollapseOthers(Selection::Collection(owned(rest)));
    }
    if let Some(rest) = strip(id, "collapse-others-group:") {
        return MenuCmd::CollapseOthers(Selection::Group(owned(rest)));
    }
    if let Some(rest) = strip(id, "collapse-others-req:") {
        return MenuCmd::CollapseOthers(Selection::Request(owned(rest)));
    }
    if let Some(rest) = strip(id, "delete-col:") {
        return MenuCmd::DeleteCollection(owned(rest));
    }
    if let Some(rest) = strip(id, "delete-req:") {
        return MenuCmd::DeleteRequest(owned(rest));
    }
    if let Some(rest) = strip(id, "env-edit:") {
        return MenuCmd::EditEnv(owned(rest));
    }
    if text_eq(id, "env-vars") {
        return MenuCmd::VarsPanel;
    }
    if let Some(rest) = strip(id, "env:") {
        return MenuCmd::SetEnv(owned(rest));
    }
    if let Some(rest) = strip(id, "method:") {
        return MenuCmd::SetMethod(owned(rest));
    }
    if let Some(rest) = strip(id, "body-kind:") {
        return MenuCmd::SetBodyKind(body_kind_named(rest));
    }
    MenuCmd::Refresh
}

/// The command that menu entry `id` asks for: see [`menu_cmd_of`].
pub fn parse_menu_id(id: &str) -> (r: MenuCmd)
    ensures
        r@ == menu_cmd_of(id@),
{
    proof {
        reveal(menu_cmd_of);
    }
    if let Some(c) = first_command(id) {
        return c;
    }
    if let Some(c) = second_command(id) {
        return c;
    }
    third_command(id)
}

/// A menu item: its id and its label, the translation of `key`.
pub open spec fn item(id: Seq<char>, locale: Locale, key: Seq<char>) -> (Seq<char>, Seq<char>) {
    (id, tr_text(locale, key))
}

/// The menu of collection `c`.
pub open spec fn collection_menu_of(locale: Locale, c: Seq<char>) -> Seq<(Seq<char>, Seq<char>)> {
    seq![
        item("new-request:"@ + c, locale, "action.new_request"@),
        item("new-group:"@ + c, locale, "action.new_group"@),
        item("new-collection"@, locale, "action.new_collection"@),
        item("import-curl"@, locale, "action.import_curl"@),
        item("import-file"@, locale, "action.import_file"@),
        item("collapse-others-col:"@ + c, locale, "action.collapse_others"@),
        item("rename-col:"@ + c, locale, "action.rename"@),
        item("delete-col:"@ + c, locale, "action.delete"@),
    ]
}

/// The menu of request `r`.
pub open spec fn request_menu_of(locale: Locale, r: Seq<char>) -> Seq<(Seq<char>, Seq<char>)> {
    seq![
        item("codegen-req:"@ + r, locale, "action.plugin"@),
        item("copy-url:"@ + r, locale, "action.copy_url"@),
        item("copy-curl:"@ + r, locale, "action.copy_curl"@),
        item("dup-req:"@ + r, locale, "action.duplicate"@),
        item("move-ask:"@ + r, locale, "action.move_to"@),
        item("collapse-others-req:"@ + r, locale, "action.collapse_others"@),
        item("rename-req:"@ + r, locale, "action.rename"@),
        item("delete-req:"@ + r, locale, "action.delete"@),
    ]
}

/// `c`, `:` and `g`: a group named within its collection.
pub open spec fn in_col(c: Seq<char>, g: Seq<char>) -> Seq<char> {
    c + seq![':'] + g
}

/// The menu of group `g` of collection `c`.
pub open spec fn group_menu_of(locale: Locale, g: Seq<char>, c: Seq<char>) -> Seq<(Seq<char>, Seq<char>)> {
    seq![
        item("new-request:"@ + in_col(c, g), locale, "action.new_request"@),
        item("new-group:"@ + in_col(c, g), locale, "action.new_group"@),
        item("collapse-others-group:"@ + g, locale, "action.collapse_others"@),
        item("rename-group:"@ + in_col(c, g), locale, "action.rename"@),
        item("delete-group:"@ + in_col(c, g), locale, "action.delete"@),
    ]
}

fn menu_item(out: &mut Vec<(String, String)>, prefix: &str, payload: &str, locale: Locale, key: &str)
    ensures
        final(out)@.len() == old(out)@.len() + 1,
        forall|k: int| 0 <= k < old(out)@.len() ==> final(out)@[k] == old(out)@[k],
        final(out)@.last().0@ == prefix@ + payload@,
        final(out)@.last().1@ == tr_text(locale, key@),
{
    let mut id = String::from_str(prefix);
    id.append(payload);
    out.push((id, String::from_str(tr(locale, key))));
}

/// The items as plain values.
pub open spec fn items_view(v: Seq<(String, String)>) -> Seq<(Seq<char>, Seq<char>)> {
    v.map_values(|p: (String, String)| (p.0@, p.1@))
}

/// The menu of a collection: new request, new group, new collection,
/// imports, collapse the others, rename, delete.
pub fn collection_menu(locale: Locale, col_id: &str) -> (r: Vec<(String, String)>)
    ensures
        items_view(r@) == collection_menu_of(locale, col_id@),
{
    let mut out: Vec<(String, String)> = Vec::new();
    menu_item(&mut out, "new-request:", col_id, locale, "action.new_request");
    menu_item(&mut out, "new-group:", col_id, locale, "action.new_group");
    menu_item(&mut out, "new-collection", "", locale, "action.new_collection");
    menu_item(&mut out, "import-curl", "", locale, "action.import_curl");
    menu_item(&mut out, "import-file", "", locale, "action.import_file");
    menu_item(&mut out, "collapse-others-col:", col_id, locale, "action.collapse_others");
    menu_item(&mut out, "rename-col:", col_id, locale, "action.rename");
    menu_item(&mut out, "delete-col:", col_id, locale, "action.delete");
    proof {
        reveal_strlit("");
        assert(items_view(out@) =~= collection_menu_of(locale, col_id@));
    }
    out
}

/// The menu of a request: code generation, copy URL, copy as cURL,
/// duplicate, move, collapse the others, rename, delete.
pub fn request_menu(locale: Locale, req_id: &str) -> (r: Vec<(String, String)>)
    ensures
        items_view(r@) == request_menu_of(locale, req_id@),
{
    let mut out: Vec<(String, String)> = Vec::new();
    menu_item(&mut out, "codegen-req:", req_id, locale, "action.plugin");
    menu_item(&mut out, "copy-url:", req_id, locale, "action.copy_url");
    menu_item(&mut out, "copy-curl:", req_id, locale, "action.copy_curl");
    menu_item(&mut out, "dup-req:", req_id, locale, "action.duplicate");
    menu_item(&mut out, "move-ask:", req_id, locale, "action.move_to");
    menu_item(&mut out, "collapse-others-req:", req_id, locale, "action.collapse_others");
    menu_item(&mut out, "rename-req:", req_id, locale, "action.rename");
    menu_item(&mut out, "delete-req:", req_id, locale, "action.delete");
    proof {
        assert(items_view(out@) =~= request_menu_of(locale, req_id@));
    }
    out
}

/// The menu of a group: new request and new group inside it, collapse the
/// others, rename, delete.
pub fn group_menu(locale: Locale, group_id: &str, col_id: &str) -> (r: Vec<(String, String)>)
    ensures
        items_view(r@) == group_menu_of(locale, group_id@, col_id@),
{
    let mut both = String::from_str(col_id);
    both.append(":");
    both.append(group_id);
    proof {
        reveal_strlit(":");
        assert(both@ =~= in_col(col_id@, group_id@));
    }
    let mut out: Vec<(String, String)> = Vec::new();
    menu_item(&mut out, "new-request:", both.as_str(), locale, "action.new_request");
    menu_item(&mut out, "new-group:", both.as_str(), locale, "action.new_group");
    menu_item(&mut out, "collapse-others-group:", group_id, locale, "action.collapse_others");
    menu_item(&mut out, "rename-group:", both.as_str(), locale, "action.rename");
    menu_item(&mut out, "delete-group:", both.as_str(), locale, "action.delete");
    proof {
        assert(items_view(out@) =~= group_menu_of(locale, group_id@, col_id@));
    }
    out
}


/// The menu ids, character by character.
proof fn lemma_menu_ids()
    ensures
        "new-collection"@ == seq!['n', 'e', 'w', '-', 'c', 'o', 'l', 'l', 'e', 'c', 't', 'i', 'o', 'n'],
        "import-curl"@ == seq!['i', 'm', 'p', 'o', 'r', 't', '-', 'c', 'u', 'r', 'l'],
        "import-file"@ == seq!['i', 'm', 'p', 'o', 'r', 't', '-', 'f', 'i', 'l', 'e'],
        "prefs:net"@ == seq!['p', 'r', 'e', 'f', 's', ':', 'n', 'e', 't'],
        "prefs:cookies"@ == seq!['p', 'r', 'e', 'f', 's', ':', 'c', 'o', 'o', 'k', 'i', 'e', 's'],
        "backup-now"@ == seq!['b', 'a', 'c', 'k', 'u', 'p', '-', 'n', 'o', 'w'],
        "backup-restore"@ == seq!['b', 'a', 'c', 'k', 'u', 'p', '-', 'r', 'e', 's', 't', 'o', 'r', 'e'],
        "plugin:codegen"@ == seq!['p', 'l', 'u', 'g', 'i', 'n', ':', 'c', 'o', 'd', 'e', 'g', 'e', 'n'],
        "ws-add"@ == seq!['w', 's', '-', 'a', 'd', 'd'],
        "ws-forget:"@ == seq!['w', 's', '-', 'f', 'o', 'r', 'g', 'e', 't', ':'],
        "ws:"@ == seq!['w', 's', ':'],
        "codegen:"@ == seq!['c', 'o', 'd', 'e', 'g', 'e', 'n', ':'],
        "prefs:"@ == seq!['p', 'r', 'e', 'f', 's', ':'],
        "codegen-req:"@ == seq!['c', 'o', 'd', 'e', 'g', 'e', 'n', '-', 'r', 'e', 'q', ':'],
        "copy-url:"@ == seq!['c', 'o', 'p', 'y', '-', 'u', 'r', 'l', ':'],
        "copy-curl:"@ == seq!['c', 'o', 'p', 'y', '-', 'c', 'u', 'r', 'l', ':'],
        "dup-req:"@ == seq!['d', 'u', 'p', '-', 'r', 'e', 'q', ':'],
        "move-ask:"@ == seq!['m', 'o', 'v', 'e', '-', 'a', 's', 'k', ':'],
        "resp-line:"@ == seq!['r', 'e', 's', 'p', '-', 'l', 'i', 'n', 'e', ':'],
        "hist:"@ == seq!['h', 'i', 's', 't', ':'],
        "resp-view:"@ == seq!['r', 'e', 's', 'p', '-', 'v', 'i', 'e', 'w', ':'],
        "new-group:"@ == seq!['n', 'e', 'w', '-', 'g', 'r', 'o', 'u', 'p', ':'],
        "new-request:"@ == seq!['n', 'e', 'w', '-', 'r', 'e', 'q', 'u', 'e', 's', 't', ':'],
        "rename-group:"@ == seq!['r', 'e', 'n', 'a', 'm', 'e', '-', 'g', 'r', 'o', 'u', 'p', ':'],
        "delete-group:"@ == seq!['d', 'e', 'l', 'e', 't', 'e', '-', 'g', 'r', 'o', 'u', 'p', ':'],
        "rename-col:"@ == seq!['r', 'e', 'n', 'a', 'm', 'e', '-', 'c', 'o', 'l', ':'],
        "rename-req:"@ == seq!['r', 'e', 'n', 'a', 'm', 'e', '-', 'r', 'e', 'q', ':'],
        "collapse-others-col:"@ == seq!['c', 'o', 'l', 'l', 'a', 'p', 's', 'e', '-', 'o', 't', 'h', 'e', 'r', 's', '-', 'c', 'o', 'l', ':'],
        "collapse-others-group:"@ == seq!['c', 'o', 'l', 'l', 'a', 'p', 's', 'e', '-', 'o', 't', 'h', 'e', 'r', 's', '-', 'g', 'r', 'o', 'u', 'p', ':'],
        "collapse-others-req:"@ == seq!['c', 'o', 'l', 'l', 'a', 'p', 's', 'e', '-', 'o', 't', 'h', 'e', 'r', 's', '-', 'r', 'e', 'q', ':'],
        "delete-col:"@ == seq!['d', 'e', 'l', 'e', 't', 'e', '-', 'c', 'o', 'l', ':'],
        "delete-req:"@ == seq!['d', 'e', 'l', 'e', 't', 'e', '-', 'r', 'e', 'q', ':'],
        "env-edit:"@ == seq!['e', 'n', 'v', '-', 'e', 'd', 'i', 't', ':'],
        "env-vars"@ == seq!['e', 'n', 'v', '-', 'v', 'a', 'r', 's'],
        "env:"@ == seq!['e', 'n', 'v', ':'],
        "method:"@ == seq!['m', 'e', 't', 'h', 'o', 'd', ':'],
        "body-kind:"@ == seq!['b', 'o', 'd', 'y', '-', 'k', 'i', 'n', 'd', ':'],
{
    reveal_strlit("new-collection");
    reveal_strlit("import-curl");
    reveal_strlit("import-file");
    reveal_strlit("prefs:net");
    reveal_strlit("prefs:cookies");
    reveal_strlit("backup-now");
    reveal_strlit("backup-restore");
    reveal_strlit("plugin:codegen");
    reveal_strlit("ws-add");
    reveal_strlit("ws-forget:");
    reveal_strlit("ws:");
    reveal_strlit("codegen:");
    reveal_strlit("prefs:");
    reveal_strlit("codegen-req:");
    reveal_strlit("copy-url:");
    reveal_strlit("copy-curl:");
    reveal_strlit("dup-req:");
    reveal_strlit("move-ask:");
    reveal_strlit("resp-line:");
    reveal_strlit("hist:");
    reveal_strlit("resp-view:");
    reveal_strlit("new-group:");
    reveal_strlit("new-request:");
    reveal_strlit("rename-group:");
    reveal_strlit("delete-group:");
    reveal_strlit("rename-col:");
    reveal_strlit("rename-req:");
    reveal_strlit("collapse-others-col:");
    reveal_strlit("collapse-others-group:");
    reveal_strlit("collapse-others-req:");
    reveal_strlit("delete-col:");
    reveal_strlit("delete-req:");
    reveal_strlit("env-edit:");
    reveal_strlit("env-vars");
    reveal_strlit("env:");
    reveal_strlit("method:");
    reveal_strlit("body-kind:");
}

pub(crate) proof fn lemma_no_colon(c: Seq<char>, k: int)
    requires
        forall|i: int| 0 <= i < c.len() ==> c[i] != ':',
        0 <= k,
    ensures
        colon_from(c, k) is None,
    decreases c.len() - k,
{
    if k < c.len() {
        lemma_no_colon(c, k + 1);
    }
}

pub(crate) proof fn lemma_split_in_col(c: Seq<char>, g: Seq<char>)
    requires
        forall|i: int| 0 <= i < c.len() ==> c[i] != ':',
    ensures
        split_colon(in_col(c, g)) == Some((c, g)),
{
    let s = in_col(c, g);
    lemma_colon_skip(s, 0, c.len() as int);
    assert(s[c.len() as int] == ':');
    assert(colon_from(s, 0) == Some(c.len() as int));
    assert(s.take(c.len() as int) =~= c);
    assert(s.skip(c.len() as int + 1) =~= g);
}

proof fn lemma_colon_skip(s: Seq<char>, k: int, m: int)
    requires
        0 <= k <= m <= s.len(),
        forall|i: int| k <= i < m ==> s[i] != ':',
    ensures
        colon_from(s, k) == colon_from(s, m),
    decreases m - k,
{
    if k < m {
        lemma_colon_skip(s, k + 1, m);
    }
}


/// `c` holds no `:`.
pub open spec fn no_colon(c: Seq<char>) -> bool {
    forall|i: int| 0 <= i < c.len() ==> c[i] != ':'
}

/// What the items of a collection menu ask for.
pub open spec fn collection_menu_cmds(c: Seq<char>) -> Seq<MenuCmdV> {
    seq![
        MenuCmdV::NewRequest(c, None),
        MenuCmdV::NewGroup(c, None),
        MenuCmdV::NewCollection,
        MenuCmdV::ImportCurl,
        MenuCmdV::ImportFile,
        MenuCmdV::CollapseOthers(SelectionV::Collection(c)),
        MenuCmdV::BeginRename(SelectionV::Collection(c)),
        MenuCmdV::DeleteCollection(c),
    ]
}

/// What the items of a request menu ask for.
pub open spec fn request_menu_cmds(r: Seq<char>) -> Seq<MenuCmdV> {
    seq![
        MenuCmdV::CodegenFor(r),
        MenuCmdV::CopyUrl(r),
        MenuCmdV::CopyCurl(r),
        MenuCmdV::DuplicateRequest(r),
        MenuCmdV::AskMove(r),
        MenuCmdV::CollapseOthers(SelectionV::Request(r)),
        MenuCmdV::BeginRename(SelectionV::Request(r)),
        MenuCmdV::DeleteRequest(r),
    ]
}

/// What the items of a group menu ask for.
pub open spec fn group_menu_cmds(g: Seq<char>, c: Seq<char>) -> Seq<MenuCmdV> {
    seq![
        MenuCmdV::NewRequest(c, Some(g)),
        MenuCmdV::NewGroup(c, Some(g)),
        MenuCmdV::CollapseOthers(SelectionV::Group(g)),
        MenuCmdV::BeginRename(SelectionV::Group(g)),
        MenuCmdV::DeleteGroup(c, g),
    ]
}

proof fn lemma_after(p: Seq<char>, x: Seq<char>)
    ensures
        starts(p + x, p),
        after(p + x, p) == x,
{
    assert((p + x).take(p.len() as int) =~= p);
    assert((p + x).skip(p.len() as int) =~= x);
}

proof fn lemma_cmd_new_request_in_col(c: Seq<char>)
    requires
        no_colon(c),
    ensures
        menu_cmd_of("new-request:"@ + c) == MenuCmdV::NewRequest(c, None),
{
    reveal(menu_cmd_of);
    lemma_menu_ids();
    lemma_after("new-request:"@, c);
    lemma_no_colon(c, 0);
}

proof fn lemma_cmd_new_group_in_col(c: Seq<char>)
    requires
        no_colon(c),
    ensures
        menu_cmd_of("new-group:"@ + c) == MenuCmdV::NewGroup(c, None),
{
    reveal(menu_cmd_of);
    lemma_menu_ids();
    lemma_after("new-group:"@, c);
    lemma_no_colon(c, 0);
}

proof fn lemma_cmd_new_collection()
    ensures
        menu_cmd_of("new-collection"@) == MenuCmdV::NewCollection,
{
    reveal(menu_cmd_of);
    lemma_menu_ids();
}

proof fn lemma_cmd_import_curl()
    ensures
        menu_cmd_of("import-curl"@) == MenuCmdV::ImportCurl,
{
    reveal(menu_cmd_of);
    lemma_menu_ids();
}

proof fn lemma_cmd_import_file()
    ensures
        menu_cmd_of("import-file"@) == MenuCmdV::ImportFile,
{
    reveal(menu_cmd_of);
    lemma_menu_ids();
}

proof fn lemma_cmd_collapse_col(c: Seq<char>)
    ensures
        menu_cmd_of("collapse-others-col:"@ + c) == MenuCmdV::CollapseOthers(SelectionV::Collection(c)),
{
    reveal(menu_cmd_of);
    lemma_menu_ids();
    lemma_after("collapse-others-col:"@, c);
}

proof fn lemma_cmd_rename_col(c: Seq<char>)
    ensures
        menu_cmd_of("rename-col:"@ + c) == MenuCmdV::BeginRename(SelectionV::Collection(c)),
{
    reveal(menu_cmd_of);
    lemma_menu_ids();
    lemma_after("rename-col:"@, c);
}

proof fn lemma_cmd_delete_col(c: Seq<char>)
    ensures
        menu_cmd_of("delete-col:"@ + c) == MenuCmdV::DeleteCollection(c),
{
    reveal(menu_cmd_of);
    lemma_menu_ids();
    lemma_after("delete-col:"@, c);
}

proof fn lemma_cmd_codegen_req(r: Seq<char>)
    ensures
        menu_cmd_of("codegen-req:"@ + r) == MenuCmdV::CodegenFor(r),
{
    reveal(menu_cmd_of);
    lemma_menu_ids();
    lemma_after("codegen-req:"@, r);
}

proof fn lemma_cmd_copy_url(r: Seq<char>)
    ensures
        menu_cmd_of("copy-url:"@ + r) == MenuCmdV::CopyUrl(r),
{
    reveal(menu_cmd_of);
    lemma_menu_ids();
    lemma_after("copy-url:"@, r);
}

proof fn lemma_cmd_copy_curl(r: Seq<char>)
    ensures
        menu_cmd_of("copy-curl:"@ + r) == MenuCmdV::CopyCurl(r),
{
    reveal(menu_cmd_of);
    lemma_menu_ids();
    lemma_after("copy-curl:"@, r);
}

proof fn lemma_cmd_dup_req(r: Seq<char>)
    ensures
        menu_cmd_of("dup-req:"@ + r) == MenuCmdV::DuplicateRequest(r),
{
    reveal(menu_cmd_of);
    lemma_menu_ids();
    lemma_after("dup-req:"@, r);
}

proof fn lemma_cmd_move_ask(r: Seq<char>)
    ensures
        menu_cmd_of("move-ask:"@ + r) == MenuCmdV::AskMove(r),
{
    reveal(menu_cmd_of);
    lemma_menu_ids();
    lemma_after("move-ask:"@, r);
}

proof fn lemma_cmd_collapse_req(r: Seq<char>)
    ensures
        menu_cmd_of("collapse-others-req:"@ + r) == MenuCmdV::CollapseOthers(SelectionV::Request(r)),
{
    reveal(menu_cmd_of);
    lemma_menu_ids();
    lemma_after("collapse-others-req:"@, r);
}

proof fn lemma_cmd_rename_req(r: Seq<char>)
    ensures
        menu_cmd_of("rename-req:"@ + r) == MenuCmdV::BeginRename(SelectionV::Request(r)),
{
    reveal(menu_cmd_of);
    lemma_menu_ids();
    lemma_after("rename-req:"@, r);
}

proof fn lemma_cmd_delete_req(r: Seq<char>)
    ensures
        menu_cmd_of("delete-req:"@ + r) == MenuCmdV::DeleteRequest(r),
{
    reveal(menu_cmd_of);
    lemma_menu_ids();
    lemma_after("delete-req:"@, r);
}

proof fn lemma_cmd_new_request_in_group(g: Seq<char>, c: Seq<char>)
    requires
        no_colon(c),
    ensures
        menu_cmd_of("new-request:"@ + in_col(c, g)) == MenuCmdV::NewRequest(c, Some(g)),
{
    reveal(menu_cmd_of);
    lemma_menu_ids();
    lemma_after("new-request:"@, in_col(c, g));
    lemma_split_in_col(c, g);
}

proof fn lemma_cmd_new_group_in_group(g: Seq<char>, c: Seq<char>)
    requires
        no_colon(c),
    ensures
        menu_cmd_of("new-group:"@ + in_col(c, g)) == MenuCmdV::NewGroup(c, Some(g)),
{
    reveal(menu_cmd_of);
    lemma_menu_ids();
    lemma_after("new-group:"@, in_col(c, g));
    lemma_split_in_col(c, g);
}

proof fn lemma_cmd_collapse_group(g: Seq<char>)
    ensures
        menu_cmd_of("collapse-others-group:"@ + g) == MenuCmdV::CollapseOthers(SelectionV::Group(g)),
{
    reveal(menu_cmd_of);
    lemma_menu_ids();
    lemma_after("collapse-others-group:"@, g);
}

proof fn lemma_cmd_rename_group(g: Seq<char>, c: Seq<char>)
    requires
        no_colon(c),
    ensures
        menu_cmd_of("rename-group:"@ + in_col(c, g)) == MenuCmdV::BeginRename(SelectionV::Group(g)),
{
    reveal(menu_cmd_of);
    lemma_menu_ids();
    lemma_after("rename-group:"@, in_col(c, g));
    lemma_split_in_col(c, g);
}

proof fn lemma_cmd_delete_group(g: Seq<char>, c: Seq<char>)
    requires
        no_colon(c),
    ensures
        menu_cmd_of("delete-group:"@ + in_col(c, g)) == MenuCmdV::DeleteGroup(c, g),
{
    reveal(menu_cmd_of);
    lemma_menu_ids();
    lemma_after("delete-group:"@, in_col(c, g));
    lemma_split_in_col(c, g);
}

/// Every item of a collection menu asks for what it says, for a collection
/// id without `:` (in `new-request:<id>` a `:` would start a group id).
pub proof fn law_collection_menu_understood(locale: Locale, c: Seq<char>)
    requires
        no_colon(c),
    ensures
        forall|k: int|
            0 <= k < collection_menu_of(locale, c).len() ==> menu_cmd_of(#[trigger] collection_menu_of(locale, c)[k].0)
                == collection_menu_cmds(c)[k],
{
    lemma_cmd_new_request_in_col(c);
    lemma_cmd_new_group_in_col(c);
    lemma_cmd_new_collection();
    lemma_cmd_import_curl();
    lemma_cmd_import_file();
    lemma_cmd_collapse_col(c);
    lemma_cmd_rename_col(c);
    lemma_cmd_delete_col(c);
}

/// Every item of a request menu asks for what it says, whatever the id.
pub proof fn law_request_menu_understood(locale: Locale, r: Seq<char>)
    ensures
        forall|k: int|
            0 <= k < request_menu_of(locale, r).len() ==> menu_cmd_of(#[trigger] request_menu_of(locale, r)[k].0)
                == request_menu_cmds(r)[k],
{
    lemma_cmd_codegen_req(r);
    lemma_cmd_copy_url(r);
    lemma_cmd_copy_curl(r);
    lemma_cmd_dup_req(r);
    lemma_cmd_move_ask(r);
    lemma_cmd_collapse_req(r);
    lemma_cmd_rename_req(r);
    lemma_cmd_delete_req(r);
}

/// Every item of a group menu asks for what it says, for a collection id
/// without `:` (the first `:` after the prefix separates the two ids).
pub proof fn law_group_menu_understood(locale: Locale, g: Seq<char>, c: Seq<char>)
    requires
        no_colon(c),
    ensures
        forall|k: int|
            0 <= k < group_menu_of(locale, g, c).len() ==> menu_cmd_of(#[trigger] group_menu_of(locale, g, c)[k].0)
                == group_menu_cmds(g, c)[k],
{
    lemma_cmd_new_request_in_group(g, c);
    lemma_cmd_new_group_in_group(g, c);
    lemma_cmd_collapse_group(g);
    lemma_cmd_rename_group(g, c);
    lemma_cmd_delete_group(g, c);
}

} // verus!

verus! {

/// The container part of a new-item id: the collection id, then `:` and the
/// group id when there is a group.
pub open spec fn container_id(c: Seq<char>, g: Option<Seq<char>>) -> Seq<char> {
    match g {
        Some(g) => in_col(c, g),
        None => c,
    }
}

/// The menu of the "+" button: new request and new group in the container
/// that the selection gives, and a new collection.
pub open spec fn new_item_menu_of(locale: Locale, c: Seq<char>, g: Option<Seq<char>>) -> Seq<(Seq<char>, Seq<char>)> {
    seq![
        item("new-request:"@ + container_id(c, g), locale, "action.new_request"@),
        item("new-group:"@ + container_id(c, g), locale, "action.new_group"@),
        item("new-collection"@, locale, "action.new_collection"@),
    ]
}

/// The menu of the "+" button for the container (collection `col_id`, group
/// `group_id` when given) where new items go (see [`new_item_menu_of`]).
pub fn new_item_menu(locale: Locale, col_id: &str, group_id: Option<&str>) -> (r: Vec<(String, String)>)
    ensures
        items_view(r@) == new_item_menu_of(
            locale,
            col_id@,
            match group_id {
                Some(g) => Some(g@),
                None => None,
            },
        ),
{
    let mut place = String::from_str(col_id);
    match group_id {
        Some(g) => {
            place.append(":");
            place.append(g);
        },
        None => {},
    }
    proof {
        reveal_strlit(":");
        reveal_strlit("");
        assert(place@ =~= container_id(
            col_id@,
            match group_id {
                Some(g) => Some(g@),
                None => None,
            },
        ));
    }
    let mut out: Vec<(String, String)> = Vec::new();
    menu_item(&mut out, "new-request:", place.as_str(), locale, "action.new_request");
    menu_item(&mut out, "new-group:", place.as_str(), locale, "action.new_group");
    menu_item(&mut out, "new-collection", "", locale, "action.new_collection");
    proof {
        assert(items_view(out@) =~= new_item_menu_of(
            locale,
            col_id@,
            match group_id {
                Some(g) => Some(g@),
                None => None,
            },
        ));
    }
    out
}

/// The methods the method menu offers, in order.
pub open spec fn methods() -> Seq<Seq<char>> {
    seq!["GET"@, "POST"@, "PUT"@, "PATCH"@, "DELETE"@, "HEAD"@, "OPTIONS"@, "TRACE"@]
}

/// The method menu: one item per method, labelled with the method.
pub open spec fn method_menu_of() -> Seq<(Seq<char>, Seq<char>)> {
    methods().map_values(|m: Seq<char>| ("method:"@ + m, m))
}

fn text_item(out: &mut Vec<(String, String)>, prefix: &str, payload: &str, label: &str)
    ensures
        final(out)@.len() == old(out)@.len() + 1,
        forall|k: int| 0 <= k < old(out)@.len() ==> final(out)@[k] == old(out)@[k],
        final(out)@.last().0@ == prefix@ + payload@,
        final(out)@.last().1@ == label@,
        items_view(final(out)@) == items_view(old(out)@).push((prefix@ + payload@, label@)),
{
    let ghost before = items_view(out@);
    let mut id = String::from_str(prefix);
    id.append(payload);
    out.push((id, String::from_str(label)));
    proof {
        assert(items_view(out@) =~= before.push((prefix@ + payload@, label@)));
    }
}

/// The method menu (see [`method_menu_of`]).
pub fn method_menu() -> (r: Vec<(String, String)>)
    ensures
        items_view(r@) == method_menu_of(),
{
    let mut out: Vec<(String, String)> = Vec::new();
    text_item(&mut out, "method:", "GET", "GET");
    text_item(&mut out, "method:", "POST", "POST");
    text_item(&mut out, "method:", "PUT", "PUT");
    text_item(&mut out, "method:", "PATCH", "PATCH");
    text_item(&mut out, "method:", "DELETE", "DELETE");
    text_item(&mut out, "method:", "HEAD", "HEAD");
    text_item(&mut out, "method:", "OPTIONS", "OPTIONS");
    text_item(&mut out, "method:", "TRACE", "TRACE");
    proof {
        assert(items_view(out@) =~= method_menu_of());
    }
    out
}

/// The name of a body kind in a menu id.
pub open spec fn body_kind_name(k: BodyKind) -> Seq<char> {
    match k {
        BodyKind::NoBody => "None"@,
        BodyKind::Json => "Json"@,
        BodyKind::Text => "Text"@,
        BodyKind::Form => "Form"@,
        BodyKind::Multipart => "Multipart"@,
        BodyKind::File => "File"@,
        BodyKind::Raw => "Raw"@,
    }
}

/// The body kinds the body menu offers, in order.
pub open spec fn body_kinds() -> Seq<BodyKind> {
    seq![
        BodyKind::NoBody,
        BodyKind::Json,
        BodyKind::Text,
        BodyKind::Form,
        BodyKind::Multipart,
        BodyKind::File,
        BodyKind::Raw,
    ]
}

/// The body menu: one item per body kind, labelled in the locale.
pub open spec fn body_kind_menu_of(locale: Locale) -> Seq<(Seq<char>, Seq<char>)> {
    body_kinds().map_values(
        |k: BodyKind| ("body-kind:"@ + body_kind_name(k), tr_text(locale, body_kind_key_of(k))),
    )
}

/// The body menu (see [`body_kind_menu_of`]).
pub fn body_kind_menu(locale: Locale) -> (r: Vec<(String, String)>)
    ensures
        items_view(r@) == body_kind_menu_of(locale),
{
    let mut out: Vec<(String, String)> = Vec::new();
    text_item(&mut out, "body-kind:", "None", body_kind_label(locale, BodyKind::NoBody));
    text_item(&mut out, "body-kind:", "Json", body_kind_label(locale, BodyKind::Json));
    text_item(&mut out, "body-kind:", "Text", body_kind_label(locale, BodyKind::Text));
    text_item(&mut out, "body-kind:", "Form", body_kind_label(locale, BodyKind::Form));
    text_item(&mut out, "body-kind:", "Multipart", body_kind_label(locale, BodyKind::Multipart));
    text_item(&mut out, "body-kind:", "File", body_kind_label(locale, BodyKind::File));
    text_item(&mut out, "body-kind:", "Raw", body_kind_label(locale, BodyKind::Raw));
    proof {
        assert(items_view(out@) =~= body_kind_menu_of(locale));
    }
    out
}

/// The environment menu: the base environment, each environment (id, name),
/// then editing the base environment and the variables panel.
pub open spec fn env_menu_of(locale: Locale, base_name: Seq<char>, envs: Seq<(Seq<char>, Seq<char>)>) -> Seq<(Seq<char>, Seq<char>)> {
    seq![("env:base"@, base_name)] + envs.map_values(|e: (Seq<char>, Seq<char>)| ("env:"@ + e.0, e.1)) + seq![
        item("env-edit:base"@, locale, "action.edit_env"@),
        item("env-vars"@, locale, "vars.title"@),
    ]
}

/// The environment menu (see [`env_menu_of`]); `envs` holds (id, name).
pub fn env_menu(locale: Locale, base_name: &str, envs: &[(String, String)]) -> (r: Vec<(String, String)>)
    ensures
        items_view(r@) == env_menu_of(locale, base_name@, items_view(envs@)),
{
    let mut out: Vec<(String, String)> = Vec::new();
    text_item(&mut out, "env:", "base", base_name);
    let ghost ev = items_view(envs@);
    proof {
        reveal_strlit("env:base");
        reveal_strlit("env:");
        reveal_strlit("base");
        assert("env:"@ + "base"@ =~= "env:base"@);
        assert(ev.take(0).map_values(|e: (Seq<char>, Seq<char>)| ("env:"@ + e.0, e.1)) =~= Seq::<
            (Seq<char>, Seq<char>),
        >::empty());
        assert(items_view(out@) =~= seq![("env:base"@, base_name@)] + Seq::<(Seq<char>, Seq<char>)>::empty());
    }
    let mut k: usize = 0;
    while k < envs.len()
        invariant
            ev == items_view(envs@),
            k <= envs@.len(),
            items_view(out@) == seq![("env:base"@, base_name@)] + ev.take(k as int).map_values(
                |e: (Seq<char>, Seq<char>)| ("env:"@ + e.0, e.1),
            ),
        decreases envs@.len() - k,
    {
        proof {
            assert(ev[k as int] == (envs@[k as int].0@, envs@[k as int].1@));
            assert(ev.take(k + 1) =~= ev.take(k as int).push(ev[k as int]));
        }
        text_item(&mut out, "env:", envs[k].0.as_str(), envs[k].1.as_str());
        k = k + 1;
    }
    proof {
        assert(ev.take(k as int) =~= ev);
    }
    menu_item(&mut out, "env-edit:base", "", locale, "action.edit_env");
    menu_item(&mut out, "env-vars", "", locale, "vars.title");
    proof {
        reveal_strlit("");
        reveal_strlit("env:base");
        reveal_strlit("env:");
        reveal_strlit("base");
        assert("env:"@ + "base"@ =~= "env:base"@);
        assert(items_view(out@) =~= env_menu_of(locale, base_name@, ev));
    }
    out
}

/// The label of the cookie entry of the preferences menu: the title and the
/// number of cookies in the jar.
pub open spec fn cookies_entry_of(locale: Locale, count: u64) -> Seq<char> {
    tr_text(locale, "cookies.title"@) + tr_text(locale, "cookies.count_prefix"@) + decimal(count as nat)
        + tr_text(locale, "cookies.count_suffix"@)
}

/// The preferences menu: settings, language, workspace, reload, network,
/// cookies (with their number), code generation, trash.
pub open spec fn prefs_menu_of(locale: Locale, cookies: u64) -> Seq<(Seq<char>, Seq<char>)> {
    seq![
        item("prefs:settings"@, locale, "settings.title"@),
        item("prefs:locale"@, locale, "action.language"@),
        item("prefs:workspace"@, locale, "action.choose_workspace"@),
        item("prefs:reload"@, locale, "action.reload"@),
        item("prefs:net"@, locale, "net.title"@),
        ("prefs:cookies"@, cookies_entry_of(locale, cookies)),
        item("prefs:codegen"@, locale, "action.plugin"@),
        item("prefs:trash"@, locale, "trash.title"@),
    ]
}

/// The preferences menu (see [`prefs_menu_of`]).
pub fn prefs_menu(locale: Locale, cookies: u64) -> (r: Vec<(String, String)>)
    ensures
        items_view(r@) == prefs_menu_of(locale, cookies),
{
    let mut out: Vec<(String, String)> = Vec::new();
    menu_item(&mut out, "prefs:settings", "", locale, "settings.title");
    menu_item(&mut out, "prefs:locale", "", locale, "action.language");
    menu_item(&mut out, "prefs:workspace", "", locale, "action.choose_workspace");
    menu_item(&mut out, "prefs:reload", "", locale, "action.reload");
    menu_item(&mut out, "prefs:net", "", locale, "net.title");
    let mut label = String::from_str(tr(locale, "cookies.title"));
    label.append(tr(locale, "cookies.count_prefix"));
    push_decimal(&mut label, cookies);
    label.append(tr(locale, "cookies.count_suffix"));
    text_item(&mut out, "prefs:cookies", "", label.as_str());
    menu_item(&mut out, "prefs:codegen", "", locale, "action.plugin");
    menu_item(&mut out, "prefs:trash", "", locale, "trash.title");
    proof {
        reveal_strlit("");
        assert(label@ =~= cookies_entry_of(locale, cookies));
        assert(items_view(out@) =~= prefs_menu_of(locale, cookies));
    }
    out
}

/// What the items of the "+" menu ask for.
pub open spec fn new_item_menu_cmds(c: Seq<char>, g: Option<Seq<char>>) -> Seq<MenuCmdV> {
    seq![MenuCmdV::NewRequest(c, g), MenuCmdV::NewGroup(c, g), MenuCmdV::NewCollection]
}

/// Every item of the "+" menu asks for what it says, for a collection id
/// without `:`.
pub proof fn law_new_item_menu_understood(locale: Locale, c: Seq<char>, g: Option<Seq<char>>)
    requires
        no_colon(c),
    ensures
        forall|k: int|
            0 <= k < new_item_menu_of(locale, c, g).len() ==> menu_cmd_of(#[trigger] new_item_menu_of(locale, c, g)[k].0)
                == new_item_menu_cmds(c, g)[k],
{
    match g {
        Some(gid) => {
            lemma_cmd_new_request_in_group(gid, c);
            lemma_cmd_new_group_in_group(gid, c);
        },
        None => {
            lemma_cmd_new_request_in_col(c);
            lemma_cmd_new_group_in_col(c);
        },
    }
    lemma_cmd_new_collection();
}

proof fn lemma_more_ids()
    ensures
        "method:"@ == seq!['m', 'e', 't', 'h', 'o', 'd', ':'],
        "body-kind:"@ == seq!['b', 'o', 'd', 'y', '-', 'k', 'i', 'n', 'd', ':'],
        "env:base"@ == seq!['e', 'n', 'v', ':', 'b', 'a', 's', 'e'],
        "env-edit:base"@ == seq!['e', 'n', 'v', '-', 'e', 'd', 'i', 't', ':', 'b', 'a', 's', 'e'],
        "base"@ == seq!['b', 'a', 's', 'e'],
        "prefs:settings"@ == "prefs:"@ + seq!['s', 'e', 't', 't', 'i', 'n', 'g', 's'],
        "prefs:locale"@ == "prefs:"@ + seq!['l', 'o', 'c', 'a', 'l', 'e'],
        "prefs:workspace"@ == "prefs:"@ + seq!['w', 'o', 'r', 'k', 's', 'p', 'a', 'c', 'e'],
        "prefs:reload"@ == "prefs:"@ + seq!['r', 'e', 'l', 'o', 'a', 'd'],
        "prefs:codegen"@ == "prefs:"@ + seq!['c', 'o', 'd', 'e', 'g', 'e', 'n'],
        "prefs:trash"@ == "prefs:"@ + seq!['t', 'r', 'a', 's', 'h'],
        "settings"@ == seq!['s', 'e', 't', 't', 'i', 'n', 'g', 's'],
        "locale"@ == seq!['l', 'o', 'c', 'a', 'l', 'e'],
        "workspace"@ == seq!['w', 'o', 'r', 'k', 's', 'p', 'a', 'c', 'e'],
        "reload"@ == seq!['r', 'e', 'l', 'o', 'a', 'd'],
        "codegen"@ == seq!['c', 'o', 'd', 'e', 'g', 'e', 'n'],
        "trash"@ == seq!['t', 'r', 'a', 's', 'h'],
        "None"@ == seq!['N', 'o', 'n', 'e'],
        "Json"@ == seq!['J', 's', 'o', 'n'],
        "Text"@ == seq!['T', 'e', 'x', 't'],
        "Form"@ == seq!['F', 'o', 'r', 'm'],
        "Multipart"@ == seq!['M', 'u', 'l', 't', 'i', 'p', 'a', 'r', 't'],
        "File"@ == seq!['F', 'i', 'l', 'e'],
        "Raw"@ == seq!['R', 'a', 'w'],
{
    reveal_strlit("method:");
    reveal_strlit("body-kind:");
    reveal_strlit("env:base");
    reveal_strlit("env-edit:base");
    reveal_strlit("base");
    reveal_strlit("prefs:");
    reveal_strlit("prefs:settings");
    reveal_strlit("prefs:locale");
    reveal_strlit("prefs:workspace");
    reveal_strlit("prefs:reload");
    reveal_strlit("prefs:codegen");
    reveal_strlit("prefs:trash");
    reveal_strlit("settings");
    reveal_strlit("locale");
    reveal_strlit("workspace");
    reveal_strlit("reload");
    reveal_strlit("codegen");
    reveal_strlit("trash");
    reveal_strlit("None");
    reveal_strlit("Json");
    reveal_strlit("Text");
    reveal_strlit("Form");
    reveal_strlit("Multipart");
    reveal_strlit("File");
    reveal_strlit("Raw");
    assert("prefs:settings"@ =~= "prefs:"@ + seq!['s', 'e', 't', 't', 'i', 'n', 'g', 's']);
    assert("prefs:locale"@ =~= "prefs:"@ + seq!['l', 'o', 'c', 'a', 'l', 'e']);
    assert("prefs:workspace"@ =~= "prefs:"@ + seq!['w', 'o', 'r', 'k', 's', 'p', 'a', 'c', 'e']);
    assert("prefs:reload"@ =~= "prefs:"@ + seq!['r', 'e', 'l', 'o', 'a', 'd']);
    assert("prefs:codegen"@ =~= "prefs:"@ + seq!['c', 'o', 'd', 'e', 'g', 'e', 'n']);
    assert("prefs:trash"@ =~= "prefs:"@ + seq!['t', 'r', 'a', 's', 'h']);
}

proof fn lemma_cmd_method(m: Seq<char>)
    ensures
        menu_cmd_of("method:"@ + m) == MenuCmdV::SetMethod(m),
{
    reveal(menu_cmd_of);
    lemma_menu_ids();
    lemma_more_ids();
    lemma_after("method:"@, m);
}

/// Every item of the method menu sets its method.
pub proof fn law_method_menu_understood()
    ensures
        forall|k: int|
            0 <= k < method_menu_of().len() ==> menu_cmd_of(#[trigger] method_menu_of()[k].0)
                == MenuCmdV::SetMethod(methods()[k]),
{
    assert forall|k: int| 0 <= k < method_menu_of().len() implies menu_cmd_of(#[trigger] method_menu_of()[k].0)
        == MenuCmdV::SetMethod(methods()[k]) by {
        lemma_cmd_method(methods()[k]);
    }
}

proof fn lemma_cmd_body_kind(k: BodyKind)
    ensures
        menu_cmd_of("body-kind:"@ + body_kind_name(k)) == MenuCmdV::SetBodyKind(k),
{
    reveal(menu_cmd_of);
    lemma_menu_ids();
    lemma_more_ids();
    lemma_after("body-kind:"@, body_kind_name(k));
}

/// Every item of the body menu sets its body kind.
pub proof fn law_body_kind_menu_understood(locale: Locale)
    ensures
        forall|k: int|
            0 <= k < body_kind_menu_of(locale).len() ==> menu_cmd_of(#[trigger] body_kind_menu_of(locale)[k].0)
                == MenuCmdV::SetBodyKind(body_kinds()[k]),
{
    assert forall|k: int| 0 <= k < body_kind_menu_of(locale).len() implies menu_cmd_of(
        #[trigger] body_kind_menu_of(locale)[k].0,
    ) == MenuCmdV::SetBodyKind(body_kinds()[k]) by {
        lemma_cmd_body_kind(body_kinds()[k]);
    }
}

proof fn lemma_cmd_env(x: Seq<char>)
    ensures
        menu_cmd_of("env:"@ + x) == MenuCmdV::SetEnv(x),
{
    reveal(menu_cmd_of);
    lemma_menu_ids();
    lemma_more_ids();
    lemma_after("env:"@, x);
}

proof fn lemma_cmd_env_edit_base()
    ensures
        menu_cmd_of("env-edit:base"@) == MenuCmdV::EditEnv("base"@),
{
    reveal(menu_cmd_of);
    lemma_menu_ids();
    lemma_more_ids();
    assert("env-edit:base"@ =~= "env-edit:"@ + "base"@);
    lemma_after("env-edit:"@, "base"@);
}

proof fn lemma_cmd_env_vars()
    ensures
        menu_cmd_of("env-vars"@) == MenuCmdV::VarsPanel,
{
    reveal(menu_cmd_of);
    lemma_menu_ids();
}

/// What the items of the environment menu ask for.
pub open spec fn env_menu_cmds(envs: Seq<(Seq<char>, Seq<char>)>) -> Seq<MenuCmdV> {
    seq![MenuCmdV::SetEnv("base"@)] + envs.map_values(|e: (Seq<char>, Seq<char>)| MenuCmdV::SetEnv(e.0)) + seq![
        MenuCmdV::EditEnv("base"@),
        MenuCmdV::VarsPanel,
    ]
}

/// Every item of the environment menu asks for what it says, whatever the
/// environment ids.
pub proof fn law_env_menu_understood(locale: Locale, base_name: Seq<char>, envs: Seq<(Seq<char>, Seq<char>)>)
    ensures
        forall|k: int|
            0 <= k < env_menu_of(locale, base_name, envs).len() ==> menu_cmd_of(
                #[trigger] env_menu_of(locale, base_name, envs)[k].0,
            ) == env_menu_cmds(envs)[k],
{
    let menu = env_menu_of(locale, base_name, envs);
    let cmds = env_menu_cmds(envs);
    lemma_more_ids();
    reveal_strlit("env:");
    assert("env:"@ + "base"@ =~= "env:base"@);
    lemma_cmd_env("base"@);
    lemma_cmd_env_edit_base();
    lemma_cmd_env_vars();
    let n = envs.len();
    assert(menu.len() == n + 3);
    assert(cmds.len() == n + 3);
    assert forall|k: int| 0 <= k < menu.len() implies menu_cmd_of(#[trigger] menu[k].0) == cmds[k] by {
        if 1 <= k <= n {
            lemma_cmd_env(envs[k - 1].0);
            assert(menu[k].0 == "env:"@ + envs[k - 1].0);
            assert(cmds[k] == MenuCmdV::SetEnv(envs[k - 1].0));
        } else if k == 0 {
            assert(menu[k].0 == "env:base"@);
            assert(cmds[k] == MenuCmdV::SetEnv("base"@));
        } else if k == n + 1 {
            assert(menu[k].0 == "env-edit:base"@);
            assert(cmds[k] == MenuCmdV::EditEnv("base"@));
        } else {
            assert(menu[k].0 == "env-vars"@);
            assert(cmds[k] == MenuCmdV::VarsPanel);
        }
    }
}

proof fn lemma_cmd_prefs(rest: Seq<char>)
    requires
        "prefs:"@ + rest != "prefs:net"@,
        "prefs:"@ + rest != "prefs:cookies"@,
    ensures
        menu_cmd_of("prefs:"@ + rest) == prefs_cmd(rest),
{
    reveal(menu_cmd_of);
    lemma_menu_ids();
    lemma_more_ids();
    lemma_after("prefs:"@, rest);
}

/// What the items of the preferences menu ask for.
pub open spec fn prefs_menu_cmds() -> Seq<MenuCmdV> {
    seq![
        MenuCmdV::OpenSettings,
        MenuCmdV::ToggleLocale,
        MenuCmdV::ChooseWorkspace,
        MenuCmdV::Reload,
        MenuCmdV::NetSettings,
        MenuCmdV::CookieSettings,
        MenuCmdV::OpenCodegen,
        MenuCmdV::OpenTrash,
    ]
}

/// Every item of the preferences menu asks for what it says.
pub proof fn law_prefs_menu_understood(locale: Locale, cookies: u64)
    ensures
        forall|k: int|
            0 <= k < prefs_menu_of(locale, cookies).len() ==> menu_cmd_of(#[trigger] prefs_menu_of(locale, cookies)[k].0)
                == prefs_menu_cmds()[k],
{
    lemma_menu_ids();
    lemma_more_ids();
    lemma_cmd_prefs("settings"@);
    lemma_cmd_prefs("locale"@);
    lemma_cmd_prefs("workspace"@);
    lemma_cmd_prefs("reload"@);
    lemma_cmd_prefs("codegen"@);
    lemma_cmd_prefs("trash"@);
    assert(menu_cmd_of("prefs:net"@) == MenuCmdV::NetSettings) by {
        reveal(menu_cmd_of);
    }
    assert(menu_cmd_of("prefs:cookies"@) == MenuCmdV::CookieSettings) by {
        reveal(menu_cmd_of);
    }
}

/// How a scalar value is shown in the response-line menu: at most 24
/// characters, an ellipsis after a cut.
pub open spec fn value_label_of(v: Seq<char>) -> Seq<char> {
    if v.len() > 24 {
        v.take(24) + seq!['…']
    } else {
        v
    }
}

/// The id of a response-line action: `resp-line:{verb}:{line}`.
pub open spec fn line_id(verb: Seq<char>, line: usize) -> Seq<char> {
    "resp-line:"@ + in_col(verb, decimal(line as nat))
}

/// The menu of a line of the response body: copy the line; for a line with a
/// scalar value, copy the value (shown); for JSON, also copy its path and save
/// it as a variable.
pub open spec fn resp_line_menu_of(locale: Locale, line: usize, scalar: Option<Seq<char>>, json: bool) -> Seq<(Seq<char>, Seq<char>)> {
    let copy = item(line_id("copy"@, line), locale, "response.copy_line"@);
    match scalar {
        None => seq![copy],
        Some(v) => seq![
            copy,
            (line_id("value"@, line), tr_text(locale, "response.copy_value"@) + "  "@ + value_label_of(v)),
        ] + if json {
            seq![
                item(line_id("path"@, line), locale, "response.copy_path"@),
                item(line_id("var"@, line), locale, "vars.save_btn"@),
            ]
        } else {
            seq![]
        },
    }
}

/// The menu of line `line` of the response body (see [`resp_line_menu_of`]);
/// `scalar` is the line's scalar value, if it has one.
pub fn resp_line_menu(locale: Locale, line: usize, scalar: Option<&str>, json: bool) -> (r: Vec<(String, String)>)
    ensures
        items_view(r@) == resp_line_menu_of(
            locale,
            line,
            match scalar {
                Some(v) => Some(v@),
                None => None,
            },
            json,
        ),
{
    let mut tail = String::from_str(":");
    push_decimal(&mut tail, line as u64);
    proof {
        reveal_strlit(":");
    }
    let ghost d = decimal(line as nat);
    assert(tail@ =~= seq![':'] + d);
    let mut out: Vec<(String, String)> = Vec::new();
    let mut id = String::from_str("copy");
    id.append(tail.as_str());
    assert(id@ =~= in_col("copy"@, d));
    menu_item(&mut out, "resp-line:", id.as_str(), locale, "response.copy_line");
    match scalar {
        Some(v) => {
            let n = v.unicode_len();
            let mut label = String::from_str(tr(locale, "response.copy_value"));
            label.append("  ");
            if n > 24 {
                label.append(v.substring_char(0, 24));
                push_char(&mut label, '…');
                proof {
                    assert(v@.subrange(0, 24) =~= v@.take(24));
                }
            } else {
                label.append(v);
            }
            assert(label@ =~= tr_text(locale, "response.copy_value"@) + "  "@ + value_label_of(v@));
            let mut vid = String::from_str("value");
            vid.append(tail.as_str());
            assert(vid@ =~= in_col("value"@, d));
            text_item(&mut out, "resp-line:", vid.as_str(), label.as_str());
            if json {
                let mut pid = String::from_str("path");
                pid.append(tail.as_str());
                assert(pid@ =~= in_col("path"@, d));
                menu_item(&mut out, "resp-line:", pid.as_str(), locale, "response.copy_path");
                let mut wid = String::from_str("var");
                wid.append(tail.as_str());
                assert(wid@ =~= in_col("var"@, d));
                menu_item(&mut out, "resp-line:", wid.as_str(), locale, "vars.save_btn");
            }
            proof {
                assert(items_view(out@) =~= resp_line_menu_of(locale, line, Some(v@), json));
            }
        },
        None => {
            proof {
                assert(items_view(out@) =~= resp_line_menu_of(locale, line, None, json));
            }
        },
    }
    out
}

proof fn lemma_verbs()
    ensures
        "copy"@ == seq!['c', 'o', 'p', 'y'],
        "value"@ == seq!['v', 'a', 'l', 'u', 'e'],
        "path"@ == seq!['p', 'a', 't', 'h'],
        "var"@ == seq!['v', 'a', 'r'],
{
    reveal_strlit("copy");
    reveal_strlit("value");
    reveal_strlit("path");
    reveal_strlit("var");
}

proof fn lemma_cmd_resp_line(verb: Seq<char>, v: LineVerb, line: usize)
    requires
        line_verb_of(verb) == Some(v),
        no_colon(verb),
    ensures
        menu_cmd_of(line_id(verb, line)) == MenuCmdV::RespLine(v, line),
{
    reveal(menu_cmd_of);
    lemma_menu_ids();
    lemma_after("resp-line:"@, in_col(verb, decimal(line as nat)));
    lemma_split_in_col(verb, decimal(line as nat));
    lemma_decimal(line as nat);
    let d = decimal(line as nat);
    assert(d.len() > 0 && d[0] != '+') by {
        assert('0' <= d[0] <= '9');
    }
    assert(usize_text(d) == Some(line));
}

/// What the items of a response-line menu ask for.
pub open spec fn resp_line_menu_cmds(line: usize, scalar: bool, json: bool) -> Seq<MenuCmdV> {
    if !scalar {
        seq![MenuCmdV::RespLine(LineVerb::Copy, line)]
    } else if json {
        seq![
            MenuCmdV::RespLine(LineVerb::Copy, line),
            MenuCmdV::RespLine(LineVerb::Value, line),
            MenuCmdV::RespLine(LineVerb::Path, line),
            MenuCmdV::RespLine(LineVerb::Var, line),
        ]
    } else {
        seq![MenuCmdV::RespLine(LineVerb::Copy, line), MenuCmdV::RespLine(LineVerb::Value, line)]
    }
}

/// Every item of a response-line menu asks for its action on that very line.
pub proof fn law_resp_line_menu_understood(locale: Locale, line: usize, scalar: Option<Seq<char>>, json: bool)
    ensures
        forall|k: int|
            0 <= k < resp_line_menu_of(locale, line, scalar, json).len() ==> menu_cmd_of(
                #[trigger] resp_line_menu_of(locale, line, scalar, json)[k].0,
            ) == resp_line_menu_cmds(line, scalar is Some, json)[k],
{
    lemma_verbs();
    lemma_cmd_resp_line("copy"@, LineVerb::Copy, line);
    lemma_cmd_resp_line("value"@, LineVerb::Value, line);
    lemma_cmd_resp_line("path"@, LineVerb::Path, line);
    lemma_cmd_resp_line("var"@, LineVerb::Var, line);
    let menu = resp_line_menu_of(locale, line, scalar, json);
    let cmds = resp_line_menu_cmds(line, scalar is Some, json);
    assert forall|k: int| 0 <= k < menu.len() implies menu_cmd_of(#[trigger] menu[k].0) == cmds[k] by {
        if k == 0 {
            assert(menu[k].0 == line_id("copy"@, line));
        } else if k == 1 {
            assert(menu[k].0 == line_id("value"@, line));
        } else if k == 2 {
            assert(menu[k].0 == line_id("path"@, line));
        } else {
            assert(menu[k].0 == line_id("var"@, line));
        }
    }
}

/// The workspace menu: each known workspace (path, name), the current one
/// marked; adding one; and removing the current one when there is more than
/// one.
pub open spec fn workspace_menu_of(locale: Locale, spaces: Seq<(Seq<char>, Seq<char>)>, current: Seq<char>) -> Seq<(Seq<char>, Seq<char>)> {
    spaces.map_values(
        |w: (Seq<char>, Seq<char>)| (
            "ws:"@ + w.0,
            (if w.0 == current {
                "● "@
            } else {
                "   "@
            }) + w.1,
        ),
    ) + seq![item("ws-add"@, locale, "workspace.add"@)] + if spaces.len() > 1 {
        seq![item("ws-forget:"@ + current, locale, "workspace.remove"@)]
    } else {
        seq![]
    }
}

/// The workspace menu (see [`workspace_menu_of`]); `spaces` holds (path,
/// name), `current` the current path. Paths compare as text.
pub fn workspace_menu(locale: Locale, spaces: &[(String, String)], current: &str) -> (r: Vec<(String, String)>)
    ensures
        items_view(r@) == workspace_menu_of(locale, items_view(spaces@), current@),
{
    let ghost sv = items_view(spaces@);
    let mut out: Vec<(String, String)> = Vec::new();
    let mut k: usize = 0;
    while k < spaces.len()
        invariant
            sv == items_view(spaces@),
            k <= spaces@.len(),
            items_view(out@) == sv.take(k as int).map_values(
                |w: (Seq<char>, Seq<char>)| (
                    "ws:"@ + w.0,
                    (if w.0 == current@ {
                        "● "@
                    } else {
                        "   "@
                    }) + w.1,
                ),
            ),
        decreases spaces@.len() - k,
    {
        proof {
            assert(sv[k as int] == (spaces@[k as int].0@, spaces@[k as int].1@));
            assert(sv.take(k + 1) =~= sv.take(k as int).push(sv[k as int]));
        }
        let mark = if text_eq(spaces[k].0.as_str(), current) {
            "● "
        } else {
            "   "
        };
        let mut label = String::from_str(mark);
        label.append(spaces[k].1.as_str());
        text_item(&mut out, "ws:", spaces[k].0.as_str(), label.as_str());
        k = k + 1;
    }
    proof {
        assert(sv.take(k as int) =~= sv);
    }
    menu_item(&mut out, "ws-add", "", locale, "workspace.add");
    if spaces.len() > 1 {
        menu_item(&mut out, "ws-forget:", current, locale, "workspace.remove");
    }
    proof {
        reveal_strlit("");
        assert(items_view(out@) =~= workspace_menu_of(locale, sv, current@));
    }
    out
}

proof fn lemma_cmd_ws(p: Seq<char>)
    ensures
        menu_cmd_of("ws:"@ + p) == MenuCmdV::SwitchWorkspace(p),
{
    reveal(menu_cmd_of);
    lemma_menu_ids();
    lemma_after("ws:"@, p);
}

proof fn lemma_cmd_ws_forget(p: Seq<char>)
    ensures
        menu_cmd_of("ws-forget:"@ + p) == MenuCmdV::ForgetWorkspace(p),
{
    reveal(menu_cmd_of);
    lemma_menu_ids();
    lemma_after("ws-forget:"@, p);
}

/// What the items of the workspace menu ask for.
pub open spec fn workspace_menu_cmds(spaces: Seq<(Seq<char>, Seq<char>)>, current: Seq<char>) -> Seq<MenuCmdV> {
    spaces.map_values(|w: (Seq<char>, Seq<char>)| MenuCmdV::SwitchWorkspace(w.0)) + seq![MenuCmdV::AddWorkspace]
        + if spaces.len() > 1 {
        seq![MenuCmdV::ForgetWorkspace(current)]
    } else {
        seq![]
    }
}

/// Every item of the workspace menu asks for what it says, whatever the
/// paths.
pub proof fn law_workspace_menu_understood(locale: Locale, spaces: Seq<(Seq<char>, Seq<char>)>, current: Seq<char>)
    ensures
        forall|k: int|
            0 <= k < workspace_menu_of(locale, spaces, current).len() ==> menu_cmd_of(
                #[trigger] workspace_menu_of(locale, spaces, current)[k].0,
            ) == workspace_menu_cmds(spaces, current)[k],
{
    let menu = workspace_menu_of(locale, spaces, current);
    let cmds = workspace_menu_cmds(spaces, current);
    let n = spaces.len();
    assert(menu_cmd_of("ws-add"@) == MenuCmdV::AddWorkspace) by {
        reveal(menu_cmd_of);
        lemma_menu_ids();
    }
    lemma_cmd_ws_forget(current);
    assert forall|k: int| 0 <= k < menu.len() implies menu_cmd_of(#[trigger] menu[k].0) == cmds[k] by {
        if k < n {
            lemma_cmd_ws(spaces[k].0);
            assert(menu[k].0 == "ws:"@ + spaces[k].0);
            assert(cmds[k] == MenuCmdV::SwitchWorkspace(spaces[k].0));
        } else if k == n {
            assert(menu[k].0 == "ws-add"@);
        } else {
            assert(menu[k].0 == "ws-forget:"@ + current);
        }
    }
}

} // verus!
