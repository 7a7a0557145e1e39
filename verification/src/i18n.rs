//! The texts of the user interface in Chinese and English.
//!
//! Every key has both texts (one table holds them side by side); an unknown
//! key shows as `?`.

use vstd::prelude::*;
use crate::text::text_eq;

verus! {

/// Language of the user interface.
#[derive(Debug, Clone, Copy, PartialEq, Eq, Structural)]
pub enum Locale {
    Zh,
    En,
}

/// The locale that a stored name stands for: `"en"` is English, anything else Chinese.
pub open spec fn locale_of(s: Seq<char>) -> Locale {
    if s == "en"@ {
        Locale::En
    } else {
        Locale::Zh
    }
}

/// The stored name of a locale.
pub open spec fn locale_name(l: Locale) -> Seq<char> {
    match l {
        Locale::Zh => "zh"@,
        Locale::En => "en"@,
    }
}

impl Locale {
    /// The locale stored as `s`: `"en"` is English, anything else Chinese.
    pub fn from_str(s: &str) -> (l: Self)
        ensures
            l == locale_of(s@),
    {
        if text_eq(s, "en") {
            Locale::En
        } else {
            Locale::Zh
        }
    }

    /// The name under which the locale is stored.
    pub fn as_str(&self) -> (r: &'static str)
        ensures
            r@ == locale_name(*self),
    {
        match self {
            Locale::Zh => "zh",
            Locale::En => "en",
        }
    }
}

/// Reading back the stored name of a locale gives the same locale.
pub proof fn law_locale_name_round_trip(l: Locale)
    ensures
        locale_of(locale_name(l)) == l,
{
    reveal_strlit("zh");
    reveal_strlit("en");
    assert("zh"@[0] == 'z');
    assert("en"@[0] == 'e');
}

/// Texts (Chinese, English) of the keys of part 1 of the table.
pub open spec fn messages_1(key: Seq<char>) -> Option<(Seq<char>, Seq<char>)> {
    if key == "app.name"@ {
        Some(("treq"@, "treq"@))
    } else if key == "menu.file"@ {
        Some(("文件"@, "File"@))
    } else if key == "action.choose_workspace"@ {
        Some(("切换工作区…"@, "Choose Workspace…"@))
    } else if key == "action.reload"@ {
        Some(("刷新"@, "Reload"@))
    } else if key == "action.language"@ {
        Some(("语言：English"@, "Language: 中文"@))
    } else if key == "side.search"@ {
        Some(("Filter"@, "Filter"@))
    } else if key == "side.base_environment"@ {
        Some(("Base Environment"@, "Base Environment"@))
    } else if key == "side.env_vars"@ {
        Some(("环境变量"@, "Environment Variables"@))
    } else if key == "action.quick_panel"@ {
        Some(("命令面板"@, "Command Palette"@))
    } else if key == "workspace.add"@ {
        Some(("添加工作区（项目）…"@, "Add workspace (project)…"@))
    } else if key == "workspace.remove"@ {
        Some(("从列表移除当前工作区"@, "Remove current workspace from list"@))
    } else if key == "quick.hint_all_ws"@ {
        Some(("跨工作区搜索：输入名字 / URL / 方法"@, "Search across workspaces: name / URL / method"@))
    } else if key == "action.preferences"@ {
        Some(("Preferences"@, "Preferences"@))
    } else if key == "editor.tab.query"@ {
        Some(("Query"@, "Query"@))
    } else if key == "editor.section.url_preview"@ {
        Some(("URL PREVIEW"@, "URL PREVIEW"@))
    } else if key == "editor.section.docs"@ {
        Some(("DOCS"@, "DOCS"@))
    } else if key == "editor.body.form_hint"@ {
        Some(("表单体：a=1&b=2"@, "Form body: a=1&b=2"@))
    } else if key == "editor.kv.add"@ {
        Some(("Add"@, "Add"@))
    } else if key == "editor.kv.delete_all"@ {
        Some(("Delete All"@, "Delete All"@))
    } else if key == "editor.kv.toggle_desc"@ {
        Some(("Toggle Description"@, "Toggle Description"@))
    } else if key == "editor.footer.import"@ {
        Some(("从 cURL 导入"@, "Import from cURL"@))
    } else if key == "editor.footer.codegen"@ {
        Some(("生成代码"@, "Generate Code"@))
    } else if key == "docs.placeholder"@ {
        Some(("写点请求说明（Markdown）…"@, "Describe this request (Markdown)…"@))
    } else if key == "response.tab.preview"@ {
        Some(("Preview"@, "Preview"@))
    } else if key == "response.tab.cookies"@ {
        Some(("Cookies"@, "Cookies"@))
    } else if key == "response.tab.timeline"@ {
        Some(("Timeline"@, "Timeline"@))
    } else if key == "response.view.pretty"@ {
        Some(("格式化"@, "Prettified"@))
    } else if key == "response.view.raw"@ {
        Some(("原始"@, "Raw"@))
    } else if key == "response.none"@ {
        Some(("还没有响应，按 Send 发送"@, "No response yet — hit Send"@))
    } else if key == "response.cookies_empty"@ {
        Some(("响应没有 Set-Cookie"@, "Response has no Set-Cookie"@))
    } else if key == "response.status"@ {
        Some(("状态"@, "Status"@))
    } else if key == "response.timeline.total"@ {
        Some(("总耗时"@, "Total time"@))
    } else if key == "response.filter.placeholder"@ {
        Some(("$.store.books[*].author"@, "$.store.books[*].author"@))
    } else if key == "response.filter.not_json"@ {
        Some(("响应不是 JSON，无法按路径过滤"@, "Response is not JSON, cannot filter by path"@))
    } else if key == "response.filter.bad"@ {
        Some(("路径不合法"@, "Invalid path"@))
    } else if key == "response.filter.empty"@ {
        Some(("路径没有匹配到任何值"@, "Path matched nothing"@))
    } else if key == "history.min_ago"@ {
        Some((" 分钟前"@, "m ago"@))
    } else if key == "history.hour_ago"@ {
        Some((" 小时前"@, "h ago"@))
    } else if key == "history.day_ago"@ {
        Some((" 天前"@, "d ago"@))
    } else if key == "response.saved"@ {
        Some(("已保存到："@, "Saved to: "@))
    } else if key == "response.save_failed"@ {
        Some(("保存失败："@, "Save failed: "@))
    } else if key == "response.copied"@ {
        Some(("已复制响应正文 · "@, "Response body copied · "@))
    } else if key == "response.truncated"@ {
        Some(("响应过大，界面只保留前 "@, "Response too large — UI keeps the first "@))
    } else if key == "response.too_big"@ {
        Some(("响应过大（超过 2 MB），已跳过渲染"@, "Response too large (over 2 MB) — rendering skipped"@))
    } else if key == "response.too_big_hint"@ {
        Some(("点右上「完整」加载"@, "click “Full” to load"@))
    } else if key == "response.view.full"@ {
        Some(("完整"@, "Full"@))
    } else {
        None
    }
}

/// Looks `key` up in part 1 of the table.
fn lookup_1(key: &str) -> (r: Option<(&'static str, &'static str)>)
    ensures
        match r {
            Some(t) => messages_1(key@) == Some((t.0@, t.1@)),
            None => messages_1(key@) is None,
        },
{
    if text_eq(key, "app.name") {
        return Some(("treq", "treq"));
    }
    if text_eq(key, "menu.file") {
        return Some(("文件", "File"));
    }
    if text_eq(key, "action.choose_workspace") {
        return Some(("切换工作区…", "Choose Workspace…"));
    }
    if text_eq(key, "action.reload") {
        return Some(("刷新", "Reload"));
    }
    if text_eq(key, "action.language") {
        return Some(("语言：English", "Language: 中文"));
    }
    if text_eq(key, "side.search") {
        return Some(("Filter", "Filter"));
    }
    if text_eq(key, "side.base_environment") {
        return Some(("Base Environment", "Base Environment"));
    }
    if text_eq(key, "side.env_vars") {
        return Some(("环境变量", "Environment Variables"));
    }
    if text_eq(key, "action.quick_panel") {
        return Some(("命令面板", "Command Palette"));
    }
    if text_eq(key, "workspace.add") {
        return Some(("添加工作区（项目）…", "Add workspace (project)…"));
    }
    if text_eq(key, "workspace.remove") {
        return Some(("从列表移除当前工作区", "Remove current workspace from list"));
    }
    if text_eq(key, "quick.hint_all_ws") {
        return Some(("跨工作区搜索：输入名字 / URL / 方法", "Search across workspaces: name / URL / method"));
    }
    if text_eq(key, "action.preferences") {
        return Some(("Preferences", "Preferences"));
    }
    if text_eq(key, "editor.tab.query") {
        return Some(("Query", "Query"));
    }
    if text_eq(key, "editor.section.url_preview") {
        return Some(("URL PREVIEW", "URL PREVIEW"));
    }
    if text_eq(key, "editor.section.docs") {
        return Some(("DOCS", "DOCS"));
    }
    if text_eq(key, "editor.body.form_hint") {
        return Some(("表单体：a=1&b=2", "Form body: a=1&b=2"));
    }
    if text_eq(key, "editor.kv.add") {
        return Some(("Add", "Add"));
    }
    if text_eq(key, "editor.kv.delete_all") {
        return Some(("Delete All", "Delete All"));
    }
    if text_eq(key, "editor.kv.toggle_desc") {
        return Some(("Toggle Description", "Toggle Description"));
    }
    if text_eq(key, "editor.footer.import") {
        return Some(("从 cURL 导入", "Import from cURL"));
    }
    if text_eq(key, "editor.footer.codegen") {
        return Some(("生成代码", "Generate Code"));
    }
    if text_eq(key, "docs.placeholder") {
        return Some(("写点请求说明（Markdown）…", "Describe this request (Markdown)…"));
    }
    if text_eq(key, "response.tab.preview") {
        return Some(("Preview", "Preview"));
    }
    if text_eq(key, "response.tab.cookies") {
        return Some(("Cookies", "Cookies"));
    }
    if text_eq(key, "response.tab.timeline") {
        return Some(("Timeline", "Timeline"));
    }
    if text_eq(key, "response.view.pretty") {
        return Some(("格式化", "Prettified"));
    }
    if text_eq(key, "response.view.raw") {
        return Some(("原始", "Raw"));
    }
    if text_eq(key, "response.none") {
        return Some(("还没有响应，按 Send 发送", "No response yet — hit Send"));
    }
    if text_eq(key, "response.cookies_empty") {
        return Some(("响应没有 Set-Cookie", "Response has no Set-Cookie"));
    }
    if text_eq(key, "response.status") {
        return Some(("状态", "Status"));
    }
    if text_eq(key, "response.timeline.total") {
        return Some(("总耗时", "Total time"));
    }
    if text_eq(key, "response.filter.placeholder") {
        return Some(("$.store.books[*].author", "$.store.books[*].author"));
    }
    if text_eq(key, "response.filter.not_json") {
        return Some(("响应不是 JSON，无法按路径过滤", "Response is not JSON, cannot filter by path"));
    }
    if text_eq(key, "response.filter.bad") {
        return Some(("路径不合法", "Invalid path"));
    }
    if text_eq(key, "response.filter.empty") {
        return Some(("路径没有匹配到任何值", "Path matched nothing"));
    }
    if text_eq(key, "history.min_ago") {
        return Some((" 分钟前", "m ago"));
    }
    if text_eq(key, "history.hour_ago") {
        return Some((" 小时前", "h ago"));
    }
    if text_eq(key, "history.day_ago") {
        return Some((" 天前", "d ago"));
    }
    if text_eq(key, "response.saved") {
        return Some(("已保存到：", "Saved to: "));
    }
    if text_eq(key, "response.save_failed") {
        return Some(("保存失败：", "Save failed: "));
    }
    if text_eq(key, "response.copied") {
        return Some(("已复制响应正文 · ", "Response body copied · "));
    }
    if text_eq(key, "response.truncated") {
        return Some(("响应过大，界面只保留前 ", "Response too large — UI keeps the first "));
    }
    if text_eq(key, "response.too_big") {
        return Some(("响应过大（超过 2 MB），已跳过渲染", "Response too large (over 2 MB) — rendering skipped"));
    }
    if text_eq(key, "response.too_big_hint") {
        return Some(("点右上「完整」加载", "click “Full” to load"));
    }
    if text_eq(key, "response.view.full") {
        return Some(("完整", "Full"));
    }
    None
}

/// Texts (Chinese, English) of the keys of part 2 of the table.
pub open spec fn messages_2(key: Seq<char>) -> Option<(Seq<char>, Seq<char>)> {
    if key == "backup.title"@ {
        Some(("备份与恢复"@, "Backups"@))
    } else if key == "backup.dir"@ {
        Some(("备份目录"@, "Backup folder"@))
    } else if key == "backup.now"@ {
        Some(("立即备份"@, "Back up now"@))
    } else if key == "backup.empty"@ {
        Some(("还没有备份"@, "No backups yet"@))
    } else if key == "backup.list_hint"@ {
        Some(("备份文件（新 → 旧），点选后恢复"@, "Backups (newest first) — pick one to restore"@))
    } else if key == "backup.restore_merge"@ {
        Some(("合并到当前"@, "Merge into current"@))
    } else if key == "backup.restore_overwrite"@ {
        Some(("用备份覆盖"@, "Replace with backup"@))
    } else if key == "backup.merge_hint"@ {
        Some(("合并：只补回缺失或改动过的文件，现有接口保留"@, "Merge: only missing/changed files come back; current requests stay"@))
    } else if key == "backup.overwrite_hint"@ {
        Some(("覆盖：先用备份完全替换当前工作区（会先自动留一份现场）"@, "Replace: swap the whole workspace for this backup (a safety backup is taken first)"@))
    } else if key == "backup.safety"@ {
        Some(("现场备份"@, "safety copy"@))
    } else if key == "backup.collections"@ {
        Some(("集合"@, "collections"@))
    } else if key == "backup.requests"@ {
        Some(("接口"@, "requests"@))
    } else if key == "backup.done_now"@ {
        Some(("已备份："@, "Backed up: "@))
    } else if key == "backup.done_merge"@ {
        Some(("已合并："@, "Merged: "@))
    } else if key == "backup.done_overwrite"@ {
        Some(("已覆盖："@, "Replaced with: "@))
    } else if key == "backup.failed"@ {
        Some(("备份失败："@, "Backup failed: "@))
    } else if key == "backup.restore_failed"@ {
        Some(("恢复失败："@, "Restore failed: "@))
    } else if key == "app.tagline"@ {
        Some(("treq — 本地优先的 API 客户端"@, "treq — a local-first API client"@))
    } else if key == "quick.placeholder"@ {
        Some(("搜索请求或历史… (Enter 选择 / Esc 关闭)"@, "Search requests or history… (Enter to pick / Esc to close)"@))
    } else if key == "quick.empty"@ {
        Some(("没有匹配的请求或历史"@, "No matching requests or history"@))
    } else if key == "side.environment"@ {
        Some(("环境"@, "Environment"@))
    } else if key == "side.no_collections"@ {
        Some(("（空）右键新建集合"@, "(empty) right-click to create"@))
    } else if key == "action.new_collection"@ {
        Some(("新建集合"@, "New Collection"@))
    } else if key == "action.new_request"@ {
        Some(("新建请求"@, "New Request"@))
    } else if key == "action.rename"@ {
        Some(("重命名"@, "Rename"@))
    } else if key == "action.delete"@ {
        Some(("删除"@, "Delete"@))
    } else if key == "action.new_group"@ {
        Some(("新建分组"@, "New Group"@))
    } else if key == "action.plugin"@ {
        Some(("生成代码…"@, "Generate Code…"@))
    } else if key == "codegen.hint"@ {
        Some(("切换语言 / 库后代码即时更新"@, "Pick a language / library — code updates instantly"@))
    } else if key == "action.copy"@ {
        Some(("复制"@, "Copy"@))
    } else if key == "action.send"@ {
        Some(("发送"@, "Send"@))
    } else if key == "action.sending"@ {
        Some(("发送中…"@, "Sending…"@))
    } else if key == "action.stop"@ {
        Some(("停止"@, "Stop"@))
    } else if key == "sse.live"@ {
        Some(("事件流"@, "Event stream"@))
    } else if key == "sse.events"@ {
        Some(("事件"@, "events"@))
    } else if key == "sse.stopped"@ {
        Some(("事件流已停止"@, "Event stream stopped"@))
    } else if key == "sse.truncated"@ {
        Some(("事件流过长，界面只保留前 2MB"@, "Stream too long — UI keeps the first 2MB"@))
    } else if key == "sse.time"@ {
        Some(("时间"@, "Time"@))
    } else if key == "settings.font"@ {
        Some(("字体"@, "Fonts"@))
    } else if key == "settings.font.ui"@ {
        Some(("界面字体"@, "UI font"@))
    } else if key == "settings.font.ui_size"@ {
        Some(("界面字号"@, "UI size"@))
    } else if key == "settings.font.mono"@ {
        Some(("代码字体"@, "Code font"@))
    } else if key == "settings.font.mono_size"@ {
        Some(("代码字号"@, "Code size"@))
    } else if key == "settings.font.system"@ {
        Some(("系统默认"@, "System default"@))
    } else if key == "settings.font.hint"@ {
        Some(("字体家族留空＝系统默认；界面字号 / 代码字号范围"@, "Empty family = system default. Size ranges (UI / code)"@))
    } else if key == "settings.editor_line_h"@ {
        Some(("内容行高（px）"@, "Content line height (px)"@))
    } else {
        None
    }
}

/// Looks `key` up in part 2 of the table.
fn lookup_2(key: &str) -> (r: Option<(&'static str, &'static str)>)
    ensures
        match r {
            Some(t) => messages_2(key@) == Some((t.0@, t.1@)),
            None => messages_2(key@) is None,
        },
{
    if text_eq(key, "backup.title") {
        return Some(("备份与恢复", "Backups"));
    }
    if text_eq(key, "backup.dir") {
        return Some(("备份目录", "Backup folder"));
    }
    if text_eq(key, "backup.now") {
        return Some(("立即备份", "Back up now"));
    }
    if text_eq(key, "backup.empty") {
        return Some(("还没有备份", "No backups yet"));
    }
    if text_eq(key, "backup.list_hint") {
        return Some(("备份文件（新 → 旧），点选后恢复", "Backups (newest first) — pick one to restore"));
    }
    if text_eq(key, "backup.restore_merge") {
        return Some(("合并到当前", "Merge into current"));
    }
    if text_eq(key, "backup.restore_overwrite") {
        return Some(("用备份覆盖", "Replace with backup"));
    }
    if text_eq(key, "backup.merge_hint") {
        return Some(("合并：只补回缺失或改动过的文件，现有接口保留", "Merge: only missing/changed files come back; current requests stay"));
    }
    if text_eq(key, "backup.overwrite_hint") {
        return Some(("覆盖：先用备份完全替换当前工作区（会先自动留一份现场）", "Replace: swap the whole workspace for this backup (a safety backup is taken first)"));
    }
    if text_eq(key, "backup.safety") {
        return Some(("现场备份", "safety copy"));
    }
    if text_eq(key, "backup.collections") {
        return Some(("集合", "collections"));
    }
    if text_eq(key, "backup.requests") {
        return Some(("接口", "requests"));
    }
    if text_eq(key, "backup.done_now") {
        return Some(("已备份：", "Backed up: "));
    }
    if text_eq(key, "backup.done_merge") {
        return Some(("已合并：", "Merged: "));
    }
    if text_eq(key, "backup.done_overwrite") {
        return Some(("已覆盖：", "Replaced with: "));
    }
    if text_eq(key, "backup.failed") {
        return Some(("备份失败：", "Backup failed: "));
    }
    if text_eq(key, "backup.restore_failed") {
        return Some(("恢复失败：", "Restore failed: "));
    }
    if text_eq(key, "app.tagline") {
        return Some(("treq — 本地优先的 API 客户端", "treq — a local-first API client"));
    }
    if text_eq(key, "quick.placeholder") {
        return Some(("搜索请求或历史… (Enter 选择 / Esc 关闭)", "Search requests or history… (Enter to pick / Esc to close)"));
    }
    if text_eq(key, "quick.empty") {
        return Some(("没有匹配的请求或历史", "No matching requests or history"));
    }
    if text_eq(key, "side.environment") {
        return Some(("环境", "Environment"));
    }
    if text_eq(key, "side.no_collections") {
        return Some(("（空）右键新建集合", "(empty) right-click to create"));
    }
    if text_eq(key, "action.new_collection") {
        return Some(("新建集合", "New Collection"));
    }
    if text_eq(key, "action.new_request") {
        return Some(("新建请求", "New Request"));
    }
    if text_eq(key, "action.rename") {
        return Some(("重命名", "Rename"));
    }
    if text_eq(key, "action.delete") {
        return Some(("删除", "Delete"));
    }
    if text_eq(key, "action.new_group") {
        return Some(("新建分组", "New Group"));
    }
    if text_eq(key, "action.plugin") {
        return Some(("生成代码…", "Generate Code…"));
    }
    if text_eq(key, "codegen.hint") {
        return Some(("切换语言 / 库后代码即时更新", "Pick a language / library — code updates instantly"));
    }
    if text_eq(key, "action.copy") {
        return Some(("复制", "Copy"));
    }
    if text_eq(key, "action.send") {
        return Some(("发送", "Send"));
    }
    if text_eq(key, "action.sending") {
        return Some(("发送中…", "Sending…"));
    }
    if text_eq(key, "action.stop") {
        return Some(("停止", "Stop"));
    }
    if text_eq(key, "sse.live") {
        return Some(("事件流", "Event stream"));
    }
    if text_eq(key, "sse.events") {
        return Some(("事件", "events"));
    }
    if text_eq(key, "sse.stopped") {
        return Some(("事件流已停止", "Event stream stopped"));
    }
    if text_eq(key, "sse.truncated") {
        return Some(("事件流过长，界面只保留前 2MB", "Stream too long — UI keeps the first 2MB"));
    }
    if text_eq(key, "sse.time") {
        return Some(("时间", "Time"));
    }
    if text_eq(key, "settings.font") {
        return Some(("字体", "Fonts"));
    }
    if text_eq(key, "settings.font.ui") {
        return Some(("界面字体", "UI font"));
    }
    if text_eq(key, "settings.font.ui_size") {
        return Some(("界面字号", "UI size"));
    }
    if text_eq(key, "settings.font.mono") {
        return Some(("代码字体", "Code font"));
    }
    if text_eq(key, "settings.font.mono_size") {
        return Some(("代码字号", "Code size"));
    }
    if text_eq(key, "settings.font.system") {
        return Some(("系统默认", "System default"));
    }
    if text_eq(key, "settings.font.hint") {
        return Some(("字体家族留空＝系统默认；界面字号 / 代码字号范围", "Empty family = system default. Size ranges (UI / code)"));
    }
    if text_eq(key, "settings.editor_line_h") {
        return Some(("内容行高（px）", "Content line height (px)"));
    }
    None
}

/// Texts (Chinese, English) of the keys of part 3 of the table.
pub open spec fn messages_3(key: Seq<char>) -> Option<(Seq<char>, Seq<char>)> {
    if key == "settings.editor_line_h.hint"@ {
        Some(("只作用于 JSON/正文内容：请求体 JSON、Docs、响应正文、响应头与 Cookies/Timeline 列表；Query/Headers 等表格组件高度固定，不受影响。范围 12–32，改完立刻生效"@, "Applies to JSON/content only: body JSON, docs, response body, response headers & Cookies/Timeline lists. Query/Headers tables keep a fixed row height · 12–32 · applies instantly"@))
    } else if key == "editor.tab.headers"@ {
        Some(("Headers"@, "Headers"@))
    } else if key == "editor.tab.body"@ {
        Some(("Body"@, "Body"@))
    } else if key == "editor.tab.none"@ {
        Some(("无"@, "None"@))
    } else if key == "editor.tab.json"@ {
        Some(("JSON"@, "JSON"@))
    } else if key == "editor.tab.text"@ {
        Some(("文本"@, "Text"@))
    } else if key == "editor.tab.form"@ {
        Some(("表单"@, "Form"@))
    } else if key == "editor.tab.multipart"@ {
        Some(("Form-Data"@, "Form-Data"@))
    } else if key == "editor.tab.file"@ {
        Some(("文件"@, "File"@))
    } else if key == "editor.tab.raw"@ {
        Some(("原始"@, "Raw"@))
    } else if key == "editor.choose_file"@ {
        Some(("选择文件…"@, "Choose File…"@))
    } else if key == "editor.body.none_hint"@ {
        Some(("无请求体"@, "No request body"@))
    } else if key == "editor.body.file_hint"@ {
        Some(("请求体为该文件的二进制内容"@, "Body is the raw bytes of this file"@))
    } else if key == "editor.form.text"@ {
        Some(("文本"@, "Text"@))
    } else if key == "editor.form.file"@ {
        Some(("文件"@, "File"@))
    } else if key == "editor.form.add"@ {
        Some(("+ 字段"@, "+ Field"@))
    } else if key == "editor.form.choose_file"@ {
        Some(("选择文件…"@, "Choose File…"@))
    } else if key == "editor.select_hint"@ {
        Some(("从左侧选择一个请求"@, "Select a request on the left"@))
    } else if key == "response.title"@ {
        Some(("响应"@, "Response"@))
    } else if key == "response.error"@ {
        Some(("错误"@, "Error"@))
    } else if key == "response.size"@ {
        Some(("大小"@, "Size"@))
    } else if key == "response.tab.headers"@ {
        Some(("Headers"@, "Headers"@))
    } else if key == "action.import_curl"@ {
        Some(("从 cURL 导入…"@, "Import from cURL…"@))
    } else if key == "action.import"@ {
        Some(("导入"@, "Import"@))
    } else if key == "action.cancel"@ {
        Some(("取消"@, "Cancel"@))
    } else if key == "action.close"@ {
        Some(("关闭"@, "Close"@))
    } else if key == "url.title"@ {
        Some(("完整 URL"@, "Full URL"@))
    } else if key == "url.empty"@ {
        Some(("（未填写 URL）"@, "(no URL yet)"@))
    } else if key == "url.edit_label"@ {
        Some(("请求 URL（可直接改，支持 {{变量}}）"@, "Request URL (editable, supports {{variables}})"@))
    } else if key == "action.save"@ {
        Some(("保存"@, "Save"@))
    } else if key == "net.title"@ {
        Some(("网络设置"@, "Network Settings"@))
    } else if key == "editor.tab.auth"@ {
        Some(("认证"@, "Auth"@))
    } else if key == "auth.kind"@ {
        Some(("方式"@, "Type"@))
    } else if key == "auth.kind.none"@ {
        Some(("无"@, "None"@))
    } else if key == "auth.kind.bearer"@ {
        Some(("Bearer"@, "Bearer"@))
    } else if key == "auth.kind.basic"@ {
        Some(("Basic"@, "Basic"@))
    } else if key == "auth.kind.apikey"@ {
        Some(("API Key"@, "API Key"@))
    } else if key == "auth.token"@ {
        Some(("Token"@, "Token"@))
    } else if key == "auth.prefix"@ {
        Some(("前缀"@, "Prefix"@))
    } else if key == "auth.username"@ {
        Some(("用户名"@, "Username"@))
    } else if key == "auth.password"@ {
        Some(("密码"@, "Password"@))
    } else if key == "auth.keyname"@ {
        Some(("参数名"@, "Name"@))
    } else if key == "auth.keyvalue"@ {
        Some(("参数值"@, "Value"@))
    } else if key == "auth.in"@ {
        Some(("位置"@, "In"@))
    } else if key == "auth.in_header"@ {
        Some(("请求头"@, "Header"@))
    } else if key == "auth.in_query"@ {
        Some(("Query"@, "Query"@))
    } else {
        None
    }
}

/// Looks `key` up in part 3 of the table.
fn lookup_3(key: &str) -> (r: Option<(&'static str, &'static str)>)
    ensures
        match r {
            Some(t) => messages_3(key@) == Some((t.0@, t.1@)),
            None => messages_3(key@) is None,
        },
{
    if text_eq(key, "settings.editor_line_h.hint") {
        return Some(("只作用于 JSON/正文内容：请求体 JSON、Docs、响应正文、响应头与 Cookies/Timeline 列表；Query/Headers 等表格组件高度固定，不受影响。范围 12–32，改完立刻生效", "Applies to JSON/content only: body JSON, docs, response body, response headers & Cookies/Timeline lists. Query/Headers tables keep a fixed row height · 12–32 · applies instantly"));
    }
    if text_eq(key, "editor.tab.headers") {
        return Some(("Headers", "Headers"));
    }
    if text_eq(key, "editor.tab.body") {
        return Some(("Body", "Body"));
    }
    if text_eq(key, "editor.tab.none") {
        return Some(("无", "None"));
    }
    if text_eq(key, "editor.tab.json") {
        return Some(("JSON", "JSON"));
    }
    if text_eq(key, "editor.tab.text") {
        return Some(("文本", "Text"));
    }
    if text_eq(key, "editor.tab.form") {
        return Some(("表单", "Form"));
    }
    if text_eq(key, "editor.tab.multipart") {
        return Some(("Form-Data", "Form-Data"));
    }
    if text_eq(key, "editor.tab.file") {
        return Some(("文件", "File"));
    }
    if text_eq(key, "editor.tab.raw") {
        return Some(("原始", "Raw"));
    }
    if text_eq(key, "editor.choose_file") {
        return Some(("选择文件…", "Choose File…"));
    }
    if text_eq(key, "editor.body.none_hint") {
        return Some(("无请求体", "No request body"));
    }
    if text_eq(key, "editor.body.file_hint") {
        return Some(("请求体为该文件的二进制内容", "Body is the raw bytes of this file"));
    }
    if text_eq(key, "editor.form.text") {
        return Some(("文本", "Text"));
    }
    if text_eq(key, "editor.form.file") {
        return Some(("文件", "File"));
    }
    if text_eq(key, "editor.form.add") {
        return Some(("+ 字段", "+ Field"));
    }
    if text_eq(key, "editor.form.choose_file") {
        return Some(("选择文件…", "Choose File…"));
    }
    if text_eq(key, "editor.select_hint") {
        return Some(("从左侧选择一个请求", "Select a request on the left"));
    }
    if text_eq(key, "response.title") {
        return Some(("响应", "Response"));
    }
    if text_eq(key, "response.error") {
        return Some(("错误", "Error"));
    }
    if text_eq(key, "response.size") {
        return Some(("大小", "Size"));
    }
    if text_eq(key, "response.tab.headers") {
        return Some(("Headers", "Headers"));
    }
    if text_eq(key, "action.import_curl") {
        return Some(("从 cURL 导入…", "Import from cURL…"));
    }
    if text_eq(key, "action.import") {
        return Some(("导入", "Import"));
    }
    if text_eq(key, "action.cancel") {
        return Some(("取消", "Cancel"));
    }
    if text_eq(key, "action.close") {
        return Some(("关闭", "Close"));
    }
    if text_eq(key, "url.title") {
        return Some(("完整 URL", "Full URL"));
    }
    if text_eq(key, "url.empty") {
        return Some(("（未填写 URL）", "(no URL yet)"));
    }
    if text_eq(key, "url.edit_label") {
        return Some(("请求 URL（可直接改，支持 {{变量}}）", "Request URL (editable, supports {{variables}})"));
    }
    if text_eq(key, "action.save") {
        return Some(("保存", "Save"));
    }
    if text_eq(key, "net.title") {
        return Some(("网络设置", "Network Settings"));
    }
    if text_eq(key, "editor.tab.auth") {
        return Some(("认证", "Auth"));
    }
    if text_eq(key, "auth.kind") {
        return Some(("方式", "Type"));
    }
    if text_eq(key, "auth.kind.none") {
        return Some(("无", "None"));
    }
    if text_eq(key, "auth.kind.bearer") {
        return Some(("Bearer", "Bearer"));
    }
    if text_eq(key, "auth.kind.basic") {
        return Some(("Basic", "Basic"));
    }
    if text_eq(key, "auth.kind.apikey") {
        return Some(("API Key", "API Key"));
    }
    if text_eq(key, "auth.token") {
        return Some(("Token", "Token"));
    }
    if text_eq(key, "auth.prefix") {
        return Some(("前缀", "Prefix"));
    }
    if text_eq(key, "auth.username") {
        return Some(("用户名", "Username"));
    }
    if text_eq(key, "auth.password") {
        return Some(("密码", "Password"));
    }
    if text_eq(key, "auth.keyname") {
        return Some(("参数名", "Name"));
    }
    if text_eq(key, "auth.keyvalue") {
        return Some(("参数值", "Value"));
    }
    if text_eq(key, "auth.in") {
        return Some(("位置", "In"));
    }
    if text_eq(key, "auth.in_header") {
        return Some(("请求头", "Header"));
    }
    if text_eq(key, "auth.in_query") {
        return Some(("Query", "Query"));
    }
    None
}

/// Texts (Chinese, English) of the keys of part 4 of the table.
pub open spec fn messages_4(key: Seq<char>) -> Option<(Seq<char>, Seq<char>)> {
    if key == "auth.hint"@ {
        Some(("值里可以写 {{ 变量 }}，发送时按当前环境解析；Token 放环境里就不会进仓库。"@, "Values may use {{ var }} — resolved against the active environment at send time, so tokens stay out of the repo."@))
    } else if key == "auth.summary"@ {
        Some(("实际发出："@, "Sends: "@))
    } else if key == "auth.manual_wins"@ {
        Some(("这个请求已手写 Authorization 头，认证设置不会覆盖它。"@, "This request already sets an Authorization header by hand; auth settings will not override it."@))
    } else if key == "cookies.title"@ {
        Some(("Cookie 罐"@, "Cookie Jar"@))
    } else if key == "cookies.count_prefix"@ {
        Some(("（"@, " ("@))
    } else if key == "cookies.count_suffix"@ {
        Some((" 条）"@, ")"@))
    } else if key == "cookies.hint"@ {
        Some(("响应里的 Set-Cookie 会存在这儿，之后对同域请求自动带上（自己写了 Cookie 头就不插手）。清掉后立刻生效。"@, "Set-Cookie from responses is kept here and sent back to the same domain automatically (unless you wrote a Cookie header yourself). Clearing takes effect immediately."@))
    } else if key == "cookies.empty"@ {
        Some(("罐子是空的 —— 发一个带 Set-Cookie 的请求就有了"@, "Jar is empty — send a request that returns Set-Cookie"@))
    } else if key == "cookies.clear_host"@ {
        Some(("清空本站"@, "Clear site"@))
    } else if key == "cookies.clear_all"@ {
        Some(("全部清空"@, "Clear all"@))
    } else if key == "cookies.cleared_host"@ {
        Some(("已清掉本站 "@, "Cleared "@))
    } else if key == "cookies.cleared_all"@ {
        Some(("已清掉全部 "@, "Cleared all "@))
    } else if key == "cookies.unit"@ {
        Some((" 条 cookie"@, " cookies"@))
    } else if key == "net.timeout_hint"@ {
        Some(("单请求超时（秒，1–600）。留空 = 默认 30。超过就报超时；事件流只拿它当「连接 + 等首包」的上限，之后可以一直流。"@, "Per-request timeout in seconds (1-600). Empty = 30s. Event streams only use it for connect + first bytes, then keep streaming."@))
    } else if key == "net.timeout_short"@ {
        Some(("超时 "@, "timeout "@))
    } else if key == "net.saved"@ {
        Some(("已保存网络设置 · "@, "Network settings saved · "@))
    } else if key == "proxy.hint"@ {
        Some(("给所有请求走代理（Clash 之类）。留空 = 直连；支持 http:// 与 socks5://，只填 127.0.0.1:7897 也行。"@, "Route every request through a proxy (Clash etc.). Empty = direct. http:// and socks5:// supported; bare 127.0.0.1:7897 works too."@))
    } else if key == "proxy.current"@ {
        Some(("当前："@, "Current: "@))
    } else if key == "proxy.none"@ {
        Some(("直连（未设代理）"@, "Direct (no proxy)"@))
    } else if key == "proxy.clear"@ {
        Some(("清空并直连"@, "Clear & go direct"@))
    } else if key == "proxy.saved"@ {
        Some(("已启用代理 · "@, "Proxy enabled · "@))
    } else if key == "proxy.cleared"@ {
        Some(("已关闭代理（直连）"@, "Proxy disabled (direct)"@))
    } else if key == "action.edit_env"@ {
        Some(("编辑环境…"@, "Edit Environment…"@))
    } else if key == "trash.title"@ {
        Some(("回收站"@, "Trash"@))
    } else if key == "trash.empty"@ {
        Some(("回收站是空的"@, "Trash is empty"@))
    } else if key == "trash.restore"@ {
        Some(("恢复"@, "Restore"@))
    } else if key == "trash.empty_all"@ {
        Some(("清空"@, "Empty"@))
    } else if key == "trash.empty_confirm"@ {
        Some(("确认清空（不可恢复）"@, "Confirm empty (permanent)"@))
    } else if key == "import.hint"@ {
        Some(("粘贴一条 curl 命令（支持 -X/-H/-d/--json/-u 等）"@, "Paste a curl command (-X/-H/-d/--json/-u supported)"@))
    } else if key == "response.copy_line"@ {
        Some(("复制这一行"@, "Copy line"@))
    } else if key == "response.copy_value"@ {
        Some(("复制值"@, "Copy value"@))
    } else if key == "response.copy_path"@ {
        Some(("复制 JSON 路径"@, "Copy JSON path"@))
    } else if key == "flash.copied_line"@ {
        Some(("已复制这一行"@, "Line copied"@))
    } else if key == "flash.copied_value"@ {
        Some(("已复制该行的值"@, "Value copied"@))
    } else if key == "flash.copied_path"@ {
        Some(("已复制路径："@, "Path copied: "@))
    } else if key == "flash.path_not_found"@ {
        Some(("没能定位到这行的路径：响应太大、不是 JSON，或值不唯一"@, "Could not locate this line's path (too big, not JSON, or value not unique)"@))
    } else if key == "response.fold_all"@ {
        Some(("折叠全部"@, "Fold all"@))
    } else if key == "response.unfold_all"@ {
        Some(("展开全部"@, "Expand all"@))
    } else if key == "flash.no_response"@ {
        Some(("还没有响应可以过滤：先发一次请求"@, "No response to filter yet — send a request first"@))
    } else if key == "flash.copied_url"@ {
        Some(("已复制 URL："@, "URL copied: "@))
    } else if key == "flash.copied_curl"@ {
        Some(("已复制 cURL 到剪贴板"@, "cURL copied to clipboard"@))
    } else if key == "flash.duplicated"@ {
        Some(("已复制为新请求："@, "Duplicated as: "@))
    } else if key == "flash.duplicate_failed"@ {
        Some(("复制失败："@, "Duplicate failed: "@))
    } else if key == "flash.copy_suffix"@ {
        Some((" 副本"@, " copy"@))
    } else if key == "flash.moved"@ {
        Some(("已移动到："@, "Moved to: "@))
    } else if key == "flash.copied_code"@ {
        Some(("已复制代码到剪贴板"@, "Code copied to clipboard"@))
    } else {
        None
    }
}

/// Looks `key` up in part 4 of the table.
fn lookup_4(key: &str) -> (r: Option<(&'static str, &'static str)>)
    ensures
        match r {
            Some(t) => messages_4(key@) == Some((t.0@, t.1@)),
            None => messages_4(key@) is None,
        },
{
    if text_eq(key, "auth.hint") {
        return Some(("值里可以写 {{ 变量 }}，发送时按当前环境解析；Token 放环境里就不会进仓库。", "Values may use {{ var }} — resolved against the active environment at send time, so tokens stay out of the repo."));
    }
    if text_eq(key, "auth.summary") {
        return Some(("实际发出：", "Sends: "));
    }
    if text_eq(key, "auth.manual_wins") {
        return Some(("这个请求已手写 Authorization 头，认证设置不会覆盖它。", "This request already sets an Authorization header by hand; auth settings will not override it."));
    }
    if text_eq(key, "cookies.title") {
        return Some(("Cookie 罐", "Cookie Jar"));
    }
    if text_eq(key, "cookies.count_prefix") {
        return Some(("（", " ("));
    }
    if text_eq(key, "cookies.count_suffix") {
        return Some((" 条）", ")"));
    }
    if text_eq(key, "cookies.hint") {
        return Some(("响应里的 Set-Cookie 会存在这儿，之后对同域请求自动带上（自己写了 Cookie 头就不插手）。清掉后立刻生效。", "Set-Cookie from responses is kept here and sent back to the same domain automatically (unless you wrote a Cookie header yourself). Clearing takes effect immediately."));
    }
    if text_eq(key, "cookies.empty") {
        return Some(("罐子是空的 —— 发一个带 Set-Cookie 的请求就有了", "Jar is empty — send a request that returns Set-Cookie"));
    }
    if text_eq(key, "cookies.clear_host") {
        return Some(("清空本站", "Clear site"));
    }
    if text_eq(key, "cookies.clear_all") {
        return Some(("全部清空", "Clear all"));
    }
    if text_eq(key, "cookies.cleared_host") {
        return Some(("已清掉本站 ", "Cleared "));
    }
    if text_eq(key, "cookies.cleared_all") {
        return Some(("已清掉全部 ", "Cleared all "));
    }
    if text_eq(key, "cookies.unit") {
        return Some((" 条 cookie", " cookies"));
    }
    if text_eq(key, "net.timeout_hint") {
        return Some(("单请求超时（秒，1–600）。留空 = 默认 30。超过就报超时；事件流只拿它当「连接 + 等首包」的上限，之后可以一直流。", "Per-request timeout in seconds (1-600). Empty = 30s. Event streams only use it for connect + first bytes, then keep streaming."));
    }
    if text_eq(key, "net.timeout_short") {
        return Some(("超时 ", "timeout "));
    }
    if text_eq(key, "net.saved") {
        return Some(("已保存网络设置 · ", "Network settings saved · "));
    }
    if text_eq(key, "proxy.hint") {
        return Some(("给所有请求走代理（Clash 之类）。留空 = 直连；支持 http:// 与 socks5://，只填 127.0.0.1:7897 也行。", "Route every request through a proxy (Clash etc.). Empty = direct. http:// and socks5:// supported; bare 127.0.0.1:7897 works too."));
    }
    if text_eq(key, "proxy.current") {
        return Some(("当前：", "Current: "));
    }
    if text_eq(key, "proxy.none") {
        return Some(("直连（未设代理）", "Direct (no proxy)"));
    }
    if text_eq(key, "proxy.clear") {
        return Some(("清空并直连", "Clear & go direct"));
    }
    if text_eq(key, "proxy.saved") {
        return Some(("已启用代理 · ", "Proxy enabled · "));
    }
    if text_eq(key, "proxy.cleared") {
        return Some(("已关闭代理（直连）", "Proxy disabled (direct)"));
    }
    if text_eq(key, "action.edit_env") {
        return Some(("编辑环境…", "Edit Environment…"));
    }
    if text_eq(key, "trash.title") {
        return Some(("回收站", "Trash"));
    }
    if text_eq(key, "trash.empty") {
        return Some(("回收站是空的", "Trash is empty"));
    }
    if text_eq(key, "trash.restore") {
        return Some(("恢复", "Restore"));
    }
    if text_eq(key, "trash.empty_all") {
        return Some(("清空", "Empty"));
    }
    if text_eq(key, "trash.empty_confirm") {
        return Some(("确认清空（不可恢复）", "Confirm empty (permanent)"));
    }
    if text_eq(key, "import.hint") {
        return Some(("粘贴一条 curl 命令（支持 -X/-H/-d/--json/-u 等）", "Paste a curl command (-X/-H/-d/--json/-u supported)"));
    }
    if text_eq(key, "response.copy_line") {
        return Some(("复制这一行", "Copy line"));
    }
    if text_eq(key, "response.copy_value") {
        return Some(("复制值", "Copy value"));
    }
    if text_eq(key, "response.copy_path") {
        return Some(("复制 JSON 路径", "Copy JSON path"));
    }
    if text_eq(key, "flash.copied_line") {
        return Some(("已复制这一行", "Line copied"));
    }
    if text_eq(key, "flash.copied_value") {
        return Some(("已复制该行的值", "Value copied"));
    }
    if text_eq(key, "flash.copied_path") {
        return Some(("已复制路径：", "Path copied: "));
    }
    if text_eq(key, "flash.path_not_found") {
        return Some(("没能定位到这行的路径：响应太大、不是 JSON，或值不唯一", "Could not locate this line's path (too big, not JSON, or value not unique)"));
    }
    if text_eq(key, "response.fold_all") {
        return Some(("折叠全部", "Fold all"));
    }
    if text_eq(key, "response.unfold_all") {
        return Some(("展开全部", "Expand all"));
    }
    if text_eq(key, "flash.no_response") {
        return Some(("还没有响应可以过滤：先发一次请求", "No response to filter yet — send a request first"));
    }
    if text_eq(key, "flash.copied_url") {
        return Some(("已复制 URL：", "URL copied: "));
    }
    if text_eq(key, "flash.copied_curl") {
        return Some(("已复制 cURL 到剪贴板", "cURL copied to clipboard"));
    }
    if text_eq(key, "flash.duplicated") {
        return Some(("已复制为新请求：", "Duplicated as: "));
    }
    if text_eq(key, "flash.duplicate_failed") {
        return Some(("复制失败：", "Duplicate failed: "));
    }
    if text_eq(key, "flash.copy_suffix") {
        return Some((" 副本", " copy"));
    }
    if text_eq(key, "flash.moved") {
        return Some(("已移动到：", "Moved to: "));
    }
    if text_eq(key, "flash.copied_code") {
        return Some(("已复制代码到剪贴板", "Code copied to clipboard"));
    }
    None
}

/// Texts (Chinese, English) of the keys of part 5 of the table.
pub open spec fn messages_5(key: Seq<char>) -> Option<(Seq<char>, Seq<char>)> {
    if key == "flash.copied_text"@ {
        Some(("已复制选中文本"@, "Selected text copied"@))
    } else if key == "flash.beautified"@ {
        Some(("已美化 JSON 正文"@, "JSON formatted"@))
    } else if key == "action.beautify"@ {
        Some(("美化"@, "Format"@))
    } else if key == "kv.chars"@ {
        Some(("字符"@, "chars"@))
    } else if key == "flash.copied_all"@ {
        Some(("已复制全文"@, "Full value copied"@))
    } else if key == "kv.edit_hint"@ {
        Some(("可直接编辑，实时写回"@, "Edit here — applied live"@))
    } else if key == "editor.body.json_error"@ {
        Some(("JSON 格式错误：第 {line} 行第 {col} 列 · {msg}"@, "Invalid JSON: line {line}, column {col} · {msg}"@))
    } else if key == "flash.move_failed"@ {
        Some(("移动失败："@, "Move failed: "@))
    } else if key == "action.copy_url"@ {
        Some(("复制 URL"@, "Copy URL"@))
    } else if key == "action.copy_curl"@ {
        Some(("复制为 cURL"@, "Copy as cURL"@))
    } else if key == "action.duplicate"@ {
        Some(("复制为新请求"@, "Duplicate request"@))
    } else if key == "action.move_to"@ {
        Some(("移动到…"@, "Move to…"@))
    } else if key == "action.collapse_others"@ {
        Some(("折叠所有（除此节点）"@, "Collapse All Others"@))
    } else if key == "action.move_root"@ {
        Some(("（集合根目录）"@, " (collection root)"@))
    } else if key == "move.title"@ {
        Some(("移动到…"@, "Move to…"@))
    } else if key == "move.moving"@ {
        Some(("正在移动："@, "Moving: "@))
    } else if key == "move.placeholder"@ {
        Some(("输入集合 / 分组名过滤…"@, "Filter collections / groups…"@))
    } else if key == "move.empty"@ {
        Some(("没有匹配的目标"@, "No matching destination"@))
    } else if key == "move.hint"@ {
        Some(("↑↓ 选择 · Enter 移动 · Esc 取消"@, "↑↓ select · Enter move · Esc cancel"@))
    } else if key == "vars.save_title"@ {
        Some(("把响应值存成环境变量"@, "Save response value as a variable"@))
    } else if key == "vars.save_btn"@ {
        Some(("存为变量"@, "Save as var"@))
    } else if key == "vars.save_hint"@ {
        Some(("取响应里的一个值（比如登录返回的 token）存进环境变量，后面的请求用 {{ 变量名 }} 就能引用。"@, "Pick a value from the response (e.g. a login token) and store it in an environment variable; later requests can reference it with {{ name }}."@))
    } else if key == "vars.source_body"@ {
        Some(("响应正文"@, "Body"@))
    } else if key == "vars.source_header"@ {
        Some(("响应头"@, "Header"@))
    } else if key == "vars.path_hint"@ {
        Some(("JSON 路径（$.data.token 这种，过滤条里写的路径会自动带过来）"@, "JSON path (e.g. $.data.token; the filter bar path is prefilled)"@))
    } else if key == "vars.header_hint"@ {
        Some(("响应头名字（大小写不敏感）"@, "Response header name (case-insensitive)"@))
    } else if key == "vars.preview"@ {
        Some(("取到的值"@, "Value"@))
    } else if key == "vars.matched_first"@ {
        Some((" 个命中，取了第一个"@, " matches, using the first"@))
    } else if key == "vars.name"@ {
        Some(("变量名（写进环境，别带空格）"@, "Variable name (no spaces)"@))
    } else if key == "vars.target_env"@ {
        Some(("将写入："@, "Will write to: "@))
    } else if key == "vars.will_overwrite"@ {
        Some(("同名变量已存在，保存会覆盖"@, "A variable with this name exists; saving overwrites it"@))
    } else if key == "vars.saved"@ {
        Some(("已保存 "@, "Saved "@))
    } else if key == "vars.saved_to"@ {
        Some((" 到 "@, " to "@))
    } else if key == "vars.no_response"@ {
        Some(("还没有响应"@, "No response yet"@))
    } else if key == "vars.save_empty"@ {
        Some(("没有可存的值"@, "Nothing to save"@))
    } else if key == "vars.complete_hint"@ {
        Some(("Tab / Enter 补齐 · Esc 关闭"@, "Tab / Enter to complete · Esc to dismiss"@))
    } else if key == "vars.title"@ {
        Some(("变量"@, "Variables"@))
    } else if key == "vars.hint"@ {
        Some(("发送时把 {{ 变量 }} 换成这里的值；点「补进环境」可把缺失的补上。"@, "{{ var }} is replaced with these values on send; use “Add to env” for missing ones."@))
    } else if key == "vars.missing"@ {
        Some(("未定义变量 "@, "Undefined variables: "@))
    } else if key == "vars.undefined"@ {
        Some(("未定义 · 发送时会原样带出"@, "undefined · sent literally"@))
    } else if key == "vars.add"@ {
        Some(("补进环境"@, "Add to env"@))
    } else if key == "vars.empty"@ {
        Some(("环境里还没有变量"@, "No variables yet"@))
    } else if key == "vars.env"@ {
        Some(("当前环境"@, "Environment"@))
    } else if key == "vars.masked_hint"@ {
        Some(("敏感名默认打码"@, "secret-looking names are masked"@))
    } else if key == "vars.reveal"@ {
        Some(("显示明文"@, "Reveal"@))
    } else if key == "vars.hide"@ {
        Some(("隐藏明文"@, "Hide"@))
    } else {
        None
    }
}

/// Looks `key` up in part 5 of the table.
fn lookup_5(key: &str) -> (r: Option<(&'static str, &'static str)>)
    ensures
        match r {
            Some(t) => messages_5(key@) == Some((t.0@, t.1@)),
            None => messages_5(key@) is None,
        },
{
    if text_eq(key, "flash.copied_text") {
        return Some(("已复制选中文本", "Selected text copied"));
    }
    if text_eq(key, "flash.beautified") {
        return Some(("已美化 JSON 正文", "JSON formatted"));
    }
    if text_eq(key, "action.beautify") {
        return Some(("美化", "Format"));
    }
    if text_eq(key, "kv.chars") {
        return Some(("字符", "chars"));
    }
    if text_eq(key, "flash.copied_all") {
        return Some(("已复制全文", "Full value copied"));
    }
    if text_eq(key, "kv.edit_hint") {
        return Some(("可直接编辑，实时写回", "Edit here — applied live"));
    }
    if text_eq(key, "editor.body.json_error") {
        return Some(("JSON 格式错误：第 {line} 行第 {col} 列 · {msg}", "Invalid JSON: line {line}, column {col} · {msg}"));
    }
    if text_eq(key, "flash.move_failed") {
        return Some(("移动失败：", "Move failed: "));
    }
    if text_eq(key, "action.copy_url") {
        return Some(("复制 URL", "Copy URL"));
    }
    if text_eq(key, "action.copy_curl") {
        return Some(("复制为 cURL", "Copy as cURL"));
    }
    if text_eq(key, "action.duplicate") {
        return Some(("复制为新请求", "Duplicate request"));
    }
    if text_eq(key, "action.move_to") {
        return Some(("移动到…", "Move to…"));
    }
    if text_eq(key, "action.collapse_others") {
        return Some(("折叠所有（除此节点）", "Collapse All Others"));
    }
    if text_eq(key, "action.move_root") {
        return Some(("（集合根目录）", " (collection root)"));
    }
    if text_eq(key, "move.title") {
        return Some(("移动到…", "Move to…"));
    }
    if text_eq(key, "move.moving") {
        return Some(("正在移动：", "Moving: "));
    }
    if text_eq(key, "move.placeholder") {
        return Some(("输入集合 / 分组名过滤…", "Filter collections / groups…"));
    }
    if text_eq(key, "move.empty") {
        return Some(("没有匹配的目标", "No matching destination"));
    }
    if text_eq(key, "move.hint") {
        return Some(("↑↓ 选择 · Enter 移动 · Esc 取消", "↑↓ select · Enter move · Esc cancel"));
    }
    if text_eq(key, "vars.save_title") {
        return Some(("把响应值存成环境变量", "Save response value as a variable"));
    }
    if text_eq(key, "vars.save_btn") {
        return Some(("存为变量", "Save as var"));
    }
    if text_eq(key, "vars.save_hint") {
        return Some(("取响应里的一个值（比如登录返回的 token）存进环境变量，后面的请求用 {{ 变量名 }} 就能引用。", "Pick a value from the response (e.g. a login token) and store it in an environment variable; later requests can reference it with {{ name }}."));
    }
    if text_eq(key, "vars.source_body") {
        return Some(("响应正文", "Body"));
    }
    if text_eq(key, "vars.source_header") {
        return Some(("响应头", "Header"));
    }
    if text_eq(key, "vars.path_hint") {
        return Some(("JSON 路径（$.data.token 这种，过滤条里写的路径会自动带过来）", "JSON path (e.g. $.data.token; the filter bar path is prefilled)"));
    }
    if text_eq(key, "vars.header_hint") {
        return Some(("响应头名字（大小写不敏感）", "Response header name (case-insensitive)"));
    }
    if text_eq(key, "vars.preview") {
        return Some(("取到的值", "Value"));
    }
    if text_eq(key, "vars.matched_first") {
        return Some((" 个命中，取了第一个", " matches, using the first"));
    }
    if text_eq(key, "vars.name") {
        return Some(("变量名（写进环境，别带空格）", "Variable name (no spaces)"));
    }
    if text_eq(key, "vars.target_env") {
        return Some(("将写入：", "Will write to: "));
    }
    if text_eq(key, "vars.will_overwrite") {
        return Some(("同名变量已存在，保存会覆盖", "A variable with this name exists; saving overwrites it"));
    }
    if text_eq(key, "vars.saved") {
        return Some(("已保存 ", "Saved "));
    }
    if text_eq(key, "vars.saved_to") {
        return Some((" 到 ", " to "));
    }
    if text_eq(key, "vars.no_response") {
        return Some(("还没有响应", "No response yet"));
    }
    if text_eq(key, "vars.save_empty") {
        return Some(("没有可存的值", "Nothing to save"));
    }
    if text_eq(key, "vars.complete_hint") {
        return Some(("Tab / Enter 补齐 · Esc 关闭", "Tab / Enter to complete · Esc to dismiss"));
    }
    if text_eq(key, "vars.title") {
        return Some(("变量", "Variables"));
    }
    if text_eq(key, "vars.hint") {
        return Some(("发送时把 {{ 变量 }} 换成这里的值；点「补进环境」可把缺失的补上。", "{{ var }} is replaced with these values on send; use “Add to env” for missing ones."));
    }
    if text_eq(key, "vars.missing") {
        return Some(("未定义变量 ", "Undefined variables: "));
    }
    if text_eq(key, "vars.undefined") {
        return Some(("未定义 · 发送时会原样带出", "undefined · sent literally"));
    }
    if text_eq(key, "vars.add") {
        return Some(("补进环境", "Add to env"));
    }
    if text_eq(key, "vars.empty") {
        return Some(("环境里还没有变量", "No variables yet"));
    }
    if text_eq(key, "vars.env") {
        return Some(("当前环境", "Environment"));
    }
    if text_eq(key, "vars.masked_hint") {
        return Some(("敏感名默认打码", "secret-looking names are masked"));
    }
    if text_eq(key, "vars.reveal") {
        return Some(("显示明文", "Reveal"));
    }
    if text_eq(key, "vars.hide") {
        return Some(("隐藏明文", "Hide"));
    }
    None
}

/// Texts (Chinese, English) of the keys of part 6 of the table.
pub open spec fn messages_6(key: Seq<char>) -> Option<(Seq<char>, Seq<char>)> {
    if key == "env.none"@ {
        Some(("无（仅 base）"@, "none (base only)"@))
    } else if key == "action.import_file"@ {
        Some(("从文件导入（Postman / OpenAPI / HAR）…"@, "Import from file (Postman / OpenAPI / HAR)…"@))
    } else if key == "import.done"@ {
        Some(("已导入："@, "Imported: "@))
    } else if key == "import.requests"@ {
        Some(("个接口"@, " requests"@))
    } else if key == "import.groups"@ {
        Some(("个分组"@, " groups"@))
    } else if key == "import.read_failed"@ {
        Some(("读文件失败："@, "Cannot read file: "@))
    } else if key == "import.failed"@ {
        Some(("导入失败："@, "Import failed: "@))
    } else if key == "response.tab.history"@ {
        Some(("历史"@, "History"@))
    } else if key == "response.history_empty"@ {
        Some(("还没有发送记录"@, "No requests sent yet"@))
    } else if key == "history.just_now"@ {
        Some(("刚刚"@, "now"@))
    } else if key == "history.ago"@ {
        Some(("前"@, " ago"@))
    } else if key == "ws.missing"@ {
        Some(("工作区不存在，请通过菜单选择目录"@, "Workspace missing, choose a folder from the menu"@))
    } else if key == "settings.title"@ {
        Some(("设置"@, "Settings"@))
    } else if key == "settings.close"@ {
        Some(("关闭"@, "Close"@))
    } else if key == "settings.tab.style"@ {
        Some(("样式"@, "Styles"@))
    } else if key == "settings.tab.general"@ {
        Some(("通用"@, "General"@))
    } else if key == "settings.tab.net"@ {
        Some(("网络"@, "Network"@))
    } else if key == "settings.tab.backup"@ {
        Some(("备份"@, "Backups"@))
    } else if key == "settings.style.hint"@ {
        Some(("下拉框样式：点行选中即生效并记入配置；点“样例”可看这一款的打开态"@, "Dropdown style — click a row to apply; click a sample to preview its open state"@))
    } else if key == "settings.general.language"@ {
        Some(("语言"@, "Language"@))
    } else if key == "settings.general.workspace"@ {
        Some(("工作区"@, "Workspace"@))
    } else if key == "settings.general.choose_dir"@ {
        Some(("选择目录…"@, "Choose folder…"@))
    } else if key == "settings.backup.interval"@ {
        Some(("自动备份间隔"@, "Auto-backup"@))
    } else if key == "settings.backup.off"@ {
        Some(("关闭"@, "Off"@))
    } else if key == "settings.backup.minutes"@ {
        Some((" 分钟"@, " min"@))
    } else if key == "settings.backup.day"@ {
        Some((" 天"@, " day"@))
    } else if key == "settings.backup.keep"@ {
        Some(("备份保留份数"@, "Kept backups"@))
    } else if key == "settings.backup.files"@ {
        Some((" 份"@, " copies"@))
    } else if key == "settings.backup.hint"@ {
        Some(("默认一天一次，且只在工作区有改动时备份；超过保留份数的旧备份会自动清掉（改动最多 30 秒后生效）"@, "Daily by default, and only when something changed; anything beyond the kept count is pruned (changes apply within 30s)"@))
    } else if key == "settings.backup.restore"@ {
        Some(("从备份恢复…"@, "Restore from backup…"@))
    } else if key == "style.classic"@ {
        Some(("经典描边"@, "Classic outline"@))
    } else if key == "style.classic.desc"@ {
        Some(("原样式：粗描边 + 文字箭头"@, "Original: heavy border + text caret"@))
    } else if key == "style.ghost"@ {
        Some(("幽灵无框"@, "Ghost"@))
    } else if key == "style.ghost.desc"@ {
        Some(("无边框，悬停才浮出浅底"@, "No box; surface shows up on hover"@))
    } else if key == "style.outlined"@ {
        Some(("强化描边（推荐）"@, "Outlined (recommended)"@))
    } else if key == "style.outlined.desc"@ {
        Some(("细描边；悬停/打开时描边与箭头染品牌紫"@, "Fine border; border and caret turn brand purple on hover/open"@))
    } else if key == "style.underline"@ {
        Some(("下划线页签"@, "Underline"@))
    } else if key == "style.underline.desc"@ {
        Some(("无盒，品牌紫下划线标记开合"@, "No box; brand-purple underline marks open state"@))
    } else if key == "style.pill"@ {
        Some(("胶囊"@, "Pill"@))
    } else if key == "style.pill.desc"@ {
        Some(("胶囊底；打开时紫底白字"@, "Pill background; turns purple with white text when open"@))
    } else if key == "style.split"@ {
        Some(("分离箭头"@, "Split caret"@))
    } else if key == "style.split.desc"@ {
        Some(("原生弹钮：箭头区带分隔线，悬停独立高亮"@, "Native popup button: divider before the caret zone"@))
    } else {
        None
    }
}

/// Looks `key` up in part 6 of the table.
fn lookup_6(key: &str) -> (r: Option<(&'static str, &'static str)>)
    ensures
        match r {
            Some(t) => messages_6(key@) == Some((t.0@, t.1@)),
            None => messages_6(key@) is None,
        },
{
    if text_eq(key, "env.none") {
        return Some(("无（仅 base）", "none (base only)"));
    }
    if text_eq(key, "action.import_file") {
        return Some(("从文件导入（Postman / OpenAPI / HAR）…", "Import from file (Postman / OpenAPI / HAR)…"));
    }
    if text_eq(key, "import.done") {
        return Some(("已导入：", "Imported: "));
    }
    if text_eq(key, "import.requests") {
        return Some(("个接口", " requests"));
    }
    if text_eq(key, "import.groups") {
        return Some(("个分组", " groups"));
    }
    if text_eq(key, "import.read_failed") {
        return Some(("读文件失败：", "Cannot read file: "));
    }
    if text_eq(key, "import.failed") {
        return Some(("导入失败：", "Import failed: "));
    }
    if text_eq(key, "response.tab.history") {
        return Some(("历史", "History"));
    }
    if text_eq(key, "response.history_empty") {
        return Some(("还没有发送记录", "No requests sent yet"));
    }
    if text_eq(key, "history.just_now") {
        return Some(("刚刚", "now"));
    }
    if text_eq(key, "history.ago") {
        return Some(("前", " ago"));
    }
    if text_eq(key, "ws.missing") {
        return Some(("工作区不存在，请通过菜单选择目录", "Workspace missing, choose a folder from the menu"));
    }
    if text_eq(key, "settings.title") {
        return Some(("设置", "Settings"));
    }
    if text_eq(key, "settings.close") {
        return Some(("关闭", "Close"));
    }
    if text_eq(key, "settings.tab.style") {
        return Some(("样式", "Styles"));
    }
    if text_eq(key, "settings.tab.general") {
        return Some(("通用", "General"));
    }
    if text_eq(key, "settings.tab.net") {
        return Some(("网络", "Network"));
    }
    if text_eq(key, "settings.tab.backup") {
        return Some(("备份", "Backups"));
    }
    if text_eq(key, "settings.style.hint") {
        return Some(("下拉框样式：点行选中即生效并记入配置；点“样例”可看这一款的打开态", "Dropdown style — click a row to apply; click a sample to preview its open state"));
    }
    if text_eq(key, "settings.general.language") {
        return Some(("语言", "Language"));
    }
    if text_eq(key, "settings.general.workspace") {
        return Some(("工作区", "Workspace"));
    }
    if text_eq(key, "settings.general.choose_dir") {
        return Some(("选择目录…", "Choose folder…"));
    }
    if text_eq(key, "settings.backup.interval") {
        return Some(("自动备份间隔", "Auto-backup"));
    }
    if text_eq(key, "settings.backup.off") {
        return Some(("关闭", "Off"));
    }
    if text_eq(key, "settings.backup.minutes") {
        return Some((" 分钟", " min"));
    }
    if text_eq(key, "settings.backup.day") {
        return Some((" 天", " day"));
    }
    if text_eq(key, "settings.backup.keep") {
        return Some(("备份保留份数", "Kept backups"));
    }
    if text_eq(key, "settings.backup.files") {
        return Some((" 份", " copies"));
    }
    if text_eq(key, "settings.backup.hint") {
        return Some(("默认一天一次，且只在工作区有改动时备份；超过保留份数的旧备份会自动清掉（改动最多 30 秒后生效）", "Daily by default, and only when something changed; anything beyond the kept count is pruned (changes apply within 30s)"));
    }
    if text_eq(key, "settings.backup.restore") {
        return Some(("从备份恢复…", "Restore from backup…"));
    }
    if text_eq(key, "style.classic") {
        return Some(("经典描边", "Classic outline"));
    }
    if text_eq(key, "style.classic.desc") {
        return Some(("原样式：粗描边 + 文字箭头", "Original: heavy border + text caret"));
    }
    if text_eq(key, "style.ghost") {
        return Some(("幽灵无框", "Ghost"));
    }
    if text_eq(key, "style.ghost.desc") {
        return Some(("无边框，悬停才浮出浅底", "No box; surface shows up on hover"));
    }
    if text_eq(key, "style.outlined") {
        return Some(("强化描边（推荐）", "Outlined (recommended)"));
    }
    if text_eq(key, "style.outlined.desc") {
        return Some(("细描边；悬停/打开时描边与箭头染品牌紫", "Fine border; border and caret turn brand purple on hover/open"));
    }
    if text_eq(key, "style.underline") {
        return Some(("下划线页签", "Underline"));
    }
    if text_eq(key, "style.underline.desc") {
        return Some(("无盒，品牌紫下划线标记开合", "No box; brand-purple underline marks open state"));
    }
    if text_eq(key, "style.pill") {
        return Some(("胶囊", "Pill"));
    }
    if text_eq(key, "style.pill.desc") {
        return Some(("胶囊底；打开时紫底白字", "Pill background; turns purple with white text when open"));
    }
    if text_eq(key, "style.split") {
        return Some(("分离箭头", "Split caret"));
    }
    if text_eq(key, "style.split.desc") {
        return Some(("原生弹钮：箭头区带分隔线，悬停独立高亮", "Native popup button: divider before the caret zone"));
    }
    None
}

/// Texts (Chinese, English) of a key, if the table has it.
pub open spec fn messages(key: Seq<char>) -> Option<(Seq<char>, Seq<char>)> {
    if messages_1(key) is Some {
        messages_1(key)
    } else if messages_2(key) is Some {
        messages_2(key)
    } else if messages_3(key) is Some {
        messages_3(key)
    } else if messages_4(key) is Some {
        messages_4(key)
    } else if messages_5(key) is Some {
        messages_5(key)
    } else if messages_6(key) is Some {
        messages_6(key)
    } else {
        None
    }
}

/// The text shown for `key` in `locale`; `?` for a key the table lacks.
pub open spec fn tr_text(locale: Locale, key: Seq<char>) -> Seq<char> {
    match messages(key) {
        Some(t) => match locale {
            Locale::Zh => t.0,
            Locale::En => t.1,
        },
        None => "?"@,
    }
}

/// The user-interface text of `key` in `locale`. A key missing from the table
/// (a misspelt one) shows as `?`.
pub fn tr(locale: Locale, key: &str) -> (r: &'static str)
    ensures
        r@ == tr_text(locale, key@),
{
    if let Some(t) = lookup_1(key) {
        return match locale {
            Locale::Zh => t.0,
            Locale::En => t.1,
        };
    }
    if let Some(t) = lookup_2(key) {
        return match locale {
            Locale::Zh => t.0,
            Locale::En => t.1,
        };
    }
    if let Some(t) = lookup_3(key) {
        return match locale {
            Locale::Zh => t.0,
            Locale::En => t.1,
        };
    }
    if let Some(t) = lookup_4(key) {
        return match locale {
            Locale::Zh => t.0,
            Locale::En => t.1,
        };
    }
    if let Some(t) = lookup_5(key) {
        return match locale {
            Locale::Zh => t.0,
            Locale::En => t.1,
        };
    }
    if let Some(t) = lookup_6(key) {
        return match locale {
            Locale::Zh => t.0,
            Locale::En => t.1,
        };
    }
    "?"
}

/// No text of part 1 of the table is the `?` shown for a missing key.
proof fn lemma_part_1_texts_differ_from_fallback(key: Seq<char>)
    ensures
        messages_1(key) matches Some(t) ==> t.0 != "?"@ && t.1 != "?"@,
{
    reveal_strlit("?");
    assert("?"@.len() == 1 && "?"@[0] == '?');
    reveal_strlit("treq");
    assert("treq"@.len() != 1 || "treq"@[0] != '?');
    reveal_strlit("文件");
    assert("文件"@.len() != 1 || "文件"@[0] != '?');
    reveal_strlit("File");
    assert("File"@.len() != 1 || "File"@[0] != '?');
    reveal_strlit("切换工作区…");
    assert("切换工作区…"@.len() != 1 || "切换工作区…"@[0] != '?');
    reveal_strlit("Choose Workspace…");
    assert("Choose Workspace…"@.len() != 1 || "Choose Workspace…"@[0] != '?');
    reveal_strlit("刷新");
    assert("刷新"@.len() != 1 || "刷新"@[0] != '?');
    reveal_strlit("Reload");
    assert("Reload"@.len() != 1 || "Reload"@[0] != '?');
    reveal_strlit("语言：English");
    assert("语言：English"@.len() != 1 || "语言：English"@[0] != '?');
    reveal_strlit("Language: 中文");
    assert("Language: 中文"@.len() != 1 || "Language: 中文"@[0] != '?');
    reveal_strlit("Filter");
    assert("Filter"@.len() != 1 || "Filter"@[0] != '?');
    reveal_strlit("Base Environment");
    assert("Base Environment"@.len() != 1 || "Base Environment"@[0] != '?');
    reveal_strlit("环境变量");
    assert("环境变量"@.len() != 1 || "环境变量"@[0] != '?');
    reveal_strlit("Environment Variables");
    assert("Environment Variables"@.len() != 1 || "Environment Variables"@[0] != '?');
    reveal_strlit("命令面板");
    assert("命令面板"@.len() != 1 || "命令面板"@[0] != '?');
    reveal_strlit("Command Palette");
    assert("Command Palette"@.len() != 1 || "Command Palette"@[0] != '?');
    reveal_strlit("添加工作区（项目）…");
    assert("添加工作区（项目）…"@.len() != 1 || "添加工作区（项目）…"@[0] != '?');
    reveal_strlit("Add workspace (project)…");
    assert("Add workspace (project)…"@.len() != 1 || "Add workspace (project)…"@[0] != '?');
    reveal_strlit("从列表移除当前工作区");
    assert("从列表移除当前工作区"@.len() != 1 || "从列表移除当前工作区"@[0] != '?');
    reveal_strlit("Remove current workspace from list");
    assert("Remove current workspace from list"@.len() != 1 || "Remove current workspace from list"@[0] != '?');
    reveal_strlit("跨工作区搜索：输入名字 / URL / 方法");
    assert("跨工作区搜索：输入名字 / URL / 方法"@.len() != 1 || "跨工作区搜索：输入名字 / URL / 方法"@[0] != '?');
    reveal_strlit("Search across workspaces: name / URL / method");
    assert("Search across workspaces: name / URL / method"@.len() != 1 || "Search across workspaces: name / URL / method"@[0] != '?');
    reveal_strlit("Preferences");
    assert("Preferences"@.len() != 1 || "Preferences"@[0] != '?');
    reveal_strlit("Query");
    assert("Query"@.len() != 1 || "Query"@[0] != '?');
    reveal_strlit("URL PREVIEW");
    assert("URL PREVIEW"@.len() != 1 || "URL PREVIEW"@[0] != '?');
    reveal_strlit("DOCS");
    assert("DOCS"@.len() != 1 || "DOCS"@[0] != '?');
    reveal_strlit("表单体：a=1&b=2");
    assert("表单体：a=1&b=2"@.len() != 1 || "表单体：a=1&b=2"@[0] != '?');
    reveal_strlit("Form body: a=1&b=2");
    assert("Form body: a=1&b=2"@.len() != 1 || "Form body: a=1&b=2"@[0] != '?');
    reveal_strlit("Add");
    assert("Add"@.len() != 1 || "Add"@[0] != '?');
    reveal_strlit("Delete All");
    assert("Delete All"@.len() != 1 || "Delete All"@[0] != '?');
    reveal_strlit("Toggle Description");
    assert("Toggle Description"@.len() != 1 || "Toggle Description"@[0] != '?');
    reveal_strlit("从 cURL 导入");
    assert("从 cURL 导入"@.len() != 1 || "从 cURL 导入"@[0] != '?');
    reveal_strlit("Import from cURL");
    assert("Import from cURL"@.len() != 1 || "Import from cURL"@[0] != '?');
    reveal_strlit("生成代码");
    assert("生成代码"@.len() != 1 || "生成代码"@[0] != '?');
    reveal_strlit("Generate Code");
    assert("Generate Code"@.len() != 1 || "Generate Code"@[0] != '?');
    reveal_strlit("写点请求说明（Markdown）…");
    assert("写点请求说明（Markdown）…"@.len() != 1 || "写点请求说明（Markdown）…"@[0] != '?');
    reveal_strlit("Describe this request (Markdown)…");
    assert("Describe this request (Markdown)…"@.len() != 1 || "Describe this request (Markdown)…"@[0] != '?');
    reveal_strlit("Preview");
    assert("Preview"@.len() != 1 || "Preview"@[0] != '?');
    reveal_strlit("Cookies");
    assert("Cookies"@.len() != 1 || "Cookies"@[0] != '?');
    reveal_strlit("Timeline");
    assert("Timeline"@.len() != 1 || "Timeline"@[0] != '?');
    reveal_strlit("格式化");
    assert("格式化"@.len() != 1 || "格式化"@[0] != '?');
    reveal_strlit("Prettified");
    assert("Prettified"@.len() != 1 || "Prettified"@[0] != '?');
    reveal_strlit("原始");
    assert("原始"@.len() != 1 || "原始"@[0] != '?');
    reveal_strlit("Raw");
    assert("Raw"@.len() != 1 || "Raw"@[0] != '?');
    reveal_strlit("还没有响应，按 Send 发送");
    assert("还没有响应，按 Send 发送"@.len() != 1 || "还没有响应，按 Send 发送"@[0] != '?');
    reveal_strlit("No response yet — hit Send");
    assert("No response yet — hit Send"@.len() != 1 || "No response yet — hit Send"@[0] != '?');
    reveal_strlit("响应没有 Set-Cookie");
    assert("响应没有 Set-Cookie"@.len() != 1 || "响应没有 Set-Cookie"@[0] != '?');
    reveal_strlit("Response has no Set-Cookie");
    assert("Response has no Set-Cookie"@.len() != 1 || "Response has no Set-Cookie"@[0] != '?');
    reveal_strlit("状态");
    assert("状态"@.len() != 1 || "状态"@[0] != '?');
    reveal_strlit("Status");
    assert("Status"@.len() != 1 || "Status"@[0] != '?');
    reveal_strlit("总耗时");
    assert("总耗时"@.len() != 1 || "总耗时"@[0] != '?');
    reveal_strlit("Total time");
    assert("Total time"@.len() != 1 || "Total time"@[0] != '?');
    reveal_strlit("$.store.books[*].author");
    assert("$.store.books[*].author"@.len() != 1 || "$.store.books[*].author"@[0] != '?');
    reveal_strlit("响应不是 JSON，无法按路径过滤");
    assert("响应不是 JSON，无法按路径过滤"@.len() != 1 || "响应不是 JSON，无法按路径过滤"@[0] != '?');
    reveal_strlit("Response is not JSON, cannot filter by path");
    assert("Response is not JSON, cannot filter by path"@.len() != 1 || "Response is not JSON, cannot filter by path"@[0] != '?');
    reveal_strlit("路径不合法");
    assert("路径不合法"@.len() != 1 || "路径不合法"@[0] != '?');
    reveal_strlit("Invalid path");
    assert("Invalid path"@.len() != 1 || "Invalid path"@[0] != '?');
    reveal_strlit("路径没有匹配到任何值");
    assert("路径没有匹配到任何值"@.len() != 1 || "路径没有匹配到任何值"@[0] != '?');
    reveal_strlit("Path matched nothing");
    assert("Path matched nothing"@.len() != 1 || "Path matched nothing"@[0] != '?');
    reveal_strlit(" 分钟前");
    assert(" 分钟前"@.len() != 1 || " 分钟前"@[0] != '?');
    reveal_strlit("m ago");
    assert("m ago"@.len() != 1 || "m ago"@[0] != '?');
    reveal_strlit(" 小时前");
    assert(" 小时前"@.len() != 1 || " 小时前"@[0] != '?');
    reveal_strlit("h ago");
    assert("h ago"@.len() != 1 || "h ago"@[0] != '?');
    reveal_strlit(" 天前");
    assert(" 天前"@.len() != 1 || " 天前"@[0] != '?');
    reveal_strlit("d ago");
    assert("d ago"@.len() != 1 || "d ago"@[0] != '?');
    reveal_strlit("已保存到：");
    assert("已保存到："@.len() != 1 || "已保存到："@[0] != '?');
    reveal_strlit("Saved to: ");
    assert("Saved to: "@.len() != 1 || "Saved to: "@[0] != '?');
    reveal_strlit("保存失败：");
    assert("保存失败："@.len() != 1 || "保存失败："@[0] != '?');
    reveal_strlit("Save failed: ");
    assert("Save failed: "@.len() != 1 || "Save failed: "@[0] != '?');
    reveal_strlit("已复制响应正文 · ");
    assert("已复制响应正文 · "@.len() != 1 || "已复制响应正文 · "@[0] != '?');
    reveal_strlit("Response body copied · ");
    assert("Response body copied · "@.len() != 1 || "Response body copied · "@[0] != '?');
    reveal_strlit("响应过大，界面只保留前 ");
    assert("响应过大，界面只保留前 "@.len() != 1 || "响应过大，界面只保留前 "@[0] != '?');
    reveal_strlit("Response too large — UI keeps the first ");
    assert("Response too large — UI keeps the first "@.len() != 1 || "Response too large — UI keeps the first "@[0] != '?');
    reveal_strlit("响应过大（超过 2 MB），已跳过渲染");
    assert("响应过大（超过 2 MB），已跳过渲染"@.len() != 1 || "响应过大（超过 2 MB），已跳过渲染"@[0] != '?');
    reveal_strlit("Response too large (over 2 MB) — rendering skipped");
    assert("Response too large (over 2 MB) — rendering skipped"@.len() != 1 || "Response too large (over 2 MB) — rendering skipped"@[0] != '?');
    reveal_strlit("点右上「完整」加载");
    assert("点右上「完整」加载"@.len() != 1 || "点右上「完整」加载"@[0] != '?');
    reveal_strlit("click “Full” to load");
    assert("click “Full” to load"@.len() != 1 || "click “Full” to load"@[0] != '?');
    reveal_strlit("完整");
    assert("完整"@.len() != 1 || "完整"@[0] != '?');
    reveal_strlit("Full");
    assert("Full"@.len() != 1 || "Full"@[0] != '?');
}

/// No text of part 2 of the table is the `?` shown for a missing key.
proof fn lemma_part_2_texts_differ_from_fallback(key: Seq<char>)
    ensures
        messages_2(key) matches Some(t) ==> t.0 != "?"@ && t.1 != "?"@,
{
    reveal_strlit("?");
    assert("?"@.len() == 1 && "?"@[0] == '?');
    reveal_strlit("备份与恢复");
    assert("备份与恢复"@.len() != 1 || "备份与恢复"@[0] != '?');
    reveal_strlit("Backups");
    assert("Backups"@.len() != 1 || "Backups"@[0] != '?');
    reveal_strlit("备份目录");
    assert("备份目录"@.len() != 1 || "备份目录"@[0] != '?');
    reveal_strlit("Backup folder");
    assert("Backup folder"@.len() != 1 || "Backup folder"@[0] != '?');
    reveal_strlit("立即备份");
    assert("立即备份"@.len() != 1 || "立即备份"@[0] != '?');
    reveal_strlit("Back up now");
    assert("Back up now"@.len() != 1 || "Back up now"@[0] != '?');
    reveal_strlit("还没有备份");
    assert("还没有备份"@.len() != 1 || "还没有备份"@[0] != '?');
    reveal_strlit("No backups yet");
    assert("No backups yet"@.len() != 1 || "No backups yet"@[0] != '?');
    reveal_strlit("备份文件（新 → 旧），点选后恢复");
    assert("备份文件（新 → 旧），点选后恢复"@.len() != 1 || "备份文件（新 → 旧），点选后恢复"@[0] != '?');
    reveal_strlit("Backups (newest first) — pick one to restore");
    assert("Backups (newest first) — pick one to restore"@.len() != 1 || "Backups (newest first) — pick one to restore"@[0] != '?');
    reveal_strlit("合并到当前");
    assert("合并到当前"@.len() != 1 || "合并到当前"@[0] != '?');
    reveal_strlit("Merge into current");
    assert("Merge into current"@.len() != 1 || "Merge into current"@[0] != '?');
    reveal_strlit("用备份覆盖");
    assert("用备份覆盖"@.len() != 1 || "用备份覆盖"@[0] != '?');
    reveal_strlit("Replace with backup");
    assert("Replace with backup"@.len() != 1 || "Replace with backup"@[0] != '?');
    reveal_strlit("合并：只补回缺失或改动过的文件，现有接口保留");
    assert("合并：只补回缺失或改动过的文件，现有接口保留"@.len() != 1 || "合并：只补回缺失或改动过的文件，现有接口保留"@[0] != '?');
    reveal_strlit("Merge: only missing/changed files come back; current requests stay");
    assert("Merge: only missing/changed files come back; current requests stay"@.len() != 1 || "Merge: only missing/changed files come back; current requests stay"@[0] != '?');
    reveal_strlit("覆盖：先用备份完全替换当前工作区（会先自动留一份现场）");
    assert("覆盖：先用备份完全替换当前工作区（会先自动留一份现场）"@.len() != 1 || "覆盖：先用备份完全替换当前工作区（会先自动留一份现场）"@[0] != '?');
    reveal_strlit("Replace: swap the whole workspace for this backup (a safety backup is taken first)");
    assert("Replace: swap the whole workspace for this backup (a safety backup is taken first)"@.len() != 1 || "Replace: swap the whole workspace for this backup (a safety backup is taken first)"@[0] != '?');
    reveal_strlit("现场备份");
    assert("现场备份"@.len() != 1 || "现场备份"@[0] != '?');
    reveal_strlit("safety copy");
    assert("safety copy"@.len() != 1 || "safety copy"@[0] != '?');
    reveal_strlit("集合");
    assert("集合"@.len() != 1 || "集合"@[0] != '?');
    reveal_strlit("collections");
    assert("collections"@.len() != 1 || "collections"@[0] != '?');
    reveal_strlit("接口");
    assert("接口"@.len() != 1 || "接口"@[0] != '?');
    reveal_strlit("requests");
    assert("requests"@.len() != 1 || "requests"@[0] != '?');
    reveal_strlit("已备份：");
    assert("已备份："@.len() != 1 || "已备份："@[0] != '?');
    reveal_strlit("Backed up: ");
    assert("Backed up: "@.len() != 1 || "Backed up: "@[0] != '?');
    reveal_strlit("已合并：");
    assert("已合并："@.len() != 1 || "已合并："@[0] != '?');
    reveal_strlit("Merged: ");
    assert("Merged: "@.len() != 1 || "Merged: "@[0] != '?');
    reveal_strlit("已覆盖：");
    assert("已覆盖："@.len() != 1 || "已覆盖："@[0] != '?');
    reveal_strlit("Replaced with: ");
    assert("Replaced with: "@.len() != 1 || "Replaced with: "@[0] != '?');
    reveal_strlit("备份失败：");
    assert("备份失败："@.len() != 1 || "备份失败："@[0] != '?');
    reveal_strlit("Backup failed: ");
    assert("Backup failed: "@.len() != 1 || "Backup failed: "@[0] != '?');
    reveal_strlit("恢复失败：");
    assert("恢复失败："@.len() != 1 || "恢复失败："@[0] != '?');
    reveal_strlit("Restore failed: ");
    assert("Restore failed: "@.len() != 1 || "Restore failed: "@[0] != '?');
    reveal_strlit("treq — 本地优先的 API 客户端");
    assert("treq — 本地优先的 API 客户端"@.len() != 1 || "treq — 本地优先的 API 客户端"@[0] != '?');
    reveal_strlit("treq — a local-first API client");
    assert("treq — a local-first API client"@.len() != 1 || "treq — a local-first API client"@[0] != '?');
    reveal_strlit("搜索请求或历史… (Enter 选择 / Esc 关闭)");
    assert("搜索请求或历史… (Enter 选择 / Esc 关闭)"@.len() != 1 || "搜索请求或历史… (Enter 选择 / Esc 关闭)"@[0] != '?');
    reveal_strlit("Search requests or history… (Enter to pick / Esc to close)");
    assert("Search requests or history… (Enter to pick / Esc to close)"@.len() != 1 || "Search requests or history… (Enter to pick / Esc to close)"@[0] != '?');
    reveal_strlit("没有匹配的请求或历史");
    assert("没有匹配的请求或历史"@.len() != 1 || "没有匹配的请求或历史"@[0] != '?');
    reveal_strlit("No matching requests or history");
    assert("No matching requests or history"@.len() != 1 || "No matching requests or history"@[0] != '?');
    reveal_strlit("环境");
    assert("环境"@.len() != 1 || "环境"@[0] != '?');
    reveal_strlit("Environment");
    assert("Environment"@.len() != 1 || "Environment"@[0] != '?');
    reveal_strlit("（空）右键新建集合");
    assert("（空）右键新建集合"@.len() != 1 || "（空）右键新建集合"@[0] != '?');
    reveal_strlit("(empty) right-click to create");
    assert("(empty) right-click to create"@.len() != 1 || "(empty) right-click to create"@[0] != '?');
    reveal_strlit("新建集合");
    assert("新建集合"@.len() != 1 || "新建集合"@[0] != '?');
    reveal_strlit("New Collection");
    assert("New Collection"@.len() != 1 || "New Collection"@[0] != '?');
    reveal_strlit("新建请求");
    assert("新建请求"@.len() != 1 || "新建请求"@[0] != '?');
    reveal_strlit("New Request");
    assert("New Request"@.len() != 1 || "New Request"@[0] != '?');
    reveal_strlit("重命名");
    assert("重命名"@.len() != 1 || "重命名"@[0] != '?');
    reveal_strlit("Rename");
    assert("Rename"@.len() != 1 || "Rename"@[0] != '?');
    reveal_strlit("删除");
    assert("删除"@.len() != 1 || "删除"@[0] != '?');
    reveal_strlit("Delete");
    assert("Delete"@.len() != 1 || "Delete"@[0] != '?');
    reveal_strlit("新建分组");
    assert("新建分组"@.len() != 1 || "新建分组"@[0] != '?');
    reveal_strlit("New Group");
    assert("New Group"@.len() != 1 || "New Group"@[0] != '?');
    reveal_strlit("生成代码…");
    assert("生成代码…"@.len() != 1 || "生成代码…"@[0] != '?');
    reveal_strlit("Generate Code…");
    assert("Generate Code…"@.len() != 1 || "Generate Code…"@[0] != '?');
    reveal_strlit("切换语言 / 库后代码即时更新");
    assert("切换语言 / 库后代码即时更新"@.len() != 1 || "切换语言 / 库后代码即时更新"@[0] != '?');
    reveal_strlit("Pick a language / library — code updates instantly");
    assert("Pick a language / library — code updates instantly"@.len() != 1 || "Pick a language / library — code updates instantly"@[0] != '?');
    reveal_strlit("复制");
    assert("复制"@.len() != 1 || "复制"@[0] != '?');
    reveal_strlit("Copy");
    assert("Copy"@.len() != 1 || "Copy"@[0] != '?');
    reveal_strlit("发送");
    assert("发送"@.len() != 1 || "发送"@[0] != '?');
    reveal_strlit("Send");
    assert("Send"@.len() != 1 || "Send"@[0] != '?');
    reveal_strlit("发送中…");
    assert("发送中…"@.len() != 1 || "发送中…"@[0] != '?');
    reveal_strlit("Sending…");
    assert("Sending…"@.len() != 1 || "Sending…"@[0] != '?');
    reveal_strlit("停止");
    assert("停止"@.len() != 1 || "停止"@[0] != '?');
    reveal_strlit("Stop");
    assert("Stop"@.len() != 1 || "Stop"@[0] != '?');
    reveal_strlit("事件流");
    assert("事件流"@.len() != 1 || "事件流"@[0] != '?');
    reveal_strlit("Event stream");
    assert("Event stream"@.len() != 1 || "Event stream"@[0] != '?');
    reveal_strlit("事件");
    assert("事件"@.len() != 1 || "事件"@[0] != '?');
    reveal_strlit("events");
    assert("events"@.len() != 1 || "events"@[0] != '?');
    reveal_strlit("事件流已停止");
    assert("事件流已停止"@.len() != 1 || "事件流已停止"@[0] != '?');
    reveal_strlit("Event stream stopped");
    assert("Event stream stopped"@.len() != 1 || "Event stream stopped"@[0] != '?');
    reveal_strlit("事件流过长，界面只保留前 2MB");
    assert("事件流过长，界面只保留前 2MB"@.len() != 1 || "事件流过长，界面只保留前 2MB"@[0] != '?');
    reveal_strlit("Stream too long — UI keeps the first 2MB");
    assert("Stream too long — UI keeps the first 2MB"@.len() != 1 || "Stream too long — UI keeps the first 2MB"@[0] != '?');
    reveal_strlit("时间");
    assert("时间"@.len() != 1 || "时间"@[0] != '?');
    reveal_strlit("Time");
    assert("Time"@.len() != 1 || "Time"@[0] != '?');
    reveal_strlit("字体");
    assert("字体"@.len() != 1 || "字体"@[0] != '?');
    reveal_strlit("Fonts");
    assert("Fonts"@.len() != 1 || "Fonts"@[0] != '?');
    reveal_strlit("界面字体");
    assert("界面字体"@.len() != 1 || "界面字体"@[0] != '?');
    reveal_strlit("UI font");
    assert("UI font"@.len() != 1 || "UI font"@[0] != '?');
    reveal_strlit("界面字号");
    assert("界面字号"@.len() != 1 || "界面字号"@[0] != '?');
    reveal_strlit("UI size");
    assert("UI size"@.len() != 1 || "UI size"@[0] != '?');
    reveal_strlit("代码字体");
    assert("代码字体"@.len() != 1 || "代码字体"@[0] != '?');
    reveal_strlit("Code font");
    assert("Code font"@.len() != 1 || "Code font"@[0] != '?');
    reveal_strlit("代码字号");
    assert("代码字号"@.len() != 1 || "代码字号"@[0] != '?');
    reveal_strlit("Code size");
    assert("Code size"@.len() != 1 || "Code size"@[0] != '?');
    reveal_strlit("系统默认");
    assert("系统默认"@.len() != 1 || "系统默认"@[0] != '?');
    reveal_strlit("System default");
    assert("System default"@.len() != 1 || "System default"@[0] != '?');
    reveal_strlit("字体家族留空＝系统默认；界面字号 / 代码字号范围");
    assert("字体家族留空＝系统默认；界面字号 / 代码字号范围"@.len() != 1 || "字体家族留空＝系统默认；界面字号 / 代码字号范围"@[0] != '?');
    reveal_strlit("Empty family = system default. Size ranges (UI / code)");
    assert("Empty family = system default. Size ranges (UI / code)"@.len() != 1 || "Empty family = system default. Size ranges (UI / code)"@[0] != '?');
    reveal_strlit("内容行高（px）");
    assert("内容行高（px）"@.len() != 1 || "内容行高（px）"@[0] != '?');
    reveal_strlit("Content line height (px)");
    assert("Content line height (px)"@.len() != 1 || "Content line height (px)"@[0] != '?');
}

/// No text of part 3 of the table is the `?` shown for a missing key.
proof fn lemma_part_3_texts_differ_from_fallback(key: Seq<char>)
    ensures
        messages_3(key) matches Some(t) ==> t.0 != "?"@ && t.1 != "?"@,
{
    reveal_strlit("?");
    assert("?"@.len() == 1 && "?"@[0] == '?');
    reveal_strlit("只作用于 JSON/正文内容：请求体 JSON、Docs、响应正文、响应头与 Cookies/Timeline 列表；Query/Headers 等表格组件高度固定，不受影响。范围 12–32，改完立刻生效");
    assert("只作用于 JSON/正文内容：请求体 JSON、Docs、响应正文、响应头与 Cookies/Timeline 列表；Query/Headers 等表格组件高度固定，不受影响。范围 12–32，改完立刻生效"@.len() != 1 || "只作用于 JSON/正文内容：请求体 JSON、Docs、响应正文、响应头与 Cookies/Timeline 列表；Query/Headers 等表格组件高度固定，不受影响。范围 12–32，改完立刻生效"@[0] != '?');
    reveal_strlit("Applies to JSON/content only: body JSON, docs, response body, response headers & Cookies/Timeline lists. Query/Headers tables keep a fixed row height · 12–32 · applies instantly");
    assert("Applies to JSON/content only: body JSON, docs, response body, response headers & Cookies/Timeline lists. Query/Headers tables keep a fixed row height · 12–32 · applies instantly"@.len() != 1 || "Applies to JSON/content only: body JSON, docs, response body, response headers & Cookies/Timeline lists. Query/Headers tables keep a fixed row height · 12–32 · applies instantly"@[0] != '?');
    reveal_strlit("Headers");
    assert("Headers"@.len() != 1 || "Headers"@[0] != '?');
    reveal_strlit("Body");
    assert("Body"@.len() != 1 || "Body"@[0] != '?');
    reveal_strlit("无");
    assert("无"@.len() != 1 || "无"@[0] != '?');
    reveal_strlit("None");
    assert("None"@.len() != 1 || "None"@[0] != '?');
    reveal_strlit("JSON");
    assert("JSON"@.len() != 1 || "JSON"@[0] != '?');
    reveal_strlit("文本");
    assert("文本"@.len() != 1 || "文本"@[0] != '?');
    reveal_strlit("Text");
    assert("Text"@.len() != 1 || "Text"@[0] != '?');
    reveal_strlit("表单");
    assert("表单"@.len() != 1 || "表单"@[0] != '?');
    reveal_strlit("Form");
    assert("Form"@.len() != 1 || "Form"@[0] != '?');
    reveal_strlit("Form-Data");
    assert("Form-Data"@.len() != 1 || "Form-Data"@[0] != '?');
    reveal_strlit("文件");
    assert("文件"@.len() != 1 || "文件"@[0] != '?');
    reveal_strlit("File");
    assert("File"@.len() != 1 || "File"@[0] != '?');
    reveal_strlit("原始");
    assert("原始"@.len() != 1 || "原始"@[0] != '?');
    reveal_strlit("Raw");
    assert("Raw"@.len() != 1 || "Raw"@[0] != '?');
    reveal_strlit("选择文件…");
    assert("选择文件…"@.len() != 1 || "选择文件…"@[0] != '?');
    reveal_strlit("Choose File…");
    assert("Choose File…"@.len() != 1 || "Choose File…"@[0] != '?');
    reveal_strlit("无请求体");
    assert("无请求体"@.len() != 1 || "无请求体"@[0] != '?');
    reveal_strlit("No request body");
    assert("No request body"@.len() != 1 || "No request body"@[0] != '?');
    reveal_strlit("请求体为该文件的二进制内容");
    assert("请求体为该文件的二进制内容"@.len() != 1 || "请求体为该文件的二进制内容"@[0] != '?');
    reveal_strlit("Body is the raw bytes of this file");
    assert("Body is the raw bytes of this file"@.len() != 1 || "Body is the raw bytes of this file"@[0] != '?');
    reveal_strlit("+ 字段");
    assert("+ 字段"@.len() != 1 || "+ 字段"@[0] != '?');
    reveal_strlit("+ Field");
    assert("+ Field"@.len() != 1 || "+ Field"@[0] != '?');
    reveal_strlit("从左侧选择一个请求");
    assert("从左侧选择一个请求"@.len() != 1 || "从左侧选择一个请求"@[0] != '?');
    reveal_strlit("Select a request on the left");
    assert("Select a request on the left"@.len() != 1 || "Select a request on the left"@[0] != '?');
    reveal_strlit("响应");
    assert("响应"@.len() != 1 || "响应"@[0] != '?');
    reveal_strlit("Response");
    assert("Response"@.len() != 1 || "Response"@[0] != '?');
    reveal_strlit("错误");
    assert("错误"@.len() != 1 || "错误"@[0] != '?');
    reveal_strlit("Error");
    assert("Error"@.len() != 1 || "Error"@[0] != '?');
    reveal_strlit("大小");
    assert("大小"@.len() != 1 || "大小"@[0] != '?');
    reveal_strlit("Size");
    assert("Size"@.len() != 1 || "Size"@[0] != '?');
    reveal_strlit("从 cURL 导入…");
    assert("从 cURL 导入…"@.len() != 1 || "从 cURL 导入…"@[0] != '?');
    reveal_strlit("Import from cURL…");
    assert("Import from cURL…"@.len() != 1 || "Import from cURL…"@[0] != '?');
    reveal_strlit("导入");
    assert("导入"@.len() != 1 || "导入"@[0] != '?');
    reveal_strlit("Import");
    assert("Import"@.len() != 1 || "Import"@[0] != '?');
    reveal_strlit("取消");
    assert("取消"@.len() != 1 || "取消"@[0] != '?');
    reveal_strlit("Cancel");
    assert("Cancel"@.len() != 1 || "Cancel"@[0] != '?');
    reveal_strlit("关闭");
    assert("关闭"@.len() != 1 || "关闭"@[0] != '?');
    reveal_strlit("Close");
    assert("Close"@.len() != 1 || "Close"@[0] != '?');
    reveal_strlit("完整 URL");
    assert("完整 URL"@.len() != 1 || "完整 URL"@[0] != '?');
    reveal_strlit("Full URL");
    assert("Full URL"@.len() != 1 || "Full URL"@[0] != '?');
    reveal_strlit("（未填写 URL）");
    assert("（未填写 URL）"@.len() != 1 || "（未填写 URL）"@[0] != '?');
    reveal_strlit("(no URL yet)");
    assert("(no URL yet)"@.len() != 1 || "(no URL yet)"@[0] != '?');
    reveal_strlit("请求 URL（可直接改，支持 {{变量}}）");
    assert("请求 URL（可直接改，支持 {{变量}}）"@.len() != 1 || "请求 URL（可直接改，支持 {{变量}}）"@[0] != '?');
    reveal_strlit("Request URL (editable, supports {{variables}})");
    assert("Request URL (editable, supports {{variables}})"@.len() != 1 || "Request URL (editable, supports {{variables}})"@[0] != '?');
    reveal_strlit("保存");
    assert("保存"@.len() != 1 || "保存"@[0] != '?');
    reveal_strlit("Save");
    assert("Save"@.len() != 1 || "Save"@[0] != '?');
    reveal_strlit("网络设置");
    assert("网络设置"@.len() != 1 || "网络设置"@[0] != '?');
    reveal_strlit("Network Settings");
    assert("Network Settings"@.len() != 1 || "Network Settings"@[0] != '?');
    reveal_strlit("认证");
    assert("认证"@.len() != 1 || "认证"@[0] != '?');
    reveal_strlit("Auth");
    assert("Auth"@.len() != 1 || "Auth"@[0] != '?');
    reveal_strlit("方式");
    assert("方式"@.len() != 1 || "方式"@[0] != '?');
    reveal_strlit("Type");
    assert("Type"@.len() != 1 || "Type"@[0] != '?');
    reveal_strlit("Bearer");
    assert("Bearer"@.len() != 1 || "Bearer"@[0] != '?');
    reveal_strlit("Basic");
    assert("Basic"@.len() != 1 || "Basic"@[0] != '?');
    reveal_strlit("API Key");
    assert("API Key"@.len() != 1 || "API Key"@[0] != '?');
    reveal_strlit("Token");
    assert("Token"@.len() != 1 || "Token"@[0] != '?');
    reveal_strlit("前缀");
    assert("前缀"@.len() != 1 || "前缀"@[0] != '?');
    reveal_strlit("Prefix");
    assert("Prefix"@.len() != 1 || "Prefix"@[0] != '?');
    reveal_strlit("用户名");
    assert("用户名"@.len() != 1 || "用户名"@[0] != '?');
    reveal_strlit("Username");
    assert("Username"@.len() != 1 || "Username"@[0] != '?');
    reveal_strlit("密码");
    assert("密码"@.len() != 1 || "密码"@[0] != '?');
    reveal_strlit("Password");
    assert("Password"@.len() != 1 || "Password"@[0] != '?');
    reveal_strlit("参数名");
    assert("参数名"@.len() != 1 || "参数名"@[0] != '?');
    reveal_strlit("Name");
    assert("Name"@.len() != 1 || "Name"@[0] != '?');
    reveal_strlit("参数值");
    assert("参数值"@.len() != 1 || "参数值"@[0] != '?');
    reveal_strlit("Value");
    assert("Value"@.len() != 1 || "Value"@[0] != '?');
    reveal_strlit("位置");
    assert("位置"@.len() != 1 || "位置"@[0] != '?');
    reveal_strlit("In");
    assert("In"@.len() != 1 || "In"@[0] != '?');
    reveal_strlit("请求头");
    assert("请求头"@.len() != 1 || "请求头"@[0] != '?');
    reveal_strlit("Header");
    assert("Header"@.len() != 1 || "Header"@[0] != '?');
    reveal_strlit("Query");
    assert("Query"@.len() != 1 || "Query"@[0] != '?');
}

/// No text of part 4 of the table is the `?` shown for a missing key.
proof fn lemma_part_4_texts_differ_from_fallback(key: Seq<char>)
    ensures
        messages_4(key) matches Some(t) ==> t.0 != "?"@ && t.1 != "?"@,
{
    reveal_strlit("?");
    assert("?"@.len() == 1 && "?"@[0] == '?');
    reveal_strlit("值里可以写 {{ 变量 }}，发送时按当前环境解析；Token 放环境里就不会进仓库。");
    assert("值里可以写 {{ 变量 }}，发送时按当前环境解析；Token 放环境里就不会进仓库。"@.len() != 1 || "值里可以写 {{ 变量 }}，发送时按当前环境解析；Token 放环境里就不会进仓库。"@[0] != '?');
    reveal_strlit("Values may use {{ var }} — resolved against the active environment at send time, so tokens stay out of the repo.");
    assert("Values may use {{ var }} — resolved against the active environment at send time, so tokens stay out of the repo."@.len() != 1 || "Values may use {{ var }} — resolved against the active environment at send time, so tokens stay out of the repo."@[0] != '?');
    reveal_strlit("实际发出：");
    assert("实际发出："@.len() != 1 || "实际发出："@[0] != '?');
    reveal_strlit("Sends: ");
    assert("Sends: "@.len() != 1 || "Sends: "@[0] != '?');
    reveal_strlit("这个请求已手写 Authorization 头，认证设置不会覆盖它。");
    assert("这个请求已手写 Authorization 头，认证设置不会覆盖它。"@.len() != 1 || "这个请求已手写 Authorization 头，认证设置不会覆盖它。"@[0] != '?');
    reveal_strlit("This request already sets an Authorization header by hand; auth settings will not override it.");
    assert("This request already sets an Authorization header by hand; auth settings will not override it."@.len() != 1 || "This request already sets an Authorization header by hand; auth settings will not override it."@[0] != '?');
    reveal_strlit("Cookie 罐");
    assert("Cookie 罐"@.len() != 1 || "Cookie 罐"@[0] != '?');
    reveal_strlit("Cookie Jar");
    assert("Cookie Jar"@.len() != 1 || "Cookie Jar"@[0] != '?');
    reveal_strlit("（");
    assert("（"@.len() != 1 || "（"@[0] != '?');
    reveal_strlit(" (");
    assert(" ("@.len() != 1 || " ("@[0] != '?');
    reveal_strlit(" 条）");
    assert(" 条）"@.len() != 1 || " 条）"@[0] != '?');
    reveal_strlit(")");
    assert(")"@.len() != 1 || ")"@[0] != '?');
    reveal_strlit("响应里的 Set-Cookie 会存在这儿，之后对同域请求自动带上（自己写了 Cookie 头就不插手）。清掉后立刻生效。");
    assert("响应里的 Set-Cookie 会存在这儿，之后对同域请求自动带上（自己写了 Cookie 头就不插手）。清掉后立刻生效。"@.len() != 1 || "响应里的 Set-Cookie 会存在这儿，之后对同域请求自动带上（自己写了 Cookie 头就不插手）。清掉后立刻生效。"@[0] != '?');
    reveal_strlit("Set-Cookie from responses is kept here and sent back to the same domain automatically (unless you wrote a Cookie header yourself). Clearing takes effect immediately.");
    assert("Set-Cookie from responses is kept here and sent back to the same domain automatically (unless you wrote a Cookie header yourself). Clearing takes effect immediately."@.len() != 1 || "Set-Cookie from responses is kept here and sent back to the same domain automatically (unless you wrote a Cookie header yourself). Clearing takes effect immediately."@[0] != '?');
    reveal_strlit("罐子是空的 —— 发一个带 Set-Cookie 的请求就有了");
    assert("罐子是空的 —— 发一个带 Set-Cookie 的请求就有了"@.len() != 1 || "罐子是空的 —— 发一个带 Set-Cookie 的请求就有了"@[0] != '?');
    reveal_strlit("Jar is empty — send a request that returns Set-Cookie");
    assert("Jar is empty — send a request that returns Set-Cookie"@.len() != 1 || "Jar is empty — send a request that returns Set-Cookie"@[0] != '?');
    reveal_strlit("清空本站");
    assert("清空本站"@.len() != 1 || "清空本站"@[0] != '?');
    reveal_strlit("Clear site");
    assert("Clear site"@.len() != 1 || "Clear site"@[0] != '?');
    reveal_strlit("全部清空");
    assert("全部清空"@.len() != 1 || "全部清空"@[0] != '?');
    reveal_strlit("Clear all");
    assert("Clear all"@.len() != 1 || "Clear all"@[0] != '?');
    reveal_strlit("已清掉本站 ");
    assert("已清掉本站 "@.len() != 1 || "已清掉本站 "@[0] != '?');
    reveal_strlit("Cleared ");
    assert("Cleared "@.len() != 1 || "Cleared "@[0] != '?');
    reveal_strlit("已清掉全部 ");
    assert("已清掉全部 "@.len() != 1 || "已清掉全部 "@[0] != '?');
    reveal_strlit("Cleared all ");
    assert("Cleared all "@.len() != 1 || "Cleared all "@[0] != '?');
    reveal_strlit(" 条 cookie");
    assert(" 条 cookie"@.len() != 1 || " 条 cookie"@[0] != '?');
    reveal_strlit(" cookies");
    assert(" cookies"@.len() != 1 || " cookies"@[0] != '?');
    reveal_strlit("单请求超时（秒，1–600）。留空 = 默认 30。超过就报超时；事件流只拿它当「连接 + 等首包」的上限，之后可以一直流。");
    assert("单请求超时（秒，1–600）。留空 = 默认 30。超过就报超时；事件流只拿它当「连接 + 等首包」的上限，之后可以一直流。"@.len() != 1 || "单请求超时（秒，1–600）。留空 = 默认 30。超过就报超时；事件流只拿它当「连接 + 等首包」的上限，之后可以一直流。"@[0] != '?');
    reveal_strlit("Per-request timeout in seconds (1-600). Empty = 30s. Event streams only use it for connect + first bytes, then keep streaming.");
    assert("Per-request timeout in seconds (1-600). Empty = 30s. Event streams only use it for connect + first bytes, then keep streaming."@.len() != 1 || "Per-request timeout in seconds (1-600). Empty = 30s. Event streams only use it for connect + first bytes, then keep streaming."@[0] != '?');
    reveal_strlit("超时 ");
    assert("超时 "@.len() != 1 || "超时 "@[0] != '?');
    reveal_strlit("timeout ");
    assert("timeout "@.len() != 1 || "timeout "@[0] != '?');
    reveal_strlit("已保存网络设置 · ");
    assert("已保存网络设置 · "@.len() != 1 || "已保存网络设置 · "@[0] != '?');
    reveal_strlit("Network settings saved · ");
    assert("Network settings saved · "@.len() != 1 || "Network settings saved · "@[0] != '?');
    reveal_strlit("给所有请求走代理（Clash 之类）。留空 = 直连；支持 http:// 与 socks5://，只填 127.0.0.1:7897 也行。");
    assert("给所有请求走代理（Clash 之类）。留空 = 直连；支持 http:// 与 socks5://，只填 127.0.0.1:7897 也行。"@.len() != 1 || "给所有请求走代理（Clash 之类）。留空 = 直连；支持 http:// 与 socks5://，只填 127.0.0.1:7897 也行。"@[0] != '?');
    reveal_strlit("Route every request through a proxy (Clash etc.). Empty = direct. http:// and socks5:// supported; bare 127.0.0.1:7897 works too.");
    assert("Route every request through a proxy (Clash etc.). Empty = direct. http:// and socks5:// supported; bare 127.0.0.1:7897 works too."@.len() != 1 || "Route every request through a proxy (Clash etc.). Empty = direct. http:// and socks5:// supported; bare 127.0.0.1:7897 works too."@[0] != '?');
    reveal_strlit("当前：");
    assert("当前："@.len() != 1 || "当前："@[0] != '?');
    reveal_strlit("Current: ");
    assert("Current: "@.len() != 1 || "Current: "@[0] != '?');
    reveal_strlit("直连（未设代理）");
    assert("直连（未设代理）"@.len() != 1 || "直连（未设代理）"@[0] != '?');
    reveal_strlit("Direct (no proxy)");
    assert("Direct (no proxy)"@.len() != 1 || "Direct (no proxy)"@[0] != '?');
    reveal_strlit("清空并直连");
    assert("清空并直连"@.len() != 1 || "清空并直连"@[0] != '?');
    reveal_strlit("Clear & go direct");
    assert("Clear & go direct"@.len() != 1 || "Clear & go direct"@[0] != '?');
    reveal_strlit("已启用代理 · ");
    assert("已启用代理 · "@.len() != 1 || "已启用代理 · "@[0] != '?');
    reveal_strlit("Proxy enabled · ");
    assert("Proxy enabled · "@.len() != 1 || "Proxy enabled · "@[0] != '?');
    reveal_strlit("已关闭代理（直连）");
    assert("已关闭代理（直连）"@.len() != 1 || "已关闭代理（直连）"@[0] != '?');
    reveal_strlit("Proxy disabled (direct)");
    assert("Proxy disabled (direct)"@.len() != 1 || "Proxy disabled (direct)"@[0] != '?');
    reveal_strlit("编辑环境…");
    assert("编辑环境…"@.len() != 1 || "编辑环境…"@[0] != '?');
    reveal_strlit("Edit Environment…");
    assert("Edit Environment…"@.len() != 1 || "Edit Environment…"@[0] != '?');
    reveal_strlit("回收站");
    assert("回收站"@.len() != 1 || "回收站"@[0] != '?');
    reveal_strlit("Trash");
    assert("Trash"@.len() != 1 || "Trash"@[0] != '?');
    reveal_strlit("回收站是空的");
    assert("回收站是空的"@.len() != 1 || "回收站是空的"@[0] != '?');
    reveal_strlit("Trash is empty");
    assert("Trash is empty"@.len() != 1 || "Trash is empty"@[0] != '?');
    reveal_strlit("恢复");
    assert("恢复"@.len() != 1 || "恢复"@[0] != '?');
    reveal_strlit("Restore");
    assert("Restore"@.len() != 1 || "Restore"@[0] != '?');
    reveal_strlit("清空");
    assert("清空"@.len() != 1 || "清空"@[0] != '?');
    reveal_strlit("Empty");
    assert("Empty"@.len() != 1 || "Empty"@[0] != '?');
    reveal_strlit("确认清空（不可恢复）");
    assert("确认清空（不可恢复）"@.len() != 1 || "确认清空（不可恢复）"@[0] != '?');
    reveal_strlit("Confirm empty (permanent)");
    assert("Confirm empty (permanent)"@.len() != 1 || "Confirm empty (permanent)"@[0] != '?');
    reveal_strlit("粘贴一条 curl 命令（支持 -X/-H/-d/--json/-u 等）");
    assert("粘贴一条 curl 命令（支持 -X/-H/-d/--json/-u 等）"@.len() != 1 || "粘贴一条 curl 命令（支持 -X/-H/-d/--json/-u 等）"@[0] != '?');
    reveal_strlit("Paste a curl command (-X/-H/-d/--json/-u supported)");
    assert("Paste a curl command (-X/-H/-d/--json/-u supported)"@.len() != 1 || "Paste a curl command (-X/-H/-d/--json/-u supported)"@[0] != '?');
    reveal_strlit("复制这一行");
    assert("复制这一行"@.len() != 1 || "复制这一行"@[0] != '?');
    reveal_strlit("Copy line");
    assert("Copy line"@.len() != 1 || "Copy line"@[0] != '?');
    reveal_strlit("复制值");
    assert("复制值"@.len() != 1 || "复制值"@[0] != '?');
    reveal_strlit("Copy value");
    assert("Copy value"@.len() != 1 || "Copy value"@[0] != '?');
    reveal_strlit("复制 JSON 路径");
    assert("复制 JSON 路径"@.len() != 1 || "复制 JSON 路径"@[0] != '?');
    reveal_strlit("Copy JSON path");
    assert("Copy JSON path"@.len() != 1 || "Copy JSON path"@[0] != '?');
    reveal_strlit("已复制这一行");
    assert("已复制这一行"@.len() != 1 || "已复制这一行"@[0] != '?');
    reveal_strlit("Line copied");
    assert("Line copied"@.len() != 1 || "Line copied"@[0] != '?');
    reveal_strlit("已复制该行的值");
    assert("已复制该行的值"@.len() != 1 || "已复制该行的值"@[0] != '?');
    reveal_strlit("Value copied");
    assert("Value copied"@.len() != 1 || "Value copied"@[0] != '?');
    reveal_strlit("已复制路径：");
    assert("已复制路径："@.len() != 1 || "已复制路径："@[0] != '?');
    reveal_strlit("Path copied: ");
    assert("Path copied: "@.len() != 1 || "Path copied: "@[0] != '?');
    reveal_strlit("没能定位到这行的路径：响应太大、不是 JSON，或值不唯一");
    assert("没能定位到这行的路径：响应太大、不是 JSON，或值不唯一"@.len() != 1 || "没能定位到这行的路径：响应太大、不是 JSON，或值不唯一"@[0] != '?');
    reveal_strlit("Could not locate this line's path (too big, not JSON, or value not unique)");
    assert("Could not locate this line's path (too big, not JSON, or value not unique)"@.len() != 1 || "Could not locate this line's path (too big, not JSON, or value not unique)"@[0] != '?');
    reveal_strlit("折叠全部");
    assert("折叠全部"@.len() != 1 || "折叠全部"@[0] != '?');
    reveal_strlit("Fold all");
    assert("Fold all"@.len() != 1 || "Fold all"@[0] != '?');
    reveal_strlit("展开全部");
    assert("展开全部"@.len() != 1 || "展开全部"@[0] != '?');
    reveal_strlit("Expand all");
    assert("Expand all"@.len() != 1 || "Expand all"@[0] != '?');
    reveal_strlit("还没有响应可以过滤：先发一次请求");
    assert("还没有响应可以过滤：先发一次请求"@.len() != 1 || "还没有响应可以过滤：先发一次请求"@[0] != '?');
    reveal_strlit("No response to filter yet — send a request first");
    assert("No response to filter yet — send a request first"@.len() != 1 || "No response to filter yet — send a request first"@[0] != '?');
    reveal_strlit("已复制 URL：");
    assert("已复制 URL："@.len() != 1 || "已复制 URL："@[0] != '?');
    reveal_strlit("URL copied: ");
    assert("URL copied: "@.len() != 1 || "URL copied: "@[0] != '?');
    reveal_strlit("已复制 cURL 到剪贴板");
    assert("已复制 cURL 到剪贴板"@.len() != 1 || "已复制 cURL 到剪贴板"@[0] != '?');
    reveal_strlit("cURL copied to clipboard");
    assert("cURL copied to clipboard"@.len() != 1 || "cURL copied to clipboard"@[0] != '?');
    reveal_strlit("已复制为新请求：");
    assert("已复制为新请求："@.len() != 1 || "已复制为新请求："@[0] != '?');
    reveal_strlit("Duplicated as: ");
    assert("Duplicated as: "@.len() != 1 || "Duplicated as: "@[0] != '?');
    reveal_strlit("复制失败：");
    assert("复制失败："@.len() != 1 || "复制失败："@[0] != '?');
    reveal_strlit("Duplicate failed: ");
    assert("Duplicate failed: "@.len() != 1 || "Duplicate failed: "@[0] != '?');
    reveal_strlit(" 副本");
    assert(" 副本"@.len() != 1 || " 副本"@[0] != '?');
    reveal_strlit(" copy");
    assert(" copy"@.len() != 1 || " copy"@[0] != '?');
    reveal_strlit("已移动到：");
    assert("已移动到："@.len() != 1 || "已移动到："@[0] != '?');
    reveal_strlit("Moved to: ");
    assert("Moved to: "@.len() != 1 || "Moved to: "@[0] != '?');
    reveal_strlit("已复制代码到剪贴板");
    assert("已复制代码到剪贴板"@.len() != 1 || "已复制代码到剪贴板"@[0] != '?');
    reveal_strlit("Code copied to clipboard");
    assert("Code copied to clipboard"@.len() != 1 || "Code copied to clipboard"@[0] != '?');
}

/// No text of part 5 of the table is the `?` shown for a missing key.
proof fn lemma_part_5_texts_differ_from_fallback(key: Seq<char>)
    ensures
        messages_5(key) matches Some(t) ==> t.0 != "?"@ && t.1 != "?"@,
{
    reveal_strlit("?");
    assert("?"@.len() == 1 && "?"@[0] == '?');
    reveal_strlit("已复制选中文本");
    assert("已复制选中文本"@.len() != 1 || "已复制选中文本"@[0] != '?');
    reveal_strlit("Selected text copied");
    assert("Selected text copied"@.len() != 1 || "Selected text copied"@[0] != '?');
    reveal_strlit("已美化 JSON 正文");
    assert("已美化 JSON 正文"@.len() != 1 || "已美化 JSON 正文"@[0] != '?');
    reveal_strlit("JSON formatted");
    assert("JSON formatted"@.len() != 1 || "JSON formatted"@[0] != '?');
    reveal_strlit("美化");
    assert("美化"@.len() != 1 || "美化"@[0] != '?');
    reveal_strlit("Format");
    assert("Format"@.len() != 1 || "Format"@[0] != '?');
    reveal_strlit("字符");
    assert("字符"@.len() != 1 || "字符"@[0] != '?');
    reveal_strlit("chars");
    assert("chars"@.len() != 1 || "chars"@[0] != '?');
    reveal_strlit("已复制全文");
    assert("已复制全文"@.len() != 1 || "已复制全文"@[0] != '?');
    reveal_strlit("Full value copied");
    assert("Full value copied"@.len() != 1 || "Full value copied"@[0] != '?');
    reveal_strlit("可直接编辑，实时写回");
    assert("可直接编辑，实时写回"@.len() != 1 || "可直接编辑，实时写回"@[0] != '?');
    reveal_strlit("Edit here — applied live");
    assert("Edit here — applied live"@.len() != 1 || "Edit here — applied live"@[0] != '?');
    reveal_strlit("JSON 格式错误：第 {line} 行第 {col} 列 · {msg}");
    assert("JSON 格式错误：第 {line} 行第 {col} 列 · {msg}"@.len() != 1 || "JSON 格式错误：第 {line} 行第 {col} 列 · {msg}"@[0] != '?');
    reveal_strlit("Invalid JSON: line {line}, column {col} · {msg}");
    assert("Invalid JSON: line {line}, column {col} · {msg}"@.len() != 1 || "Invalid JSON: line {line}, column {col} · {msg}"@[0] != '?');
    reveal_strlit("移动失败：");
    assert("移动失败："@.len() != 1 || "移动失败："@[0] != '?');
    reveal_strlit("Move failed: ");
    assert("Move failed: "@.len() != 1 || "Move failed: "@[0] != '?');
    reveal_strlit("复制 URL");
    assert("复制 URL"@.len() != 1 || "复制 URL"@[0] != '?');
    reveal_strlit("Copy URL");
    assert("Copy URL"@.len() != 1 || "Copy URL"@[0] != '?');
    reveal_strlit("复制为 cURL");
    assert("复制为 cURL"@.len() != 1 || "复制为 cURL"@[0] != '?');
    reveal_strlit("Copy as cURL");
    assert("Copy as cURL"@.len() != 1 || "Copy as cURL"@[0] != '?');
    reveal_strlit("复制为新请求");
    assert("复制为新请求"@.len() != 1 || "复制为新请求"@[0] != '?');
    reveal_strlit("Duplicate request");
    assert("Duplicate request"@.len() != 1 || "Duplicate request"@[0] != '?');
    reveal_strlit("移动到…");
    assert("移动到…"@.len() != 1 || "移动到…"@[0] != '?');
    reveal_strlit("Move to…");
    assert("Move to…"@.len() != 1 || "Move to…"@[0] != '?');
    reveal_strlit("折叠所有（除此节点）");
    assert("折叠所有（除此节点）"@.len() != 1 || "折叠所有（除此节点）"@[0] != '?');
    reveal_strlit("Collapse All Others");
    assert("Collapse All Others"@.len() != 1 || "Collapse All Others"@[0] != '?');
    reveal_strlit("（集合根目录）");
    assert("（集合根目录）"@.len() != 1 || "（集合根目录）"@[0] != '?');
    reveal_strlit(" (collection root)");
    assert(" (collection root)"@.len() != 1 || " (collection root)"@[0] != '?');
    reveal_strlit("正在移动：");
    assert("正在移动："@.len() != 1 || "正在移动："@[0] != '?');
    reveal_strlit("Moving: ");
    assert("Moving: "@.len() != 1 || "Moving: "@[0] != '?');
    reveal_strlit("输入集合 / 分组名过滤…");
    assert("输入集合 / 分组名过滤…"@.len() != 1 || "输入集合 / 分组名过滤…"@[0] != '?');
    reveal_strlit("Filter collections / groups…");
    assert("Filter collections / groups…"@.len() != 1 || "Filter collections / groups…"@[0] != '?');
    reveal_strlit("没有匹配的目标");
    assert("没有匹配的目标"@.len() != 1 || "没有匹配的目标"@[0] != '?');
    reveal_strlit("No matching destination");
    assert("No matching destination"@.len() != 1 || "No matching destination"@[0] != '?');
    reveal_strlit("↑↓ 选择 · Enter 移动 · Esc 取消");
    assert("↑↓ 选择 · Enter 移动 · Esc 取消"@.len() != 1 || "↑↓ 选择 · Enter 移动 · Esc 取消"@[0] != '?');
    reveal_strlit("↑↓ select · Enter move · Esc cancel");
    assert("↑↓ select · Enter move · Esc cancel"@.len() != 1 || "↑↓ select · Enter move · Esc cancel"@[0] != '?');
    reveal_strlit("把响应值存成环境变量");
    assert("把响应值存成环境变量"@.len() != 1 || "把响应值存成环境变量"@[0] != '?');
    reveal_strlit("Save response value as a variable");
    assert("Save response value as a variable"@.len() != 1 || "Save response value as a variable"@[0] != '?');
    reveal_strlit("存为变量");
    assert("存为变量"@.len() != 1 || "存为变量"@[0] != '?');
    reveal_strlit("Save as var");
    assert("Save as var"@.len() != 1 || "Save as var"@[0] != '?');
    reveal_strlit("取响应里的一个值（比如登录返回的 token）存进环境变量，后面的请求用 {{ 变量名 }} 就能引用。");
    assert("取响应里的一个值（比如登录返回的 token）存进环境变量，后面的请求用 {{ 变量名 }} 就能引用。"@.len() != 1 || "取响应里的一个值（比如登录返回的 token）存进环境变量，后面的请求用 {{ 变量名 }} 就能引用。"@[0] != '?');
    reveal_strlit("Pick a value from the response (e.g. a login token) and store it in an environment variable; later requests can reference it with {{ name }}.");
    assert("Pick a value from the response (e.g. a login token) and store it in an environment variable; later requests can reference it with {{ name }}."@.len() != 1 || "Pick a value from the response (e.g. a login token) and store it in an environment variable; later requests can reference it with {{ name }}."@[0] != '?');
    reveal_strlit("响应正文");
    assert("响应正文"@.len() != 1 || "响应正文"@[0] != '?');
    reveal_strlit("Body");
    assert("Body"@.len() != 1 || "Body"@[0] != '?');
    reveal_strlit("响应头");
    assert("响应头"@.len() != 1 || "响应头"@[0] != '?');
    reveal_strlit("Header");
    assert("Header"@.len() != 1 || "Header"@[0] != '?');
    reveal_strlit("JSON 路径（$.data.token 这种，过滤条里写的路径会自动带过来）");
    assert("JSON 路径（$.data.token 这种，过滤条里写的路径会自动带过来）"@.len() != 1 || "JSON 路径（$.data.token 这种，过滤条里写的路径会自动带过来）"@[0] != '?');
    reveal_strlit("JSON path (e.g. $.data.token; the filter bar path is prefilled)");
    assert("JSON path (e.g. $.data.token; the filter bar path is prefilled)"@.len() != 1 || "JSON path (e.g. $.data.token; the filter bar path is prefilled)"@[0] != '?');
    reveal_strlit("响应头名字（大小写不敏感）");
    assert("响应头名字（大小写不敏感）"@.len() != 1 || "响应头名字（大小写不敏感）"@[0] != '?');
    reveal_strlit("Response header name (case-insensitive)");
    assert("Response header name (case-insensitive)"@.len() != 1 || "Response header name (case-insensitive)"@[0] != '?');
    reveal_strlit("取到的值");
    assert("取到的值"@.len() != 1 || "取到的值"@[0] != '?');
    reveal_strlit("Value");
    assert("Value"@.len() != 1 || "Value"@[0] != '?');
    reveal_strlit(" 个命中，取了第一个");
    assert(" 个命中，取了第一个"@.len() != 1 || " 个命中，取了第一个"@[0] != '?');
    reveal_strlit(" matches, using the first");
    assert(" matches, using the first"@.len() != 1 || " matches, using the first"@[0] != '?');
    reveal_strlit("变量名（写进环境，别带空格）");
    assert("变量名（写进环境，别带空格）"@.len() != 1 || "变量名（写进环境，别带空格）"@[0] != '?');
    reveal_strlit("Variable name (no spaces)");
    assert("Variable name (no spaces)"@.len() != 1 || "Variable name (no spaces)"@[0] != '?');
    reveal_strlit("将写入：");
    assert("将写入："@.len() != 1 || "将写入："@[0] != '?');
    reveal_strlit("Will write to: ");
    assert("Will write to: "@.len() != 1 || "Will write to: "@[0] != '?');
    reveal_strlit("同名变量已存在，保存会覆盖");
    assert("同名变量已存在，保存会覆盖"@.len() != 1 || "同名变量已存在，保存会覆盖"@[0] != '?');
    reveal_strlit("A variable with this name exists; saving overwrites it");
    assert("A variable with this name exists; saving overwrites it"@.len() != 1 || "A variable with this name exists; saving overwrites it"@[0] != '?');
    reveal_strlit("已保存 ");
    assert("已保存 "@.len() != 1 || "已保存 "@[0] != '?');
    reveal_strlit("Saved ");
    assert("Saved "@.len() != 1 || "Saved "@[0] != '?');
    reveal_strlit(" 到 ");
    assert(" 到 "@.len() != 1 || " 到 "@[0] != '?');
    reveal_strlit(" to ");
    assert(" to "@.len() != 1 || " to "@[0] != '?');
    reveal_strlit("还没有响应");
    assert("还没有响应"@.len() != 1 || "还没有响应"@[0] != '?');
    reveal_strlit("No response yet");
    assert("No response yet"@.len() != 1 || "No response yet"@[0] != '?');
    reveal_strlit("没有可存的值");
    assert("没有可存的值"@.len() != 1 || "没有可存的值"@[0] != '?');
    reveal_strlit("Nothing to save");
    assert("Nothing to save"@.len() != 1 || "Nothing to save"@[0] != '?');
    reveal_strlit("Tab / Enter 补齐 · Esc 关闭");
    assert("Tab / Enter 补齐 · Esc 关闭"@.len() != 1 || "Tab / Enter 补齐 · Esc 关闭"@[0] != '?');
    reveal_strlit("Tab / Enter to complete · Esc to dismiss");
    assert("Tab / Enter to complete · Esc to dismiss"@.len() != 1 || "Tab / Enter to complete · Esc to dismiss"@[0] != '?');
    reveal_strlit("变量");
    assert("变量"@.len() != 1 || "变量"@[0] != '?');
    reveal_strlit("Variables");
    assert("Variables"@.len() != 1 || "Variables"@[0] != '?');
    reveal_strlit("发送时把 {{ 变量 }} 换成这里的值；点「补进环境」可把缺失的补上。");
    assert("发送时把 {{ 变量 }} 换成这里的值；点「补进环境」可把缺失的补上。"@.len() != 1 || "发送时把 {{ 变量 }} 换成这里的值；点「补进环境」可把缺失的补上。"@[0] != '?');
    reveal_strlit("{{ var }} is replaced with these values on send; use “Add to env” for missing ones.");
    assert("{{ var }} is replaced with these values on send; use “Add to env” for missing ones."@.len() != 1 || "{{ var }} is replaced with these values on send; use “Add to env” for missing ones."@[0] != '?');
    reveal_strlit("未定义变量 ");
    assert("未定义变量 "@.len() != 1 || "未定义变量 "@[0] != '?');
    reveal_strlit("Undefined variables: ");
    assert("Undefined variables: "@.len() != 1 || "Undefined variables: "@[0] != '?');
    reveal_strlit("未定义 · 发送时会原样带出");
    assert("未定义 · 发送时会原样带出"@.len() != 1 || "未定义 · 发送时会原样带出"@[0] != '?');
    reveal_strlit("undefined · sent literally");
    assert("undefined · sent literally"@.len() != 1 || "undefined · sent literally"@[0] != '?');
    reveal_strlit("补进环境");
    assert("补进环境"@.len() != 1 || "补进环境"@[0] != '?');
    reveal_strlit("Add to env");
    assert("Add to env"@.len() != 1 || "Add to env"@[0] != '?');
    reveal_strlit("环境里还没有变量");
    assert("环境里还没有变量"@.len() != 1 || "环境里还没有变量"@[0] != '?');
    reveal_strlit("No variables yet");
    assert("No variables yet"@.len() != 1 || "No variables yet"@[0] != '?');
    reveal_strlit("当前环境");
    assert("当前环境"@.len() != 1 || "当前环境"@[0] != '?');
    reveal_strlit("Environment");
    assert("Environment"@.len() != 1 || "Environment"@[0] != '?');
    reveal_strlit("敏感名默认打码");
    assert("敏感名默认打码"@.len() != 1 || "敏感名默认打码"@[0] != '?');
    reveal_strlit("secret-looking names are masked");
    assert("secret-looking names are masked"@.len() != 1 || "secret-looking names are masked"@[0] != '?');
    reveal_strlit("显示明文");
    assert("显示明文"@.len() != 1 || "显示明文"@[0] != '?');
    reveal_strlit("Reveal");
    assert("Reveal"@.len() != 1 || "Reveal"@[0] != '?');
    reveal_strlit("隐藏明文");
    assert("隐藏明文"@.len() != 1 || "隐藏明文"@[0] != '?');
    reveal_strlit("Hide");
    assert("Hide"@.len() != 1 || "Hide"@[0] != '?');
}

/// No text of part 6 of the table is the `?` shown for a missing key.
proof fn lemma_part_6_texts_differ_from_fallback(key: Seq<char>)
    ensures
        messages_6(key) matches Some(t) ==> t.0 != "?"@ && t.1 != "?"@,
{
    reveal_strlit("?");
    assert("?"@.len() == 1 && "?"@[0] == '?');
    reveal_strlit("无（仅 base）");
    assert("无（仅 base）"@.len() != 1 || "无（仅 base）"@[0] != '?');
    reveal_strlit("none (base only)");
    assert("none (base only)"@.len() != 1 || "none (base only)"@[0] != '?');
    reveal_strlit("从文件导入（Postman / OpenAPI / HAR）…");
    assert("从文件导入（Postman / OpenAPI / HAR）…"@.len() != 1 || "从文件导入（Postman / OpenAPI / HAR）…"@[0] != '?');
    reveal_strlit("Import from file (Postman / OpenAPI / HAR)…");
    assert("Import from file (Postman / OpenAPI / HAR)…"@.len() != 1 || "Import from file (Postman / OpenAPI / HAR)…"@[0] != '?');
    reveal_strlit("已导入：");
    assert("已导入："@.len() != 1 || "已导入："@[0] != '?');
    reveal_strlit("Imported: ");
    assert("Imported: "@.len() != 1 || "Imported: "@[0] != '?');
    reveal_strlit("个接口");
    assert("个接口"@.len() != 1 || "个接口"@[0] != '?');
    reveal_strlit(" requests");
    assert(" requests"@.len() != 1 || " requests"@[0] != '?');
    reveal_strlit("个分组");
    assert("个分组"@.len() != 1 || "个分组"@[0] != '?');
    reveal_strlit(" groups");
    assert(" groups"@.len() != 1 || " groups"@[0] != '?');
    reveal_strlit("读文件失败：");
    assert("读文件失败："@.len() != 1 || "读文件失败："@[0] != '?');
    reveal_strlit("Cannot read file: ");
    assert("Cannot read file: "@.len() != 1 || "Cannot read file: "@[0] != '?');
    reveal_strlit("导入失败：");
    assert("导入失败："@.len() != 1 || "导入失败："@[0] != '?');
    reveal_strlit("Import failed: ");
    assert("Import failed: "@.len() != 1 || "Import failed: "@[0] != '?');
    reveal_strlit("历史");
    assert("历史"@.len() != 1 || "历史"@[0] != '?');
    reveal_strlit("History");
    assert("History"@.len() != 1 || "History"@[0] != '?');
    reveal_strlit("还没有发送记录");
    assert("还没有发送记录"@.len() != 1 || "还没有发送记录"@[0] != '?');
    reveal_strlit("No requests sent yet");
    assert("No requests sent yet"@.len() != 1 || "No requests sent yet"@[0] != '?');
    reveal_strlit("刚刚");
    assert("刚刚"@.len() != 1 || "刚刚"@[0] != '?');
    reveal_strlit("now");
    assert("now"@.len() != 1 || "now"@[0] != '?');
    reveal_strlit("前");
    assert("前"@.len() != 1 || "前"@[0] != '?');
    reveal_strlit(" ago");
    assert(" ago"@.len() != 1 || " ago"@[0] != '?');
    reveal_strlit("工作区不存在，请通过菜单选择目录");
    assert("工作区不存在，请通过菜单选择目录"@.len() != 1 || "工作区不存在，请通过菜单选择目录"@[0] != '?');
    reveal_strlit("Workspace missing, choose a folder from the menu");
    assert("Workspace missing, choose a folder from the menu"@.len() != 1 || "Workspace missing, choose a folder from the menu"@[0] != '?');
    reveal_strlit("设置");
    assert("设置"@.len() != 1 || "设置"@[0] != '?');
    reveal_strlit("Settings");
    assert("Settings"@.len() != 1 || "Settings"@[0] != '?');
    reveal_strlit("关闭");
    assert("关闭"@.len() != 1 || "关闭"@[0] != '?');
    reveal_strlit("Close");
    assert("Close"@.len() != 1 || "Close"@[0] != '?');
    reveal_strlit("样式");
    assert("样式"@.len() != 1 || "样式"@[0] != '?');
    reveal_strlit("Styles");
    assert("Styles"@.len() != 1 || "Styles"@[0] != '?');
    reveal_strlit("通用");
    assert("通用"@.len() != 1 || "通用"@[0] != '?');
    reveal_strlit("General");
    assert("General"@.len() != 1 || "General"@[0] != '?');
    reveal_strlit("网络");
    assert("网络"@.len() != 1 || "网络"@[0] != '?');
    reveal_strlit("Network");
    assert("Network"@.len() != 1 || "Network"@[0] != '?');
    reveal_strlit("备份");
    assert("备份"@.len() != 1 || "备份"@[0] != '?');
    reveal_strlit("Backups");
    assert("Backups"@.len() != 1 || "Backups"@[0] != '?');
    reveal_strlit("下拉框样式：点行选中即生效并记入配置；点“样例”可看这一款的打开态");
    assert("下拉框样式：点行选中即生效并记入配置；点“样例”可看这一款的打开态"@.len() != 1 || "下拉框样式：点行选中即生效并记入配置；点“样例”可看这一款的打开态"@[0] != '?');
    reveal_strlit("Dropdown style — click a row to apply; click a sample to preview its open state");
    assert("Dropdown style — click a row to apply; click a sample to preview its open state"@.len() != 1 || "Dropdown style — click a row to apply; click a sample to preview its open state"@[0] != '?');
    reveal_strlit("语言");
    assert("语言"@.len() != 1 || "语言"@[0] != '?');
    reveal_strlit("Language");
    assert("Language"@.len() != 1 || "Language"@[0] != '?');
    reveal_strlit("工作区");
    assert("工作区"@.len() != 1 || "工作区"@[0] != '?');
    reveal_strlit("Workspace");
    assert("Workspace"@.len() != 1 || "Workspace"@[0] != '?');
    reveal_strlit("选择目录…");
    assert("选择目录…"@.len() != 1 || "选择目录…"@[0] != '?');
    reveal_strlit("Choose folder…");
    assert("Choose folder…"@.len() != 1 || "Choose folder…"@[0] != '?');
    reveal_strlit("自动备份间隔");
    assert("自动备份间隔"@.len() != 1 || "自动备份间隔"@[0] != '?');
    reveal_strlit("Auto-backup");
    assert("Auto-backup"@.len() != 1 || "Auto-backup"@[0] != '?');
    reveal_strlit("Off");
    assert("Off"@.len() != 1 || "Off"@[0] != '?');
    reveal_strlit(" 分钟");
    assert(" 分钟"@.len() != 1 || " 分钟"@[0] != '?');
    reveal_strlit(" min");
    assert(" min"@.len() != 1 || " min"@[0] != '?');
    reveal_strlit(" 天");
    assert(" 天"@.len() != 1 || " 天"@[0] != '?');
    reveal_strlit(" day");
    assert(" day"@.len() != 1 || " day"@[0] != '?');
    reveal_strlit("备份保留份数");
    assert("备份保留份数"@.len() != 1 || "备份保留份数"@[0] != '?');
    reveal_strlit("Kept backups");
    assert("Kept backups"@.len() != 1 || "Kept backups"@[0] != '?');
    reveal_strlit(" 份");
    assert(" 份"@.len() != 1 || " 份"@[0] != '?');
    reveal_strlit(" copies");
    assert(" copies"@.len() != 1 || " copies"@[0] != '?');
    reveal_strlit("默认一天一次，且只在工作区有改动时备份；超过保留份数的旧备份会自动清掉（改动最多 30 秒后生效）");
    assert("默认一天一次，且只在工作区有改动时备份；超过保留份数的旧备份会自动清掉（改动最多 30 秒后生效）"@.len() != 1 || "默认一天一次，且只在工作区有改动时备份；超过保留份数的旧备份会自动清掉（改动最多 30 秒后生效）"@[0] != '?');
    reveal_strlit("Daily by default, and only when something changed; anything beyond the kept count is pruned (changes apply within 30s)");
    assert("Daily by default, and only when something changed; anything beyond the kept count is pruned (changes apply within 30s)"@.len() != 1 || "Daily by default, and only when something changed; anything beyond the kept count is pruned (changes apply within 30s)"@[0] != '?');
    reveal_strlit("从备份恢复…");
    assert("从备份恢复…"@.len() != 1 || "从备份恢复…"@[0] != '?');
    reveal_strlit("Restore from backup…");
    assert("Restore from backup…"@.len() != 1 || "Restore from backup…"@[0] != '?');
    reveal_strlit("经典描边");
    assert("经典描边"@.len() != 1 || "经典描边"@[0] != '?');
    reveal_strlit("Classic outline");
    assert("Classic outline"@.len() != 1 || "Classic outline"@[0] != '?');
    reveal_strlit("原样式：粗描边 + 文字箭头");
    assert("原样式：粗描边 + 文字箭头"@.len() != 1 || "原样式：粗描边 + 文字箭头"@[0] != '?');
    reveal_strlit("Original: heavy border + text caret");
    assert("Original: heavy border + text caret"@.len() != 1 || "Original: heavy border + text caret"@[0] != '?');
    reveal_strlit("幽灵无框");
    assert("幽灵无框"@.len() != 1 || "幽灵无框"@[0] != '?');
    reveal_strlit("Ghost");
    assert("Ghost"@.len() != 1 || "Ghost"@[0] != '?');
    reveal_strlit("无边框，悬停才浮出浅底");
    assert("无边框，悬停才浮出浅底"@.len() != 1 || "无边框，悬停才浮出浅底"@[0] != '?');
    reveal_strlit("No box; surface shows up on hover");
    assert("No box; surface shows up on hover"@.len() != 1 || "No box; surface shows up on hover"@[0] != '?');
    reveal_strlit("强化描边（推荐）");
    assert("强化描边（推荐）"@.len() != 1 || "强化描边（推荐）"@[0] != '?');
    reveal_strlit("Outlined (recommended)");
    assert("Outlined (recommended)"@.len() != 1 || "Outlined (recommended)"@[0] != '?');
    reveal_strlit("细描边；悬停/打开时描边与箭头染品牌紫");
    assert("细描边；悬停/打开时描边与箭头染品牌紫"@.len() != 1 || "细描边；悬停/打开时描边与箭头染品牌紫"@[0] != '?');
    reveal_strlit("Fine border; border and caret turn brand purple on hover/open");
    assert("Fine border; border and caret turn brand purple on hover/open"@.len() != 1 || "Fine border; border and caret turn brand purple on hover/open"@[0] != '?');
    reveal_strlit("下划线页签");
    assert("下划线页签"@.len() != 1 || "下划线页签"@[0] != '?');
    reveal_strlit("Underline");
    assert("Underline"@.len() != 1 || "Underline"@[0] != '?');
    reveal_strlit("无盒，品牌紫下划线标记开合");
    assert("无盒，品牌紫下划线标记开合"@.len() != 1 || "无盒，品牌紫下划线标记开合"@[0] != '?');
    reveal_strlit("No box; brand-purple underline marks open state");
    assert("No box; brand-purple underline marks open state"@.len() != 1 || "No box; brand-purple underline marks open state"@[0] != '?');
    reveal_strlit("胶囊");
    assert("胶囊"@.len() != 1 || "胶囊"@[0] != '?');
    reveal_strlit("Pill");
    assert("Pill"@.len() != 1 || "Pill"@[0] != '?');
    reveal_strlit("胶囊底；打开时紫底白字");
    assert("胶囊底；打开时紫底白字"@.len() != 1 || "胶囊底；打开时紫底白字"@[0] != '?');
    reveal_strlit("Pill background; turns purple with white text when open");
    assert("Pill background; turns purple with white text when open"@.len() != 1 || "Pill background; turns purple with white text when open"@[0] != '?');
    reveal_strlit("分离箭头");
    assert("分离箭头"@.len() != 1 || "分离箭头"@[0] != '?');
    reveal_strlit("Split caret");
    assert("Split caret"@.len() != 1 || "Split caret"@[0] != '?');
    reveal_strlit("原生弹钮：箭头区带分隔线，悬停独立高亮");
    assert("原生弹钮：箭头区带分隔线，悬停独立高亮"@.len() != 1 || "原生弹钮：箭头区带分隔线，悬停独立高亮"@[0] != '?');
    reveal_strlit("Native popup button: divider before the caret zone");
    assert("Native popup button: divider before the caret zone"@.len() != 1 || "Native popup button: divider before the caret zone"@[0] != '?');
}

/// Both locales know the same keys: a key shows as `?` in one locale exactly
/// when it does in the other.
pub proof fn law_locales_share_keys(key: Seq<char>)
    ensures
        (tr_text(Locale::Zh, key) == "?"@) == (tr_text(Locale::En, key) == "?"@),
{
    lemma_part_1_texts_differ_from_fallback(key);
    lemma_part_2_texts_differ_from_fallback(key);
    lemma_part_3_texts_differ_from_fallback(key);
    lemma_part_4_texts_differ_from_fallback(key);
    lemma_part_5_texts_differ_from_fallback(key);
    lemma_part_6_texts_differ_from_fallback(key);
}

} // verus!
