# treq-app

The logic of treq, a desktop HTTP client, as a library verified with Verus,
and a small program around it.

- `src/` — the library. Its functions carry `requires`/`ensures` contracts
  that Verus proves; the `law_*` proof functions state properties that span
  several functions (what an operation keeps, what a second call undoes, what
  a menu id asks for). Outside code (std's `Path` equality, case mapping and
  character classes, `serde_json`) is reached only through a few
  `#[verifier::external_body]` wrappers: their contracts are assumed, not
  proved, and each one's doc comment says what is assumed of the call.
  - JSON bodies: `jsonview` (lexing lines), `fold` (folding groups),
    `body_view`, `request_edit` (re-indenting, error notes).
  - The workspace tree: `model`, `tree`, `grouptree`, `flatten`, `tree_edit`,
    `tree_drag`, `select`, `search`, `move_dialog`.
  - Requests: `kv_table`, `auth_form`, `send`, `stream`, `files`,
    `response_ui`, `response_pane`, `panes`, `runs`.
  - Menus, dialogs and texts: `menu`, `dialogs`, `env_edit`, `vars_save`,
    `vars_panel`, `backup`, `import`, `trash`, `quick`, `nav`, `keys`,
    `kv_zoom`, `i18n`, `text`.
- `tests/` — tests of the library on concrete values.
- `app/` — the program: a terminal view of a response body and the crash
  log; sizes and durations for people (floating point) are formatted there.
