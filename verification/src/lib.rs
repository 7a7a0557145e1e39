//! Core logic of the treq HTTP client: JSON line lexing and folding,
//! navigation history, search and tree flattening, edits of the workspace
//! tree, key-value tables, menus and their commands, dialogs' decisions,
//! streamed responses, and the UI texts.

pub mod text;
pub mod jsonview;
pub mod fold;
pub mod nav;
pub mod model;
pub mod search;
pub mod response_ui;
pub mod kv_zoom;
pub mod send;
pub mod vars_save;
pub mod backup;
pub mod i18n;
pub mod tree;
pub mod grouptree;
pub mod flatten;
pub mod panes;
pub mod move_dialog;
pub mod menu;
pub mod runs;
pub mod files;
pub mod request_edit;
pub mod keys;
pub mod body_view;
pub mod stream;
pub mod quick;
pub mod tree_drag;
pub mod tree_edit;
pub mod kv_table;
pub mod dialogs;
pub mod import;
pub mod env_edit;
pub mod select;
pub mod vars_panel;
pub mod response_pane;
pub mod auth_form;
pub mod trash;
