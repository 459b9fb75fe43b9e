//! The decision logic of a read-only, tabbed text viewer, proved against its contracts.
//!
//! Every module holds plain data types and the functions that decide on them: how text is
//! laid out, which tab is active, what a key press means, how two revisions differ. Reading
//! files, talking to the terminal and running processes happen outside; they hand plain values
//! in and take plain values out.

pub mod active_app_proxy;
pub mod app_id;
pub mod application;
pub mod apps;
pub mod clipboard;
pub mod config;
pub mod diff_view;
pub mod doc_view;
pub mod draw;
pub mod editor;
pub mod editor_view;
pub mod file_diff;
pub mod file_watcher;
pub mod git;
pub mod graphics;
pub mod handlers;
pub mod highlights;
pub mod history;
pub mod icons;
pub mod input;
pub mod key_menu;
pub mod language_servers;
pub mod layers;
pub mod lsp_message;
pub mod paths;
pub mod picker_handlers;
pub mod register;
pub mod screen;
pub mod selection;
pub mod session;
pub mod strings;
pub mod surface;
pub mod tab_manager;
pub mod terminal;
pub mod terminal_style;
pub mod text;
pub mod textobject_menu;
pub mod theme;
pub mod transaction;
pub mod unicode;
pub mod view_render;
pub mod welcome;
