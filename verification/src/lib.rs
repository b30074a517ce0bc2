use vstd::prelude::*;

pub mod aliases;
pub mod app;
pub mod command_handler;
pub mod commands;
pub mod config;
pub mod events;
pub mod focus;
pub mod format_cache;
pub mod formatting;
pub mod formatting_laws;
pub mod frame;
pub mod geometry;
pub mod layout;
pub mod layout_laws;
pub mod message;
pub mod pane_tree;
pub mod pane_tree_laws;
pub mod persistence;
pub mod render;
pub mod telegram;
pub mod text;
pub mod utils;
pub mod widgets;
pub mod wrap;
