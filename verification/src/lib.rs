use vstd::prelude::*;

pub mod acp;
pub mod actions;
pub mod compare_mouse;
pub mod config;
pub mod copy_menu;
pub mod diff_keys;
pub mod diff_request;
pub mod file_tree;
pub mod git;
pub mod graph;
pub mod main_mouse;
pub mod help;
pub mod model;
pub mod nav;
pub mod pager;
pub mod picker;
pub mod platform;
pub mod popup;
pub mod scroll;
pub mod search;
pub mod text;
pub mod theme;
pub mod ui;
pub mod undo;

verus! {
} // verus!
