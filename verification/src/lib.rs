//! The state behind a grid of terminal sessions: what each session is doing, what it reports, and
//! what its tile shows.

pub mod activity;
pub mod config;
pub mod git_info;
pub mod grid;
pub mod hooks;
pub mod json;
pub mod number;
pub mod path;
pub mod session;
pub mod split;
pub mod terminal;
pub mod text;
pub mod transcript;
