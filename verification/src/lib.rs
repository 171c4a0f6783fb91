use vstd::prelude::*;

pub mod anim;
pub mod answers;
pub mod app;
pub mod bookmarks;
pub mod cli;
pub mod clipboard;
pub mod commands;
pub mod config;
pub mod conflicts;
pub mod digest;
pub mod effects;
pub mod event;
pub mod keys;
pub mod laws;
pub mod models;
pub mod operations;
pub mod replies;
pub mod screens;
pub mod state;
pub mod text;
pub mod ui;

verus! {

} // verus!
