//! The screens: what each holds, how it answers keys, and what it shows.

pub mod bookmark_browser;
pub mod bookmark_note_prompt;
pub mod confirm;
pub mod conflict_viewer;
pub mod help;
pub mod kanban;
pub mod label_prompt;
pub mod main;
pub mod search;
