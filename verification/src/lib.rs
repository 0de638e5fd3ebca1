//! Verified core of the Clockify command-line client: dates, times and
//! durations, approval windows and listed ranges, name and id resolution,
//! edits and new entries, time per project, API paging and refusals, the
//! configuration, and the state and forms of the terminal UI.

pub mod api;
pub mod calendar;
pub mod commands;
pub mod config;
pub mod models;
pub mod output;
pub mod resolve;
pub mod sort;
pub mod status_cache;
pub mod text;
pub mod time;
pub mod tui;
