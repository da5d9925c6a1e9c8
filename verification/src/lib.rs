//! Verified core of a terminal client for GitLab projects: tab navigation,
//! key handling, table selection, text formatting, markdown styling,
//! remote-URL parsing, API endpoint building and the recent-repository list.

pub mod app;
pub mod event;
pub mod table;
pub mod gitlab;
pub mod utils;
pub mod ui;
