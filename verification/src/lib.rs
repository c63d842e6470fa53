//! Verified core of the Ruvo web framework and its project tooling.
//!
//! Framework pieces: route paths (`path`, `router`), sizes and durations
//! (`human`), TOML documents and `ruvo.toml` settings (`config`, `doc_edit`),
//! typed route values (`route_value`), request and response text (`request`,
//! `response`, `middleware`, `bind`, `server`, `upload`, `static_file`).
//!
//! Tooling pieces: names and time stamps (`util`), model columns (`fields`),
//! generated sources (`ruvo_gen`, `sova_gen`, `sova_web`, `sova_plugin`), edits
//! of existing project files (`registry`, `manifest`), project discovery
//! (`project`), and the decisions of the `dev` / `db` commands (`dev`, `watch`,
//! `cli`). `text` holds the string operations they share; `fixtures` the
//! routes of the comparison stand.

pub mod text;
pub mod path;
pub mod human;
pub mod util;
pub mod fields;
pub mod ruvo_gen;
pub mod sova_gen;
pub mod sova_web;
pub mod sova_plugin;
pub mod registry;
pub mod manifest;
pub mod project;
pub mod config;
pub mod doc_edit;
pub mod router;
pub mod middleware;
pub mod request;
pub mod response;
pub mod bind;
pub mod server;
pub mod upload;
pub mod static_file;
pub mod fixtures;
pub mod watch;
pub mod dev;
pub mod cli;
pub mod route_value;
