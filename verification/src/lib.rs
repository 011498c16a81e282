//! Core logic of a Slack joke-duty scheduling bot: calendar and date
//! resolution rules, duplicate-schedule detection, member selection, and the
//! persisted configuration with its JSON form.
//!
//! Network calls to the Slack Web API, file I/O and the command line live in
//! the accompanying application; this crate holds the rules they drive.

pub mod api;
pub mod calendar;
pub mod clock;
pub mod codec;
pub mod config;
pub mod dates;
pub mod datetime;
pub mod errors;
pub mod guard;
pub mod plan;
pub mod resolver;
pub mod selector;
pub mod strutil;
