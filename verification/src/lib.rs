//! A container init and process supervisor, as a verified decision core.
//!
//! The crate holds the rules of supervision: how a manifest is validated, how a
//! service's configuration directory is named and laid out, how a child's
//! output becomes log records, when a service is restarted, how orphaned
//! descendants are told apart from managed children, and how a session shuts
//! down. Each rule is a function from plain values to plain values with a
//! contract; the program around the crate performs the system calls and hands
//! their outcomes back as events.

pub mod cli;
pub mod config;
pub mod digest;
pub mod error;
pub mod json;
pub mod name_map;
pub mod path;
pub mod process_manager;
pub mod subreaper;
pub mod text;
