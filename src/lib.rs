//! A front end over the system package tool, Flatpak and a meta-manager that
//! proxies other distributions' package formats: parsers for the tools'
//! output, the installed-package cache, the conflict classifier, and the
//! install / remove state machine.

pub mod cli;
pub mod commands;
pub mod conflict;
pub mod details;
pub mod flatpak_search;
pub mod installed;
pub mod meta_search;
pub mod operation;
pub mod process;
pub mod ranking;
pub mod records;
pub mod search;
pub mod text;
