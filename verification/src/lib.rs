//! Selective bulk file transfer: the rules that decide which files of a
//! source tree are copied or moved into one flat destination directory.
//!
//! The library performs no file-system access itself. It is driven by a
//! caller that reports what it found on disk and carries out the actions
//! it is handed back.

pub mod args;
mod clap_api;
pub mod config;
pub mod filter;
pub mod laws;
pub mod tree;
pub mod walk;

pub use crate::args::parse_arguments;
pub use crate::config::Config;
pub use crate::walk::run;
