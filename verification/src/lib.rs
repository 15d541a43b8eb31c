//! confguard: relocate a sensitive per-project configuration file into a
//! managed store, replace it with a symbolic link, and record recovery
//! metadata inside the link target as a delimited text section.
//!
//! This crate holds the verified logic: the section protocol (embedding,
//! parsing and removal of the metadata block), sentinel allocation, the
//! path-string utilities, and the guard state machine's decisions. The
//! filesystem itself is driven by a thin unverified shell around the crate.

pub mod cli;
pub mod decimal;
pub mod errors;
pub mod gitignore;
pub mod guard;
pub mod laws;
pub mod movelink;
pub mod paths;
pub mod render;
pub mod section;
pub mod section_write;
pub mod sentinel;
pub mod settings;
pub mod sops;
pub mod text;
pub mod trusted;
