//! The commands the tool understands, as plain data.  Argument
//! parsing and dispatch live in the unverified shell; it translates
//! parsed arguments into these values.

use vstd::prelude::*;

verus! {

/// One invocation of the tool.
pub enum Commands {
    Info,
    Show { source_dir: String },
    Guard { source_dir: String, absolute: bool },
    Unguard { source_dir: String },
    GuardOne { source_dir: String, source_path: String },
    Relink { envrc_path: String },
    ReplaceLink { link: String },
    FixRunConfig { source_dir: String },
    Init { source_dir: String, template_path: Option<String> },
    SopsEnc { dir: Option<String> },
    SopsDec { dir: Option<String> },
    SopsClean { dir: Option<String> },
    SopsInit { template_path: Option<String> },
}

} // verus!
