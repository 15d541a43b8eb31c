//! The error taxonomy of the crate.
//!
//! Every fallible operation returns one of these variants; the contracts of
//! the state-machine functions say exactly which variant comes on which
//! input.

use vstd::prelude::*;

verus! {

#[derive(Debug, Clone)]
pub enum ConfGuardError {
    FileNotFound(String),
    AlreadyGuarded(String),
    NotGuarded(String),
    NoEnvrcFile(String),
    FileAlreadyExists(String),
    TargetAlreadyExists(String),
    ConfigFileNotFound(String),
    ConfigFileAlreadyExists(String),
    ConfigNotFoundWithHint(String),
    SourceNotFound(String),
    SourceNotInProject(String),
    TargetDirectoryNotSet,
    LinkNotFound(String),
    NotSymbolicLink(String),
    PathNotSymbolicLink(String),
    ResourceNotFound(String),
    NotDirectory,
    PathNotAbsolute(String),
    SourcePathNotFound(String),
    SourceIsSymlink(String),
    SourceLinkNotFound(String),
    SourceNotSymlink(String),
    PathPrefixMismatch(String),
    ProjectAlreadyGuardedSymlink,
    NotGuardedEnvrc(String),
    NoParentDirectory(String),
    LinkAlreadyExists(String, String),
    LinkPointsElsewhere(String, String),
    SourceDirectoryNotFound(String),
    ProjectNotGuardedNotSymlink,
    SentinelAlreadySet,
    InvalidSourceDirectory,
    SentinelExists(Vec<String>),
    CannotDetermineHome,
    CannotCalculateRelativePath,
    OriginalPathNotFound(String),
    FailedToCreateRelativePath,
    InvalidUtf8Path(String),
    FileOperation(String),
    Internal(String),
}

pub type ConfGuardResult<T> = Result<T, ConfGuardError>;

fn describe(prefix: &str, detail: &str) -> (r: String)
    ensures
        r@ == prefix@ + detail@,
{
    String::from_str(prefix).concat(detail)
}

fn describe_quoted(prefix: &str, detail: &str) -> (r: String)
    ensures
        r@ == prefix@ + "\""@ + detail@ + "\""@,
{
    String::from_str(prefix).concat("\"").concat(detail).concat("\"")
}

impl ConfGuardError {
    /// A human-readable description of the error, mirroring the wording
    /// that the command-line shell prints.
    pub fn message(&self) -> String {
        match self {
            ConfGuardError::FileNotFound(p) => describe("File not found: ", p.as_str()),
            ConfGuardError::AlreadyGuarded(p) => describe("Project already guarded: ", p.as_str()),
            ConfGuardError::NotGuarded(p) => describe("Project not guarded: ", p.as_str()),
            ConfGuardError::NoEnvrcFile(p) => describe("No .envrc file found in: ", p.as_str()),
            ConfGuardError::FileAlreadyExists(p) => describe("File already exists: ", p.as_str()),
            ConfGuardError::TargetAlreadyExists(p) => describe(
                "Target already exists: ",
                p.as_str(),
            ),
            ConfGuardError::ConfigFileNotFound(p) => describe(
                "Configuration file not found: ",
                p.as_str(),
            ),
            ConfGuardError::ConfigFileAlreadyExists(p) => describe(
                "Configuration file already exists: ",
                p.as_str(),
            ),
            ConfGuardError::ConfigNotFoundWithHint(p) => describe(
                "Configuration file not found at: ",
                p.as_str(),
            ).concat(". Run 'confguard sops-init' to create it."),
            ConfGuardError::SourceNotFound(p) => describe("Source does not exist: ", p.as_str()),
            ConfGuardError::SourceNotInProject(p) => describe(
                "Source must be within project directory: ",
                p.as_str(),
            ),
            ConfGuardError::TargetDirectoryNotSet => String::from_str("Target directory not set"),
            ConfGuardError::LinkNotFound(p) => describe("Link does not exist: ", p.as_str()),
            ConfGuardError::NotSymbolicLink(p) => describe("Not a symbolic link: ", p.as_str()),
            ConfGuardError::PathNotSymbolicLink(p) => describe(
                "Path is not a symbolic link: ",
                p.as_str(),
            ),
            ConfGuardError::ResourceNotFound(p) => describe(
                "Resource file not found: ",
                p.as_str(),
            ),
            ConfGuardError::NotDirectory => String::from_str(
                "The provided path is not a directory",
            ),
            ConfGuardError::PathNotAbsolute(p) => describe("Path must be absolute: ", p.as_str()),
            ConfGuardError::SourcePathNotFound(p) => describe(
                "Source path does not exist: ",
                p.as_str(),
            ),
            ConfGuardError::SourceIsSymlink(p) => describe(
                "Source is already a symbolic link: ",
                p.as_str(),
            ),
            ConfGuardError::SourceLinkNotFound(p) => describe(
                "Source link does not exist: ",
                p.as_str(),
            ),
            ConfGuardError::SourceNotSymlink(p) => describe(
                "Source is not a symbolic link: ",
                p.as_str(),
            ),
            ConfGuardError::PathPrefixMismatch(p) => describe_quoted(
                "Path does not start with: ",
                p.as_str(),
            ),
            ConfGuardError::ProjectAlreadyGuardedSymlink => String::from_str(
                "Project appears to be already guarded - .envrc is a symlink",
            ),
            ConfGuardError::NotGuardedEnvrc(p) => describe(
                "Not a guarded envrc file: ",
                p.as_str(),
            ),
            ConfGuardError::NoParentDirectory(p) => describe(
                "Failed to get parent directory of: ",
                p.as_str(),
            ),
            ConfGuardError::LinkAlreadyExists(l, t) => describe(
                "Link already exists: ",
                l.as_str(),
            ).concat(" -> ").concat(t.as_str()),
            ConfGuardError::LinkPointsElsewhere(l, t) => describe(
                "Link exists but points elsewhere: ",
                l.as_str(),
            ).concat(" -> ").concat(t.as_str()),
            ConfGuardError::SourceDirectoryNotFound(p) => describe(
                "Source directory does not exist: ",
                p.as_str(),
            ),
            ConfGuardError::ProjectNotGuardedNotSymlink => String::from_str(
                "Project is not guarded - .envrc is not a symlink",
            ),
            ConfGuardError::SentinelAlreadySet => String::from_str("Sentinel already set"),
            ConfGuardError::InvalidSourceDirectory => String::from_str(
                "Invalid source directory path",
            ),
            ConfGuardError::SentinelExists(_) => String::from_str(
                "Project appears to be already guarded - sentinel exists",
            ),
            ConfGuardError::CannotDetermineHome => String::from_str(
                "Cannot determine home directory",
            ),
            ConfGuardError::CannotCalculateRelativePath => String::from_str(
                "Cannot calculate relative path",
            ),
            ConfGuardError::OriginalPathNotFound(p) => describe(
                "Original path does not exist: ",
                p.as_str(),
            ),
            ConfGuardError::FailedToCreateRelativePath => String::from_str(
                "Failed to create relative path",
            ),
            ConfGuardError::InvalidUtf8Path(p) => describe(
                "Path contains invalid UTF-8: ",
                p.as_str(),
            ),
            ConfGuardError::FileOperation(m) => describe("File operation failed: ", m.as_str()),
            ConfGuardError::Internal(m) => describe("Internal error: ", m.as_str()),
        }
    }
}

} // verus!
