//! The configuration value threaded through every entry point: the
//! base directory of the managed store, the storage subdirectory, and
//! the section format version.

use vstd::prelude::*;
use crate::sops::SopsConfig;

verus! {

/// The section format version this build writes.
pub const DEFAULT_VERSION: i64 = 3;

/// The resolved configuration.
pub struct Settings {
    pub confguard_base_dir: String,
    pub guarded: String,
    pub version: i64,
    pub sops: Option<SopsConfig>,
}

fn clone_strings(v: &Vec<String>) -> (r: Vec<String>)
    ensures
        r.deep_view() == v.deep_view(),
{
    let n: usize = v.len();
    let mut r: Vec<String> = Vec::new();
    let mut i: usize = 0;
    proof {
        assert(r.deep_view() =~= v.deep_view().subrange(0, 0));
    }
    while i < n
        invariant
            i <= n,
            n == v@.len(),
            n == v.deep_view().len(),
            r.deep_view() == v.deep_view().subrange(0, i as int),
        decreases n - i,
    {
        let ghost od: Seq<Seq<char>> = r.deep_view();
        r.push(String::from_str(v[i].as_str()));
        proof {
            assert(r.deep_view() =~= od.push(v.deep_view()[i as int]));
            assert(r.deep_view() =~= v.deep_view().subrange(0, i as int + 1));
        }
        i = i + 1;
    }
    proof {
        assert(v.deep_view().subrange(0, n as int) =~= v.deep_view());
    }
    r
}

/// Copies a configuration, field by field.
pub fn clone_sops_config(c: &SopsConfig) -> (r: SopsConfig)
    ensures
        r.file_extensions_enc.deep_view() == c.file_extensions_enc.deep_view(),
        r.file_names_enc.deep_view() == c.file_names_enc.deep_view(),
        r.file_extensions_dec.deep_view() == c.file_extensions_dec.deep_view(),
        r.file_names_dec.deep_view() == c.file_names_dec.deep_view(),
        r.gpg_key@ == c.gpg_key@,
{
    SopsConfig {
        file_extensions_enc: clone_strings(&c.file_extensions_enc),
        file_names_enc: clone_strings(&c.file_names_enc),
        file_extensions_dec: clone_strings(&c.file_extensions_dec),
        file_names_dec: clone_strings(&c.file_names_dec),
        gpg_key: String::from_str(c.gpg_key.as_str()),
    }
}

impl Settings {
    /// Resolves a configuration from a base directory: the storage
    /// for guarded projects sits in its `guarded` subdirectory, at
    /// the current format version, with no encryption configuration
    /// loaded yet.
    pub fn new(base_dir: &str) -> (r: Settings)
        ensures
            r.confguard_base_dir@ == base_dir@,
            r.guarded@ == base_dir@ + "/guarded"@,
            r.version == DEFAULT_VERSION,
            r.sops is None,
    {
        Settings {
            confguard_base_dir: String::from_str(base_dir),
            guarded: String::from_str(base_dir).concat("/guarded"),
            version: DEFAULT_VERSION,
            sops: None,
        }
    }
}

/// Applies a base-directory override to a configuration: the base and
/// the storage path follow the override; everything else is kept.
pub fn settings_with_override(current: &Settings, base_dir_override: Option<&str>) -> (r:
    Settings)
    ensures
        match base_dir_override {
            Some(b) => {
                &&& r.confguard_base_dir@ == b@
                &&& r.guarded@ == b@ + "/guarded"@
            },
            None => {
                &&& r.confguard_base_dir@ == current.confguard_base_dir@
                &&& r.guarded@ == current.guarded@
            },
        },
        r.version == current.version,
        match current.sops {
            Some(c) => r.sops matches Some(rc) && {
                &&& rc.file_extensions_enc.deep_view() == c.file_extensions_enc.deep_view()
                &&& rc.file_names_enc.deep_view() == c.file_names_enc.deep_view()
                &&& rc.file_extensions_dec.deep_view() == c.file_extensions_dec.deep_view()
                &&& rc.file_names_dec.deep_view() == c.file_names_dec.deep_view()
                &&& rc.gpg_key@ == c.gpg_key@
            },
            None => r.sops is None,
        },
{
    let sops: Option<SopsConfig> = match &current.sops {
        Some(c) => Some(clone_sops_config(c)),
        None => None,
    };
    match base_dir_override {
        Some(b) => Settings {
            confguard_base_dir: String::from_str(b),
            guarded: String::from_str(b).concat("/guarded"),
            version: current.version,
            sops,
        },
        None => Settings {
            confguard_base_dir: String::from_str(current.confguard_base_dir.as_str()),
            guarded: String::from_str(current.guarded.as_str()),
            version: current.version,
            sops,
        },
    }
}

/// The file name the configuration is loaded from, under the base
/// directory.
pub fn confguard_config_file() -> (r: &'static str)
    ensures
        r@ == "confguard.toml"@,
{
    "confguard.toml"
}

} // verus!
