//! The guard state machine: the decisions behind guard, unguard,
//! relink, guard-one and the recovery constructors.
//!
//! Every function here is a pure decision on observed facts (does a
//! file exist, is it a symlink, what does it contain): it validates
//! the observation, computes paths and contents, and returns either a
//! typed error or a plan of filesystem actions.  The unverified shell
//! gathers the observations and carries the plans out.

use vstd::prelude::*;
use crate::errors::ConfGuardError;
use crate::paths::{entry_segs, expanded_home_spec, from_home_based, home_based_spec,
    is_absolute, base_name, to_home_based, trim_trailing_slashes, within_dir, is_within_dir,
    replace_prefix};
use crate::render::{render_section, section_parses_to};
use crate::section::{has_markers, parse_section, quoted_result, rel_result, sentinel_prefix,
    sourcedir_prefix, start_marker, ver_line, ver_overflow, ver_prefix, ver_result, ver_value};
use crate::section_write::{delete_outcome, end_marker_nl, write_outcome, write_section};
use crate::sentinel::{fresh_suffix, join_sentinel, matching_sentinels, sentinel_matches,
    some_name_matches};
use crate::text::{chars_of, contains_seq, find_from, match_at};
use crate::trusted::{diff_of, has_dotdot_component, home_dir_string, is_lower_hex,
    now_rfc3339_millis, relative_path_between, starts_slash};

verus! {

/// The managed relationship between a project directory and its
/// off-tree storage for a sensitive configuration file.
pub struct ConfGuard {
    pub version: i64,
    pub source_dir: String,
    pub is_relative: bool,
    pub confguard_base_dir: String,
    pub target_dir: Option<String>,
    pub sentinel: String,
}

/// The storage directory that a guard's base and sentinel name.
pub open spec fn storage_of(base: Seq<char>, sentinel: Seq<char>) -> Seq<char> {
    base + "/guarded/"@ + sentinel
}

/// The path has a last visible segment that names an entry.
pub open spec fn has_base_name(s: Seq<char>) -> bool {
    entry_segs(s).len() > 0 && entry_segs(s).last() != "."@ && entry_segs(s).last() != ".."@
}

/// The filesystem facts that `guard` decides on.
pub struct GuardObservation {
    pub source_dir_exists: bool,
    pub envrc_exists: bool,
    pub envrc_is_symlink: bool,
    pub existing_names: Vec<String>,
}

/// The environment files and helper script that guarding lays down.
pub struct SopsEnvPlan {
    pub env_dir: String,
    pub env_files: Vec<(String, String)>,
    pub run_config_path: String,
}

/// Everything the shell must do to guard a project: lay down the
/// environment files, then move the configuration file to
/// `target_envrc` and link `source_envrc` back to it.
pub struct GuardPlan {
    pub source_envrc: String,
    pub target_envrc: String,
    pub envs: SopsEnvPlan,
}

/// The environment plan names these four files under the environments
/// directory, each exporting its own stage name.
pub open spec fn env_plan_ok(p: &SopsEnvPlan, target: Seq<char>, source_dir: Seq<char>) -> bool {
    &&& p.env_dir@ == target + "/environments"@
    &&& p.env_files@.len() == 4
    &&& p.env_files@[0].0@ == p.env_dir@ + "/local.env"@
    &&& p.env_files@[0].1@ == "export RUN_ENV=\"local\"\n"@
    &&& p.env_files@[1].0@ == p.env_dir@ + "/test.env"@
    &&& p.env_files@[1].1@ == "export RUN_ENV=\"test\"\n"@
    &&& p.env_files@[2].0@ == p.env_dir@ + "/int.env"@
    &&& p.env_files@[2].1@ == "export RUN_ENV=\"int\"\n"@
    &&& p.env_files@[3].0@ == p.env_dir@ + "/prod.env"@
    &&& p.env_files@[3].1@ == "export RUN_ENV=\"prod\"\n"@
    &&& p.run_config_path@ == source_dir + "/.idea/runConfigurations/rsenv.sh"@
}

/// The guard value carries exactly what the text's section says: the
/// flag, the version, the sentinel, and the recorded source directory
/// expanded against the given home.
pub open spec fn guard_matches_section(
    g: &ConfGuard,
    contents: Seq<char>,
    base_dir: Seq<char>,
    home: Seq<char>,
) -> bool {
    &&& rel_result(contents, Some(g.is_relative))
    &&& ver_result(contents, Some(g.version as int))
    &&& g.version >= 0
    &&& quoted_result(contents, sentinel_prefix(), Some(g.sentinel@))
    &&& exists|sd: Seq<char>|
        #[trigger] quoted_result(contents, sourcedir_prefix(), Some(sd)) && g.source_dir@
            == expanded_home_spec(sd, home)
    &&& g.confguard_base_dir@ == base_dir
    &&& g.target_dir matches Some(t) && t@ == storage_of(base_dir, g.sentinel@)
}

/// The text has its markers but lacks one of the four required fields.
pub open spec fn section_incomplete(contents: Seq<char>) -> bool {
    ||| rel_result(contents, None)
    ||| ver_result(contents, None)
    ||| quoted_result(contents, sentinel_prefix(), None)
    ||| quoted_result(contents, sourcedir_prefix(), None)
}

/// One environment file: its path under the environments directory
/// and its stage-exporting content.
fn env_file_entry(env_dir: &str, environment: &str) -> (r: (String, String))
    ensures
        r.0@ == env_dir@ + "/"@ + environment@ + ".env"@,
        r.1@ == "export RUN_ENV=\""@ + environment@ + "\"\n"@,
{
    let path: String = String::from_str(env_dir).concat("/").concat(environment).concat(".env");
    let content: String = String::from_str("export RUN_ENV=\"").concat(environment).concat(
        "\"\n",
    );
    (path, content)
}

impl ConfGuard {
    /// Builds a guard value from its parts.
    pub fn new(
        version: i64,
        source_dir: String,
        is_relative: bool,
        confguard_base_dir: String,
        target_dir: Option<String>,
        sentinel: String,
    ) -> (r: ConfGuard)
        ensures
            r.version == version,
            r.source_dir == source_dir,
            r.is_relative == is_relative,
            r.confguard_base_dir == confguard_base_dir,
            r.target_dir == target_dir,
            r.sentinel == sentinel,
    {
        ConfGuard { version, source_dir, is_relative, confguard_base_dir, target_dir, sentinel }
    }

    /// Reads a guard back from the text of a configuration file: the
    /// recovery constructor.  Text without a valid section yields
    /// nothing; the recorded source directory is expanded against the
    /// given home directory.
    pub fn from_envrc(contents: &str, base_dir: &str, home: &str) -> (r: Result<
        Option<ConfGuard>,
        ConfGuardError,
    >)
        ensures
            match r {
                Ok(o) => match o {
                    Some(g) => has_markers(contents@) && !ver_overflow(contents@)
                        && guard_matches_section(&g, contents@, base_dir@, home@),
                    None => !has_markers(contents@) || (!ver_overflow(contents@)
                        && section_incomplete(contents@)),
                },
                Err(e) => has_markers(contents@) && ver_overflow(contents@) && e is Internal,
            },
    {
        match parse_section(contents)? {
            Some(f) => {
                proof {
                    let (i, e) = choose|i: int, e: int|
                        {
                            &&& #[trigger] ver_line(contents@, i, e)
                            &&& i < contents@.len() + 1
                            &&& f.version as int == ver_value(contents@, i, e)
                            &&& forall|i2: int|
                                i < i2 < contents@.len() + 1 ==> !crate::section::ver_start(
                                    contents@,
                                    i2,
                                )
                        };
                    let run = contents@.subrange(i + ver_prefix().len(), e);
                    assert(crate::decimal::all_digits(run)) by {
                        assert(forall|k: int|
                            0 <= k < run.len() ==> run[k] == contents@[i + ver_prefix().len()
                                + k]);
                    }
                    crate::decimal::lemma_dec_val_nonneg(run);
                }
                let source_dir: String = from_home_based(f.source_dir.as_str(), home);
                let storage: String = String::from_str(base_dir).concat("/guarded/").concat(
                    f.sentinel.as_str(),
                );
                Ok(
                    Some(
                        ConfGuard {
                            version: f.version,
                            source_dir,
                            is_relative: f.is_relative,
                            confguard_base_dir: String::from_str(base_dir),
                            target_dir: Some(storage),
                            sentinel: f.sentinel,
                        },
                    ),
                )
            },
            None => Ok(None),
        }
    }

    /// Builds a fresh guard for a project about to be guarded.  The
    /// project must have a plain configuration file that carries no
    /// section yet.
    pub fn new_for_guarding(
        source_dir: String,
        is_relative: bool,
        base_dir: &str,
        version: i64,
        envrc_exists: bool,
        envrc_is_symlink: bool,
        has_section: bool,
    ) -> (r: Result<ConfGuard, ConfGuardError>)
        ensures
            !envrc_exists ==> (r matches Err(e) && e is NoEnvrcFile),
            envrc_exists && envrc_is_symlink ==> (r matches Err(e)
                && e is ProjectAlreadyGuardedSymlink),
            envrc_exists && !envrc_is_symlink && has_section ==> (r matches Err(e)
                && e is AlreadyGuarded),
            envrc_exists && !envrc_is_symlink && !has_section ==> (r matches Ok(g) && {
                &&& g.version == version
                &&& g.source_dir == source_dir
                &&& g.is_relative == is_relative
                &&& g.confguard_base_dir@ == base_dir@
                &&& g.target_dir is None
                &&& g.sentinel@.len() == 0
            }),
    {
        if !envrc_exists {
            return Err(ConfGuardError::NoEnvrcFile(source_dir));
        }
        if envrc_is_symlink {
            return Err(ConfGuardError::ProjectAlreadyGuardedSymlink);
        }
        if has_section {
            return Err(ConfGuardError::AlreadyGuarded(source_dir));
        }
        Ok(
            ConfGuard {
                version,
                source_dir,
                is_relative,
                confguard_base_dir: String::from_str(base_dir),
                target_dir: None,
                sentinel: String::new(),
            },
        )
    }

    /// Recovers the guard of an already-guarded project from its
    /// configuration file's text; a file without a valid section means
    /// the project is not guarded.
    pub fn from_guarded_project(
        source_dir: &str,
        base_dir: &str,
        home: &str,
        envrc_exists: bool,
        contents: &str,
    ) -> (r: Result<ConfGuard, ConfGuardError>)
        ensures
            !envrc_exists ==> (r matches Err(e) && e is NoEnvrcFile),
            envrc_exists && !has_markers(contents@) ==> (r matches Err(e) && e is NotGuarded),
            envrc_exists && has_markers(contents@) && ver_overflow(contents@) ==> (r matches Err(
                e,
            ) && e is Internal),
            envrc_exists && has_markers(contents@) && !ver_overflow(contents@) ==> match r {
                Ok(g) => guard_matches_section(&g, contents@, base_dir@, home@),
                Err(e) => e is NotGuarded && section_incomplete(contents@),
            },
    {
        if !envrc_exists {
            return Err(ConfGuardError::NoEnvrcFile(String::from_str(source_dir)));
        }
        match ConfGuard::from_envrc(contents, base_dir, home)? {
            Some(g) => Ok(g),
            None => Err(ConfGuardError::NotGuarded(String::from_str(source_dir))),
        }
    }

    /// Recovers the guard behind a stored configuration file for
    /// relinking; a missing file or one without a valid section is
    /// refused.
    pub fn for_relink(
        envrc_path: &str,
        envrc_exists: bool,
        contents: &str,
        base_dir: &str,
        home: &str,
    ) -> (r: Result<ConfGuard, ConfGuardError>)
        ensures
            !envrc_exists ==> (r matches Err(e) && e is FileNotFound),
            envrc_exists && !has_markers(contents@) ==> (r matches Err(e)
                && e is NotGuardedEnvrc),
            envrc_exists && has_markers(contents@) && ver_overflow(contents@) ==> (r matches Err(
                e,
            ) && e is Internal),
            envrc_exists && has_markers(contents@) && !ver_overflow(contents@) ==> match r {
                Ok(g) => guard_matches_section(&g, contents@, base_dir@, home@),
                Err(e) => e is NotGuardedEnvrc && section_incomplete(contents@),
            },
    {
        if !envrc_exists {
            return Err(ConfGuardError::FileNotFound(String::from_str(envrc_path)));
        }
        match ConfGuard::from_envrc(contents, base_dir, home)? {
            Some(g) => Ok(g),
            None => Err(ConfGuardError::NotGuardedEnvrc(String::from_str(envrc_path))),
        }
    }

    /// Allocates the project's sentinel: refused when one is already
    /// set, when the source directory has no usable name, or when a
    /// sibling directory already carries a sentinel for this project.
    /// Otherwise a fresh suffix is drawn, and the sentinel and target
    /// directory are recorded.
    pub fn create_sentinel(&mut self, existing_names: &Vec<String>) -> (r: Result<
        (),
        ConfGuardError,
    >)
        ensures
            old(self).sentinel@.len() > 0 ==> (r matches Err(e) && e is SentinelAlreadySet
                && *final(self) == *old(self)),
            old(self).sentinel@.len() == 0 && !has_base_name(old(self).source_dir@) ==> (
            r matches Err(e) && e is InvalidSourceDirectory && *final(self) == *old(self)),
            old(self).sentinel@.len() == 0 && has_base_name(old(self).source_dir@)
                && some_name_matches(
                existing_names@,
                entry_segs(old(self).source_dir@).last(),
            ) ==> (r matches Err(e) && *final(self) == *old(self) && (e matches ConfGuardError::SentinelExists(
                found,
            ) && found.deep_view() == existing_names.deep_view().filter(
                |n: Seq<char>| sentinel_matches(n, entry_segs(old(self).source_dir@).last()),
            ))),
            old(self).sentinel@.len() == 0 && has_base_name(old(self).source_dir@)
                && !some_name_matches(
                existing_names@,
                entry_segs(old(self).source_dir@).last(),
            ) ==> (r is Ok && {
                &&& exists|sfx: Seq<char>|
                    {
                        &&& sfx.len() == 8
                        &&& (forall|k: int| 0 <= k < 8 ==> is_lower_hex(#[trigger] sfx[k]))
                        &&& final(self).sentinel@ == entry_segs(old(self).source_dir@).last()
                            + seq!['-'] + sfx
                    }
                &&& final(self).target_dir matches Some(t) && t@ == storage_of(
                    old(self).confguard_base_dir@,
                    final(self).sentinel@,
                )
                &&& final(self).version == old(self).version
                &&& final(self).source_dir == old(self).source_dir
                &&& final(self).is_relative == old(self).is_relative
                &&& final(self).confguard_base_dir == old(self).confguard_base_dir
            }),
    {
        if self.sentinel.as_str().unicode_len() > 0 {
            return Err(ConfGuardError::SentinelAlreadySet);
        }
        let base: String = match base_name(self.source_dir.as_str()) {
            Some(b) => b,
            None => {
                return Err(ConfGuardError::InvalidSourceDirectory);
            },
        };
        let ghost pred = |n: Seq<char>| sentinel_matches(n, base@);
        let found: Vec<String> = matching_sentinels(existing_names, base.as_str());
        if found.len() > 0 {
            proof {
                let dv = existing_names.deep_view();
                assert(dv.filter(pred).len() > 0);
                crate::sentinel::lemma_filter_nonempty_exists(dv, pred);
                let k = choose|k: int| #![trigger dv[k]] 0 <= k < dv.len() && pred(dv[k]);
                assert(dv[k] == existing_names@[k]@);
                assert(some_name_matches(
                    existing_names@,
                    entry_segs(old(self).source_dir@).last(),
                )) by {
                    assert(sentinel_matches(
                        existing_names@[k]@,
                        entry_segs(old(self).source_dir@).last(),
                    ));
                }
            }
            return Err(ConfGuardError::SentinelExists(found));
        }
        proof {
            let dv = existing_names.deep_view();
            if some_name_matches(existing_names@, entry_segs(old(self).source_dir@).last()) {
                let k = choose|k: int|
                    #![trigger existing_names@[k]]
                    0 <= k < existing_names@.len() && sentinel_matches(
                        existing_names@[k]@,
                        entry_segs(old(self).source_dir@).last(),
                    );
                assert(dv[k] == existing_names@[k]@);
                crate::sentinel::lemma_filter_found(dv, pred, k);
            }
        }
        let suffix: String = fresh_suffix();
        let sent: String = join_sentinel(base.as_str(), suffix.as_str());
        let storage: String = String::from_str(self.confguard_base_dir.as_str()).concat(
            "/guarded/",
        ).concat(sent.as_str());
        self.sentinel = sent;
        self.target_dir = Some(storage);
        Ok(())
    }

    /// Lays out the environment files and the IDE helper script for a
    /// guard whose target directory is set.
    pub fn create_sops_envs(&self) -> (r: Result<SopsEnvPlan, ConfGuardError>)
        ensures
            self.target_dir is None ==> (r matches Err(e) && e is TargetDirectoryNotSet),
            self.target_dir matches Some(t) ==> (r matches Ok(p) && env_plan_ok(
                &p,
                t@,
                self.source_dir@,
            )),
    {
        let target: &String = match &self.target_dir {
            Some(t) => t,
            None => {
                return Err(ConfGuardError::TargetDirectoryNotSet);
            },
        };
        let env_dir: String = String::from_str(target.as_str()).concat("/environments");
        let mut env_files: Vec<(String, String)> = Vec::new();
        env_files.push(env_file_entry(env_dir.as_str(), "local"));
        env_files.push(env_file_entry(env_dir.as_str(), "test"));
        env_files.push(env_file_entry(env_dir.as_str(), "int"));
        env_files.push(env_file_entry(env_dir.as_str(), "prod"));
        let run_config_path: String = String::from_str(self.source_dir.as_str()).concat(
            "/.idea/runConfigurations/rsenv.sh",
        );
        let p = SopsEnvPlan { env_dir, env_files, run_config_path };
        proof {
            reveal_strlit("/local.env");
            reveal_strlit("/test.env");
            reveal_strlit("/int.env");
            reveal_strlit("/prod.env");
            reveal_strlit("/");
            reveal_strlit("local");
            reveal_strlit("test");
            reveal_strlit("int");
            reveal_strlit("prod");
            reveal_strlit(".env");
            assert(p.env_files@[0].0@ =~= p.env_dir@ + "/local.env"@);
            assert(p.env_files@[1].0@ =~= p.env_dir@ + "/test.env"@);
            assert(p.env_files@[2].0@ =~= p.env_dir@ + "/int.env"@);
            assert(p.env_files@[3].0@ =~= p.env_dir@ + "/prod.env"@);
            reveal_strlit("export RUN_ENV=\"");
            reveal_strlit("\"\n");
            reveal_strlit("export RUN_ENV=\"local\"\n");
            reveal_strlit("export RUN_ENV=\"test\"\n");
            reveal_strlit("export RUN_ENV=\"int\"\n");
            reveal_strlit("export RUN_ENV=\"prod\"\n");
            assert(p.env_files@[0].1@ =~= "export RUN_ENV=\"local\"\n"@);
            assert(p.env_files@[1].1@ =~= "export RUN_ENV=\"test\"\n"@);
            assert(p.env_files@[2].1@ =~= "export RUN_ENV=\"int\"\n"@);
            assert(p.env_files@[3].1@ =~= "export RUN_ENV=\"prod\"\n"@);
        }
        Ok(p)
    }

    /// Decides a guard operation: validates the observed project
    /// state, allocates the sentinel, and returns the plan of
    /// filesystem actions.  A failed validation leaves the guard
    /// unchanged; a failure after allocation is the shell's to mend by
    /// rerunning.
    pub fn guard(&mut self, absolute: bool, obs: &GuardObservation) -> (r: Result<
        GuardPlan,
        ConfGuardError,
    >)
        ensures
            !obs.source_dir_exists ==> (r matches Err(e) && e is SourceDirectoryNotFound
                && *final(self) == *old(self)),
            obs.source_dir_exists && !obs.envrc_exists ==> (r matches Err(e) && e is NoEnvrcFile
                && *final(self) == *old(self)),
            obs.source_dir_exists && obs.envrc_exists && obs.envrc_is_symlink ==> (r matches Err(
                e,
            ) && e is ProjectAlreadyGuardedSymlink && *final(self) == *old(self)),
            obs.source_dir_exists && obs.envrc_exists && !obs.envrc_is_symlink ==> {
                &&& final(self).is_relative == !absolute
                &&& old(self).sentinel@.len() > 0 ==> (r matches Err(e)
                    && e is SentinelAlreadySet)
                &&& old(self).sentinel@.len() == 0 && !has_base_name(old(self).source_dir@)
                    ==> (r matches Err(e) && e is InvalidSourceDirectory)
                &&& old(self).sentinel@.len() == 0 && has_base_name(old(self).source_dir@)
                    && some_name_matches(
                    obs.existing_names@,
                    entry_segs(old(self).source_dir@).last(),
                ) ==> (r matches Err(e) && e is SentinelExists)
                &&& old(self).sentinel@.len() == 0 && has_base_name(old(self).source_dir@)
                    && !some_name_matches(
                    obs.existing_names@,
                    entry_segs(old(self).source_dir@).last(),
                ) ==> r is Ok
                &&& r matches Ok(p) ==> {
                    &&& old(self).sentinel@.len() == 0
                    &&& has_base_name(old(self).source_dir@)
                    &&& exists|sfx: Seq<char>|
                        {
                            &&& sfx.len() == 8
                            &&& (forall|k: int| 0 <= k < 8 ==> is_lower_hex(#[trigger] sfx[k]))
                            &&& final(self).sentinel@ == entry_segs(
                                old(self).source_dir@,
                            ).last() + seq!['-'] + sfx
                        }
                    &&& final(self).target_dir matches Some(t) && t@ == storage_of(
                        old(self).confguard_base_dir@,
                        final(self).sentinel@,
                    )
                    &&& p.source_envrc@ == old(self).source_dir@ + "/.envrc"@
                    &&& p.target_envrc@ == storage_of(
                        old(self).confguard_base_dir@,
                        final(self).sentinel@,
                    ) + "/dot.envrc"@
                    &&& env_plan_ok(
                        &p.envs,
                        storage_of(old(self).confguard_base_dir@, final(self).sentinel@),
                        old(self).source_dir@,
                    )
                    &&& final(self).source_dir == old(self).source_dir
                    &&& final(self).version == old(self).version
                    &&& final(self).confguard_base_dir == old(self).confguard_base_dir
                }
            },
    {
        if !obs.source_dir_exists {
            return Err(ConfGuardError::SourceDirectoryNotFound(self.source_dir.clone()));
        }
        if !obs.envrc_exists {
            return Err(ConfGuardError::NoEnvrcFile(self.source_dir.clone()));
        }
        if obs.envrc_is_symlink {
            return Err(ConfGuardError::ProjectAlreadyGuardedSymlink);
        }
        self.is_relative = !absolute;
        self.create_sentinel(&obs.existing_names)?;
        let envs: SopsEnvPlan = self.create_sops_envs()?;
        let target: &String = match &self.target_dir {
            Some(t) => t,
            None => {
                return Err(ConfGuardError::TargetDirectoryNotSet);
            },
        };
        let source_envrc: String = String::from_str(self.source_dir.as_str()).concat("/.envrc");
        let target_envrc: String = String::from_str(target.as_str()).concat("/dot.envrc");
        Ok(GuardPlan { source_envrc, target_envrc, envs })
    }

    /// Decides an unguard operation: the configuration file must exist
    /// and be a symlink.  The shell then replaces it with its target,
    /// strips the section, and recovers every link this guard owns.
    pub fn unguard(&mut self, envrc_exists: bool, envrc_is_symlink: bool) -> (r: Result<
        (),
        ConfGuardError,
    >)
        ensures
            *final(self) == *old(self),
            !envrc_exists ==> (r matches Err(e) && e is NoEnvrcFile),
            envrc_exists && !envrc_is_symlink ==> (r matches Err(e)
                && e is ProjectNotGuardedNotSymlink),
            envrc_exists && envrc_is_symlink ==> r is Ok,
    {
        if !envrc_exists {
            return Err(ConfGuardError::NoEnvrcFile(self.source_dir.clone()));
        }
        if !envrc_is_symlink {
            return Err(ConfGuardError::ProjectNotGuardedNotSymlink);
        }
        Ok(())
    }

    /// Recognizes a link this guard owns: the resolved target path
    /// contains the sentinel as a substring.  This is the system's
    /// sole ownership test during unguard's tree walk.
    pub fn owns_link(&self, resolved_target: &str) -> (r: bool)
        ensures
            r == contains_seq(resolved_target@, self.sentinel@),
    {
        let tv: Vec<char> = chars_of(resolved_target);
        let sv: Vec<char> = chars_of(self.sentinel.as_str());
        find_from(&tv, &sv, 0).is_some()
    }

    /// Decides a relink: an existing link already resolving to the
    /// stored file is reported as already linked; one resolving
    /// elsewhere is reported without touching anything; otherwise the
    /// link content to create is returned, relative or absolute per
    /// the guard's recorded preference.
    pub fn relink_decision(
        &self,
        target_path: &str,
        link_is_symlink: bool,
        existing_target: Option<&String>,
    ) -> (r: Result<String, ConfGuardError>)
        requires
            link_is_symlink ==> existing_target is Some,
        ensures
            link_is_symlink ==> match existing_target {
                Some(t) => if t@ == target_path@ {
                    r matches Err(e) && e is LinkAlreadyExists
                } else {
                    r matches Err(e) && e is LinkPointsElsewhere
                },
                None => true,
            },
            !link_is_symlink ==> match r {
                Ok(c) => {
                    &&& self.is_relative ==> c@ == diff_of(target_path@, self.source_dir@)
                    &&& !self.is_relative ==> c@ == target_path@
                },
                Err(e) => e is FailedToCreateRelativePath && self.is_relative,
            },
            !link_is_symlink && !self.is_relative ==> r is Ok,
            !link_is_symlink && self.is_relative && starts_slash(target_path@) && starts_slash(
                self.source_dir@,
            ) && !has_dotdot_component(self.source_dir@) ==> r is Ok,
    {
        if link_is_symlink {
            let existing: &String = match existing_target {
                Some(t) => t,
                None => {
                    return Err(ConfGuardError::Internal(String::from_str(
                        "symlink without a resolved target",
                    )));
                },
            };
            if crate::text::str_eq(existing.as_str(), target_path) {
                return Err(ConfGuardError::LinkAlreadyExists(
                    String::from_str(self.source_dir.as_str()).concat("/.envrc"),
                    String::from_str(target_path),
                ));
            }
            return Err(ConfGuardError::LinkPointsElsewhere(
                String::from_str(self.source_dir.as_str()).concat("/.envrc"),
                existing.clone(),
            ));
        }
        if self.is_relative {
            match relative_path_between(target_path, self.source_dir.as_str()) {
                Some(c) => Ok(c),
                None => Err(ConfGuardError::FailedToCreateRelativePath),
            }
        } else {
            Ok(String::from_str(target_path))
        }
    }

    /// Decides where a single file inside the project is stored:
    /// mirrors its project-relative path under the target directory.
    /// A file outside the project is refused without touching it.
    pub fn guard_one_target(&self, source: &str, source_exists: bool) -> (r: Result<
        String,
        ConfGuardError,
    >)
        ensures
            !source_exists ==> (r matches Err(e) && e is SourceNotFound),
            source_exists && !within_dir(source@, self.source_dir@) ==> (r matches Err(e)
                && e is SourceNotInProject),
            source_exists && within_dir(source@, self.source_dir@) && self.target_dir is None
                ==> (r matches Err(e) && e is TargetDirectoryNotSet),
            source_exists && within_dir(source@, self.source_dir@) ==> match self.target_dir {
                Some(t) => r matches Ok(tp) && tp@ == t@ + source@.subrange(
                    trim_trailing_slashes(self.source_dir@).len() as int,
                    source@.len() as int,
                ),
                None => true,
            },
    {
        if !source_exists {
            return Err(ConfGuardError::SourceNotFound(String::from_str(source)));
        }
        if !is_within_dir(source, self.source_dir.as_str()) {
            return Err(ConfGuardError::SourceNotInProject(String::from_str(source)));
        }
        let target: &String = match &self.target_dir {
            Some(t) => t,
            None => {
                return Err(ConfGuardError::TargetDirectoryNotSet);
            },
        };
        replace_prefix(source, self.source_dir.as_str(), target.as_str())
    }

    /// Refuses a storage slot that is already occupied; a single file
    /// is never guarded over an earlier one.
    pub fn target_slot_free(target: &str, target_exists: bool) -> (r: Result<(), ConfGuardError>)
        ensures
            target_exists ==> (r matches Err(e) && e is TargetAlreadyExists),
            !target_exists ==> r is Ok,
    {
        if target_exists {
            return Err(ConfGuardError::TargetAlreadyExists(String::from_str(target)));
        }
        Ok(())
    }

    /// Stamps the guard's metadata into the stored file's text: the
    /// section records the flag, version, sentinel, the moment, and
    /// the home-relative source directory, and wires the environment
    /// loader to the storage directory.  The returned text carries a
    /// section that reads back as exactly those fields.
    pub fn update_dot_envrc(&self, content: &str, target_parent: &str) -> (r: Result<
        String,
        ConfGuardError,
    >)
        requires
            self.version >= 0,
        ensures
            !is_absolute(self.source_dir@) ==> r is Err,
            r matches Ok(out) ==> exists|ts: Seq<char>, h: Seq<char>|
                {
                    &&& h.len() > 0
                    &&& write_outcome(
                        content@,
                        #[trigger] crate::render::section_text(
                        self.is_relative,
                        self.version as int,
                        self.sentinel@,
                        ts,
                        home_based_spec(self.source_dir@, h),
                        diff_of(target_parent@, h),
                    ),
                        out@,
                    )
                    &&& section_parses_to(
                        crate::render::section_text(
                        self.is_relative,
                        self.version as int,
                        self.sentinel@,
                        ts,
                        home_based_spec(self.source_dir@, h),
                        diff_of(target_parent@, h),
                    ),
                        self.is_relative,
                        self.version as int,
                        self.sentinel@,
                        ts,
                        home_based_spec(self.source_dir@, h),
                    )
                    &&& match_at(crate::render::section_text(
                        self.is_relative,
                        self.version as int,
                        self.sentinel@,
                        ts,
                        home_based_spec(self.source_dir@, h),
                        diff_of(target_parent@, h),
                    ), start_marker(), 0)
                    &&& match_at(
                        crate::render::section_text(
                        self.is_relative,
                        self.version as int,
                        self.sentinel@,
                        ts,
                        home_based_spec(self.source_dir@, h),
                        diff_of(target_parent@, h),
                    ),
                        end_marker_nl(),
                        crate::render::section_text(
                        self.is_relative,
                        self.version as int,
                        self.sentinel@,
                        ts,
                        home_based_spec(self.source_dir@, h),
                        diff_of(target_parent@, h),
                    ).len() - end_marker_nl().len(),
                    )
                },
    {
        let home: String = match home_dir_string() {
            Some(h) => h,
            None => {
                return Err(ConfGuardError::CannotDetermineHome);
            },
        };
        let rel: String = match relative_path_between(target_parent, home.as_str()) {
            Some(d) => d,
            None => {
                return Err(ConfGuardError::CannotCalculateRelativePath);
            },
        };
        let source_home: String = to_home_based(self.source_dir.as_str(), home.as_str())?;
        let ts: String = now_rfc3339_millis();
        let sec: String = render_section(
            self.is_relative,
            self.version,
            self.sentinel.as_str(),
            ts.as_str(),
            source_home.as_str(),
            rel.as_str(),
        )?;
        let out: String = write_section(content, sec.as_str());
        Ok(out)
    }

    /// Cuts the guard's section out of a file's text; see
    /// `section_write::delete_section`.
    pub fn delete_section(text: &str) -> (r: String)
        ensures
            delete_outcome(text@, r@),
    {
        crate::section_write::delete_section(text)
    }
}

} // verus!
