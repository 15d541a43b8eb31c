use confguard::errors::ConfGuardError;
use confguard::guard::{ConfGuard, GuardObservation};
use confguard::movelink::{link_content_for, MoveAndLink};
use confguard::section::parse_section;

fn fresh_guard() -> ConfGuard {
    ConfGuard::new(
        3,
        "/p/proj".to_string(),
        true,
        "/base".to_string(),
        None,
        String::new(),
    )
}

fn observation(envrc_exists: bool, envrc_is_symlink: bool) -> GuardObservation {
    GuardObservation {
        source_dir_exists: true,
        envrc_exists,
        envrc_is_symlink,
        existing_names: Vec::new(),
    }
}

#[test]
fn guard_happy_path_plans_the_move() {
    let mut g = fresh_guard();
    let plan = g.guard(false, &observation(true, false)).expect("guarding succeeds");
    assert!(g.is_relative);
    assert!(g.sentinel.starts_with("proj-"));
    let suffix = g.sentinel.rsplit('-').next().unwrap();
    assert_eq!(suffix.len(), 8);
    assert!(suffix.chars().all(|c| c.is_ascii_hexdigit() && !c.is_ascii_uppercase()));
    let target = g.target_dir.clone().expect("target set");
    assert_eq!(target, format!("/base/guarded/{}", g.sentinel));
    assert_eq!(plan.source_envrc, "/p/proj/.envrc");
    assert_eq!(plan.target_envrc, format!("{}/dot.envrc", target));
    assert_eq!(plan.envs.env_dir, format!("{}/environments", target));
    assert_eq!(plan.envs.env_files.len(), 4);
    assert_eq!(plan.envs.env_files[0].0, format!("{}/environments/local.env", target));
    assert_eq!(plan.envs.env_files[0].1, "export RUN_ENV=\"local\"\n");
    assert_eq!(plan.envs.env_files[3].0, format!("{}/environments/prod.env", target));
    assert_eq!(plan.envs.env_files[3].1, "export RUN_ENV=\"prod\"\n");
    assert_eq!(plan.envs.run_config_path, "/p/proj/.idea/runConfigurations/rsenv.sh");
}

#[test]
fn guard_is_not_idempotent() {
    // after a successful guard the configuration file is a symlink, so
    // a second guard is refused and the guard value is left unchanged
    let mut g = fresh_guard();
    g.guard(false, &observation(true, false)).expect("first guard succeeds");
    let sentinel_before = g.sentinel.clone();
    let target_before = g.target_dir.clone();
    let second = g.guard(false, &observation(true, true));
    assert!(matches!(second, Err(ConfGuardError::ProjectAlreadyGuardedSymlink)));
    assert_eq!(g.sentinel, sentinel_before);
    assert_eq!(g.target_dir, target_before);
}

#[test]
fn guard_without_envrc_is_refused() {
    let mut g = fresh_guard();
    let r = g.guard(false, &observation(false, false));
    assert!(matches!(r, Err(ConfGuardError::NoEnvrcFile(_))));
}

#[test]
fn guard_without_source_dir_is_refused() {
    let mut g = fresh_guard();
    let obs = GuardObservation {
        source_dir_exists: false,
        envrc_exists: false,
        envrc_is_symlink: false,
        existing_names: Vec::new(),
    };
    let r = g.guard(false, &obs);
    assert!(matches!(r, Err(ConfGuardError::SourceDirectoryNotFound(_))));
}

#[test]
fn existing_sentinel_blocks_allocation() {
    let mut g = fresh_guard();
    let obs = GuardObservation {
        source_dir_exists: true,
        envrc_exists: true,
        envrc_is_symlink: false,
        existing_names: vec!["proj-0a1b2c3d".to_string(), "other-00000000".to_string()],
    };
    let r = g.guard(false, &obs);
    match r {
        Err(ConfGuardError::SentinelExists(found)) => {
            assert_eq!(found, vec!["proj-0a1b2c3d".to_string()]);
        },
        other => panic!("expected SentinelExists, got {:?}", other.map(|_| ())),
    }
}

#[test]
fn sentinel_cannot_be_allocated_twice() {
    let mut g = fresh_guard();
    g.create_sentinel(&Vec::new()).expect("first allocation succeeds");
    let r = g.create_sentinel(&Vec::new());
    assert!(matches!(r, Err(ConfGuardError::SentinelAlreadySet)));
}

#[test]
fn root_directory_has_no_usable_name() {
    let mut g = ConfGuard::new(3, "/".to_string(), true, "/base".to_string(), None, String::new());
    let r = g.create_sentinel(&Vec::new());
    assert!(matches!(r, Err(ConfGuardError::InvalidSourceDirectory)));
}

#[test]
fn new_for_guarding_validates_the_file() {
    let r = ConfGuard::new_for_guarding("/p/proj".to_string(), true, "/base", 3, false, false, false);
    assert!(matches!(r, Err(ConfGuardError::NoEnvrcFile(_))));
    let r = ConfGuard::new_for_guarding("/p/proj".to_string(), true, "/base", 3, true, true, false);
    assert!(matches!(r, Err(ConfGuardError::ProjectAlreadyGuardedSymlink)));
    let r = ConfGuard::new_for_guarding("/p/proj".to_string(), true, "/base", 3, true, false, true);
    assert!(matches!(r, Err(ConfGuardError::AlreadyGuarded(_))));
    let g = ConfGuard::new_for_guarding("/p/proj".to_string(), true, "/base", 3, true, false, false)
        .expect("a plain file can be guarded");
    assert_eq!(g.source_dir, "/p/proj");
    assert_eq!(g.confguard_base_dir, "/base");
    assert!(g.target_dir.is_none());
    assert!(g.sentinel.is_empty());
}

#[test]
fn update_dot_envrc_stamps_a_readable_section() {
    let mut g = fresh_guard();
    g.guard(true, &observation(true, false)).expect("guarding succeeds");
    let target = g.target_dir.clone().unwrap();
    let stamped = g
        .update_dot_envrc("export FOO=bar\n", &target)
        .expect("stamping succeeds with a real home directory");
    assert!(stamped.starts_with("export FOO=bar\n"));
    assert!(stamped.contains("# config.relative = false"));
    let fields = parse_section(&stamped).expect("no error").expect("the section parses");
    assert!(!fields.is_relative);
    assert_eq!(fields.version, 3);
    assert_eq!(fields.sentinel, g.sentinel);
    let ts = fields.timestamp.expect("the stamp records a timestamp");
    assert!(!ts.is_empty());
    assert!(ts.chars().all(|c| c.is_ascii_digit() || "-:.TZ+".contains(c)));
    assert!(ts.contains('T'));
}

#[test]
fn guarding_a_project_with_a_relative_link() {
    // /p/proj/.envrc holds "export FOO=bar"; guarding with a relative
    // link plans a move to <base>/guarded/proj-XXXXXXXX/dot.envrc, and
    // the stored file gains a section recording the relative flag
    let mut g = fresh_guard();
    let plan = g.guard(false, &observation(true, false)).expect("guarding succeeds");
    assert!(plan.target_envrc.starts_with("/base/guarded/proj-"));
    assert!(plan.target_envrc.ends_with("/dot.envrc"));
    let stamped = g
        .update_dot_envrc("export FOO=bar", &g.target_dir.clone().unwrap())
        .expect("stamping succeeds");
    assert!(stamped.starts_with("export FOO=bar\n"));
    assert!(stamped.contains("# config.relative = true"));
    let fields = confguard::section::parse_section(&stamped)
        .expect("no error")
        .expect("the section parses");
    assert!(fields.is_relative);
    assert_eq!(fields.sentinel, g.sentinel);
}

#[test]
fn unguard_preconditions() {
    let mut g = fresh_guard();
    assert!(matches!(g.unguard(false, false), Err(ConfGuardError::NoEnvrcFile(_))));
    assert!(matches!(
        g.unguard(true, false),
        Err(ConfGuardError::ProjectNotGuardedNotSymlink)
    ));
    assert!(g.unguard(true, true).is_ok());
}

#[test]
fn unguard_recognizes_owned_links_by_sentinel_substring() {
    let mut g = fresh_guard();
    g.guard(false, &observation(true, false)).expect("guarding succeeds");
    let owned = format!("/base/guarded/{}/dot.env", g.sentinel);
    assert!(g.owns_link(&owned));
    assert!(!g.owns_link("/somewhere/else/file"));
}

#[test]
fn from_envrc_recovers_a_guard() {
    let mut g = ConfGuard::new(
        3,
        "/root/p/proj".to_string(),
        true,
        "/base".to_string(),
        None,
        String::new(),
    );
    g.create_sentinel(&Vec::new()).expect("allocation succeeds");
    let sec = confguard::render::render_section(
        true,
        3,
        &g.sentinel,
        "2024-01-02T03:04:05.678Z",
        "$HOME/p/proj",
        "xxx/rs-cg/guarded/x",
    )
    .expect("renders");
    let text = confguard::section_write::write_section("export FOO=bar\n", &sec);
    let back = ConfGuard::from_envrc(&text, "/base", "/root")
        .expect("no error")
        .expect("a guarded file is recognized");
    assert_eq!(back.sentinel, g.sentinel);
    assert_eq!(back.source_dir, "/root/p/proj");
    assert_eq!(back.version, 3);
    assert!(back.is_relative);
    assert_eq!(back.confguard_base_dir, "/base");
    assert_eq!(back.target_dir, Some(format!("/base/guarded/{}", g.sentinel)));
}

#[test]
fn from_guarded_project_recovers_without_a_timestamp_line() {
    // only the four required fields decide whether a project is
    // guarded; the timestamp line may be missing
    let sec = confguard::render::render_section(
        true,
        3,
        "proj-abcd1234",
        "2024-01-02T03:04:05.678Z",
        "$HOME/p/proj",
        "xxx/rs-cg/guarded/proj-abcd1234",
    )
    .expect("renders");
    let text = confguard::section_write::write_section("export FOO=bar\n", &sec);
    let gutted: String = text
        .lines()
        .filter(|l| !l.starts_with("# state.timestamp"))
        .map(|l| format!("{}\n", l))
        .collect();
    let g = ConfGuard::from_guarded_project("/root/p/proj", "/base", "/root", true, &gutted)
        .expect("a guarded file without a timestamp is recognized");
    assert_eq!(g.sentinel, "proj-abcd1234");
    assert_eq!(g.source_dir, "/root/p/proj");
    assert!(g.is_relative);
}

#[test]
fn from_guarded_project_rejects_plain_files() {
    let r = ConfGuard::from_guarded_project("/p/proj", "/base", "/root", true, "export FOO=bar\n");
    assert!(matches!(r, Err(ConfGuardError::NotGuarded(_))));
    let r = ConfGuard::from_guarded_project("/p/proj", "/base", "/root", false, "");
    assert!(matches!(r, Err(ConfGuardError::NoEnvrcFile(_))));
}

#[test]
fn guard_one_rejects_files_outside_the_project() {
    let mut g = fresh_guard();
    g.create_sentinel(&Vec::new()).expect("allocation succeeds");
    let r = g.guard_one_target("/p/other/config.yml", true);
    assert!(matches!(r, Err(ConfGuardError::SourceNotInProject(_))));
    // a sibling directory sharing the prefix text is still outside
    let r = g.guard_one_target("/p/projX/config.yml", true);
    assert!(matches!(r, Err(ConfGuardError::SourceNotInProject(_))));
    let r = g.guard_one_target("/p/proj/conf/config.yml", false);
    assert!(matches!(r, Err(ConfGuardError::SourceNotFound(_))));
}

#[test]
fn guard_one_accepts_a_trailing_slash_on_the_project_dir() {
    // a project recorded with a trailing slash still bounds its files
    let mut g = ConfGuard::new(
        3,
        "/p/proj/".to_string(),
        true,
        "/base".to_string(),
        None,
        String::new(),
    );
    g.create_sentinel(&Vec::new()).expect("allocation succeeds");
    let target = g.target_dir.clone().unwrap();
    assert!(g.sentinel.starts_with("proj-"));
    let t = g.guard_one_target("/p/proj/conf/config.yml", true).expect("inside the project");
    assert_eq!(t, format!("{}/conf/config.yml", target));
}

#[test]
fn guard_one_mirrors_the_project_relative_path() {
    let mut g = fresh_guard();
    g.create_sentinel(&Vec::new()).expect("allocation succeeds");
    let target = g.target_dir.clone().unwrap();
    let t = g.guard_one_target("/p/proj/conf/config.yml", true).expect("inside the project");
    assert_eq!(t, format!("{}/conf/config.yml", target));
}

#[test]
fn relink_twice_reports_already_linked_and_changes_nothing() {
    let g = ConfGuard::new(
        3,
        "/p/proj".to_string(),
        false,
        "/base".to_string(),
        Some("/base/guarded/proj-abcd1234".to_string()),
        "proj-abcd1234".to_string(),
    );
    let target = "/base/guarded/proj-abcd1234/dot.envrc";
    // first call: no link yet, so one is to be created
    let content = g.relink_decision(target, false, None).expect("a link is planned");
    assert_eq!(content, target);
    // second call: the link exists and resolves to the same target
    let existing = target.to_string();
    let r = g.relink_decision(target, true, Some(&existing));
    match r {
        Err(e @ ConfGuardError::LinkAlreadyExists(_, _)) => {
            assert!(e.message().contains("Link already exists"));
        },
        other => panic!("expected LinkAlreadyExists, got {:?}", other.map(|_| ())),
    }
}

#[test]
fn relink_reports_a_link_pointing_elsewhere() {
    let g = ConfGuard::new(
        3,
        "/p/proj".to_string(),
        false,
        "/base".to_string(),
        Some("/base/guarded/proj-abcd1234".to_string()),
        "proj-abcd1234".to_string(),
    );
    let existing = "/elsewhere/dot.envrc".to_string();
    let r = g.relink_decision("/base/guarded/proj-abcd1234/dot.envrc", true, Some(&existing));
    match r {
        Err(e @ ConfGuardError::LinkPointsElsewhere(_, _)) => {
            assert!(e.message().contains("points elsewhere"));
        },
        other => panic!("expected LinkPointsElsewhere, got {:?}", other.map(|_| ())),
    }
}

#[test]
fn relink_relative_uses_a_relative_link_content() {
    let g = ConfGuard::new(
        3,
        "/p/proj".to_string(),
        true,
        "/base".to_string(),
        Some("/base/guarded/proj-abcd1234".to_string()),
        "proj-abcd1234".to_string(),
    );
    let content = g
        .relink_decision("/base/guarded/proj-abcd1234/dot.envrc", false, None)
        .expect("a link is planned");
    assert_eq!(content, "../../base/guarded/proj-abcd1234/dot.envrc");
}

#[test]
fn for_relink_validates_the_stored_file() {
    let r = ConfGuard::for_relink("/x/dot.envrc", false, "", "/base", "/root");
    assert!(matches!(r, Err(ConfGuardError::FileNotFound(_))));
    let r = ConfGuard::for_relink("/x/dot.envrc", true, "plain text\n", "/base", "/root");
    assert!(matches!(r, Err(ConfGuardError::NotGuardedEnvrc(_))));
}

#[test]
fn move_and_link_validations_and_link_content() {
    let r = MoveAndLink::new("/p/proj/.envrc", "/base/dot.envrc", false, false);
    assert!(matches!(r, Err(ConfGuardError::SourcePathNotFound(_))));
    let r = MoveAndLink::new("/p/proj/.envrc", "/base/dot.envrc", true, true);
    assert!(matches!(r, Err(ConfGuardError::SourceIsSymlink(_))));
    let m = MoveAndLink::new("/p/proj/.envrc", "/base/g/dot.envrc", true, false)
        .expect("a plain existing source is accepted");
    assert_eq!(m.source_path(), "/p/proj/.envrc");
    assert_eq!(m.destination_path(), "/base/g/dot.envrc");
    assert_eq!(m.link_content(false).unwrap(), "/base/g/dot.envrc");
    assert_eq!(m.link_content(true).unwrap(), "../../base/g/dot.envrc");
    assert!(matches!(
        m.revert_check(false, false),
        Err(ConfGuardError::SourceLinkNotFound(_))
    ));
    assert!(matches!(
        m.revert_check(true, false),
        Err(ConfGuardError::SourceNotSymlink(_))
    ));
    assert!(m.revert_check(true, true).is_ok());
}

#[test]
fn link_content_for_requires_the_target() {
    let r = link_content_for("/a/b/c", "/a/x", true, false);
    assert!(matches!(r, Err(ConfGuardError::OriginalPathNotFound(_))));
    // the relative content walks from the link's directory to the target
    assert_eq!(link_content_for("/a/b/c", "/a/x", true, true).unwrap(), "b/c");
    assert_eq!(link_content_for("/a/b/c", "/a/x", false, true).unwrap(), "/a/b/c");
}
