use confguard::gitignore::GitignoreManager;
use confguard::settings::{settings_with_override, Settings, DEFAULT_VERSION};
use confguard::sops::{default_gpg_key, file_selected, SopsConfig, SopsCrypto, SopsManager};

#[test]
fn settings_resolve_from_a_base_directory() {
    let s = Settings::new("/base");
    assert_eq!(s.confguard_base_dir, "/base");
    assert_eq!(s.guarded, "/base/guarded");
    assert_eq!(s.version, DEFAULT_VERSION);
    assert!(s.sops.is_none());
}

#[test]
fn settings_override_replaces_base_and_storage() {
    let s = Settings::new("/base");
    let o = settings_with_override(&s, Some("/custom/path"));
    assert_eq!(o.confguard_base_dir, "/custom/path");
    assert_eq!(o.guarded, "/custom/path/guarded");
    assert_eq!(o.version, DEFAULT_VERSION);
    let kept = settings_with_override(&s, None);
    assert_eq!(kept.confguard_base_dir, "/base");
    assert_eq!(kept.guarded, "/base/guarded");
}

#[test]
fn sops_manager_assembles_its_collaborators() {
    let config = SopsConfig {
        file_extensions_enc: vec!["env".to_string()],
        file_names_enc: vec![".envrc".to_string()],
        file_extensions_dec: vec!["enc".to_string()],
        file_names_dec: Vec::new(),
        gpg_key: default_gpg_key(),
    };
    let m = SopsManager::new(config, "/base".to_string());
    assert_eq!(m.base_path, "/base");
    assert_eq!(m.crypto.gpg_key, m.config.gpg_key);
    assert_eq!(m.gitignore.gitignore_path, "/base/.gitignore");
}

#[test]
fn sops_crypto_holds_its_key() {
    let c = SopsCrypto::new("KEY".to_string());
    assert_eq!(c.gpg_key, "KEY");
}

#[test]
fn file_selection_follows_the_include_lists() {
    let exts = vec!["env".to_string()];
    let names = vec![".envrc".to_string()];
    assert!(file_selected("/p/local.env", &exts, &names));
    assert!(file_selected("/p/sub/.envrc", &exts, &names));
    assert!(!file_selected("/p/readme.md", &exts, &names));
    // a leading dot alone makes a name, not an extension
    assert!(!file_selected("/p/.env", &exts, &names));
    assert!(file_selected(".envrc", &exts, &names));
}

#[test]
fn gitignore_split_separates_the_managed_block() {
    let m = GitignoreManager::new("/p/proj");
    assert_eq!(m.gitignore_path, "/p/proj/.gitignore");
    let content = format!(
        "target\n{}\n*.env\n.envrc\n{}\nnotes.txt\n",
        m.section_start, m.section_end
    );
    let (pre, mid, post) = m.split_sections(&content);
    assert_eq!(pre, vec!["target".to_string()]);
    assert_eq!(mid, vec!["*.env".to_string(), ".envrc".to_string()]);
    assert_eq!(post, vec!["notes.txt".to_string()]);
}

#[test]
fn gitignore_split_recognizes_crlf_line_endings() {
    let m = GitignoreManager::new("/p/proj");
    let content = format!(
        "target\r\n{}\r\n*.env\r\n{}\r\nnotes.txt\r\n",
        m.section_start, m.section_end
    );
    let (pre, mid, post) = m.split_sections(&content);
    assert_eq!(pre, vec!["target".to_string()]);
    assert_eq!(mid, vec!["*.env".to_string()]);
    assert_eq!(post, vec!["notes.txt".to_string()]);
}

#[test]
fn gitignore_split_without_block_is_all_preamble() {
    let m = GitignoreManager::new("/p/proj");
    let (pre, mid, post) = m.split_sections("a\nb\n");
    assert_eq!(pre, vec!["a".to_string(), "b".to_string()]);
    assert!(mid.is_empty());
    assert!(post.is_empty());
}

#[test]
fn commands_carry_their_arguments() {
    let c = confguard::cli::Commands::Guard { source_dir: "/p/proj".to_string(), absolute: false };
    match c {
        confguard::cli::Commands::Guard { source_dir, absolute } => {
            assert_eq!(source_dir, "/p/proj");
            assert!(!absolute);
        },
        _ => panic!("wrong variant"),
    }
}

#[test]
fn path_guard_helper_accepts_clean_paths() {
    let forbidden = vec!["secret".to_string(), "private".to_string()];
    confguard::paths::assert_path_does_not_include("/home/user/projects/rust_project", &forbidden);
}
