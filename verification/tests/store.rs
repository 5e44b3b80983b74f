use duplikat::backup_files;
use duplikat::check_lines;
use duplikat::check_name;
use duplikat::parse_lines;
use duplikat::render_lines;
use duplikat::Backup;
use duplikat::ConfigError;
use duplikat::Configuration;
use duplikat::Repository;
use duplikat::RepositoryKind;

fn alpha() -> Backup {
    Backup {
        name: "alpha".to_string(),
        repository: Repository {
            kind: RepositoryKind::Local,
            identifier: "".to_string(),
            path: "/tmp/alpha-repo".to_string(),
        },
        key_id: None,
        key_secret: None,
        password: "pw".to_string(),
        includes: vec!["/home".to_string(), "/etc".to_string()],
        excludes: vec!["*.tmp".to_string()],
    }
}

fn beta() -> Backup {
    Backup {
        name: "beta".to_string(),
        repository: Repository {
            kind: RepositoryKind::B2,
            identifier: "bucket".to_string(),
            path: "/x".to_string(),
        },
        key_id: Some("k".to_string()),
        key_secret: Some("s".to_string()),
        password: "pw2".to_string(),
        includes: vec![],
        excludes: vec![],
    }
}

#[test]
fn create_is_idempotent() {
    let mut once = Configuration::new();
    once.create(&alpha());
    let mut twice = Configuration::new();
    twice.create(&alpha());
    twice.create(&alpha());

    assert_eq!(once.list_names(), vec!["alpha".to_string()]);
    assert_eq!(twice.list_names(), vec!["alpha".to_string()]);
    let a = once.backup_with_name("alpha").unwrap();
    let b = twice.backup_with_name("alpha").unwrap();
    assert_eq!(a.repository, b.repository);
    assert_eq!(a.password, b.password);
    assert_eq!(a.includes, b.includes);
    assert_eq!(a.excludes, b.excludes);
}

#[test]
fn read_round_trips_definition() {
    let mut store = Configuration::new();
    store.create(&alpha());
    let back = store.backup_with_name("alpha").unwrap();
    assert_eq!(back.name, "alpha");
    assert_eq!(back.repository, alpha().repository);
    assert_eq!(back.password, "pw");
    assert_eq!(back.includes, vec!["/home".to_string(), "/etc".to_string()]);
    assert_eq!(back.excludes, vec!["*.tmp".to_string()]);
    // Credentials are not persisted in plaintext this way.
    let mut b2_store = Configuration::new();
    b2_store.create(&beta());
    let back = b2_store.backup_with_name("beta").unwrap();
    assert_eq!(back.key_id, None);
    assert_eq!(back.key_secret, None);
}

#[test]
fn read_missing_name_fails() {
    let store = Configuration::new();
    match store.backup_with_name("nope") {
        Err(ConfigError::NotFound) => {}
        other => panic!("expected NotFound, got {:?}", other),
    }
}

#[test]
fn remove_deletes_directory() {
    let mut store = Configuration::new();
    store.create(&alpha());
    store.create(&beta());
    store.remove("alpha");
    assert_eq!(store.list_names(), vec!["beta".to_string()]);
}

#[test]
fn b2_environment_file_contents() {
    let files = backup_files(&beta());
    assert_eq!(
        files.environment,
        Some("B2_ACCOUNT_ID=k\nB2_ACCOUNT_KEY=s\n".to_string())
    );
    assert_eq!(files.repo, "b2:bucket:/x");
    assert_eq!(files.password, "pw2");
}

#[test]
fn local_definition_has_no_environment_file() {
    let files = backup_files(&alpha());
    assert_eq!(files.environment, None);
    assert_eq!(files.repo, "/tmp/alpha-repo");
    assert_eq!(files.includes, "/home\n/etc\n");
    assert_eq!(files.excludes, "*.tmp\n");
}

#[test]
fn environment_mapping_for_b2_backup() {
    let mut store = Configuration::new();
    store.create(&beta());
    let env = store.environment_for_name("beta");
    assert_eq!(
        env,
        vec![
            ("B2_ACCOUNT_ID".to_string(), "k".to_string()),
            ("B2_ACCOUNT_KEY".to_string(), "s".to_string()),
        ]
    );
}

#[test]
fn environment_mapping_absent_is_empty() {
    let mut store = Configuration::new();
    store.create(&alpha());
    assert_eq!(store.environment_for_name("alpha"), vec![]);
    assert_eq!(store.environment_for_name("missing"), vec![]);
}

#[test]
fn list_names_enumerates_all() {
    let mut store = Configuration::new();
    assert_eq!(store.list_names(), Vec::<String>::new());
    store.create(&alpha());
    store.create(&beta());
    assert_eq!(
        store.list_names(),
        vec!["alpha".to_string(), "beta".to_string()]
    );
}

#[test]
fn config_file_paths() {
    let base = Configuration::base_config_path("/etc");
    assert_eq!(base, "/etc/duplikatd/backups");
    assert_eq!(
        Configuration::repo_file(base.as_str(), "alpha"),
        "/etc/duplikatd/backups/alpha/repo"
    );
    assert_eq!(
        Configuration::password_file(base.as_str(), "alpha"),
        "/etc/duplikatd/backups/alpha/password"
    );
    assert_eq!(
        Configuration::include_file(base.as_str(), "alpha"),
        "/etc/duplikatd/backups/alpha/include"
    );
    assert_eq!(
        Configuration::exclude_file(base.as_str(), "alpha"),
        "/etc/duplikatd/backups/alpha/exclude"
    );
    assert_eq!(
        Configuration::environment_file(base.as_str(), "alpha"),
        "/etc/duplikatd/backups/alpha/environment"
    );
}

#[test]
fn line_records_survive_the_files() {
    let records = vec!["/home".to_string(), "/var/log".to_string()];
    let text = render_lines(&records);
    assert_eq!(text, "/home\n/var/log\n");
    assert_eq!(parse_lines(text.as_str()), records);
    // Reading tolerates surrounding whitespace and a missing final
    // newline.
    assert_eq!(
        parse_lines("  /home \n/var/log"),
        vec!["/home".to_string(), "/var/log".to_string()]
    );
    assert_eq!(parse_lines(""), Vec::<String>::new());
}

#[test]
fn loaded_directories_read_back() {
    // A store mirrored from raw directory contents behaves like one the
    // daemon wrote itself, once it passes the health check.
    let mut store = Configuration::new();
    store.insert_directory(
        "gamma".to_string(),
        duplikat::BackupFiles {
            repo: "sftp:host:/srv".to_string(),
            password: "pw".to_string(),
            includes: "/home\n".to_string(),
            excludes: "".to_string(),
            environment: None,
        },
    );
    assert!(store.is_wf());
    let back = store.backup_with_name("gamma").unwrap();
    assert_eq!(back.repository.kind, RepositoryKind::SFTP);
    assert_eq!(back.repository.identifier, "host");
    assert_eq!(back.includes, vec!["/home".to_string()]);
    assert_eq!(back.excludes, Vec::<String>::new());
}

#[test]
fn health_check_rejects_damage() {
    // A directory whose repository string no longer parses fails the
    // health check.
    let mut store = Configuration::new();
    store.insert_directory(
        "gamma".to_string(),
        duplikat::BackupFiles {
            repo: "not a repository".to_string(),
            password: "pw".to_string(),
            includes: "".to_string(),
            excludes: "".to_string(),
            environment: None,
        },
    );
    assert!(!store.is_wf());
    // So does an environment file with a record that is no KEY=VALUE
    // pair.
    let mut store = Configuration::new();
    store.insert_directory(
        "delta".to_string(),
        duplikat::BackupFiles {
            repo: "/repo".to_string(),
            password: "pw".to_string(),
            includes: "".to_string(),
            excludes: "".to_string(),
            environment: Some("JUST_A_WORD\n".to_string()),
        },
    );
    assert!(!store.is_wf());
    // An empty store is healthy.
    assert!(Configuration::new().is_wf());
}

#[test]
fn name_and_record_guards() {
    assert!(check_name("alpha"));
    assert!(check_name("alpha-2"));
    assert!(!check_name(""));
    assert!(!check_name("a/b"));
    assert!(!check_name("."));
    assert!(!check_name(".."));
    assert!(check_lines(&vec!["/home".to_string(), "*.tmp".to_string()]));
    assert!(!check_lines(&vec!["two\nlines".to_string()]));
    assert!(!check_lines(&vec![" padded ".to_string()]));
}
