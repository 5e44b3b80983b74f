use duplikat::frame_line;
use duplikat::Backup;
use duplikat::Configuration;
use duplikat::Repository;
use duplikat::RepositoryKind;
use duplikat::Restic;
use duplikat::ServerError;

fn alpha() -> Backup {
    Backup {
        name: "alpha".to_string(),
        repository: Repository {
            kind: RepositoryKind::Local,
            identifier: "".to_string(),
            path: "/tmp/alpha-repo".to_string(),
        },
        key_id: None,
        key_secret: None,
        password: "pw".to_string(),
        includes: vec!["/home".to_string()],
        excludes: vec![],
    }
}

#[test]
fn create_backup_success_keeps_definition() {
    let mut store = Configuration::new();
    let r = Restic::create_backup(&mut store, &alpha(), None, None);
    assert_eq!(r, Ok(()));
    assert_eq!(store.list_names(), vec!["alpha".to_string()]);
}

#[test]
fn failed_init_rolls_back_configuration() {
    let mut store = Configuration::new();
    let r = Restic::create_backup(
        &mut store,
        &alpha(),
        None,
        Some("  repository init failed\n".to_string()),
    );
    assert_eq!(
        r,
        Err(ServerError::RepoInit("repository init failed".to_string()))
    );
    // The rollback completed: no listing shows the backup.
    assert_eq!(store.list_names(), Vec::<String>::new());
}

#[test]
fn failed_write_reports_configuration_error() {
    let mut store = Configuration::new();
    let r = Restic::create_backup(
        &mut store,
        &alpha(),
        Some("disk full".to_string()),
        None,
    );
    assert_eq!(r, Err(ServerError::Configuration("disk full".to_string())));
    assert_eq!(store.list_names(), Vec::<String>::new());
}

#[test]
fn init_arguments() {
    let args = Restic::init_args("/etc/duplikatd/backups", "alpha");
    assert_eq!(
        args,
        vec![
            "--json".to_string(),
            "init".to_string(),
            "--repository-file".to_string(),
            "/etc/duplikatd/backups/alpha/repo".to_string(),
            "--password-file".to_string(),
            "/etc/duplikatd/backups/alpha/password".to_string(),
        ]
    );
}

#[test]
fn backup_arguments() {
    let args = Restic::backup_args("/etc/duplikatd/backups", "alpha");
    assert_eq!(
        args,
        vec![
            "--json".to_string(),
            "backup".to_string(),
            "--files-from".to_string(),
            "/etc/duplikatd/backups/alpha/include".to_string(),
            "--exclude-file".to_string(),
            "/etc/duplikatd/backups/alpha/exclude".to_string(),
            "--repository-file".to_string(),
            "/etc/duplikatd/backups/alpha/repo".to_string(),
            "--password-file".to_string(),
            "/etc/duplikatd/backups/alpha/password".to_string(),
        ]
    );
}

#[test]
fn stats_arguments() {
    let args = Restic::stats_args("/etc/duplikatd/backups", "alpha");
    assert_eq!(
        args,
        vec![
            "--json".to_string(),
            "stats".to_string(),
            "--repository-file".to_string(),
            "/etc/duplikatd/backups/alpha/repo".to_string(),
            "--password-file".to_string(),
            "/etc/duplikatd/backups/alpha/password".to_string(),
        ]
    );
}

#[test]
fn stats_expects_exactly_one_line() {
    let one = Restic::stats_from_lines(
        "alpha".to_string(),
        vec!["{\"total_size\":1}".to_string()],
    );
    assert_eq!(
        one,
        Some(("alpha".to_string(), "{\"total_size\":1}".to_string()))
    );
    assert_eq!(Restic::stats_from_lines("alpha".to_string(), vec![]), None);
    assert_eq!(
        Restic::stats_from_lines(
            "alpha".to_string(),
            vec!["{}".to_string(), "{}".to_string()]
        ),
        None
    );
}

#[test]
fn framing_appends_one_newline() {
    assert_eq!(frame_line("{\"message\":\"OK\"}"), "{\"message\":\"OK\"}\n");
    assert_eq!(frame_line(""), "\n");
}
