use duplikat::Backup;
use duplikat::Repository;
use duplikat::RepositoryKind;

#[test]
fn it_works() {
    let backup = Backup {
        name: "test".to_string(),
        repository: Repository {
            kind: RepositoryKind::B2,
            identifier: "server-test".to_string(),
            path: "/system".to_string(),
        },
        key_id: Some("key-id".to_string()),
        key_secret: Some("very-secret".to_string()),
        password: "pass".to_string(),
        includes: vec![],
        excludes: vec![],
    };

    assert_eq!(
        backup.to_json(),
        "{\"name\":\"test\",\"repository\":{\"kind\":\"b2\",\"identifier\":\"server-test\",\"path\":\"/system\"},\"key_id\":\"key-id\",\"key_secret\":\"very-secret\",\"password\":\"pass\",\"include\":[],\"exclude\":[]}".to_string()
    )
}

#[test]
fn b2_repository() {
    let repo_str_reference = "b2:back:/blaze";
    let repo_reference = Repository {
        kind: RepositoryKind::B2,
        identifier: "back".to_string(),
        path: "/blaze".to_string(),
    };

    assert_eq!(repo_reference, Repository::from("b2:back:/blaze"));

    assert_eq!(repo_str_reference, repo_reference.to_string());
}

#[test]
fn local_repository() {
    let repo_str_reference = "/mnt/backup";
    let repo_reference = Repository {
        kind: RepositoryKind::Local,
        identifier: "".to_string(),
        path: "/mnt/backup".to_string(),
    };

    assert_eq!(repo_reference, Repository::from("/mnt/backup"));

    assert_eq!(repo_str_reference, repo_reference.to_string());
}

#[test]
fn sftp_repository_round_trip() {
    let repo = Repository {
        kind: RepositoryKind::SFTP,
        identifier: "user@host".to_string(),
        path: "/srv/backup".to_string(),
    };
    let serialized = repo.to_string();
    assert_eq!(serialized, "sftp:user@host:/srv/backup");
    assert_eq!(repo, Repository::from(serialized.as_str()));
}

#[test]
fn malformed_repository_strings_are_rejected() {
    // Too few fields.
    assert!(Repository::parse("b2:bucket").is_none());
    // Too many fields.
    assert!(Repository::parse("b2:bucket:/x:extra").is_none());
    // Unknown kind.
    assert!(Repository::parse("ftp:host:/x").is_none());
    // Not local-shaped and no fields at all.
    assert!(Repository::parse("").is_none());
    assert!(Repository::parse("plainword").is_none());
}

#[test]
fn local_serialization_drops_identifier() {
    // A local repository serializes to just its path; the identifier
    // does not survive the round trip.
    let repo = Repository {
        kind: RepositoryKind::Local,
        identifier: "ignored".to_string(),
        path: "/data".to_string(),
    };
    assert_eq!(repo.to_string(), "/data");
    let back = Repository::from("/data");
    assert_eq!(back.identifier, "");
}

#[test]
fn local_round_trip_needs_absolute_path() {
    // A local repository with a relative path serializes to a string
    // that no longer looks local; parsing it fails structurally rather
    // than silently succeeding.
    let repo = Repository {
        kind: RepositoryKind::Local,
        identifier: "".to_string(),
        path: "relative/dir".to_string(),
    };
    assert!(Repository::parse(repo.to_string().as_str()).is_none());
}

#[test]
fn kind_names() {
    assert_eq!(RepositoryKind::Local.to_string(), "local");
    assert_eq!(RepositoryKind::SFTP.to_string(), "sftp");
    assert_eq!(RepositoryKind::B2.to_string(), "b2");
    assert_eq!(RepositoryKind::Local.to_human_readable(), "Local Directory");
    assert_eq!(RepositoryKind::SFTP.to_human_readable(), "SFTP");
    assert_eq!(RepositoryKind::B2.to_human_readable(), "Backblaze B2");
    assert_eq!(RepositoryKind::from_name("b2"), Some(RepositoryKind::B2));
    assert_eq!(RepositoryKind::from_name("B2"), None);
}
