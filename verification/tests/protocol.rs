use duplikat::annotate_stats_line;
use duplikat::backups_list_line;
use duplikat::create_response_line;
use duplikat::parse_client_message;
use duplikat::try_add_key;
use duplikat::Backup;
use duplikat::ClientMessage;
use duplikat::Configuration;
use duplikat::Repository;
use duplikat::RepositoryKind;
use duplikat::Restic;
use duplikat::ServerError;

fn alpha() -> Backup {
    Backup {
        name: "alpha".to_string(),
        repository: Repository {
            kind: RepositoryKind::Local,
            identifier: "".to_string(),
            path: "/tmp/alpha-repo".to_string(),
        },
        key_id: None,
        key_secret: None,
        password: "pw".to_string(),
        includes: vec!["/home".to_string()],
        excludes: vec!["*.tmp".to_string()],
    }
}

fn beta() -> Backup {
    Backup {
        name: "beta".to_string(),
        repository: Repository {
            kind: RepositoryKind::B2,
            identifier: "bucket".to_string(),
            path: "/x".to_string(),
        },
        key_id: Some("k".to_string()),
        key_secret: Some("s".to_string()),
        password: "pw2".to_string(),
        includes: vec![],
        excludes: vec![],
    }
}

const ALPHA_JSON: &str = "{\"name\":\"alpha\",\"repository\":{\"kind\":\"local\",\"identifier\":\"\",\"path\":\"/tmp/alpha-repo\"},\"key_id\":null,\"key_secret\":null,\"password\":\"pw\",\"include\":[\"/home\"],\"exclude\":[\"*.tmp\"]}";

#[test]
fn parse_create_backup_message() {
    let line = format!(
        "{{\"message_type\":\"createbackup\",\"backup\":{}}}",
        ALPHA_JSON
    );
    match parse_client_message(line.as_str()) {
        Some(ClientMessage::CreateBackup(c)) => {
            assert_eq!(c.backup.name, "alpha");
            assert_eq!(c.backup.repository, alpha().repository);
            assert_eq!(c.backup.key_id, None);
            assert_eq!(c.backup.password, "pw");
            assert_eq!(c.backup.includes, vec!["/home".to_string()]);
            assert_eq!(c.backup.excludes, vec!["*.tmp".to_string()]);
        }
        other => panic!("expected CreateBackup, got {:?}", other),
    }
}

#[test]
fn parse_run_backup_message() {
    match parse_client_message("{\"message_type\":\"runbackup\",\"name\":\"alpha\"}") {
        Some(ClientMessage::RunBackup(m)) => assert_eq!(m.name, "alpha"),
        other => panic!("expected RunBackup, got {:?}", other),
    }
}

#[test]
fn parse_list_backups_message() {
    assert!(matches!(
        parse_client_message("{\"message_type\":\"listbackups\"}"),
        Some(ClientMessage::ListBackups)
    ));
}

#[test]
fn malformed_lines_are_ignored() {
    assert!(parse_client_message("not json").is_none());
    assert!(parse_client_message("").is_none());
    assert!(parse_client_message("{\"message_type\":\"selfdestruct\"}").is_none());
    assert!(parse_client_message("{\"no_type\":1}").is_none());
    // A createbackup message missing a required field is malformed.
    assert!(parse_client_message("{\"message_type\":\"createbackup\"}").is_none());
    assert!(
        parse_client_message(
            "{\"message_type\":\"createbackup\",\"backup\":{\"name\":\"x\"}}"
        )
        .is_none()
    );
    // An unknown repository kind is malformed.
    let line = "{\"message_type\":\"createbackup\",\"backup\":{\"name\":\"x\",\"repository\":{\"kind\":\"ftp\",\"identifier\":\"\",\"path\":\"/p\"},\"password\":\"pw\",\"include\":[],\"exclude\":[]}}";
    assert!(parse_client_message(line).is_none());
}

#[test]
fn malformed_line_does_not_poison_the_connection() {
    // One malformed line is dropped; the next well-formed request on the
    // same connection still gets its normal response.
    let mut store = Configuration::new();
    store.create(&alpha());
    assert!(parse_client_message("not json").is_none());
    match parse_client_message("{\"message_type\":\"listbackups\"}") {
        Some(ClientMessage::ListBackups) => {}
        other => panic!("expected ListBackups, got {:?}", other),
    }
    let lines = store.list(&vec![None]);
    assert_eq!(lines.len(), 1);
    assert_eq!(
        lines[0],
        format!("{{\"message_type\":\"backupslist\",\"list\":[{}]}}", ALPHA_JSON)
    );
}

#[test]
fn create_then_list_scenario() {
    let line = format!(
        "{{\"message_type\":\"createbackup\",\"backup\":{}}}",
        ALPHA_JSON
    );
    let backup = match parse_client_message(line.as_str()) {
        Some(ClientMessage::CreateBackup(c)) => c.backup,
        other => panic!("expected CreateBackup, got {:?}", other),
    };
    let mut store = Configuration::new();
    let result = Restic::create_backup(&mut store, &backup, None, None);
    assert_eq!(create_response_line(&result), "{\"message\":\"OK\"}");

    let lines = store.list(&vec![None]);
    assert_eq!(lines.len(), 1);
    let expected = format!("{{\"message_type\":\"backupslist\",\"list\":[{}]}}", ALPHA_JSON);
    assert_eq!(lines[0], expected);
}

#[test]
fn list_fans_out_at_most_one_stats_line_per_backup() {
    let mut store = Configuration::new();
    store.create(&alpha());
    store.create(&beta());

    // Both queries succeeded.
    let lines = store.list(&vec![
        Some("{\"total_size\":1,\"total_file_count\":2}".to_string()),
        Some("{\"total_size\":3}".to_string()),
    ]);
    assert_eq!(lines.len(), 3);
    assert!(lines[0].starts_with("{\"message_type\":\"backupslist\",\"list\":["));
    assert_eq!(
        lines[1],
        "{\"message_type\":\"backupstats\",\"name\":\"alpha\",\"total_file_count\":2,\"total_size\":1}"
    );
    assert_eq!(
        lines[2],
        "{\"message_type\":\"backupstats\",\"name\":\"beta\",\"total_size\":3}"
    );

    // A failed query is omitted rather than aborting the whole
    // aggregation.
    let partial = store.list(&vec![None, Some("{\"total_size\":3}".to_string())]);
    assert_eq!(partial.len(), 2);
    assert_eq!(
        partial[1],
        "{\"message_type\":\"backupstats\",\"name\":\"beta\",\"total_size\":3}"
    );

    // Engine output that is not a JSON object is omitted too.
    let odd = store.list(&vec![Some("garbage".to_string()), None]);
    assert_eq!(odd.len(), 1);
}

#[test]
fn annotation_injects_type_and_name() {
    let annotated = annotate_stats_line("alpha", "{\"total_size\":2349097,\"total_file_count\":8}");
    assert_eq!(
        annotated,
        Some(
            "{\"message_type\":\"backupstats\",\"name\":\"alpha\",\"total_file_count\":8,\"total_size\":2349097}"
                .to_string()
        )
    );
    assert_eq!(annotate_stats_line("alpha", "not json"), None);
    assert_eq!(annotate_stats_line("alpha", "[1,2]"), None);
}

#[test]
fn add_key_inserts_string_field() {
    assert_eq!(
        try_add_key("{\"a\":1}", "k", "v".to_string()),
        Some("{\"a\":1,\"k\":\"v\"}".to_string())
    );
    // An existing key is replaced.
    assert_eq!(
        try_add_key("{\"k\":1}", "k", "v".to_string()),
        Some("{\"k\":\"v\"}".to_string())
    );
    assert_eq!(try_add_key("[1]", "k", "v".to_string()), None);
    assert_eq!(try_add_key("nope", "k", "v".to_string()), None);
}

#[test]
fn response_lines() {
    assert_eq!(create_response_line(&Ok(())), "{\"message\":\"OK\"}");
    assert_eq!(
        create_response_line(&Err(ServerError::Configuration("disk full".to_string()))),
        "{\"error\":{\"Configuration\":\"disk full\"}}"
    );
    assert_eq!(
        create_response_line(&Err(ServerError::RepoInit("bad \"credentials\"\n".to_string()))),
        "{\"error\":{\"RepoInit\":\"bad \\\"credentials\\\"\\n\"}}"
    );
}

#[test]
fn backups_list_line_serializes_all_definitions() {
    let line = backups_list_line(&vec![alpha(), beta()]);
    let expected = format!(
        "{{\"message_type\":\"backupslist\",\"list\":[{},{}]}}",
        ALPHA_JSON,
        "{\"name\":\"beta\",\"repository\":{\"kind\":\"b2\",\"identifier\":\"bucket\",\"path\":\"/x\"},\"key_id\":\"k\",\"key_secret\":\"s\",\"password\":\"pw2\",\"include\":[],\"exclude\":[]}"
    );
    assert_eq!(line, expected);
    // The daemon's own serialization agrees with the reference JSON
    // implementation.
    let parsed: serde_json::Value = serde_json::from_str(line.as_str()).unwrap();
    assert_eq!(parsed["message_type"], "backupslist");
    assert_eq!(parsed["list"][0]["name"], "alpha");
    assert_eq!(parsed["list"][1]["repository"]["kind"], "b2");
}

#[test]
fn json_escaping_matches_reference() {
    let odd = Backup {
        name: "we\"ird\\name\twith\u{1}control".to_string(),
        repository: Repository {
            kind: RepositoryKind::Local,
            identifier: "".to_string(),
            path: "/p".to_string(),
        },
        key_id: None,
        key_secret: None,
        password: "s\u{1f}p".to_string(),
        includes: vec![],
        excludes: vec![],
    };
    let mine = odd.to_json();
    // The reference JSON parser reads the escapes back to the original
    // text.
    let parsed: serde_json::Value = serde_json::from_str(mine.as_str()).unwrap();
    assert_eq!(
        parsed["name"].as_str().unwrap(),
        "we\"ird\\name\twith\u{1}control"
    );
    assert_eq!(parsed["password"].as_str().unwrap(), "s\u{1f}p");
    // And the control characters are written the way the reference
    // serializer writes them.
    assert!(mine.contains("\\t"));
    assert!(mine.contains("\\u0001"));
    assert!(mine.contains("\\u001f"));
}
