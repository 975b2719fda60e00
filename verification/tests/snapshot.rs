use diranalyze::api::{handle_create_initial_snapshot, InitialSnapshotRequest, SnapshotReply};
use diranalyze::db_manage::{get_version, initialize_database, table_exists};
use diranalyze::records::VersionStore;
use diranalyze::text::{append_decimal, append_integer, details_document, snapshot_details};
use diranalyze::version_control::{
    create_initial_project_snapshot, create_initial_snapshot_at, describe_snapshot,
    has_duplicate_path, manifest_total_size, plan_snapshot, ScannedFileInfo, SnapshotError,
};

fn setup_test_db() -> VersionStore {
    let mut store = VersionStore::new();
    initialize_database(&mut store);
    store
}

fn entry(path: &str, hash: &str, size: i64) -> ScannedFileInfo {
    ScannedFileInfo { path: path.to_string(), hash: hash.to_string(), size }
}

fn sample_files() -> Vec<ScannedFileInfo> {
    vec![
        entry("MyTestProject/README.md", "abc123readmehash", 1024),
        entry("MyTestProject/src/main.js", "def456mainjshash", 2048),
    ]
}

#[test]
fn test_create_initial_snapshot() {
    let mut conn = setup_test_db();

    let project_name = "MyTestProject";
    let files_data = sample_files();

    let result = create_initial_project_snapshot(&mut conn, project_name, &files_data);
    assert!(result.is_ok());
    let version_id = result.unwrap();
    assert_eq!(version_id, 1);

    let pv_row = get_version(&conn, version_id).unwrap();
    assert_eq!(pv_row.description, "Initial snapshot of project: MyTestProject");
    assert_eq!(pv_row.parent_version_id, None);

    let vf_count = conn.files.iter().filter(|f| f.version_id == version_id).count();
    assert_eq!(vf_count, 2);

    let readme: Vec<_> = conn
        .files
        .iter()
        .filter(|f| f.version_id == version_id && f.file_path == "MyTestProject/README.md")
        .collect();
    assert_eq!(readme.len(), 1);
    assert_eq!(readme[0].content_hash, "abc123readmehash");
    assert_eq!(readme[0].file_size, 1024);

    let ol_count = conn.log.iter().filter(|l| l.linked_version_id == Some(version_id)).count();
    assert_eq!(ol_count, 1);
}

#[test]
fn snapshot_rows_match_the_manifest() {
    let mut store = setup_test_db();
    let files = sample_files();
    let id = create_initial_snapshot_at(&mut store, "MyTestProject", &files, "2024-01-02T03:04:05+00:00")
        .unwrap();
    assert_eq!(id, 1);
    assert_eq!(store.versions.len(), 1);
    assert_eq!(store.versions[0].timestamp, "2024-01-02T03:04:05+00:00");
    assert_eq!(store.files.len(), 2);
    assert_eq!(store.files[1].version_id, 1);
    assert_eq!(store.files[1].file_path, "MyTestProject/src/main.js");
    assert_eq!(store.files[1].content_hash, "def456mainjshash");
    assert_eq!(store.files[1].file_size, 2048);
    assert_eq!(store.log.len(), 1);
    let entry = &store.log[0];
    assert_eq!(entry.log_id, 1);
    assert_eq!(entry.linked_version_id, Some(1));
    assert_eq!(entry.operation_type, "PROJECT_SNAPSHOT_INITIAL");
    assert_eq!(entry.target_entity.as_deref(), Some("MyTestProject"));
    assert_eq!(entry.timestamp, "2024-01-02T03:04:05+00:00");
    assert_eq!(entry.content_hash_before, None);
    assert_eq!(entry.content_hash_after, None);
    assert_eq!(
        entry.details_json.as_deref(),
        Some("{\"files_count\":2,\"project_name\":\"MyTestProject\",\"total_size\":3072}")
    );
}

#[test]
fn details_are_json_that_serde_reads_back() {
    let text = snapshot_details("a \"quoted\"\nname", 3, -17);
    let value: serde_json::Value = serde_json::from_str(&text).unwrap();
    assert_eq!(value["project_name"].as_str(), Some("a \"quoted\"\nname"));
    assert_eq!(value["files_count"].as_u64(), Some(3));
    assert_eq!(value["total_size"].as_i64(), Some(-17));
    assert_eq!(
        text,
        "{\"files_count\":3,\"project_name\":\"a \\\"quoted\\\"\\nname\",\"total_size\":-17}"
    );
}

#[test]
fn details_document_frames_a_quoted_name() {
    assert_eq!(
        details_document("\"p\"", 0, 0),
        "{\"files_count\":0,\"project_name\":\"p\",\"total_size\":0}"
    );
}

#[test]
fn empty_manifest_is_a_valid_snapshot() {
    let mut store = setup_test_db();
    let id = create_initial_project_snapshot(&mut store, "Empty", &[]).unwrap();
    assert_eq!(id, 1);
    assert_eq!(store.versions.len(), 1);
    assert_eq!(store.files.len(), 0);
    assert_eq!(store.log.len(), 1);
    let details: serde_json::Value =
        serde_json::from_str(store.log[0].details_json.as_deref().unwrap()).unwrap();
    assert_eq!(details["files_count"].as_u64(), Some(0));
    assert_eq!(details["total_size"].as_i64(), Some(0));
}

#[test]
fn timestamp_is_rfc3339() {
    let mut store = setup_test_db();
    create_initial_project_snapshot(&mut store, "P", &[]).unwrap();
    let stamp = &store.versions[0].timestamp;
    assert!(chrono::DateTime::parse_from_rfc3339(stamp).is_ok());
    assert_eq!(&store.log[0].timestamp, stamp);
}

#[test]
fn duplicate_path_fails_and_persists_nothing() {
    let mut store = setup_test_db();
    let files = vec![entry("a.txt", "h1", 1), entry("b.txt", "h2", 2), entry("a.txt", "h3", 3)];
    assert!(has_duplicate_path(&files));
    let result = create_initial_project_snapshot(&mut store, "Dup", &files);
    assert_eq!(result, Err(SnapshotError::InvalidManifest));
    assert_eq!(store.versions.len(), 0);
    assert_eq!(store.files.len(), 0);
    assert_eq!(store.log.len(), 0);
    assert_eq!(store.last_version_id, 0);
    assert_eq!(store.last_log_id, 0);
    let next = create_initial_project_snapshot(&mut store, "Dup", &files[..2]).unwrap();
    assert_eq!(next, 1);
}

#[test]
fn same_hash_under_two_paths_is_accepted() {
    let mut store = setup_test_db();
    let files = vec![entry("a.txt", "same", 1), entry("b.txt", "same", 1)];
    assert!(!has_duplicate_path(&files));
    assert_eq!(create_initial_project_snapshot(&mut store, "P", &files), Ok(1));
}

#[test]
fn store_without_schema_refuses_snapshots() {
    let mut store = VersionStore::new();
    let result = create_initial_project_snapshot(&mut store, "P", &sample_files());
    assert_eq!(result, Err(SnapshotError::StorageFailure));
    assert_eq!(store.versions.len(), 0);
    assert_eq!(store.files.len(), 0);
    assert_eq!(store.log.len(), 0);
}

#[test]
fn exhausted_identities_are_a_storage_failure() {
    let mut store = setup_test_db();
    store.last_version_id = i64::MAX;
    assert_eq!(
        create_initial_project_snapshot(&mut store, "P", &[]),
        Err(SnapshotError::StorageFailure)
    );
    let mut store = setup_test_db();
    store.last_log_id = i64::MAX;
    assert_eq!(
        create_initial_project_snapshot(&mut store, "P", &[]),
        Err(SnapshotError::StorageFailure)
    );
    assert_eq!(store.versions.len(), 0);
    assert_eq!(store.last_version_id, 0);
}

#[test]
fn identities_increase_across_calls() {
    let mut store = setup_test_db();
    let a = create_initial_project_snapshot(&mut store, "P", &sample_files()).unwrap();
    let b = create_initial_project_snapshot(&mut store, "P", &sample_files()).unwrap();
    let c = create_initial_project_snapshot(&mut store, "Q", &[]).unwrap();
    assert_eq!((a, b, c), (1, 2, 3));
    assert_eq!(store.files.len(), 4);
    assert_eq!(store.log.len(), 3);
    assert_eq!(store.log[2].log_id, 3);
}

#[test]
fn schema_can_be_initialised_twice() {
    let mut store = VersionStore::new();
    assert!(!table_exists(&store, "ProjectVersions"));
    initialize_database(&mut store);
    create_initial_project_snapshot(&mut store, "P", &sample_files()).unwrap();
    initialize_database(&mut store);
    assert_eq!(store.versions.len(), 1);
    assert_eq!(store.files.len(), 2);
    assert!(table_exists(&store, "ProjectVersions"));
    assert!(table_exists(&store, "VersionFiles"));
    assert!(table_exists(&store, "OperationLog"));
    assert!(!table_exists(&store, "Other"));
}

#[test]
fn get_version_of_unknown_identity_is_none() {
    let mut store = setup_test_db();
    create_initial_project_snapshot(&mut store, "P", &[]).unwrap();
    assert!(get_version(&store, 2).is_none());
    assert!(get_version(&store, 0).is_none());
    assert_eq!(get_version(&store, 1).unwrap().version_id, 1);
}

#[test]
fn total_size_is_the_exact_sum() {
    let files = vec![entry("a", "h", i64::MAX), entry("b", "h", i64::MAX), entry("c", "h", -5)];
    assert_eq!(manifest_total_size(&files), 2 * (i64::MAX as i128) - 5);
    assert_eq!(manifest_total_size(&[]), 0);
}

#[test]
fn decimal_text_of_integers() {
    let mut out = String::from("x");
    append_decimal(&mut out, 0);
    assert_eq!(out, "x0");
    append_decimal(&mut out, 1234567890);
    assert_eq!(out, "x01234567890");
    let mut out = String::new();
    append_decimal(&mut out, u128::MAX);
    assert_eq!(out, u128::MAX.to_string());
    let mut out = String::new();
    append_integer(&mut out, -42);
    assert_eq!(out, "-42");
    let mut out = String::new();
    append_integer(&mut out, i128::MIN);
    assert_eq!(out, i128::MIN.to_string());
    let mut out = String::new();
    append_integer(&mut out, 7);
    assert_eq!(out, "7");
}

#[test]
fn endpoint_answers_with_the_identity() {
    let mut store = setup_test_db();
    let request = InitialSnapshotRequest {
        project_root_name: "MyTestProject".to_string(),
        files: sample_files(),
    };
    match handle_create_initial_snapshot(&mut store, &request) {
        SnapshotReply::Created { message, version_id } => {
            assert_eq!(message, "Initial snapshot created successfully");
            assert_eq!(version_id, 1);
        }
        SnapshotReply::ServerError => panic!("snapshot refused"),
    }
    let bad = InitialSnapshotRequest {
        project_root_name: "MyTestProject".to_string(),
        files: vec![entry("a", "h", 1), entry("a", "h", 1)],
    };
    assert!(matches!(handle_create_initial_snapshot(&mut store, &bad), SnapshotReply::ServerError));
    assert_eq!(store.versions.len(), 1);
}

#[test]
fn description_names_the_project() {
    assert_eq!(describe_snapshot("MyTestProject"), "Initial snapshot of project: MyTestProject");
    assert_eq!(describe_snapshot(""), "Initial snapshot of project: ");
}

#[test]
fn plan_holds_the_texts_of_the_rows() {
    let plan = plan_snapshot("MyTestProject", &sample_files(), "2024-01-02T03:04:05+00:00").unwrap();
    assert_eq!(plan.timestamp, "2024-01-02T03:04:05+00:00");
    assert_eq!(plan.description, "Initial snapshot of project: MyTestProject");
    assert_eq!(plan.operation_type, "PROJECT_SNAPSHOT_INITIAL");
    assert_eq!(plan.target_entity, "MyTestProject");
    assert_eq!(
        plan.details_json,
        "{\"files_count\":2,\"project_name\":\"MyTestProject\",\"total_size\":3072}"
    );
}

#[test]
fn plan_refuses_a_repeated_path() {
    let files = vec![entry("a", "h1", 1), entry("a", "h2", 2)];
    assert_eq!(plan_snapshot("P", &files, "t").err(), Some(SnapshotError::InvalidManifest));
}

#[test]
fn repeated_path_is_refused_whatever_the_store_holds() {
    let files = vec![entry("a", "h1", 1), entry("a", "h2", 2)];
    let mut store = VersionStore::new();
    assert_eq!(
        create_initial_project_snapshot(&mut store, "P", &files),
        Err(SnapshotError::InvalidManifest)
    );
    let mut store = setup_test_db();
    store.last_version_id = i64::MAX;
    assert_eq!(
        create_initial_project_snapshot(&mut store, "P", &files),
        Err(SnapshotError::InvalidManifest)
    );
}
