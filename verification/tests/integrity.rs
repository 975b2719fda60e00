use diranalyze::db_manage::initialize_database;
use diranalyze::integrity::{check_integrity, holds_version};
use diranalyze::lineage::delete_version;
use diranalyze::records::{FileRecord, OperationLogEntry, VersionRecord, VersionStore};
use diranalyze::version_control::{create_initial_project_snapshot, ScannedFileInfo};

fn row(id: i64, parent: Option<i64>) -> VersionRecord {
    VersionRecord {
        version_id: id,
        parent_version_id: parent,
        timestamp: "2024-01-01T00:00:00+00:00".to_string(),
        description: String::new(),
    }
}

fn attached(id: i64, path: &str) -> FileRecord {
    FileRecord {
        version_id: id,
        file_path: path.to_string(),
        content_hash: "h".to_string(),
        file_size: 0,
    }
}

fn logged(log_id: i64, linked: Option<i64>) -> OperationLogEntry {
    OperationLogEntry {
        log_id,
        linked_version_id: linked,
        timestamp: "2024-01-01T00:00:00+00:00".to_string(),
        operation_type: "TEST".to_string(),
        target_entity: None,
        content_hash_before: None,
        content_hash_after: None,
        details_json: None,
    }
}

fn sound() -> VersionStore {
    let mut store = VersionStore::new();
    initialize_database(&mut store);
    store.versions = vec![row(1, None), row(3, Some(1))];
    store.files = vec![attached(1, "a"), attached(3, "a"), attached(3, "b")];
    store.log = vec![logged(2, Some(3)), logged(5, None)];
    store.last_version_id = 4;
    store.last_log_id = 5;
    store
}

#[test]
fn stores_built_by_the_library_are_sound() {
    let mut store = VersionStore::new();
    assert!(check_integrity(&store));
    initialize_database(&mut store);
    assert!(check_integrity(&store));
    let files = vec![ScannedFileInfo { path: "a".to_string(), hash: "h".to_string(), size: 1 }];
    create_initial_project_snapshot(&mut store, "P", &files).unwrap();
    create_initial_project_snapshot(&mut store, "P", &files).unwrap();
    assert!(check_integrity(&store));
    delete_version(&mut store, 1);
    assert!(check_integrity(&store));
    assert!(check_integrity(&sound()));
}

#[test]
fn holds_version_finds_identities() {
    let store = sound();
    assert!(holds_version(&store.versions, 1));
    assert!(holds_version(&store.versions, 3));
    assert!(!holds_version(&store.versions, 2));
}

#[test]
fn identity_beyond_the_counter_is_unsound() {
    let mut store = sound();
    store.last_version_id = 2;
    assert!(!check_integrity(&store));
    let mut store = sound();
    store.last_log_id = 4;
    assert!(!check_integrity(&store));
    let mut store = sound();
    store.last_version_id = -1;
    assert!(!check_integrity(&store));
}

#[test]
fn identities_out_of_order_are_unsound() {
    let mut store = sound();
    store.versions = vec![row(3, None), row(1, None)];
    assert!(!check_integrity(&store));
    let mut store = sound();
    store.versions = vec![row(1, None), row(1, None), row(3, None)];
    assert!(!check_integrity(&store));
    let mut store = sound();
    store.log = vec![logged(5, None), logged(2, None)];
    assert!(!check_integrity(&store));
    let mut store = sound();
    store.versions = vec![row(0, None), row(1, None), row(3, None)];
    assert!(!check_integrity(&store));
}

#[test]
fn dangling_references_are_unsound() {
    let mut store = sound();
    store.versions = vec![row(1, None), row(3, Some(2))];
    assert!(!check_integrity(&store));
    let mut store = sound();
    store.versions = vec![row(1, Some(3)), row(3, None)];
    assert!(!check_integrity(&store));
    let mut store = sound();
    store.files.push(attached(2, "a"));
    assert!(!check_integrity(&store));
    let mut store = sound();
    store.log = vec![logged(1, Some(2))];
    assert!(!check_integrity(&store));
}

#[test]
fn repeated_path_in_one_version_is_unsound() {
    let mut store = sound();
    store.files.push(attached(3, "a"));
    assert!(!check_integrity(&store));
}

#[test]
fn rows_without_schema_are_unsound() {
    let mut store = sound();
    store.schema_ready = false;
    assert!(!check_integrity(&store));
}
