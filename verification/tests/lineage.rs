use diranalyze::db_manage::{get_version, initialize_database, list_files};
use diranalyze::integrity::check_integrity;
use diranalyze::lineage::delete_version;
use diranalyze::records::{FileRecord, OperationLogEntry, VersionRecord, VersionStore};
use diranalyze::text::comes_before;
use diranalyze::version_control::{create_initial_project_snapshot, ScannedFileInfo};

fn file(path: &str, hash: &str, size: i64) -> ScannedFileInfo {
    ScannedFileInfo { path: path.to_string(), hash: hash.to_string(), size }
}

fn version(id: i64, parent: Option<i64>) -> VersionRecord {
    VersionRecord {
        version_id: id,
        parent_version_id: parent,
        timestamp: "2024-01-01T00:00:00+00:00".to_string(),
        description: format!("version {}", id),
    }
}

fn file_row(id: i64, path: &str) -> FileRecord {
    FileRecord {
        version_id: id,
        file_path: path.to_string(),
        content_hash: "h".to_string(),
        file_size: 1,
    }
}

fn log_row(log_id: i64, linked: Option<i64>) -> OperationLogEntry {
    OperationLogEntry {
        log_id,
        linked_version_id: linked,
        timestamp: "2024-01-01T00:00:00+00:00".to_string(),
        operation_type: "TEST".to_string(),
        target_entity: None,
        content_hash_before: None,
        content_hash_after: None,
        details_json: None,
    }
}

/// 1 is the root of 2 and 4, 2 is the parent of 5, 3 stands alone.
fn family() -> VersionStore {
    let mut store = VersionStore::new();
    initialize_database(&mut store);
    store.versions = vec![
        version(1, None),
        version(2, Some(1)),
        version(3, None),
        version(4, Some(1)),
        version(5, Some(2)),
    ];
    store.files = vec![
        file_row(1, "a"),
        file_row(2, "a"),
        file_row(3, "a"),
        file_row(5, "a"),
        file_row(5, "b"),
    ];
    store.log = vec![log_row(1, Some(1)), log_row(2, None), log_row(3, Some(3)), log_row(4, Some(5))];
    store.last_version_id = 5;
    store.last_log_id = 4;
    store
}

fn ids(store: &VersionStore) -> Vec<i64> {
    store.versions.iter().map(|v| v.version_id).collect()
}

#[test]
fn deleting_a_root_takes_its_descendants() {
    let mut store = family();
    assert!(check_integrity(&store));
    assert!(delete_version(&mut store, 1));
    assert!(check_integrity(&store));
    assert_eq!(ids(&store), vec![3]);
    assert_eq!(store.files.len(), 1);
    assert_eq!(store.files[0].version_id, 3);
    let log: Vec<i64> = store.log.iter().map(|l| l.log_id).collect();
    assert_eq!(log, vec![2, 3]);
    assert_eq!(store.last_version_id, 5);
    assert_eq!(store.last_log_id, 4);
}

#[test]
fn deleting_a_branch_spares_its_siblings() {
    let mut store = family();
    assert!(delete_version(&mut store, 2));
    assert_eq!(ids(&store), vec![1, 3, 4]);
    let files: Vec<i64> = store.files.iter().map(|f| f.version_id).collect();
    assert_eq!(files, vec![1, 3]);
    let log: Vec<i64> = store.log.iter().map(|l| l.log_id).collect();
    assert_eq!(log, vec![1, 2, 3]);
}

#[test]
fn deleting_an_unknown_version_changes_nothing() {
    let mut store = family();
    assert!(!delete_version(&mut store, 9));
    assert_eq!(ids(&store), vec![1, 2, 3, 4, 5]);
    assert_eq!(store.files.len(), 5);
    assert_eq!(store.log.len(), 4);
}

#[test]
fn deleted_identity_is_not_given_out_again() {
    let mut store = VersionStore::new();
    initialize_database(&mut store);
    let first = create_initial_project_snapshot(&mut store, "P", &[file("a", "h", 1)]).unwrap();
    assert!(delete_version(&mut store, first));
    assert!(get_version(&store, first).is_none());
    assert_eq!(store.versions.len(), 0);
    assert_eq!(store.files.len(), 0);
    assert_eq!(store.log.len(), 0);
    let second = create_initial_project_snapshot(&mut store, "P", &[file("a", "h", 1)]).unwrap();
    assert_eq!(second, 2);
    assert_eq!(store.log[0].log_id, 2);
}

#[test]
fn list_files_is_ordered_by_path() {
    let mut store = VersionStore::new();
    initialize_database(&mut store);
    let files = vec![file("src/z.rs", "h1", 1), file("README.md", "h2", 2), file("src/a.rs", "h3", 3)];
    create_initial_project_snapshot(&mut store, "Other", &[file("zzz", "h", 1)]).unwrap();
    let id = create_initial_project_snapshot(&mut store, "P", &files).unwrap();
    let listed = list_files(&store, id);
    let paths: Vec<&str> = listed.iter().map(|f| f.file_path.as_str()).collect();
    assert_eq!(paths, vec!["README.md", "src/a.rs", "src/z.rs"]);
    assert_eq!(listed[0].content_hash, "h2");
    assert_eq!(listed[0].file_size, 2);
    assert!(listed.iter().all(|f| f.version_id == id));
    assert!(list_files(&store, 7).is_empty());
}

#[test]
fn text_order_is_by_code_point() {
    assert!(comes_before("", "a"));
    assert!(!comes_before("", ""));
    assert!(!comes_before("a", ""));
    assert!(comes_before("a", "ab"));
    assert!(comes_before("Z", "a"));
    assert!(comes_before("ab", "b"));
    assert!(!comes_before("b", "ab"));
    assert!(!comes_before("same", "same"));
    assert!(comes_before("z", "\u{e9}"));
    assert!(comes_before("\u{ffff}", "\u{10000}"));
    assert_eq!(comes_before("\u{ffff}", "\u{10000}"), "\u{ffff}" < "\u{10000}");
}
