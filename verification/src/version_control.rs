//! Writing a snapshot: one version, its files and one log entry, all or
//! nothing.

use vstd::prelude::*;
use vstd::string::*;
use crate::records::{
    file_rows, has_version, log_rows, version_rows, FileRecord, FileRow, LogRow,
    OperationLogEntry, StoreView, VersionRecord, VersionRow, VersionStore,
};
use crate::text::{details_text, json_string_text, snapshot_details};

verus! {

/// One file that a scan of the project found.
#[derive(Debug, Clone)]
pub struct ScannedFileInfo {
    /// Path relative to the project's root.
    pub path: String,
    /// Digest of the content.
    pub hash: String,
    /// Size in bytes. The store keeps the number as it is given.
    pub size: i64,
}

/// What an entry of a manifest says.
pub ghost struct ManifestRow {
    pub path: Seq<char>,
    pub hash: Seq<char>,
    pub size: int,
}

impl View for ScannedFileInfo {
    type V = ManifestRow;

    open spec fn view(&self) -> ManifestRow {
        ManifestRow { path: self.path@, hash: self.hash@, size: self.size as int }
    }
}

/// Why a snapshot was not written.
#[derive(Debug, Clone, Copy, PartialEq, Eq, Structural)]
pub enum SnapshotError {
    /// Two entries of the manifest share a path.
    InvalidManifest,
    /// The store could not take the rows: it has no schema, or it has no
    /// identity left to give.
    StorageFailure,
}

/// A manifest, entry by entry.
pub open spec fn manifest_rows(files: Seq<ScannedFileInfo>) -> Seq<ManifestRow> {
    Seq::new(files.len(), |i: int| files[i]@)
}

/// No two entries share a path.
pub open spec fn paths_distinct(files: Seq<ManifestRow>) -> bool {
    forall|i: int, j: int|
        0 <= i < j < files.len() ==> (#[trigger] files[i]).path != (#[trigger] files[j]).path
}

/// The sizes of all entries, added up.
pub open spec fn total_size(files: Seq<ManifestRow>) -> int
    decreases files.len(),
{
    if files.len() == 0 {
        0
    } else {
        total_size(files.drop_last()) + files.last().size
    }
}

/// The file rows that a manifest becomes under the version `id`.
pub open spec fn manifest_file_rows(id: int, files: Seq<ManifestRow>) -> Seq<FileRow> {
    Seq::new(
        files.len(),
        |i: int|
            FileRow {
                version_id: id,
                file_path: files[i].path,
                content_hash: files[i].hash,
                file_size: files[i].size,
            },
    )
}

/// The description of the version that a first snapshot writes.
pub open spec fn snapshot_description(project_root_name: Seq<char>) -> Seq<char> {
    "Initial snapshot of project: "@ + project_root_name
}

/// The error that a snapshot meets on this store, if any. A manifest with a
/// repeated path is refused before the store is touched; a store without its
/// schema, or with no identity left for the version or for the log entry,
/// cannot take the rows.
pub open spec fn snapshot_error(store: StoreView, files: Seq<ManifestRow>) -> Option<
    SnapshotError,
> {
    if !paths_distinct(files) {
        Some(SnapshotError::InvalidManifest)
    } else if !store.schema_ready || store.last_version_id >= i64::MAX || store.last_log_id
        >= i64::MAX {
        Some(SnapshotError::StorageFailure)
    } else {
        None
    }
}

/// The texts that a snapshot writes besides its file rows: those of the
/// version row and of the log entry.
#[derive(Debug, Clone)]
pub struct SnapshotPlan {
    pub timestamp: String,
    pub description: String,
    pub operation_type: String,
    pub target_entity: String,
    pub details_json: String,
}

/// What a plan says.
pub ghost struct SnapshotPlanView {
    pub timestamp: Seq<char>,
    pub description: Seq<char>,
    pub operation_type: Seq<char>,
    pub target_entity: Seq<char>,
    pub details_json: Seq<char>,
}

impl View for SnapshotPlan {
    type V = SnapshotPlanView;

    open spec fn view(&self) -> SnapshotPlanView {
        SnapshotPlanView {
            timestamp: self.timestamp@,
            description: self.description@,
            operation_type: self.operation_type@,
            target_entity: self.target_entity@,
            details_json: self.details_json@,
        }
    }
}

/// The plan of a first snapshot of a project.
pub open spec fn planned(
    project_root_name: Seq<char>,
    files: Seq<ManifestRow>,
    timestamp: Seq<char>,
) -> SnapshotPlanView {
    SnapshotPlanView {
        timestamp,
        description: snapshot_description(project_root_name),
        operation_type: "PROJECT_SNAPSHOT_INITIAL"@,
        target_entity: project_root_name,
        details_json: details_text(
            json_string_text(project_root_name),
            files.len(),
            total_size(files),
        ),
    }
}

/// The store after a snapshot went through.
pub open spec fn snapshot_applied(
    store: StoreView,
    project_root_name: Seq<char>,
    files: Seq<ManifestRow>,
    timestamp: Seq<char>,
) -> StoreView {
    let id = store.last_version_id + 1;
    let plan = planned(project_root_name, files, timestamp);
    StoreView {
        schema_ready: store.schema_ready,
        versions: store.versions.push(
            VersionRow {
                version_id: id,
                parent_version_id: None,
                timestamp: timestamp,
                description: plan.description,
            },
        ),
        files: store.files + manifest_file_rows(id, files),
        log: store.log.push(
            LogRow {
                log_id: store.last_log_id + 1,
                linked_version_id: Some(id),
                timestamp: timestamp,
                operation_type: plan.operation_type,
                target_entity: Some(plan.target_entity),
                content_hash_before: None,
                content_hash_after: None,
                details_json: Some(plan.details_json),
            },
        ),
        last_version_id: id,
        last_log_id: store.last_log_id + 1,
    }
}

/// What a snapshot at `timestamp` leaves: on success the new identity and
/// the store with the new rows, on failure the error and the store as it was.
pub open spec fn snapshot_outcome(
    before: StoreView,
    project_root_name: Seq<char>,
    files: Seq<ManifestRow>,
    timestamp: Seq<char>,
    result: Result<i64, SnapshotError>,
    after: StoreView,
) -> bool {
    match result {
        Ok(id) => {
            &&& snapshot_error(before, files) is None
            &&& id == before.last_version_id + 1
            &&& after == snapshot_applied(before, project_root_name, files, timestamp)
        },
        Err(e) => snapshot_error(before, files) == Some(e) && after == before,
    }
}

/// Whether two entries of the manifest share a path.
pub fn has_duplicate_path(files: &[ScannedFileInfo]) -> (dup: bool)
    ensures
        dup == !paths_distinct(manifest_rows(files@)),
{
    let ghost rows = manifest_rows(files@);
    let mut j: usize = 0;
    while j < files.len()
        invariant
            j <= files.len(),
            rows == manifest_rows(files@),
            forall|a: int, b: int| 0 <= a < b < j ==> (#[trigger] rows[a]).path != (#[trigger] rows[b]).path,
        decreases files.len() - j,
    {
        let mut i: usize = 0;
        while i < j
            invariant
                i <= j < files.len(),
                rows == manifest_rows(files@),
                forall|a: int| 0 <= a < i ==> (#[trigger] rows[a]).path != rows[j as int].path,
            decreases j - i,
        {
            if files[i].path == files[j].path {
                assert(rows[i as int].path == rows[j as int].path);
                return true;
            }
            i += 1;
        }
        j += 1;
    }
    false
}

/// The sum of `n` sizes lies between `n` times the least and `n` times the
/// greatest size.
proof fn total_size_bounds(files: Seq<ManifestRow>)
    requires
        forall|i: int| 0 <= i < files.len() ==> i64::MIN <= (#[trigger] files[i]).size <= i64::MAX,
    ensures
        files.len() * i64::MIN <= total_size(files) <= files.len() * i64::MAX,
    decreases files.len(),
{
    if files.len() > 0 {
        total_size_bounds(files.drop_last());
    }
}

/// Adds up the sizes of a manifest. The sum of any manifest that fits in
/// memory fits in an `i128`.
pub fn manifest_total_size(files: &[ScannedFileInfo]) -> (total: i128)
    ensures
        total == total_size(manifest_rows(files@)),
{
    let ghost rows = manifest_rows(files@);
    let mut total: i128 = 0;
    let mut i: usize = 0;
    while i < files.len()
        invariant
            i <= files.len(),
            rows == manifest_rows(files@),
            total == total_size(rows.take(i as int)),
        decreases files.len() - i,
    {
        proof {
            total_size_bounds(rows.take(i as int));
            assert(rows.take(i as int + 1).drop_last() =~= rows.take(i as int));
        }
        total = total + files[i].size as i128;
        i += 1;
    }
    proof {
        assert(rows.take(i as int) =~= rows);
    }
    total
}

/// A snapshot that meets no error leaves a store that keeps its invariant.
pub proof fn snapshot_applied_wf(
    before: StoreView,
    project_root_name: Seq<char>,
    files: Seq<ManifestRow>,
    timestamp: Seq<char>,
)
    requires
        before.wf(),
        snapshot_error(before, files) is None,
    ensures
        snapshot_applied(before, project_root_name, files, timestamp).wf(),
{
    let after = snapshot_applied(before, project_root_name, files, timestamp);
    let id = before.last_version_id + 1;
    let n = before.versions.len() as int;
    assert(after.versions[n].version_id == id);
    assert forall|v: int| has_version(before.versions, v) implies has_version(
        after.versions,
        v,
    ) && v < id by {
        let k = choose|k: int| 0 <= k < before.versions.len() && #[trigger] before.versions[k].version_id == v;
        assert(after.versions[k].version_id == v);
    }
    assert(has_version(after.versions, id));
    assert forall|i: int| 0 <= i < after.versions.len() implies match (#[trigger] after.versions[i]).parent_version_id {
        Some(p) => p < after.versions[i].version_id && has_version(after.versions, p),
        None => true,
    } by {
        if i < n {
            assert(after.versions[i] == before.versions[i]);
        }
    }
    assert forall|i: int| 0 <= i < after.files.len() implies has_version(
        after.versions,
        (#[trigger] after.files[i]).version_id,
    ) by {
        if i < before.files.len() {
            assert(after.files[i] == before.files[i]);
        }
    }
    assert forall|i: int, j: int| 0 <= i < j < after.files.len() implies !((
    #[trigger] after.files[i]).version_id == (#[trigger] after.files[j]).version_id
        && after.files[i].file_path == after.files[j].file_path) by {
        let m = before.files.len() as int;
        if j < m {
            assert(after.files[i] == before.files[i]);
            assert(after.files[j] == before.files[j]);
        } else if i < m {
            assert(after.files[i] == before.files[i]);
            assert(has_version(before.versions, before.files[i].version_id));
            assert(after.files[j].version_id == id);
        } else {
            assert(after.files[i].file_path == files[i - m].path);
            assert(after.files[j].file_path == files[j - m].path);
        }
    }
    assert forall|i: int| 0 <= i < after.log.len() implies match (#[trigger] after.log[i]).linked_version_id {
        Some(v) => has_version(after.versions, v),
        None => true,
    } by {
        if i < before.log.len() {
            assert(after.log[i] == before.log[i]);
        }
    }
}

/// The description of the version that a first snapshot of the project writes.
pub fn describe_snapshot(project_root_name: &str) -> (out: String)
    ensures
        out@ == snapshot_description(project_root_name@),
{
    String::from_str("Initial snapshot of project: ").concat(project_root_name)
}

/// Calls `chrono::Utc::now` and `DateTime::to_rfc3339`: the present instant
/// as text. Nothing is claimed of the text, which differs from call to call.
/// `Utc::now` panics where the machine's clock stands before 1970.
#[verifier::external_body]
fn current_timestamp() -> (out: String) {
    chrono::Utc::now().to_rfc3339()
}

/// Decides what a snapshot writes, before anything is written: refuses a
/// manifest in which two entries share a path, and otherwise gives the texts
/// of the version row and of the log entry.
pub fn plan_snapshot(
    project_root_name: &str,
    files: &[ScannedFileInfo],
    timestamp: &str,
) -> (result: Result<SnapshotPlan, SnapshotError>)
    ensures
        match result {
            Ok(plan) => paths_distinct(manifest_rows(files@)) && plan@ == planned(
                project_root_name@,
                manifest_rows(files@),
                timestamp@,
            ),
            Err(e) => !paths_distinct(manifest_rows(files@)) && e
                == SnapshotError::InvalidManifest,
        },
{
    if has_duplicate_path(files) {
        return Err(SnapshotError::InvalidManifest);
    }
    let total = manifest_total_size(files);
    proof {
        assert(manifest_rows(files@).len() == files@.len());
    }
    Ok(
        SnapshotPlan {
            timestamp: String::from_str(timestamp),
            description: describe_snapshot(project_root_name),
            operation_type: String::from_str("PROJECT_SNAPSHOT_INITIAL"),
            target_entity: String::from_str(project_root_name),
            details_json: snapshot_details(project_root_name, files.len(), total),
        },
    )
}

/// Writes a snapshot with the given creation instant.
///
/// In one step the store gains a root version, one file row for each entry
/// of the manifest and one log entry, or it stays as it was and the error
/// says why.
pub fn create_initial_snapshot_at(
    store: &mut VersionStore,
    project_root_name: &str,
    files: &[ScannedFileInfo],
    timestamp: &str,
) -> (result: Result<i64, SnapshotError>)
    requires
        old(store).wf(),
    ensures
        final(store).wf(),
        snapshot_outcome(
            old(store)@,
            project_root_name@,
            manifest_rows(files@),
            timestamp@,
            result,
            final(store)@,
        ),
{
    let ghost before = store@;
    let ghost rows = manifest_rows(files@);
    let plan = match plan_snapshot(project_root_name, files, timestamp) {
        Ok(plan) => plan,
        Err(e) => {
            return Err(e);
        },
    };
    if !store.schema_ready || store.last_version_id == i64::MAX || store.last_log_id
        == i64::MAX {
        return Err(SnapshotError::StorageFailure);
    }
    let id: i64 = store.last_version_id + 1;
    let log_id: i64 = store.last_log_id + 1;
    let SnapshotPlan { timestamp: stamp, description, operation_type, target_entity, details_json } =
        plan;
    store.versions.push(
        VersionRecord {
            version_id: id,
            parent_version_id: None,
            timestamp: stamp.clone(),
            description,
        },
    );
    let ghost versions_now = store.versions@;
    proof {
        assert(version_rows(versions_now) =~= before.versions.push(versions_now.last()@));
    }
    let mut i: usize = 0;
    while i < files.len()
        invariant
            i <= files.len(),
            rows == manifest_rows(files@),
            file_rows(store.files@) == before.files + manifest_file_rows(id as int, rows).take(
                i as int,
            ),
            store.versions@ == versions_now,
            log_rows(store.log@) == before.log,
            store.schema_ready == before.schema_ready,
            store.last_version_id == before.last_version_id,
            store.last_log_id == before.last_log_id,
        decreases files.len() - i,
    {
        let entry = &files[i];
        let ghost prior = store.files@;
        store.files.push(
            FileRecord {
                version_id: id,
                file_path: entry.path.clone(),
                content_hash: entry.hash.clone(),
                file_size: entry.size,
            },
        );
        proof {
            assert(rows[i as int] == files@[i as int]@);
            assert(file_rows(store.files@) =~= file_rows(prior).push(
                manifest_file_rows(id as int, rows)[i as int],
            ));
            assert(manifest_file_rows(id as int, rows).take(i as int + 1) =~= manifest_file_rows(
                id as int,
                rows,
            ).take(i as int).push(manifest_file_rows(id as int, rows)[i as int]));
        }
        i += 1;
    }
    let ghost log_prior = store.log@;
    store.log.push(
        OperationLogEntry {
            log_id,
            linked_version_id: Some(id),
            timestamp: stamp,
            operation_type,
            target_entity: Some(target_entity),
            content_hash_before: None,
            content_hash_after: None,
            details_json: Some(details_json),
        },
    );
    store.last_version_id = id;
    store.last_log_id = log_id;
    proof {
        let after = snapshot_applied(before, project_root_name@, rows, timestamp@);
        assert(manifest_file_rows(id as int, rows).take(files.len() as int)
            =~= manifest_file_rows(id as int, rows));
        assert(store@.versions =~= after.versions);
        assert(store@.files =~= after.files);
        assert(log_rows(store.log@) =~= log_rows(log_prior).push(store.log@.last()@));
        assert(store@.log =~= after.log);
        assert(store@ == after);
        snapshot_applied_wf(before, project_root_name@, rows, timestamp@);
    }
    Ok(id)
}

/// Writes a snapshot of a project, stamped with the present instant.
///
/// Whatever the clock says, the outcome is that of
/// [`create_initial_snapshot_at`] for some instant.
pub fn create_initial_project_snapshot(
    store: &mut VersionStore,
    project_root_name: &str,
    files: &[ScannedFileInfo],
) -> (result: Result<i64, SnapshotError>)
    requires
        old(store).wf(),
    ensures
        final(store).wf(),
        exists|timestamp: Seq<char>| #[trigger]
            snapshot_outcome(
                old(store)@,
                project_root_name@,
                manifest_rows(files@),
                timestamp,
                result,
                final(store)@,
            ),
{
    let timestamp = current_timestamp();
    create_initial_snapshot_at(store, project_root_name, files, timestamp.as_str())
}

} // verus!
