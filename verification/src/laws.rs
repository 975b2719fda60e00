//! What holds of the store across calls.

use vstd::prelude::*;
use crate::db_manage::{lists_files_of, schema_provided};
use crate::lineage::{
    doomed, doomed_reason, entry_stays, file_stays, origin, parent_stays, retain_keeps,
    retain_origin, target_is_doomed, version_deleted, version_deleted_wf, version_stays,
};
use crate::records::{has_version, FileRow, StoreView};
use crate::text::{text_before, text_before_irreflexive, text_before_transitive};
use crate::version_control::{
    paths_distinct, snapshot_applied_wf, snapshot_outcome, ManifestRow, SnapshotError,
};

verus! {

/// A snapshot that fails leaves no trace: the store afterwards is the store
/// before, row for row and counter for counter.
pub proof fn failed_snapshot_leaves_no_trace(
    before: StoreView,
    project_root_name: Seq<char>,
    files: Seq<ManifestRow>,
    timestamp: Seq<char>,
    result: Result<i64, SnapshotError>,
    after: StoreView,
)
    requires
        snapshot_outcome(before, project_root_name, files, timestamp, result, after),
        result is Err,
    ensures
        after == before,
        after.versions == before.versions,
        after.files == before.files,
        after.log == before.log,
{
}

/// A snapshot that succeeds adds exactly one version, which carries the
/// returned identity and has no parent; exactly one file row for each entry of
/// the manifest, in the manifest's order and under that identity; and exactly
/// one log entry, linked to that identity. The rows that were there stay, and
/// the identity was not in the store before.
pub proof fn successful_snapshot_is_complete(
    before: StoreView,
    project_root_name: Seq<char>,
    files: Seq<ManifestRow>,
    timestamp: Seq<char>,
    id: i64,
    after: StoreView,
)
    requires
        before.wf(),
        snapshot_outcome(before, project_root_name, files, timestamp, Ok(id), after),
    ensures
        after.wf(),
        !has_version(before.versions, id as int),
        after.versions.len() == before.versions.len() + 1,
        after.versions.drop_last() == before.versions,
        after.versions.last().version_id == id,
        after.versions.last().parent_version_id is None,
        after.files.len() == before.files.len() + files.len(),
        after.files.take(before.files.len() as int) == before.files,
        forall|k: int|
            0 <= k < files.len() ==> #[trigger] after.files[before.files.len() + k] == (FileRow {
                version_id: id as int,
                file_path: files[k].path,
                content_hash: files[k].hash,
                file_size: files[k].size,
            }),
        after.log.len() == before.log.len() + 1,
        after.log.drop_last() == before.log,
        after.log.last().linked_version_id == Some(id as int),
{
    snapshot_applied_wf(before, project_root_name, files, timestamp);
    assert(after.versions.drop_last() =~= before.versions);
    assert(after.log.drop_last() =~= before.log);
    assert(after.files.take(before.files.len() as int) =~= before.files);
}

/// Identities grow: of two snapshots that succeed one after the other on the
/// same store, the second gets the larger identity, and each is larger than
/// every identity that the store held before it.
pub proof fn snapshot_identities_increase(
    before: StoreView,
    first_name: Seq<char>,
    first_files: Seq<ManifestRow>,
    first_timestamp: Seq<char>,
    first_id: i64,
    between: StoreView,
    second_name: Seq<char>,
    second_files: Seq<ManifestRow>,
    second_timestamp: Seq<char>,
    second_id: i64,
    after: StoreView,
)
    requires
        before.wf(),
        snapshot_outcome(before, first_name, first_files, first_timestamp, Ok(first_id), between),
        snapshot_outcome(
            between,
            second_name,
            second_files,
            second_timestamp,
            Ok(second_id),
            after,
        ),
    ensures
        first_id < second_id,
        forall|i: int| 0 <= i < before.versions.len() ==> (#[trigger] before.versions[i]).version_id < first_id,
        forall|i: int| 0 <= i < between.versions.len() ==> (#[trigger] between.versions[i]).version_id < second_id,
{
    snapshot_applied_wf(before, first_name, first_files, first_timestamp);
}

/// A manifest in which two entries share a path is refused whole, whatever
/// the store holds: the call fails as an invalid manifest and the store stays
/// as it was.
pub proof fn duplicate_path_is_rejected(
    before: StoreView,
    project_root_name: Seq<char>,
    files: Seq<ManifestRow>,
    timestamp: Seq<char>,
    result: Result<i64, SnapshotError>,
    after: StoreView,
)
    requires
        snapshot_outcome(before, project_root_name, files, timestamp, result, after),
        !paths_distinct(files),
    ensures
        result == Err::<i64, SnapshotError>(SnapshotError::InvalidManifest),
        after == before,
{
}

/// Deleting a version takes with it all that hangs on it: afterwards the
/// store holds no version with that identity, no file of it, no log entry
/// linked to it and no version that has it as parent. The same holds of
/// every version that went with it, and the store keeps its invariant, so
/// that nothing that stays refers to anything that went. The counters stay
/// where they were.
pub proof fn deletion_cascades(before: StoreView, id: int)
    requires
        before.wf(),
    ensures
        version_deleted(before, id).wf(),
        !has_version(version_deleted(before, id).versions, id),
        forall|x: int| #[trigger]
            doomed(before.versions, id).contains(x) ==> !has_version(
                version_deleted(before, id).versions,
                x,
            ),
        forall|i: int|
            0 <= i < version_deleted(before, id).versions.len() ==> (
            #[trigger] version_deleted(before, id).versions[i]).parent_version_id != Some(id),
        forall|i: int|
            0 <= i < version_deleted(before, id).files.len() ==> !doomed(
                before.versions,
                id,
            ).contains((#[trigger] version_deleted(before, id).files[i]).version_id),
        forall|i: int|
            0 <= i < version_deleted(before, id).files.len() ==> (#[trigger] version_deleted(
                before,
                id,
            ).files[i]).version_id != id,
        forall|i: int|
            0 <= i < version_deleted(before, id).log.len() ==> (#[trigger] version_deleted(
                before,
                id,
            ).log[i]).linked_version_id != Some(id),
        version_deleted(before, id).last_version_id == before.last_version_id,
        version_deleted(before, id).last_log_id == before.last_log_id,
{
    let after = version_deleted(before, id);
    let gone = doomed(before.versions, id);
    version_deleted_wf(before, id);
    assert forall|x: int| #[trigger] gone.contains(x) implies !has_version(after.versions, x) by {
        if has_version(after.versions, x) {
            let a = choose|a: int| 0 <= a < after.versions.len() && #[trigger] after.versions[a].version_id == x;
            retain_origin(before.versions, version_stays(gone), a);
        }
    }
    if has_version(after.versions, id) {
        let a = choose|a: int| 0 <= a < after.versions.len() && #[trigger] after.versions[a].version_id == id;
        retain_origin(before.versions, version_stays(gone), a);
        target_is_doomed(before.versions, id, origin(before.versions, version_stays(gone), a));
    }
    assert forall|i: int| 0 <= i < after.files.len() implies !gone.contains(
        (#[trigger] after.files[i]).version_id,
    ) by {
        retain_origin(before.files, file_stays(gone), i);
    }
}

/// What goes with a deleted version is its descendants and nothing else:
/// the version itself goes if the store holds it; a version whose parent goes,
/// goes too; whatever goes is the version itself or has a parent that goes;
/// and every row that refers to no version that goes stays.
pub proof fn deletion_takes_the_descendants_only(before: StoreView, id: int)
    requires
        before.wf(),
    ensures
        has_version(before.versions, id) ==> doomed(before.versions, id).contains(id),
        forall|i: int|
            0 <= i < before.versions.len() && (#[trigger] before.versions[i]).parent_version_id
                is Some && doomed(before.versions, id).contains(
                before.versions[i].parent_version_id->0,
            ) ==> doomed(before.versions, id).contains(before.versions[i].version_id),
        forall|x: int| #[trigger]
            doomed(before.versions, id).contains(x) ==> x == id || exists|k: int|
                0 <= k < before.versions.len() && (#[trigger] before.versions[k]).version_id == x
                    && before.versions[k].parent_version_id is Some && doomed(
                    before.versions,
                    id,
                ).contains(before.versions[k].parent_version_id->0),
        forall|i: int|
            0 <= i < before.versions.len() && !doomed(before.versions, id).contains(
                (#[trigger] before.versions[i]).version_id,
            ) ==> version_deleted(before, id).versions.contains(before.versions[i]),
        forall|i: int|
            0 <= i < before.files.len() && !doomed(before.versions, id).contains(
                (#[trigger] before.files[i]).version_id,
            ) ==> version_deleted(before, id).files.contains(before.files[i]),
        forall|i: int|
            0 <= i < before.log.len() && ((#[trigger] before.log[i]).linked_version_id is None
                || !doomed(before.versions, id).contains(before.log[i].linked_version_id->0))
                ==> version_deleted(before, id).log.contains(before.log[i]),
{
    let gone = doomed(before.versions, id);
    if has_version(before.versions, id) {
        let k = choose|k: int| 0 <= k < before.versions.len() && #[trigger] before.versions[k].version_id == id;
        target_is_doomed(before.versions, id, k);
    }
    assert forall|i: int|
        0 <= i < before.versions.len() && (#[trigger] before.versions[i]).parent_version_id
            is Some && gone.contains(before.versions[i].parent_version_id->0) implies gone.contains(
        before.versions[i].version_id,
    ) by {
        let p = before.versions[i].parent_version_id->0;
        assert(has_version(before.versions, p));
        let j = choose|j: int| 0 <= j < before.versions.len() && #[trigger] before.versions[j].version_id == p;
        if j > i {
            assert(before.versions[i].version_id < before.versions[j].version_id);
        }
        if !gone.contains(before.versions[i].version_id) {
            parent_stays(before.versions, id, j, i);
        }
    }
    assert forall|x: int| #[trigger] gone.contains(x) implies x == id || exists|k: int|
        0 <= k < before.versions.len() && (#[trigger] before.versions[k]).version_id == x
            && before.versions[k].parent_version_id is Some && gone.contains(
            before.versions[k].parent_version_id->0,
        ) by {
        doomed_reason(before.versions, id, x);
    }
    assert forall|i: int|
        0 <= i < before.versions.len() && !gone.contains(
            (#[trigger] before.versions[i]).version_id,
        ) implies version_deleted(before, id).versions.contains(before.versions[i]) by {
        retain_keeps(before.versions, version_stays(gone), i);
    }
    assert forall|i: int|
        0 <= i < before.files.len() && !gone.contains(
            (#[trigger] before.files[i]).version_id,
        ) implies version_deleted(before, id).files.contains(before.files[i]) by {
        retain_keeps(before.files, file_stays(gone), i);
    }
    assert forall|i: int|
        0 <= i < before.log.len() && ((#[trigger] before.log[i]).linked_version_id is None
            || !gone.contains(before.log[i].linked_version_id->0)) implies version_deleted(
        before,
        id,
    ).log.contains(before.log[i]) by {
        retain_keeps(before.log, entry_stays(gone), i);
    }
}

/// A deleted identity does not come back: the snapshot that follows a
/// deletion gets an identity larger than every one that the store held
/// before the deletion, the deleted ones among them.
pub proof fn deleted_identity_is_not_reused(
    before: StoreView,
    deleted: int,
    project_root_name: Seq<char>,
    files: Seq<ManifestRow>,
    timestamp: Seq<char>,
    id: i64,
    after: StoreView,
)
    requires
        before.wf(),
        snapshot_outcome(
            version_deleted(before, deleted),
            project_root_name,
            files,
            timestamp,
            Ok(id),
            after,
        ),
    ensures
        id == before.last_version_id + 1,
        forall|i: int| 0 <= i < before.versions.len() ==> (#[trigger] before.versions[i]).version_id < id,
        !has_version(before.versions, id as int),
{
}

/// Providing the schema twice is the same as providing it once, and it
/// never touches a row.
pub proof fn schema_is_idempotent(before: StoreView)
    ensures
        schema_provided(schema_provided(before)) == schema_provided(before),
        schema_provided(before).versions == before.versions,
        schema_provided(before).files == before.files,
        schema_provided(before).log == before.log,
        before.wf() ==> schema_provided(before).wf(),
{
}

/// A row of one listing of a version is a row of every other.
proof fn listed_in_both(store: StoreView, version_id: int, a: Seq<FileRow>, b: Seq<FileRow>, k: int)
    requires
        lists_files_of(store, version_id, a),
        lists_files_of(store, version_id, b),
        0 <= k < a.len(),
    ensures
        b.contains(a[k]),
{
    let s = choose|s: int| 0 <= s < store.files.len() && store.files[s] == a[k];
    assert(store.files[s].version_id == version_id);
}

/// Two listings of a version agree as far as both go.
proof fn listings_agree(store: StoreView, version_id: int, a: Seq<FileRow>, b: Seq<FileRow>, k: int)
    requires
        lists_files_of(store, version_id, a),
        lists_files_of(store, version_id, b),
        0 <= k <= a.len(),
        k <= b.len(),
    ensures
        forall|j: int| 0 <= j < k ==> a[j] == b[j],
    decreases k,
{
    if k > 0 {
        let n = k - 1;
        listings_agree(store, version_id, a, b, n);
        listed_in_both(store, version_id, a, b, n);
        listed_in_both(store, version_id, b, a, n);
        let m = choose|m: int| 0 <= m < b.len() && b[m] == a[n];
        let w = choose|w: int| 0 <= w < a.len() && a[w] == b[n];
        text_before_irreflexive(a[n].file_path, 0);
        text_before_irreflexive(b[n].file_path, 0);
        if m < n {
            assert(a[m] == b[m]);
            assert(text_before(a[m].file_path, a[n].file_path));
        } else if w < n {
            assert(a[w] == b[w]);
            assert(text_before(b[w].file_path, b[n].file_path));
        } else if m > n && w > n {
            assert(text_before(b[n].file_path, b[m].file_path));
            assert(text_before(a[n].file_path, a[w].file_path));
            text_before_transitive(a[n].file_path, b[n].file_path, a[n].file_path);
        }
    }
}

/// The manifest of a version is one list and no other: whatever lists the
/// files of a version, each once and in the order of their paths, lists the
/// same rows in the same places.
pub proof fn listing_is_determined(
    store: StoreView,
    version_id: int,
    a: Seq<FileRow>,
    b: Seq<FileRow>,
)
    requires
        lists_files_of(store, version_id, a),
        lists_files_of(store, version_id, b),
    ensures
        a == b,
{
    if a.len() > b.len() {
        let n = b.len() as int;
        listings_agree(store, version_id, a, b, n);
        listed_in_both(store, version_id, a, b, n);
        let m = choose|m: int| 0 <= m < b.len() && b[m] == a[n];
        assert(a[m] == b[m]);
        assert(text_before(a[m].file_path, a[n].file_path));
        text_before_irreflexive(a[n].file_path, 0);
    } else if b.len() > a.len() {
        let n = a.len() as int;
        listings_agree(store, version_id, a, b, n);
        listed_in_both(store, version_id, b, a, n);
        let m = choose|m: int| 0 <= m < a.len() && a[m] == b[n];
        assert(a[m] == b[m]);
        assert(text_before(b[m].file_path, b[n].file_path));
        text_before_irreflexive(b[n].file_path, 0);
    } else {
        listings_agree(store, version_id, a, b, a.len() as int);
        assert(a =~= b);
    }
}

} // verus!
