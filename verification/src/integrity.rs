//! Checking a store against its invariant at run time, for a caller that
//! filled the tables itself.

use vstd::prelude::*;
use crate::records::{has_version, version_rows, VersionRecord, VersionStore};

verus! {

/// Whether the table holds a version with this identity.
pub fn holds_version(versions: &Vec<VersionRecord>, version_id: i64) -> (found: bool)
    ensures
        found == has_version(version_rows(versions@), version_id as int),
{
    let mut i: usize = 0;
    while i < versions.len()
        invariant
            i <= versions.len(),
            forall|k: int|
                0 <= k < i ==> (#[trigger] version_rows(versions@)[k]).version_id != version_id,
        decreases versions.len() - i,
    {
        if versions[i].version_id == version_id {
            assert(version_rows(versions@)[i as int].version_id == version_id);
            return true;
        }
        i += 1;
    }
    false
}

/// Checks the rule on version identities.
fn versions_in_order(store: &VersionStore) -> (ok: bool)
    ensures
        ok == store@.versions_ordered(),
{
    let ghost rows = store@.versions;
    let mut i: usize = 0;
    while i < store.versions.len()
        invariant
            i <= store.versions.len(),
            rows == store@.versions,
            forall|k: int| 0 <= k < i ==> 1 <= (#[trigger] rows[k]).version_id <= store.last_version_id,
            forall|a: int, b: int|
                0 <= a < b < i ==> (#[trigger] rows[a]).version_id < (#[trigger] rows[b]).version_id,
        decreases store.versions.len() - i,
    {
        let id = store.versions[i].version_id;
        assert(rows[i as int].version_id == id);
        if id < 1 || id > store.last_version_id {
            return false;
        }
        if i > 0 {
            let earlier = store.versions[i - 1].version_id;
            assert(rows[i - 1].version_id == earlier);
            if earlier >= id {
                return false;
            }
        }
        i += 1;
    }
    true
}

/// Checks the rule on parents.
fn parents_are_linked(store: &VersionStore) -> (ok: bool)
    ensures
        ok == store@.parents_linked(),
{
    let ghost rows = store@.versions;
    let mut i: usize = 0;
    while i < store.versions.len()
        invariant
            i <= store.versions.len(),
            rows == store@.versions,
            forall|k: int|
                0 <= k < i ==> match (#[trigger] rows[k]).parent_version_id {
                    Some(p) => p < rows[k].version_id && has_version(rows, p),
                    None => true,
                },
        decreases store.versions.len() - i,
    {
        let v = &store.versions[i];
        assert(rows[i as int] == v@);
        match v.parent_version_id {
            Some(p) => {
                if p >= v.version_id || !holds_version(&store.versions, p) {
                    return false;
                }
            },
            None => {},
        }
        i += 1;
    }
    true
}

/// Checks that every file belongs to a version.
fn files_are_linked(store: &VersionStore) -> (ok: bool)
    ensures
        ok == store@.files_linked(),
{
    let ghost rows = store@.files;
    let mut i: usize = 0;
    while i < store.files.len()
        invariant
            i <= store.files.len(),
            rows == store@.files,
            forall|k: int|
                0 <= k < i ==> has_version(store@.versions, (#[trigger] rows[k]).version_id),
        decreases store.files.len() - i,
    {
        assert(rows[i as int] == store.files[i as int]@);
        if !holds_version(&store.versions, store.files[i].version_id) {
            return false;
        }
        i += 1;
    }
    true
}

/// Checks that no version has two files with one path.
fn paths_are_unique(store: &VersionStore) -> (ok: bool)
    ensures
        ok == store@.paths_unique(),
{
    let ghost rows = store@.files;
    let mut j: usize = 0;
    while j < store.files.len()
        invariant
            j <= store.files.len(),
            rows == store@.files,
            forall|a: int, b: int|
                0 <= a < b < j ==> !((#[trigger] rows[a]).version_id == (
                #[trigger] rows[b]).version_id && rows[a].file_path == rows[b].file_path),
        decreases store.files.len() - j,
    {
        let mut i: usize = 0;
        while i < j
            invariant
                i <= j < store.files.len(),
                rows == store@.files,
                forall|a: int|
                    0 <= a < i ==> !((#[trigger] rows[a]).version_id == rows[j as int].version_id
                        && rows[a].file_path == rows[j as int].file_path),
            decreases j - i,
        {
            assert(rows[i as int] == store.files[i as int]@);
            assert(rows[j as int] == store.files[j as int]@);
            if store.files[i].version_id == store.files[j].version_id && store.files[i].file_path
                == store.files[j].file_path {
                return false;
            }
            i += 1;
        }
        j += 1;
    }
    true
}

/// Checks the rule on log identities.
fn log_in_order(store: &VersionStore) -> (ok: bool)
    ensures
        ok == store@.log_ordered(),
{
    let ghost rows = store@.log;
    let mut i: usize = 0;
    while i < store.log.len()
        invariant
            i <= store.log.len(),
            rows == store@.log,
            forall|k: int| 0 <= k < i ==> 1 <= (#[trigger] rows[k]).log_id <= store.last_log_id,
            forall|a: int, b: int|
                0 <= a < b < i ==> (#[trigger] rows[a]).log_id < (#[trigger] rows[b]).log_id,
        decreases store.log.len() - i,
    {
        let id = store.log[i].log_id;
        assert(rows[i as int].log_id == id);
        if id < 1 || id > store.last_log_id {
            return false;
        }
        if i > 0 {
            let earlier = store.log[i - 1].log_id;
            assert(rows[i - 1].log_id == earlier);
            if earlier >= id {
                return false;
            }
        }
        i += 1;
    }
    true
}

/// Checks that every linked log entry names a version.
fn log_is_linked(store: &VersionStore) -> (ok: bool)
    ensures
        ok == store@.log_linked(),
{
    let ghost rows = store@.log;
    let mut i: usize = 0;
    while i < store.log.len()
        invariant
            i <= store.log.len(),
            rows == store@.log,
            forall|k: int|
                0 <= k < i ==> match (#[trigger] rows[k]).linked_version_id {
                    Some(v) => has_version(store@.versions, v),
                    None => true,
                },
        decreases store.log.len() - i,
    {
        let entry = &store.log[i];
        assert(rows[i as int] == entry@);
        match entry.linked_version_id {
            Some(v) => {
                if !holds_version(&store.versions, v) {
                    return false;
                }
            },
            None => {},
        }
        i += 1;
    }
    true
}

/// Whether the store keeps its invariant. The functions of this library keep
/// it; a store whose tables were filled by hand is checked here before it is
/// handed to them.
pub fn check_integrity(store: &VersionStore) -> (ok: bool)
    ensures
        ok == store.wf(),
{
    if store.last_version_id < 0 || store.last_log_id < 0 {
        return false;
    }
    if !store.schema_ready && (store.versions.len() != 0 || store.files.len() != 0
        || store.log.len() != 0) {
        return false;
    }
    versions_in_order(store) && parents_are_linked(store) && files_are_linked(store)
        && paths_are_unique(store) && log_in_order(store) && log_is_linked(store)
}

} // verus!
