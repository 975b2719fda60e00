//! The store's lifecycle: an empty store, its schema, and reading back what
//! was committed.

use vstd::prelude::*;
use vstd::string::*;
use crate::records::{
    file_rows, has_version, FileRecord, FileRow, StoreView, VersionRecord, VersionStore,
};
use crate::text::{comes_before, text_before, text_before_total, text_before_transitive};

verus! {

/// The store before anything was written to it.
pub open spec fn empty_store(schema_ready: bool) -> StoreView {
    StoreView {
        schema_ready,
        versions: Seq::empty(),
        files: Seq::empty(),
        log: Seq::empty(),
        last_version_id: 0,
        last_log_id: 0,
    }
}

/// The store once its schema is provided: the rows and counters as they
/// were.
pub open spec fn schema_provided(store: StoreView) -> StoreView {
    StoreView { schema_ready: true, ..store }
}

/// Whether `name` is one of the three tables.
pub open spec fn is_table_name(name: Seq<char>) -> bool {
    name == "ProjectVersions"@ || name == "VersionFiles"@ || name == "OperationLog"@
}

impl VersionStore {
    /// A store with no schema and no rows.
    pub fn new() -> (store: VersionStore)
        ensures
            store.wf(),
            store@ == empty_store(false),
    {
        let store = VersionStore {
            schema_ready: false,
            versions: Vec::new(),
            files: Vec::new(),
            log: Vec::new(),
            last_version_id: 0,
            last_log_id: 0,
        };
        assert(store@.versions =~= Seq::empty());
        assert(store@.files =~= Seq::empty());
        assert(store@.log =~= Seq::empty());
        store
    }
}

/// Makes sure that the three tables exist. Tables that are there already are
/// left alone with their rows, so the call may be repeated.
pub fn initialize_database(store: &mut VersionStore)
    requires
        old(store).wf(),
    ensures
        final(store).wf(),
        final(store)@ == schema_provided(old(store)@),
{
    store.schema_ready = true;
}

/// Whether two texts hold the same characters.
fn same_text(a: &str, b: &str) -> (same: bool)
    ensures
        same == (a@ == b@),
{
    String::from_str(a) == String::from_str(b)
}

/// Whether the store has a table of this name.
pub fn table_exists(store: &VersionStore, name: &str) -> (found: bool)
    ensures
        found == (store@.schema_ready && is_table_name(name@)),
{
    store.schema_ready && (same_text(name, "ProjectVersions") || same_text(name, "VersionFiles")
        || same_text(name, "OperationLog"))
}

/// The version with this identity, if the store holds it.
pub fn get_version(store: &VersionStore, version_id: i64) -> (found: Option<VersionRecord>)
    ensures
        match found {
            Some(v) => v@.version_id == version_id && store@.versions.contains(v@),
            None => !has_version(store@.versions, version_id as int),
        },
{
    let mut i: usize = 0;
    while i < store.versions.len()
        invariant
            i <= store.versions.len(),
            forall|k: int| 0 <= k < i ==> (#[trigger] store@.versions[k]).version_id != version_id,
        decreases store.versions.len() - i,
    {
        let v = &store.versions[i];
        if v.version_id == version_id {
            let copy = v.duplicate();
            assert(store@.versions[i as int] == copy@);
            return Some(copy);
        }
        i += 1;
    }
    None
}

/// What `list_files` returns for a version: its file rows, each once, in
/// the order of their paths.
pub open spec fn lists_files_of(store: StoreView, version_id: int, out: Seq<FileRow>) -> bool {
    &&& forall|k: int|
        0 <= k < out.len() ==> (#[trigger] out[k]).version_id == version_id
            && store.files.contains(out[k])
    &&& forall|i: int|
        0 <= i < store.files.len() && (#[trigger] store.files[i]).version_id == version_id
            ==> out.contains(store.files[i])
    &&& forall|a: int, b: int|
        0 <= a < b < out.len() ==> text_before(
            (#[trigger] out[a]).file_path,
            (#[trigger] out[b]).file_path,
        )
}

/// The manifest of a version, ordered by path. A version that the store does
/// not hold has an empty manifest.
pub fn list_files(store: &VersionStore, version_id: i64) -> (out: Vec<FileRecord>)
    requires
        store.wf(),
    ensures
        lists_files_of(store@, version_id as int, file_rows(out@)),
{
    let ghost all = store@.files;
    let mut out: Vec<FileRecord> = Vec::new();
    let mut i: usize = 0;
    while i < store.files.len()
        invariant
            i <= store.files.len(),
            store.wf(),
            all == store@.files,
            forall|k: int|
                0 <= k < out.len() ==> (#[trigger] file_rows(out@)[k]).version_id == version_id
                    && exists|s: int| 0 <= s < i && all[s] == file_rows(out@)[k],
            forall|s: int|
                0 <= s < i && (#[trigger] all[s]).version_id == version_id ==> file_rows(
                    out@,
                ).contains(all[s]),
            forall|a: int, b: int|
                0 <= a < b < out.len() ==> text_before(
                    (#[trigger] file_rows(out@)[a]).file_path,
                    (#[trigger] file_rows(out@)[b]).file_path,
                ),
        decreases store.files.len() - i,
    {
        let f = &store.files[i];
        if f.version_id == version_id {
            let ghost sorted = file_rows(out@);
            let mut p: usize = 0;
            while p < out.len() && comes_before(out[p].file_path.as_str(), f.file_path.as_str())
                invariant
                    p <= out.len(),
                    sorted == file_rows(out@),
                    forall|k: int|
                        0 <= k < p ==> text_before((#[trigger] sorted[k]).file_path, f@.file_path),
                decreases out.len() - p,
            {
                p += 1;
            }
            let copy = f.duplicate();
            out.insert(p, copy);
            proof {
                let now = file_rows(out@);
                let x = all[i as int];
                assert(x == f@);
                assert(now =~= sorted.insert(p as int, x));
                assert forall|k: int| 0 <= k < now.len() implies (#[trigger] now[k]).version_id
                    == version_id && exists|s: int| 0 <= s < i + 1 && all[s] == now[k] by {
                    if k < p {
                        assert(now[k] == sorted[k]);
                        let s = choose|s: int| 0 <= s < i && all[s] == sorted[k];
                        assert(all[s] == now[k]);
                    } else if k == p {
                        assert(all[i as int] == now[k]);
                    } else {
                        assert(now[k] == sorted[k - 1]);
                        let s = choose|s: int| 0 <= s < i && all[s] == sorted[k - 1];
                        assert(all[s] == now[k]);
                    }
                }
                assert forall|s: int|
                    0 <= s < i + 1 && (#[trigger] all[s]).version_id == version_id implies now.contains(
                    all[s],
                ) by {
                    if s < i {
                        let w = choose|w: int| 0 <= w < sorted.len() && sorted[w] == all[s];
                        if w < p {
                            assert(now[w] == all[s]);
                        } else {
                            assert(now[w + 1] == all[s]);
                        }
                    } else {
                        assert(now[p as int] == all[s]);
                    }
                }
                assert forall|a: int, b: int| 0 <= a < b < now.len() implies text_before(
                    (#[trigger] now[a]).file_path,
                    (#[trigger] now[b]).file_path,
                ) by {
                    if b < p {
                        assert(now[a] == sorted[a] && now[b] == sorted[b]);
                    } else if b == p {
                        assert(now[a] == sorted[a]);
                    } else {
                        assert(now[b] == sorted[b - 1]);
                        if a > p {
                            assert(now[a] == sorted[a - 1]);
                        } else {
                            let s = choose|s: int| 0 <= s < i && all[s] == sorted[p as int];
                            assert(all[s].file_path != x.file_path);
                            text_before_total(x.file_path, sorted[p as int].file_path);
                            if b - 1 > p {
                                text_before_transitive(
                                    x.file_path,
                                    sorted[p as int].file_path,
                                    sorted[b - 1].file_path,
                                );
                            }
                            if a < p {
                                assert(now[a] == sorted[a]);
                                text_before_transitive(
                                    sorted[a].file_path,
                                    x.file_path,
                                    sorted[b - 1].file_path,
                                );
                            }
                        }
                    }
                }
            }
        }
        i += 1;
    }
    proof {
        let rows = file_rows(out@);
        assert forall|k: int| 0 <= k < rows.len() implies store@.files.contains(#[trigger] rows[k]) by {
            let s = choose|s: int| 0 <= s < i && all[s] == rows[k];
            assert(store@.files[s] == rows[k]);
        }
    }
    out
}

} // verus!
