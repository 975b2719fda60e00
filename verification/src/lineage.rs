//! Deleting a version, with everything that hangs on it.

use vstd::prelude::*;
use crate::records::{
    file_rows, has_version, log_rows, version_rows, FileRecord, FileRow, LogRow,
    OperationLogEntry, StoreView, VersionRecord, VersionRow, VersionStore,
};

verus! {

/// The rows that `keep` accepts, in their order.
pub open spec fn retain<T>(rows: Seq<T>, keep: spec_fn(T) -> bool) -> Seq<T>
    decreases rows.len(),
{
    if rows.len() == 0 {
        Seq::empty()
    } else if keep(rows.last()) {
        retain(rows.drop_last(), keep).push(rows.last())
    } else {
        retain(rows.drop_last(), keep)
    }
}

/// Where in `rows` the row stood that is number `k` of those retained.
pub open spec fn origin<T>(rows: Seq<T>, keep: spec_fn(T) -> bool, k: int) -> int
    decreases rows.len(),
{
    if rows.len() == 0 {
        0
    } else if keep(rows.last()) && k == retain(rows.drop_last(), keep).len() {
        rows.len() - 1
    } else {
        origin(rows.drop_last(), keep, k)
    }
}

/// A retained row is a row of the table that `keep` accepts.
pub proof fn retain_origin<T>(rows: Seq<T>, keep: spec_fn(T) -> bool, k: int)
    requires
        0 <= k < retain(rows, keep).len(),
    ensures
        0 <= origin(rows, keep, k) < rows.len(),
        rows[origin(rows, keep, k)] == retain(rows, keep)[k],
        keep(retain(rows, keep)[k]),
    decreases rows.len(),
{
    if rows.len() > 0 {
        if keep(rows.last()) && k == retain(rows.drop_last(), keep).len() {
        } else {
            retain_origin(rows.drop_last(), keep, k);
        }
    }
}

/// Retained rows stand in the order in which they stood in the table.
pub proof fn retain_order<T>(rows: Seq<T>, keep: spec_fn(T) -> bool, a: int, b: int)
    requires
        0 <= a < b < retain(rows, keep).len(),
    ensures
        origin(rows, keep, a) < origin(rows, keep, b),
    decreases rows.len(),
{
    if rows.len() > 0 {
        if keep(rows.last()) && b == retain(rows.drop_last(), keep).len() {
            retain_origin(rows.drop_last(), keep, a);
        } else {
            retain_order(rows.drop_last(), keep, a, b);
        }
    }
}

/// Every row that `keep` accepts is retained.
pub proof fn retain_keeps<T>(rows: Seq<T>, keep: spec_fn(T) -> bool, i: int)
    requires
        0 <= i < rows.len(),
        keep(rows[i]),
    ensures
        retain(rows, keep).contains(rows[i]),
    decreases rows.len(),
{
    let kept = retain(rows, keep);
    if i == rows.len() - 1 {
        assert(kept[kept.len() - 1] == rows[i]);
    } else {
        retain_keeps(rows.drop_last(), keep, i);
        let rest = retain(rows.drop_last(), keep);
        let w = choose|w: int| 0 <= w < rest.len() && rest[w] == rows[i];
        assert(kept[w] == rows[i]);
    }
}

/// The identities that go when the version `id` is deleted: `id` itself, if
/// the table holds it, and every version whose parent goes. A parent stands
/// before its children, so one pass along the table finds them all.
pub open spec fn doomed(versions: Seq<VersionRow>, id: int) -> Set<int>
    decreases versions.len(),
{
    if versions.len() == 0 {
        Set::empty()
    } else {
        let earlier = doomed(versions.drop_last(), id);
        let v = versions.last();
        if v.version_id == id || (v.parent_version_id is Some && earlier.contains(
            v.parent_version_id->0,
        )) {
            earlier.insert(v.version_id)
        } else {
            earlier
        }
    }
}

/// The versions that stay when those in `gone` go.
pub open spec fn version_stays(gone: Set<int>) -> spec_fn(VersionRow) -> bool {
    |v: VersionRow| !gone.contains(v.version_id)
}

/// The files that stay: those of versions that stay.
pub open spec fn file_stays(gone: Set<int>) -> spec_fn(FileRow) -> bool {
    |f: FileRow| !gone.contains(f.version_id)
}

/// The log entries that stay: those linked to no version, or to one that
/// stays.
pub open spec fn entry_stays(gone: Set<int>) -> spec_fn(LogRow) -> bool {
    |l: LogRow| !(l.linked_version_id is Some && gone.contains(l.linked_version_id->0))
}

/// The store after the version `id` was deleted: the doomed versions are
/// gone, with their files and the log entries linked to them. The counters
/// stay, so that no identity comes back.
pub open spec fn version_deleted(store: StoreView, id: int) -> StoreView {
    let gone = doomed(store.versions, id);
    StoreView {
        schema_ready: store.schema_ready,
        versions: retain(store.versions, version_stays(gone)),
        files: retain(store.files, file_stays(gone)),
        log: retain(store.log, entry_stays(gone)),
        last_version_id: store.last_version_id,
        last_log_id: store.last_log_id,
    }
}

/// What is doomed among the first rows is doomed in the whole table.
pub proof fn doomed_grows(versions: Seq<VersionRow>, id: int, n: int)
    requires
        0 <= n <= versions.len(),
    ensures
        doomed(versions.take(n), id).subset_of(doomed(versions, id)),
    decreases versions.len(),
{
    if n == versions.len() {
        assert(versions.take(n) =~= versions);
    } else {
        doomed_grows(versions.drop_last(), id, n);
        assert(versions.drop_last().take(n) =~= versions.take(n));
    }
}

/// Whether a version is doomed is settled by the rows up to its own.
pub proof fn doomed_early(versions: Seq<VersionRow>, id: int, j: int)
    requires
        0 <= j < versions.len(),
        forall|a: int, b: int|
            0 <= a < b < versions.len() ==> (#[trigger] versions[a]).version_id < (
            #[trigger] versions[b]).version_id,
        doomed(versions, id).contains(versions[j].version_id),
    ensures
        doomed(versions.take(j + 1), id).contains(versions[j].version_id),
    decreases versions.len(),
{
    if j == versions.len() - 1 {
        assert(versions.take(j + 1) =~= versions);
    } else {
        assert(versions[j].version_id < versions.last().version_id);
        let rest = versions.drop_last();
        assert(rest[j] == versions[j]);
        doomed_early(rest, id, j);
        assert(rest.take(j + 1) =~= versions.take(j + 1));
    }
}

/// A version that stays has a parent that stays.
pub proof fn parent_stays(versions: Seq<VersionRow>, id: int, j: int, k: int)
    requires
        0 <= j < k < versions.len(),
        forall|a: int, b: int|
            0 <= a < b < versions.len() ==> (#[trigger] versions[a]).version_id < (
            #[trigger] versions[b]).version_id,
        versions[k].parent_version_id == Some(versions[j].version_id),
        !doomed(versions, id).contains(versions[k].version_id),
    ensures
        !doomed(versions, id).contains(versions[j].version_id),
{
    if doomed(versions, id).contains(versions[j].version_id) {
        doomed_early(versions, id, j);
        let upto = versions.take(k);
        doomed_grows(upto, id, j + 1);
        assert(upto.take(j + 1) =~= versions.take(j + 1));
        assert(doomed(upto, id).contains(versions[j].version_id));
        let with_k = versions.take(k + 1);
        assert(with_k.drop_last() =~= upto);
        assert(with_k.last() == versions[k]);
        assert(doomed(with_k, id).contains(versions[k].version_id));
        doomed_grows(versions, id, k + 1);
    }
}

/// The version `id` itself is doomed wherever it stands.
pub proof fn target_is_doomed(versions: Seq<VersionRow>, id: int, k: int)
    requires
        0 <= k < versions.len(),
        versions[k].version_id == id,
    ensures
        doomed(versions, id).contains(id),
{
    let with_k = versions.take(k + 1);
    assert(with_k.last() == versions[k]);
    assert(doomed(with_k, id).contains(id));
    doomed_grows(versions, id, k + 1);
}

/// A version that stays is found again after the deletion.
proof fn staying_version_found(store: StoreView, id: int, v: int)
    requires
        store.wf(),
        has_version(store.versions, v),
        !doomed(store.versions, id).contains(v),
    ensures
        has_version(version_deleted(store, id).versions, v),
{
    let gone = doomed(store.versions, id);
    let j = choose|j: int| 0 <= j < store.versions.len() && #[trigger] store.versions[j].version_id == v;
    retain_keeps(store.versions, version_stays(gone), j);
    let kept = retain(store.versions, version_stays(gone));
    let w = choose|w: int| 0 <= w < kept.len() && kept[w] == store.versions[j];
    assert(kept[w].version_id == v);
}

/// Deleting a version keeps the store's invariant: what stays refers only to
/// what stays.
pub proof fn version_deleted_wf(store: StoreView, id: int)
    requires
        store.wf(),
    ensures
        version_deleted(store, id).wf(),
{
    let gone = doomed(store.versions, id);
    let after = version_deleted(store, id);
    let vkeep = version_stays(gone);
    let fkeep = file_stays(gone);
    let lkeep = entry_stays(gone);
    assert forall|i: int| 0 <= i < after.versions.len() implies 1 <= (
    #[trigger] after.versions[i]).version_id <= after.last_version_id by {
        retain_origin(store.versions, vkeep, i);
    }
    assert forall|i: int, j: int| 0 <= i < j < after.versions.len() implies (
    #[trigger] after.versions[i]).version_id < (#[trigger] after.versions[j]).version_id by {
        retain_origin(store.versions, vkeep, i);
        retain_origin(store.versions, vkeep, j);
        retain_order(store.versions, vkeep, i, j);
    }
    assert forall|i: int| 0 <= i < after.versions.len() implies match (
    #[trigger] after.versions[i]).parent_version_id {
        Some(p) => p < after.versions[i].version_id && has_version(after.versions, p),
        None => true,
    } by {
        retain_origin(store.versions, vkeep, i);
        let k = origin(store.versions, vkeep, i);
        assert(after.versions[i] == store.versions[k]);
        match store.versions[k].parent_version_id {
            Some(p) => {
                assert(has_version(store.versions, p));
                let j = choose|j: int| 0 <= j < store.versions.len() && #[trigger] store.versions[j].version_id == p;
                if j >= k {
                    if j > k {
                        assert(store.versions[k].version_id < store.versions[j].version_id);
                    }
                }
                parent_stays(store.versions, id, j, k);
                staying_version_found(store, id, p);
            },
            None => {},
        }
    }
    assert forall|i: int| 0 <= i < after.files.len() implies has_version(
        after.versions,
        (#[trigger] after.files[i]).version_id,
    ) by {
        retain_origin(store.files, fkeep, i);
        let k = origin(store.files, fkeep, i);
        assert(after.files[i] == store.files[k]);
        staying_version_found(store, id, store.files[k].version_id);
    }
    assert forall|i: int, j: int| 0 <= i < j < after.files.len() implies !((
    #[trigger] after.files[i]).version_id == (#[trigger] after.files[j]).version_id
        && after.files[i].file_path == after.files[j].file_path) by {
        retain_origin(store.files, fkeep, i);
        retain_origin(store.files, fkeep, j);
        retain_order(store.files, fkeep, i, j);
    }
    assert forall|i: int| 0 <= i < after.log.len() implies 1 <= (#[trigger] after.log[i]).log_id
        <= after.last_log_id by {
        retain_origin(store.log, lkeep, i);
    }
    assert forall|i: int, j: int| 0 <= i < j < after.log.len() implies (
    #[trigger] after.log[i]).log_id < (#[trigger] after.log[j]).log_id by {
        retain_origin(store.log, lkeep, i);
        retain_origin(store.log, lkeep, j);
        retain_order(store.log, lkeep, i, j);
    }
    assert forall|i: int| 0 <= i < after.log.len() implies match (
    #[trigger] after.log[i]).linked_version_id {
        Some(v) => has_version(after.versions, v),
        None => true,
    } by {
        retain_origin(store.log, lkeep, i);
        let k = origin(store.log, lkeep, i);
        assert(after.log[i] == store.log[k]);
        match store.log[k].linked_version_id {
            Some(v) => {
                staying_version_found(store, id, v);
            },
            None => {},
        }
    }
    if !store.schema_ready {
        assert(after.versions.len() == 0);
        assert(after.files.len() == 0);
        assert(after.log.len() == 0);
    }
}

/// Nothing is doomed without a reason: a doomed identity is `id` itself, or
/// that of a version whose parent is doomed.
pub proof fn doomed_reason(versions: Seq<VersionRow>, id: int, x: int)
    requires
        doomed(versions, id).contains(x),
    ensures
        x == id || exists|k: int|
            0 <= k < versions.len() && (#[trigger] versions[k]).version_id == x
                && versions[k].parent_version_id is Some && doomed(versions, id).contains(
                versions[k].parent_version_id->0,
            ),
    decreases versions.len(),
{
    if versions.len() > 0 && x != id {
        let rest = versions.drop_last();
        let last = versions.len() - 1;
        if doomed(rest, id).contains(x) {
            doomed_reason(rest, id, x);
            let k = choose|k: int|
                0 <= k < rest.len() && (#[trigger] rest[k]).version_id == x
                    && rest[k].parent_version_id is Some && doomed(rest, id).contains(
                    rest[k].parent_version_id->0,
                );
            assert(versions[k] == rest[k]);
        } else {
            assert(versions[last].version_id == x);
        }
    }
}

/// Only versions of the table are doomed.
pub proof fn doomed_members(versions: Seq<VersionRow>, id: int, x: int)
    requires
        doomed(versions, id).contains(x),
    ensures
        has_version(versions, x),
    decreases versions.len(),
{
    if versions.len() > 0 {
        if x == versions.last().version_id {
            assert(versions[versions.len() - 1].version_id == x);
        } else {
            let rest = versions.drop_last();
            doomed_members(rest, id, x);
            let k = choose|k: int| 0 <= k < rest.len() && #[trigger] rest[k].version_id == x;
            assert(versions[k].version_id == x);
        }
    }
}

/// Whether `id` is in the list.
fn id_listed(ids: &Vec<i64>, id: i64) -> (found: bool)
    ensures
        found == ids@.contains(id),
{
    let mut i: usize = 0;
    while i < ids.len()
        invariant
            i <= ids.len(),
            forall|k: int| 0 <= k < i ==> ids@[k] != id,
        decreases ids.len() - i,
    {
        if ids[i] == id {
            return true;
        }
        i += 1;
    }
    false
}

/// The versions that stay, and the identities that go, when `version_id` is
/// deleted from a table whose parents stand before their children.
fn split_versions(table: &Vec<VersionRecord>, version_id: i64) -> (out: (
    Vec<VersionRecord>,
    Vec<i64>,
    bool,
))
    requires
        forall|a: int, b: int|
            0 <= a < b < table.len() ==> (#[trigger] version_rows(table@)[a]).version_id < (
            #[trigger] version_rows(table@)[b]).version_id,
    ensures
        version_rows(out.0@) == retain(
            version_rows(table@),
            version_stays(doomed(version_rows(table@), version_id as int)),
        ),
        forall|x: i64|
            out.1@.contains(x) <==> doomed(version_rows(table@), version_id as int).contains(
                x as int,
            ),
        out.2 == has_version(version_rows(table@), version_id as int),
{
    let ghost all = version_rows(table@);
    let ghost id = version_id as int;
    let ghost keep = version_stays(doomed(all, id));
    let mut gone: Vec<i64> = Vec::new();
    let mut kept: Vec<VersionRecord> = Vec::new();
    let mut found = false;
    let mut i: usize = 0;
    proof {
        assert(version_rows(kept@) =~= retain(all.take(0), keep));
    }
    while i < table.len()
        invariant
            i <= table.len(),
            all == version_rows(table@),
            id == version_id as int,
            keep == version_stays(doomed(all, id)),
            forall|a: int, b: int|
                0 <= a < b < all.len() ==> (#[trigger] all[a]).version_id < (
                #[trigger] all[b]).version_id,
            forall|x: i64| gone@.contains(x) <==> doomed(all.take(i as int), id).contains(x as int),
            version_rows(kept@) == retain(all.take(i as int), keep),
            found <==> exists|k: int| 0 <= k < i && (#[trigger] all[k]).version_id == id,
        decreases table.len() - i,
    {
        let v = &table[i];
        let through_parent = match v.parent_version_id {
            Some(p) => id_listed(&gone, p),
            None => false,
        };
        let goes = v.version_id == version_id || through_parent;
        let ghost gone_before = gone@;
        let ghost kept_before = kept@;
        let ghost upto = all.take(i as int);
        let ghost with_i = all.take(i as int + 1);
        proof {
            assert(with_i.drop_last() =~= upto);
            assert(with_i.last() == all[i as int]);
            assert(all[i as int] == table@[i as int]@);
            if doomed(upto, id).contains(v.version_id as int) {
                doomed_members(upto, id, v.version_id as int);
                let k = choose|k: int| 0 <= k < upto.len() && #[trigger] upto[k].version_id == v.version_id as int;
                assert(all[k].version_id < all[i as int].version_id);
            }
            assert(goes <==> doomed(with_i, id).contains(v.version_id as int));
            doomed_grows(all, id, i as int + 1);
            if doomed(all, id).contains(v.version_id as int) {
                doomed_early(all, id, i as int);
            }
            assert(goes <==> !keep(all[i as int]));
        }
        if goes {
            gone.push(v.version_id);
            proof {
                assert forall|x: i64| gone@.contains(x) <==> doomed(with_i, id).contains(
                    x as int,
                ) by {
                    if gone_before.contains(x) {
                        let w = choose|w: int| 0 <= w < gone_before.len() && gone_before[w] == x;
                        assert(gone@[w] == x);
                    }
                    if x == v.version_id {
                        assert(gone@[gone_before.len() as int] == x);
                    }
                    if gone@.contains(x) {
                        let w = choose|w: int| 0 <= w < gone@.len() && gone@[w] == x;
                        if w < gone_before.len() {
                            assert(gone_before[w] == x);
                        }
                    }
                }
            }
        } else {
            kept.push(v.duplicate());
            proof {
                assert(version_rows(kept@) =~= version_rows(kept_before).push(all[i as int]));
            }
        }
        if v.version_id == version_id {
            found = true;
        }
        i += 1;
    }
    proof {
        assert(all.take(i as int) =~= all);
    }
    (kept, gone, found)
}

/// Deletes a version, and with it every version that descends from it, the
/// files of all of them and the log entries linked to any of them. Says
/// whether the store held the version.
pub fn delete_version(store: &mut VersionStore, version_id: i64) -> (found: bool)
    requires
        old(store).wf(),
    ensures
        final(store).wf(),
        final(store)@ == version_deleted(old(store)@, version_id as int),
        found == has_version(old(store)@.versions, version_id as int),
{
    let ghost before = store@;
    let ghost gone_ids = doomed(before.versions, version_id as int);
    let (versions, gone, found) = split_versions(&store.versions, version_id);
    let mut files: Vec<FileRecord> = Vec::new();
    let mut i: usize = 0;
    proof {
        assert(file_rows(files@) =~= retain(before.files.take(0), file_stays(gone_ids)));
    }
    while i < store.files.len()
        invariant
            i <= store.files.len(),
            before == store@,
            forall|x: i64| gone@.contains(x) <==> gone_ids.contains(x as int),
            file_rows(files@) == retain(before.files.take(i as int), file_stays(gone_ids)),
        decreases store.files.len() - i,
    {
        let f = &store.files[i];
        let ghost files_before = files@;
        proof {
            assert(before.files.take(i as int + 1).drop_last() =~= before.files.take(i as int));
            assert(before.files.take(i as int + 1).last() == f@);
        }
        if !id_listed(&gone, f.version_id) {
            files.push(f.duplicate());
            proof {
                assert(file_rows(files@) =~= file_rows(files_before).push(f@));
            }
        }
        i += 1;
    }
    let mut log: Vec<OperationLogEntry> = Vec::new();
    let mut j: usize = 0;
    proof {
        assert(before.files.take(i as int) =~= before.files);
        assert(log_rows(log@) =~= retain(before.log.take(0), entry_stays(gone_ids)));
    }
    while j < store.log.len()
        invariant
            j <= store.log.len(),
            before == store@,
            forall|x: i64| gone@.contains(x) <==> gone_ids.contains(x as int),
            log_rows(log@) == retain(before.log.take(j as int), entry_stays(gone_ids)),
        decreases store.log.len() - j,
    {
        let entry = &store.log[j];
        let ghost log_before = log@;
        proof {
            assert(before.log.take(j as int + 1).drop_last() =~= before.log.take(j as int));
            assert(before.log.take(j as int + 1).last() == entry@);
        }
        let goes = match entry.linked_version_id {
            Some(v) => id_listed(&gone, v),
            None => false,
        };
        if !goes {
            log.push(entry.duplicate());
            proof {
                assert(log_rows(log@) =~= log_rows(log_before).push(entry@));
            }
        }
        j += 1;
    }
    proof {
        assert(before.log.take(j as int) =~= before.log);
        version_deleted_wf(before, version_id as int);
    }
    store.versions = versions;
    store.files = files;
    store.log = log;
    found
}

} // verus!
