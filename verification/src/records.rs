//! The rows of the store and the store itself, with the mathematical model
//! that the contracts speak of.

use vstd::prelude::*;

verus! {

/// One immutable version of a project.
#[derive(Debug, Clone)]
pub struct VersionRecord {
    pub version_id: i64,
    pub parent_version_id: Option<i64>,
    pub timestamp: String,
    pub description: String,
}

/// One file of a version's manifest.
#[derive(Debug, Clone)]
pub struct FileRecord {
    pub version_id: i64,
    pub file_path: String,
    pub content_hash: String,
    pub file_size: i64,
}

/// One entry of the operation log.
#[derive(Debug, Clone)]
pub struct OperationLogEntry {
    pub log_id: i64,
    pub linked_version_id: Option<i64>,
    pub timestamp: String,
    pub operation_type: String,
    pub target_entity: Option<String>,
    pub content_hash_before: Option<String>,
    pub content_hash_after: Option<String>,
    pub details_json: Option<String>,
}

/// The store: three tables and the counters that hand out identities.
///
/// `last_version_id` and `last_log_id` are the largest identities ever
/// assigned; they never go down, so that no identity is used twice.
#[derive(Debug)]
pub struct VersionStore {
    pub schema_ready: bool,
    pub versions: Vec<VersionRecord>,
    pub files: Vec<FileRecord>,
    pub log: Vec<OperationLogEntry>,
    pub last_version_id: i64,
    pub last_log_id: i64,
}

/// What a version row says.
pub ghost struct VersionRow {
    pub version_id: int,
    pub parent_version_id: Option<int>,
    pub timestamp: Seq<char>,
    pub description: Seq<char>,
}

/// What a file row says.
pub ghost struct FileRow {
    pub version_id: int,
    pub file_path: Seq<char>,
    pub content_hash: Seq<char>,
    pub file_size: int,
}

/// What a log entry says.
pub ghost struct LogRow {
    pub log_id: int,
    pub linked_version_id: Option<int>,
    pub timestamp: Seq<char>,
    pub operation_type: Seq<char>,
    pub target_entity: Option<Seq<char>>,
    pub content_hash_before: Option<Seq<char>>,
    pub content_hash_after: Option<Seq<char>>,
    pub details_json: Option<Seq<char>>,
}

/// What the store holds: the rows of its tables in the order in which they
/// were written, and its counters.
pub ghost struct StoreView {
    pub schema_ready: bool,
    pub versions: Seq<VersionRow>,
    pub files: Seq<FileRow>,
    pub log: Seq<LogRow>,
    pub last_version_id: int,
    pub last_log_id: int,
}

/// An optional identity as a number.
pub open spec fn id_view(id: Option<i64>) -> Option<int> {
    match id {
        Some(i) => Some(i as int),
        None => None,
    }
}

/// An optional text as its characters.
pub open spec fn text_view(text: Option<String>) -> Option<Seq<char>> {
    match text {
        Some(t) => Some(t@),
        None => None,
    }
}

impl View for VersionRecord {
    type V = VersionRow;

    open spec fn view(&self) -> VersionRow {
        VersionRow {
            version_id: self.version_id as int,
            parent_version_id: id_view(self.parent_version_id),
            timestamp: self.timestamp@,
            description: self.description@,
        }
    }
}

impl View for FileRecord {
    type V = FileRow;

    open spec fn view(&self) -> FileRow {
        FileRow {
            version_id: self.version_id as int,
            file_path: self.file_path@,
            content_hash: self.content_hash@,
            file_size: self.file_size as int,
        }
    }
}

impl View for OperationLogEntry {
    type V = LogRow;

    open spec fn view(&self) -> LogRow {
        LogRow {
            log_id: self.log_id as int,
            linked_version_id: id_view(self.linked_version_id),
            timestamp: self.timestamp@,
            operation_type: self.operation_type@,
            target_entity: text_view(self.target_entity),
            content_hash_before: text_view(self.content_hash_before),
            content_hash_after: text_view(self.content_hash_after),
            details_json: text_view(self.details_json),
        }
    }
}

/// The version table, row by row.
pub open spec fn version_rows(versions: Seq<VersionRecord>) -> Seq<VersionRow> {
    Seq::new(versions.len(), |i: int| versions[i]@)
}

/// The file table, row by row.
pub open spec fn file_rows(files: Seq<FileRecord>) -> Seq<FileRow> {
    Seq::new(files.len(), |i: int| files[i]@)
}

/// The log, entry by entry.
pub open spec fn log_rows(log: Seq<OperationLogEntry>) -> Seq<LogRow> {
    Seq::new(log.len(), |i: int| log[i]@)
}

impl View for VersionStore {
    type V = StoreView;

    open spec fn view(&self) -> StoreView {
        StoreView {
            schema_ready: self.schema_ready,
            versions: version_rows(self.versions@),
            files: file_rows(self.files@),
            log: log_rows(self.log@),
            last_version_id: self.last_version_id as int,
            last_log_id: self.last_log_id as int,
        }
    }
}

/// Whether a version with this identity is in the table.
pub open spec fn has_version(versions: Seq<VersionRow>, id: int) -> bool {
    exists|i: int| 0 <= i < versions.len() && #[trigger] versions[i].version_id == id
}

impl StoreView {
    /// Version identities are positive, grow along the table and never pass
    /// the counter.
    pub open spec fn versions_ordered(self) -> bool {
        &&& forall|i: int|
            0 <= i < self.versions.len() ==> 1 <= (#[trigger] self.versions[i]).version_id
                <= self.last_version_id
        &&& forall|i: int, j: int|
            0 <= i < j < self.versions.len() ==> (#[trigger] self.versions[i]).version_id < (
            #[trigger] self.versions[j]).version_id
    }

    /// A parent is an earlier version that is still there.
    pub open spec fn parents_linked(self) -> bool {
        forall|i: int|
            0 <= i < self.versions.len() ==> match (#[trigger] self.versions[i]).parent_version_id {
                Some(p) => p < self.versions[i].version_id && has_version(self.versions, p),
                None => true,
            }
    }

    /// A file belongs to a version that is there.
    pub open spec fn files_linked(self) -> bool {
        forall|i: int|
            0 <= i < self.files.len() ==> has_version(
                self.versions,
                (#[trigger] self.files[i]).version_id,
            )
    }

    /// No version has two files with one path.
    pub open spec fn paths_unique(self) -> bool {
        forall|i: int, j: int|
            0 <= i < j < self.files.len() ==> !((#[trigger] self.files[i]).version_id == (
            #[trigger] self.files[j]).version_id && self.files[i].file_path
                == self.files[j].file_path)
    }

    /// Log identities are positive, grow along the log and never pass the
    /// counter.
    pub open spec fn log_ordered(self) -> bool {
        &&& forall|i: int|
            0 <= i < self.log.len() ==> 1 <= (#[trigger] self.log[i]).log_id <= self.last_log_id
        &&& forall|i: int, j: int|
            0 <= i < j < self.log.len() ==> (#[trigger] self.log[i]).log_id < (
            #[trigger] self.log[j]).log_id
    }

    /// A log entry that names a version names one that is there.
    pub open spec fn log_linked(self) -> bool {
        forall|i: int|
            0 <= i < self.log.len() ==> match (#[trigger] self.log[i]).linked_version_id {
                Some(v) => has_version(self.versions, v),
                None => true,
            }
    }

    /// The store's invariant: the counters are in range, the six rules above
    /// hold, and without the schema there are no rows.
    pub open spec fn wf(self) -> bool {
        &&& 0 <= self.last_version_id <= i64::MAX
        &&& 0 <= self.last_log_id <= i64::MAX
        &&& self.versions_ordered()
        &&& self.parents_linked()
        &&& self.files_linked()
        &&& self.paths_unique()
        &&& self.log_ordered()
        &&& self.log_linked()
        &&& !self.schema_ready ==> self.versions.len() == 0 && self.files.len() == 0
            && self.log.len() == 0
    }
}

impl VersionStore {
    /// The store keeps its invariant.
    pub open spec fn wf(&self) -> bool {
        self@.wf()
    }
}

fn duplicate_text(text: &Option<String>) -> (out: Option<String>)
    ensures
        text_view(out) == text_view(*text),
{
    match text {
        Some(t) => Some(t.clone()),
        None => None,
    }
}

impl VersionRecord {
    /// A copy of the row.
    pub fn duplicate(&self) -> (out: VersionRecord)
        ensures
            out@ == self@,
    {
        VersionRecord {
            version_id: self.version_id,
            parent_version_id: self.parent_version_id,
            timestamp: self.timestamp.clone(),
            description: self.description.clone(),
        }
    }
}

impl FileRecord {
    /// A copy of the row.
    pub fn duplicate(&self) -> (out: FileRecord)
        ensures
            out@ == self@,
    {
        FileRecord {
            version_id: self.version_id,
            file_path: self.file_path.clone(),
            content_hash: self.content_hash.clone(),
            file_size: self.file_size,
        }
    }
}

impl OperationLogEntry {
    /// A copy of the entry.
    pub fn duplicate(&self) -> (out: OperationLogEntry)
        ensures
            out@ == self@,
    {
        OperationLogEntry {
            log_id: self.log_id,
            linked_version_id: self.linked_version_id,
            timestamp: self.timestamp.clone(),
            operation_type: self.operation_type.clone(),
            target_entity: duplicate_text(&self.target_entity),
            content_hash_before: duplicate_text(&self.content_hash_before),
            content_hash_after: duplicate_text(&self.content_hash_after),
            details_json: duplicate_text(&self.details_json),
        }
    }
}

} // verus!
