//! What the snapshot endpoint takes and answers.

use vstd::prelude::*;
use vstd::string::*;
use crate::records::VersionStore;
use crate::version_control::{
    create_initial_project_snapshot, manifest_rows, snapshot_outcome, ScannedFileInfo,
    SnapshotError,
};

verus! {

/// The body of a request for a first snapshot.
#[derive(Debug, Clone)]
pub struct InitialSnapshotRequest {
    pub project_root_name: String,
    pub files: Vec<ScannedFileInfo>,
}

/// The endpoint's answer.
#[derive(Debug, Clone)]
pub enum SnapshotReply {
    /// The snapshot was written.
    Created { message: String, version_id: i64 },
    /// It was not: the caller gets a server error.
    ServerError,
}

/// What an answer says.
pub ghost enum SnapshotReplyView {
    Created { message: Seq<char>, version_id: int },
    ServerError,
}

impl View for SnapshotReply {
    type V = SnapshotReplyView;

    open spec fn view(&self) -> SnapshotReplyView {
        match *self {
            SnapshotReply::Created { message, version_id } => SnapshotReplyView::Created {
                message: message@,
                version_id: version_id as int,
            },
            SnapshotReply::ServerError => SnapshotReplyView::ServerError,
        }
    }
}

/// The answer that goes with the outcome of a snapshot.
pub open spec fn reply_for(result: Result<i64, SnapshotError>) -> SnapshotReplyView {
    match result {
        Ok(id) => SnapshotReplyView::Created {
            message: "Initial snapshot created successfully"@,
            version_id: id as int,
        },
        Err(_) => SnapshotReplyView::ServerError,
    }
}

/// Turns the outcome of a snapshot into the endpoint's answer.
pub fn snapshot_reply(result: Result<i64, SnapshotError>) -> (reply: SnapshotReply)
    ensures
        reply@ == reply_for(result),
{
    match result {
        Ok(version_id) => SnapshotReply::Created {
            message: String::from_str("Initial snapshot created successfully"),
            version_id,
        },
        Err(_) => SnapshotReply::ServerError,
    }
}

/// Serves one request: writes the snapshot and answers with its identity,
/// or leaves the store as it was and answers with a server error.
pub fn handle_create_initial_snapshot(
    store: &mut VersionStore,
    request: &InitialSnapshotRequest,
) -> (reply: SnapshotReply)
    requires
        old(store).wf(),
    ensures
        final(store).wf(),
        exists|timestamp: Seq<char>, result: Result<i64, SnapshotError>|
            reply@ == reply_for(result) && #[trigger] snapshot_outcome(
                old(store)@,
                request.project_root_name@,
                manifest_rows(request.files@),
                timestamp,
                result,
                final(store)@,
            ),
{
    let result = create_initial_project_snapshot(
        store,
        request.project_root_name.as_str(),
        request.files.as_slice(),
    );
    snapshot_reply(result)
}

} // verus!
