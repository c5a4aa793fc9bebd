//! The bridge of a node: takes blobs in over HTTP, and shows how far their upload has come.
use vstd::prelude::*;
use bytes::Bytes;
use dashmap::DashMap;
use crate::node::blob_store::BlobMessage;
use crate::status::{
    status_contains, status_get, status_insert, status_map, statuses, StatusCode, StatusModel,
    UploadStatus,
};

verus! {

/// The largest blob, in bytes, that the bridge takes in: 1 GiB.
pub const MAX_BLOB_SIZE: usize = 1_073_741_824;

/// What came of the upload of a blob.
#[derive(Debug, PartialEq, Eq)]
pub enum UploadRequest {
    /// The blob is stored.
    Success { id: String },
    /// The blob could not be stored.
    Failed { id: String, reason: String },
}

/// What the bridge knows: how far the upload of each blob has come.
pub struct AppState {
    blobs: DashMap<String, UploadStatus>,
}

/// What came of a message to the bridge.
#[derive(Debug, Clone, Copy, PartialEq, Eq, Structural)]
pub enum BridgeAction {
    /// The outcome was taken down.
    Recorded,
    /// The outcome was taken down, for a blob that was not known.
    RecordedUnknown,
    /// The channel is closed: end.
    Stop,
}

/// The statuses after a message; `None` says that the channel is closed.
pub open spec fn after_upload(
    shown: Map<Seq<char>, StatusModel>,
    request: Option<UploadRequest>,
) -> Map<Seq<char>, StatusModel> {
    match request {
        Some(UploadRequest::Success { id }) => shown.insert(id@, StatusModel::Finalized),
        Some(UploadRequest::Failed { id, reason }) => shown.insert(
            id@,
            StatusModel::Failed { reason: Some(reason@) },
        ),
        None => shown,
    }
}

impl AppState {
    /// The statuses by blob id.
    pub closed spec fn view(self) -> Map<Seq<char>, StatusModel> {
        statuses(self.blobs)
    }

    /// A bridge that knows of no blob.
    pub fn new() -> (state: Self)
        ensures
            state@ == Map::<Seq<char>, StatusModel>::empty(),
    {
        let state = AppState { blobs: status_map() };
        assert(state@ =~= Map::empty());
        state
    }

    /// Takes down what came of the upload of a blob, whether or not the blob is known.
    pub fn handle(&mut self, request: Option<UploadRequest>) -> (action: BridgeAction)
        ensures
            final(self)@ == after_upload(old(self)@, request),
            action is Stop <==> request is None,
            action is RecordedUnknown <==> (request matches Some(UploadRequest::Success { id })
                && !old(self)@.contains_key(id@)),
    {
        match request {
            Some(UploadRequest::Success { id }) => {
                let known = status_contains(&self.blobs, id.as_str());
                status_insert(&mut self.blobs, id, UploadStatus::Finalized);
                if known {
                    BridgeAction::Recorded
                } else {
                    BridgeAction::RecordedUnknown
                }
            },
            Some(UploadRequest::Failed { id, reason }) => {
                status_insert(&mut self.blobs, id, UploadStatus::Failed { reason: Some(reason) });
                BridgeAction::Recorded
            },
            None => BridgeAction::Stop,
        }
    }
}

/// What a request for the status of a blob is answered.
pub fn get_status(state: &AppState, id: &str) -> (answer: (StatusCode, Option<UploadStatus>))
    ensures
        state@.contains_key(id@) ==> answer.0 == StatusCode::Okay && (answer.1 matches Some(s) && s@ == state@[id@]),
        !state@.contains_key(id@) ==> answer.0 == StatusCode::NotFound && answer.1 is None,
{
    match status_get(&state.blobs, id) {
        Some(status) => (StatusCode::Okay, Some(status)),
        None => (StatusCode::NotFound, None),
    }
}

/// What is done with a blob that is handed in: it goes to the blob store, unless one with its id is
/// known; then it is refused.
pub fn new_blob(state: &AppState, id: String, body: Bytes) -> (message: Result<BlobMessage, StatusCode>)
    ensures
        message == (if state@.contains_key(id@) {
            Err(StatusCode::InternalServerError)
        } else {
            Ok(BlobMessage::Store { id, data: body })
        }),
{
    if status_contains(&state.blobs, id.as_str()) {
        Err(StatusCode::InternalServerError)
    } else {
        Ok(BlobMessage::Store { id, data: body })
    }
}

/// What is answered when a blob was sent to the blob store, or could not be. One that was sent is
/// from then on pending.
pub fn blob_forwarded(state: &mut AppState, id: String, sent: bool) -> (code: StatusCode)
    ensures
        sent ==> code == StatusCode::Created && final(state)@ == old(state)@.insert(id@, StatusModel::Pending),
        !sent ==> code == StatusCode::InternalServerError && final(state)@ == old(state)@,
{
    if sent {
        status_insert(&mut state.blobs, id, UploadStatus::Pending);
        StatusCode::Created
    } else {
        StatusCode::InternalServerError
    }
}

/// An outcome that is told is shown under the id of its blob, whether or not the blob was known, and
/// nothing else changes; a closed channel tells nothing.
pub proof fn law_outcome_is_shown(
    shown: Map<Seq<char>, StatusModel>,
    request: Option<UploadRequest>,
    other: Seq<char>,
)
    ensures
        request matches Some(UploadRequest::Success { id }) ==> after_upload(shown, request).contains_key(id@)
            && after_upload(shown, request)[id@] == StatusModel::Finalized,
        request matches Some(UploadRequest::Failed { id, reason }) ==> after_upload(shown, request).contains_key(
            id@,
        ) && after_upload(shown, request)[id@] == (StatusModel::Failed { reason: Some(reason@) }),
        (match request {
            Some(UploadRequest::Success { id }) => other != id@,
            Some(UploadRequest::Failed { id, .. }) => other != id@,
            None => true,
        }) ==> {
            &&& after_upload(shown, request).contains_key(other) <==> shown.contains_key(other)
            &&& shown.contains_key(other) ==> after_upload(shown, request)[other] == shown[other]
        },
{
}

} // verus!
