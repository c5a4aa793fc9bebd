//! How far the upload of a blob has come, and the table in which that is kept.
use vstd::prelude::*;
use dashmap::DashMap;
use crate::table::Table;

verus! {

/// How far the upload of a blob has come.
#[derive(Debug, PartialEq, Eq)]
pub enum UploadStatus {
    /// The blob is kept here; it is not yet stored with other peers.
    Pending,
    /// Every chunk of the blob is stored with some peer.
    Finalized,
    /// The blob was not stored.
    Failed { reason: Option<String> },
}

/// The view of an [`UploadStatus`].
pub enum StatusModel {
    Pending,
    Finalized,
    Failed { reason: Option<Seq<char>> },
}

/// The view of a text that may be missing.
pub open spec fn text_of(text: Option<String>) -> Option<Seq<char>> {
    match text {
        Some(t) => Some(t@),
        None => None,
    }
}

impl View for UploadStatus {
    type V = StatusModel;

    open spec fn view(&self) -> StatusModel {
        match *self {
            UploadStatus::Pending => StatusModel::Pending,
            UploadStatus::Finalized => StatusModel::Finalized,
            UploadStatus::Failed { reason } => StatusModel::Failed { reason: text_of(reason) },
        }
    }
}

impl Clone for UploadStatus {
    fn clone(&self) -> (copy: Self)
        ensures
            copy@ == self@,
    {
        match self {
            UploadStatus::Pending => UploadStatus::Pending,
            UploadStatus::Finalized => UploadStatus::Finalized,
            UploadStatus::Failed { reason } => match reason {
                Some(text) => UploadStatus::Failed { reason: Some(text.clone()) },
                None => UploadStatus::Failed { reason: None },
            },
        }
    }
}

/// What an HTTP request is answered.
#[derive(Debug, Clone, Copy, PartialEq, Eq, Structural)]
pub enum StatusCode {
    /// 200
    Okay,
    /// 201
    Created,
    /// 404
    NotFound,
    /// 500
    InternalServerError,
}

impl StatusCode {
    /// The number of the answer.
    pub open spec fn number(self) -> u16 {
        match self {
            StatusCode::Okay => 200,
            StatusCode::Created => 201,
            StatusCode::NotFound => 404,
            StatusCode::InternalServerError => 500,
        }
    }

    /// The number of the answer.
    pub fn as_u16(&self) -> (code: u16)
        ensures
            code == self.number(),
    {
        match self {
            StatusCode::Okay => 200,
            StatusCode::Created => 201,
            StatusCode::NotFound => 404,
            StatusCode::InternalServerError => 500,
        }
    }
}

/// `dashmap::DashMap`, a hash map.
#[verifier::external_type_specification]
#[verifier::external_body]
#[verifier::reject_recursive_types(K)]
#[verifier::reject_recursive_types(V)]
#[verifier::reject_recursive_types(S)]
pub struct ExDashMap<K, V, S>(dashmap::DashMap<K, V, S>);

/// The statuses that a map holds, by blob id.
pub uninterp spec fn statuses(map: DashMap<String, UploadStatus>) -> Map<Seq<char>, StatusModel>;

/// Calls `DashMap::new`.
///
/// Trusted: the map is empty.
#[verifier::external_body]
pub(crate) fn status_map() -> (map: DashMap<String, UploadStatus>)
    ensures
        statuses(map).is_empty(),
{
    DashMap::new()
}

/// Calls `DashMap::insert` on a map that nothing else refers to.
///
/// Trusted: the id then has the given status, and every other entry is as before.
#[verifier::external_body]
pub(crate) fn status_insert(
    map: &mut DashMap<String, UploadStatus>,
    id: String,
    status: UploadStatus,
)
    ensures
        statuses(*final(map)) == statuses(*old(map)).insert(id@, status@),
{
    map.insert(id, status);
}

/// Calls `DashMap::contains_key`.
///
/// Trusted: the result says whether the id has an entry.
#[verifier::external_body]
pub(crate) fn status_contains(map: &DashMap<String, UploadStatus>, id: &str) -> (found: bool)
    ensures
        found == statuses(*map).contains_key(id@),
{
    map.contains_key(id)
}

/// Calls `DashMap::get` and clones what it finds.
///
/// Trusted: the result is the status of the id, if it has one.
#[verifier::external_body]
pub(crate) fn status_get(map: &DashMap<String, UploadStatus>, id: &str) -> (status: Option<UploadStatus>)
    ensures
        status is Some <==> statuses(*map).contains_key(id@),
        status matches Some(s) ==> s@ == statuses(*map)[id@],
{
    map.get(id).map(|entry| entry.value().clone())
}

/// Calls `DashMap::retain`, on a map that nothing else refers to, with the test whether an id is a
/// key of `ids`.
///
/// Trusted: the entries whose id passes the test stay as they are, the others go.
#[verifier::external_body]
pub(crate) fn status_retain<B>(map: &mut DashMap<String, UploadStatus>, ids: &Table<String, B>)
    requires
        ids.wf(),
    ensures
        statuses(*final(map)) == statuses(*old(map)).restrict(ids@.dom()),
{
    map.retain(|id, _| ids.contains_key(id));
}

/// A status is shown as what it is, with its reason.
pub proof fn law_status_is_shown(status: UploadStatus)
    ensures
        status is Pending <==> status@ is Pending,
        status is Finalized <==> status@ is Finalized,
        status is Failed <==> status@ is Failed,
        status matches UploadStatus::Failed { reason: Some(text) } ==> status@ == (StatusModel::Failed {
            reason: Some(text@),
        }),
        status matches UploadStatus::Failed { reason: None } ==> status@ == (StatusModel::Failed { reason: None }),
{
}

/// Every answer has its number in HTTP.
pub proof fn law_status_numbers(code: StatusCode)
    ensures
        code is Okay <==> code.number() == 200,
        code is Created <==> code.number() == 201,
        code is NotFound <==> code.number() == 404,
        code is InternalServerError <==> code.number() == 500,
{
}

} // verus!
