//! Keeps the blobs that are handed to this node, until they are stored with other peers.
use vstd::prelude::*;
use bytes::Bytes;
use dashmap::DashMap;
use crate::blake3_wrapper::{
    digest_of, digests, hex_encode, lower_hex, merkle, merkle_root, Digest,
};
use crate::chunking::{
    chunk_count, chunk_digests, chunk_end, chunk_ranges, chunk_start, chunks, law_chunk_bounds,
    name_chunks,
};
use crate::node::network::SwarmMessage;
use crate::payload::{bytes_len, content};
use crate::status::{
    status_contains, status_get, status_insert, status_map, statuses, StatusCode, StatusModel,
    UploadStatus,
};
use crate::table::{passing, Table};
use crate::text::join;

verus! {

/// For how many seconds a blob is kept: 4 hours.
pub const RETENTION_TIME: u64 = 14_400;

/// The largest blob, in bytes, that the bridge takes in: 1 GiB.
pub const MAX_BLOB_SIZE: usize = 1_073_741_824;

/// What the blob store is asked or told.
pub enum BlobMessage {
    /// The bridge hands a blob in.
    Store { id: String, data: Bytes },
    /// The swarm stored a blob with other peers, or did not.
    Persist { id: String, result: bool },
}

/// What the bridge knows: how far the upload of each blob has come.
pub struct BridgeState {
    upload_status: DashMap<String, UploadStatus>,
}

impl BridgeState {
    /// The statuses by blob id.
    pub closed spec fn view(self) -> Map<Seq<char>, StatusModel> {
        statuses(self.upload_status)
    }

    /// A bridge that knows of no blob.
    pub fn new() -> (state: Self)
        ensures
            state@ == Map::<Seq<char>, StatusModel>::empty(),
    {
        let state = BridgeState { upload_status: status_map() };
        assert(state@ =~= Map::empty());
        state
    }

    fn fail(&mut self, id: String, reason: String)
        ensures
            final(self)@ == old(self)@.insert(id@, StatusModel::Failed { reason: Some(reason@) }),
    {
        status_insert(&mut self.upload_status, id, UploadStatus::Failed { reason: Some(reason) });
    }
}

/// What a request for the status of a blob is answered.
pub fn get_status(state: &BridgeState, id: &str) -> (answer: (StatusCode, Option<UploadStatus>))
    ensures
        state@.contains_key(id@) ==> answer.0 == StatusCode::Okay && (answer.1 matches Some(s) && s@ == state@[id@]),
        !state@.contains_key(id@) ==> answer.0 == StatusCode::NotFound && answer.1 is None,
{
    match status_get(&state.upload_status, id) {
        Some(status) => (StatusCode::Okay, Some(status)),
        None => (StatusCode::NotFound, None),
    }
}

/// What is done with a blob that is handed in: it goes to the blob store, unless one with its id is
/// known; then it is refused.
pub fn new_blob(state: &BridgeState, id: String, body: Bytes) -> (message: Result<BlobMessage, StatusCode>)
    ensures
        message == (if state@.contains_key(id@) {
            Err(StatusCode::InternalServerError)
        } else {
            Ok(BlobMessage::Store { id, data: body })
        }),
{
    if status_contains(&state.upload_status, id.as_str()) {
        Err(StatusCode::InternalServerError)
    } else {
        Ok(BlobMessage::Store { id, data: body })
    }
}

/// What is answered when a blob was sent to the blob store, or could not be. One that was sent is
/// from then on pending.
pub fn blob_forwarded(state: &mut BridgeState, id: String, sent: bool) -> (code: StatusCode)
    ensures
        sent ==> code == StatusCode::Created && final(state)@ == old(state)@.insert(id@, StatusModel::Pending),
        !sent ==> code == StatusCode::InternalServerError && final(state)@ == old(state)@,
{
    if sent {
        status_insert(&mut state.upload_status, id, UploadStatus::Pending);
        StatusCode::Created
    } else {
        StatusCode::InternalServerError
    }
}

/// Why a blob was not stored.
#[derive(Debug, PartialEq, Eq)]
pub enum StoreError {
    /// It holds no bytes.
    EmptyBlob,
    /// Its Merkle tree has no root.
    NoMerkleRoot,
    /// There is one with its id. The root is that of the blob that is refused.
    DuplicateBlob { root_hash: Digest },
}

impl StoreError {
    /// The error in words.
    pub open spec fn text(self) -> Seq<char> {
        match self {
            StoreError::EmptyBlob => "Ignored empty blob."@,
            StoreError::NoMerkleRoot => "Couldn't get the merkle root."@,
            StoreError::DuplicateBlob { root_hash } => "Duplicate blob: "@ + lower_hex(root_hash@),
        }
    }

    /// The error in words.
    pub fn message(&self) -> (text: String)
        ensures
            text@ == self.text(),
    {
        match self {
            StoreError::EmptyBlob => "Ignored empty blob.".to_owned(),
            StoreError::NoMerkleRoot => "Couldn't get the merkle root.".to_owned(),
            StoreError::DuplicateBlob { root_hash } => {
                let root = hex_encode(root_hash.as_slice());
                let text = join("Duplicate blob: ", root.as_str(), "");
                proof {
                    reveal_strlit("");
                    assert(text@ =~= "Duplicate blob: "@ + root@);
                }
                text
            },
        }
    }
}

/// A blob, with the start and the end of each of its chunks.
pub struct Blob {
    root_hash: Digest,
    bridge_id: String,
    data: Bytes,
    chunks: Vec<(usize, usize)>,
    created_at: u64,
}

/// The view of a [`Blob`].
#[verifier::ext_equal]
pub struct BlobModel {
    pub id: Seq<char>,
    pub data: Seq<u8>,
    /// The start and the end of each chunk.
    pub ranges: Seq<(usize, usize)>,
    /// The root of the Merkle tree.
    pub root: Option<Seq<u8>>,
    /// The second in which the blob came in.
    pub created_at: u64,
}

/// The root of the Merkle tree over the chunks of a blob, in order.
pub open spec fn root_of(data: Seq<u8>) -> Option<Seq<u8>> {
    merkle_root(chunk_digests(chunks(data)))
}

/// The start and the end of each chunk of a blob of `len` bytes.
pub open spec fn ranges_of(len: nat) -> Seq<(usize, usize)> {
    Seq::new(chunk_count(len), |i: int| (chunk_start(i) as usize, chunk_end(len, i) as usize))
}

/// What a blob becomes when it is stored.
pub open spec fn blob_of(id: Seq<char>, data: Seq<u8>, created_at: u64) -> BlobModel {
    BlobModel { id, data, ranges: ranges_of(data.len()), root: root_of(data), created_at }
}

/// The time of a blob is up.
pub open spec fn is_stale(created_at: u64, now: u64) -> bool {
    created_at + RETENTION_TIME < now
}

impl Blob {
    pub closed spec fn view(self) -> BlobModel {
        BlobModel {
            id: self.bridge_id@,
            data: content(self.data),
            ranges: self.chunks@,
            root: Some(self.root_hash@),
            created_at: self.created_at,
        }
    }
}

/// The blobs of this node, by id.
pub struct BlobStore {
    blobs: Table<String, Blob>,
}

impl BlobStore {
    pub closed spec fn wf(self) -> bool {
        &&& self.blobs.wf()
        &&& forall|id: Seq<char>| #[trigger]
            self.blobs@.contains_key(id) ==> self.blobs@[id]@ == blob_of(
                id,
                self.blobs@[id]@.data,
                self.blobs@[id]@.created_at,
            ) && self.blobs@[id]@.data.len() > 0
    }

    pub closed spec fn view(self) -> Map<Seq<char>, BlobModel> {
        self.blobs@.map_values(|b: Blob| b@)
    }

    /// Every blob that is kept is as [`blob_of`] makes it, under its own id, and not empty.
    pub proof fn lemma_wf(self)
        requires
            self.wf(),
        ensures
            forall|id: Seq<char>| #[trigger]
                self@.contains_key(id) ==> self@[id] == blob_of(id, self@[id].data, self@[id].created_at)
                    && self@[id].data.len() > 0,
    {
        assert forall|id: Seq<char>| #[trigger] self@.contains_key(id) implies self@[id] == blob_of(
            id,
            self@[id].data,
            self@[id].created_at,
        ) && self@[id].data.len() > 0 by {
            assert(self.blobs@.contains_key(id));
        }
    }

    /// A store without blobs.
    pub fn new() -> (store: Self)
        ensures
            store.wf(),
            store@ == Map::<Seq<char>, BlobModel>::empty(),
    {
        let store = BlobStore { blobs: Table::new() };
        assert(store@ =~= Map::empty());
        store
    }

    /// Keeps a blob.
    pub fn store_blob(&mut self, id: String, data: Bytes, now: u64) -> (stored: Result<(), StoreError>)
        requires
            old(self).wf(),
        ensures
            final(self).wf(),
            stored is Ok <==> content(data).len() > 0 && !old(self)@.contains_key(id@),
            stored is Ok ==> final(self)@ == old(self)@.insert(id@, blob_of(id@, content(data), now)),
            stored is Err ==> final(self)@ == old(self)@,
            content(data).len() == 0 ==> stored == Err::<(), StoreError>(StoreError::EmptyBlob),
            content(data).len() > 0 && old(self)@.contains_key(id@) ==> (stored matches Err(
                StoreError::DuplicateBlob { root_hash },
            ) && Some(root_hash@) == root_of(content(data))),
    {
        if bytes_len(&data) == 0 {
            return Err(StoreError::EmptyBlob);
        }
        let leaves = name_chunks(&data);
        assert(digests(leaves@).len() == chunk_count(content(data).len()));
        let (_, root) = merkle(leaves.as_slice());
        self.keep(id, data, root, now)
    }

    /// Keeps a blob that is not empty and has the given Merkle root. Without a root it is refused.
    pub fn keep(&mut self, id: String, data: Bytes, root: Option<Digest>, now: u64) -> (stored: Result<
        (),
        StoreError,
    >)
        requires
            old(self).wf(),
            content(data).len() > 0,
            root is Some ==> digest_of(root) == root_of(content(data)),
        ensures
            final(self).wf(),
            stored is Ok <==> root is Some && !old(self)@.contains_key(id@),
            stored is Ok ==> final(self)@ == old(self)@.insert(id@, blob_of(id@, content(data), now)),
            stored is Err ==> final(self)@ == old(self)@,
            root is None ==> stored == Err::<(), StoreError>(StoreError::NoMerkleRoot),
            root matches Some(r) && old(self)@.contains_key(id@) ==> stored == Err::<(), StoreError>(
                StoreError::DuplicateBlob { root_hash: root->Some_0 },
            ),
    {
        let root_hash = match root {
            Some(root_hash) => root_hash,
            None => return Err(StoreError::NoMerkleRoot),
        };
        if self.blobs.contains_key(&id) {
            return Err(StoreError::DuplicateBlob { root_hash });
        }
        let len: usize = bytes_len(&data);
        let ranges = chunk_ranges(len);
        proof {
            assert forall|i: int| 0 <= i < ranges@.len() implies ranges@[i] == ranges_of(len as nat)[i] by {
                law_chunk_bounds(len as nat, i);
            }
            assert(ranges@ =~= ranges_of(len as nat));
        }
        let blob = Blob { root_hash, bridge_id: id.clone(), data, chunks: ranges, created_at: now };
        self.blobs.insert(id, blob);
        proof {
            assert(self@ =~= old(self)@.insert(id@, blob@));
        }
        Ok(())
    }

    /// Drops a blob, if there is one with the id.
    pub fn remove_blob(&mut self, id: &str)
        requires
            old(self).wf(),
        ensures
            final(self).wf(),
            final(self)@ == old(self)@.remove(id@),
    {
        let id = id.to_owned();
        self.blobs.remove(&id);
        proof {
            assert(self@ =~= old(self)@.remove(id@));
        }
    }

    /// Drops the blobs whose time is up.
    pub fn remove_stale_blobs(&mut self, now: u64)
        requires
            old(self).wf(),
        ensures
            final(self).wf(),
            final(self)@ == passing(old(self)@, |b: BlobModel| !is_stale(b.created_at, now)),
    {
        let keep = |blob: &Blob| -> (kept: bool)
            ensures
                kept == !is_stale(blob@.created_at, now),
            { !(blob.created_at < now && now - blob.created_at > RETENTION_TIME) };
        self.blobs.retain(keep, Ghost(|blob: Blob| !is_stale(blob@.created_at, now)));
        proof {
            assert(self@ =~= passing(old(self)@, |b: BlobModel| !is_stale(b.created_at, now)));
        }
    }
}

/// What the blob store waits for. A channel that yields `None` is closed.
pub enum StoreEvent {
    /// It is time to drop blobs whose time is up.
    CleanUpTick,
    /// The blob store is asked or told something.
    Blob(Option<BlobMessage>),
    /// The swarm was asked to store a blob with other peers, or could not be, for the given reason.
    Forwarded { id: String, failure: Option<String> },
}

/// What is to be done next.
pub enum StoreAction {
    /// Wait for the next event.
    Continue,
    /// The channel is closed: end.
    Stop,
    /// Send the message to the swarm.
    Persist(SwarmMessage),
}

/// The blobs that are kept, and the statuses that the bridge shows.
#[verifier::ext_equal]
pub struct StoreModel {
    pub blobs: Map<Seq<char>, BlobModel>,
    pub statuses: Map<Seq<char>, StatusModel>,
}

impl StoreModel {
    /// A blob can be stored: it is not empty, and there is none with its id.
    pub open spec fn admits(self, id: Seq<char>, data: Seq<u8>) -> bool {
        data.len() > 0 && !self.blobs.contains_key(id)
    }

    /// Why a blob that cannot be stored is refused.
    pub open spec fn refusal(self, data: Seq<u8>) -> Seq<char> {
        if data.len() == 0 {
            "Ignored empty blob."@
        } else {
            "Duplicate blob: "@ + lower_hex(root_of(data)->Some_0)
        }
    }

    /// The upload of a blob failed.
    pub open spec fn failed(self, id: Seq<char>, reason: Seq<char>) -> Self {
        StoreModel {
            statuses: self.statuses.insert(id, StatusModel::Failed { reason: Some(reason) }),
            ..self
        }
    }

    /// The state after an event.
    pub open spec fn after(self, event: StoreEvent, now: u64) -> Self {
        match event {
            StoreEvent::CleanUpTick => StoreModel {
                blobs: passing(self.blobs, |b: BlobModel| !is_stale(b.created_at, now)),
                ..self
            },
            StoreEvent::Blob(Some(BlobMessage::Store { id, data })) => if self.admits(id@, content(data)) {
                StoreModel { blobs: self.blobs.insert(id@, blob_of(id@, content(data), now)), ..self }
            } else {
                self.failed(id@, self.refusal(content(data)))
            },
            StoreEvent::Forwarded { id, failure: Some(reason) } => self.failed(id@, reason@),
            _ => self,
        }
    }

    /// What is to be done after an event, where `self` is the state before it.
    pub open spec fn calls_for(self, event: StoreEvent, action: StoreAction) -> bool {
        match event {
            StoreEvent::Blob(Some(BlobMessage::Store { id, data })) => if self.admits(id@, content(data)) {
                action matches StoreAction::Persist(SwarmMessage::PersistBlob(blob)) && blob@ == id@
            } else {
                action is Continue
            },
            StoreEvent::Blob(None) => action is Stop,
            _ => action is Continue,
        }
    }
}

impl BlobStore {
    /// What the store keeps and what the bridge shows.
    pub open spec fn with(self, bridge_state: BridgeState) -> StoreModel {
        StoreModel { blobs: self@, statuses: bridge_state@ }
    }

    /// Takes an event in, and says what is to be done.
    pub fn handle(&mut self, bridge_state: &mut BridgeState, event: StoreEvent, now: u64) -> (action: StoreAction)
        requires
            old(self).wf(),
        ensures
            final(self).wf(),
            final(self).with(*final(bridge_state)) == old(self).with(*old(bridge_state)).after(event, now),
            old(self).with(*old(bridge_state)).calls_for(event, action),
    {
        match event {
            StoreEvent::CleanUpTick => {
                self.remove_stale_blobs(now);
                StoreAction::Continue
            },
            StoreEvent::Blob(message) => match message {
                Some(BlobMessage::Store { id, data }) => match self.store_blob(id.clone(), data, now) {
                    Ok(()) => StoreAction::Persist(SwarmMessage::PersistBlob(id)),
                    Err(error) => {
                        bridge_state.fail(id, error.message());
                        StoreAction::Continue
                    },
                },
                Some(BlobMessage::Persist { .. }) => StoreAction::Continue,
                None => StoreAction::Stop,
            },
            StoreEvent::Forwarded { id, failure } => {
                match failure {
                    Some(reason) => bridge_state.fail(id, reason),
                    None => {},
                }
                StoreAction::Continue
            },
        }
    }
}

} // verus!
