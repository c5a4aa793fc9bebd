//! Keeps the blobs of this client, cut into chunks, until they are stored with other peers.
use vstd::prelude::*;
use bytes::Bytes;
use dashmap::DashMap;
use crate::blake3_wrapper::{digest_of, digests, merkle, merkle_leaves, merkle_root, BlobTree, Digest};
use crate::chunking::{
    chunk_count, chunk_digests, chunk_index, chunks, distinct, index_chunks, lemma_distinct,
    name_chunks,
};
use crate::client::assignment::answers;
use crate::client::coordinator::CoordMessage;
use crate::payload::{bytes_clone, bytes_len, content, content_of, contents};
use crate::status::{
    status_contains, status_get, status_insert, status_map, status_retain, statuses, text_of,
    StatusCode, StatusModel, UploadStatus,
};
use crate::table::{passing, Table};
use crate::text::join;

verus! {

/// For how many seconds a blob is kept: 4 hours.
pub const RETENTION_TIME: u64 = 14_400;

/// The largest blob, in bytes, that the bridge takes in: 1 GiB.
pub const MAX_BLOB_SIZE: usize = 1_073_741_824;

/// What the bridge tells the blob store.
pub enum InternalMessage {
    /// A blob came in.
    NewBlob { id: String, data: Bytes },
}

/// What the coordinator asks or tells the blob store.
pub enum BlobMessage {
    /// Hand out chunks of a blob. The channel for the answer stays with the sender.
    FetchChunks { id: String, chunks: Vec<Digest> },
    /// The distribution of a blob has come to an end.
    StoreResult { id: String, success: bool, failure_reason: Option<String> },
}

/// What the bridge knows: how far the upload of each blob has come.
pub struct BridgeState {
    upload_status_map: DashMap<String, UploadStatus>,
}

impl BridgeState {
    /// The statuses by blob id.
    pub closed spec fn view(self) -> Map<Seq<char>, StatusModel> {
        statuses(self.upload_status_map)
    }

    /// A bridge that knows of no blob.
    pub fn new() -> (state: Self)
        ensures
            state@ == Map::<Seq<char>, StatusModel>::empty(),
    {
        let state = BridgeState { upload_status_map: status_map() };
        assert(state@ =~= Map::empty());
        state
    }

    fn set(&mut self, id: String, status: UploadStatus)
        ensures
            final(self)@ == old(self)@.insert(id@, status@),
    {
        status_insert(&mut self.upload_status_map, id, status);
    }

    /// Gives a blob a status if it has one.
    fn change(&mut self, id: String, status: UploadStatus)
        ensures
            final(self)@ == (if old(self)@.contains_key(id@) {
                old(self)@.insert(id@, status@)
            } else {
                old(self)@
            }),
    {
        if status_contains(&self.upload_status_map, id.as_str()) {
            status_insert(&mut self.upload_status_map, id, status);
        }
    }
}

/// What a request for the status of a blob is answered.
pub fn get_status(state: &BridgeState, id: &str) -> (answer: (StatusCode, Option<UploadStatus>))
    ensures
        state@.contains_key(id@) ==> answer.0 == StatusCode::Okay && (answer.1 matches Some(s) && s@ == state@[id@]),
        !state@.contains_key(id@) ==> answer.0 == StatusCode::NotFound && answer.1 is None,
{
    match status_get(&state.upload_status_map, id) {
        Some(status) => (StatusCode::Okay, Some(status)),
        None => (StatusCode::NotFound, None),
    }
}

/// What is done with a blob that is handed in: it goes to the blob store, unless one with its id is
/// known; then it is refused.
pub fn new_blob(state: &BridgeState, id: String, body: Bytes) -> (message: Result<InternalMessage, StatusCode>)
    ensures
        message == (if state@.contains_key(id@) {
            Err(StatusCode::InternalServerError)
        } else {
            Ok(InternalMessage::NewBlob { id, data: body })
        }),
{
    if status_contains(&state.upload_status_map, id.as_str()) {
        Err(StatusCode::InternalServerError)
    } else {
        Ok(InternalMessage::NewBlob { id, data: body })
    }
}

/// What is answered when a blob was sent to the blob store, or could not be.
pub fn blob_forwarded(sent: bool) -> (code: StatusCode)
    ensures
        code == (if sent {
            StatusCode::Created
        } else {
            StatusCode::InternalServerError
        }),
{
    if sent {
        StatusCode::Created
    } else {
        StatusCode::InternalServerError
    }
}

/// Why a blob was not stored.
#[derive(Debug, PartialEq, Eq)]
pub enum StoreError {
    /// It holds no bytes.
    EmptyBlob,
    /// There is one with its id.
    DuplicateBlob { id: String },
    /// Its Merkle tree has no root.
    NoMerkleRoot,
}

impl StoreError {
    /// The error in words.
    pub open spec fn text(self) -> Seq<char> {
        match self {
            StoreError::EmptyBlob => "Empty blob."@,
            StoreError::DuplicateBlob { id } => "Duplicate blob: "@ + id@,
            StoreError::NoMerkleRoot => "Couldn't get the merkle root."@,
        }
    }

    /// The error in words.
    pub fn message(&self) -> (text: String)
        ensures
            text@ == self.text(),
    {
        match self {
            StoreError::EmptyBlob => "Empty blob.".to_owned(),
            StoreError::DuplicateBlob { id } => {
                let text = join("Duplicate blob: ", id.as_str(), "");
                proof {
                    reveal_strlit("");
                    assert(text@ =~= "Duplicate blob: "@ + id@);
                }
                text
            },
            StoreError::NoMerkleRoot => "Couldn't get the merkle root.".to_owned(),
        }
    }
}

/// A blob, cut into chunks.
pub struct Blob {
    root_hash: Digest,
    bridge_id: String,
    data: Bytes,
    chunks: Table<Digest, Bytes>,
    merkle_tree: BlobTree,
    created_at: u64,
}

/// The view of a [`Blob`].
#[verifier::ext_equal]
pub struct BlobModel {
    pub id: Seq<char>,
    pub data: Seq<u8>,
    /// The chunks by digest.
    pub chunks: Map<Seq<u8>, Seq<u8>>,
    /// The digests of the chunks, each once: the leaves of the Merkle tree.
    pub leaves: Seq<Seq<u8>>,
    /// The root of the Merkle tree.
    pub root: Option<Seq<u8>>,
    /// The second in which the blob came in.
    pub created_at: u64,
}

/// What a blob becomes when it is stored.
pub open spec fn blob_of(id: Seq<char>, data: Seq<u8>, created_at: u64) -> BlobModel {
    let leaves = distinct(chunk_digests(chunks(data)));
    BlobModel {
        id,
        data,
        chunks: chunk_index(chunks(data)),
        leaves,
        root: merkle_root(leaves),
        created_at,
    }
}

/// The time of a blob is up.
pub open spec fn is_stale(created_at: u64, now: u64) -> bool {
    created_at + RETENTION_TIME < now
}

fn time_is_up(created_at: u64, now: u64) -> (stale: bool)
    ensures
        stale == is_stale(created_at, now),
{
    created_at < now && now - created_at > RETENTION_TIME
}

impl Blob {
    /// The blob is as [`blob_of`] makes it.
    pub closed spec fn wf(self) -> bool {
        &&& self.chunks.wf()
        &&& merkle_leaves(self.merkle_tree) == self.chunks.order()
        &&& self@ == blob_of(self.bridge_id@, content(self.data), self.created_at)
        &&& content(self.data).len() > 0
    }

    pub closed spec fn view(self) -> BlobModel {
        BlobModel {
            id: self.bridge_id@,
            data: content(self.data),
            chunks: contents(self.chunks@),
            leaves: self.chunks.order(),
            root: Some(self.root_hash@),
            created_at: self.created_at,
        }
    }

    /// Cuts a blob into chunks.
    fn build(id: String, data: Bytes, created_at: u64) -> (blob: Result<Blob, StoreError>)
        requires
            content(data).len() > 0,
        ensures
            blob matches Ok(b) && b.wf() && b@ == blob_of(id@, content(data), created_at),
    {
        let names = name_chunks(&data);
        proof {
            assert(digests(names@).len() == chunk_count(content(data).len()));
        }
        let index = index_chunks(&data, &names);
        let leaves = table_keys(&index);
        let (merkle_tree, root) = merkle(leaves.as_slice());
        proof {
            lemma_distinct(digests(names@));
            assert(digests(leaves@).len() == leaves@.len());
        }
        Blob::assemble(id, data, index, merkle_tree, root, created_at)
    }

    /// Puts the parts of a blob together. Without a root there is no blob.
    pub fn assemble(
        id: String,
        data: Bytes,
        chunks: Table<Digest, Bytes>,
        merkle_tree: BlobTree,
        root: Option<Digest>,
        created_at: u64,
    ) -> (blob: Result<Blob, StoreError>)
        ensures
            root is None ==> blob == Err::<Blob, StoreError>(StoreError::NoMerkleRoot),
            root is Some ==> {
                &&& blob matches Ok(b)
                &&& b@ == (BlobModel {
                    id: id@,
                    data: content(data),
                    chunks: contents(chunks@),
                    leaves: chunks.order(),
                    root: digest_of(root),
                    created_at,
                })
                &&& b.wf() <==> chunks.wf() && merkle_leaves(merkle_tree) == chunks.order() && b@ == blob_of(
                    id@,
                    content(data),
                    created_at,
                ) && content(data).len() > 0
            },
    {
        match root {
            None => Err(StoreError::NoMerkleRoot),
            Some(root_hash) => Ok(
                Blob { root_hash, bridge_id: id, data, chunks, merkle_tree, created_at },
            ),
        }
    }
}

/// The digests of a table, in order.
fn table_keys<V>(table: &Table<Digest, V>) -> (hashes: Vec<Digest>)
    ensures
        digests(hashes@) == table.order(),
{
    let mut hashes: Vec<Digest> = Vec::new();
    let mut i: usize = 0;
    while i < table.len()
        invariant
            0 <= i <= table.order().len(),
            digests(hashes@) =~= table.order().take(i as int),
        decreases table.order().len() - i,
    {
        let hash: Digest = *table.key_at(i);
        hashes.push(hash);
        assert(table.order().take(i + 1) =~= table.order().take(i as int).push(hash@));
        i += 1;
    }
    assert(table.order().take(i as int) =~= table.order());
    hashes
}

/// The blobs of this client, by id.
pub struct BlobStore {
    blobs: Table<String, Blob>,
}

impl BlobStore {
    pub closed spec fn wf(self) -> bool {
        &&& self.blobs.wf()
        &&& forall|id: Seq<char>| #[trigger]
            self.blobs@.contains_key(id) ==> self.blobs@[id].wf() && self.blobs@[id]@.id == id
    }

    pub closed spec fn view(self) -> Map<Seq<char>, BlobModel> {
        self.blobs@.map_values(|b: Blob| b@)
    }

    /// Every blob that is kept is as [`blob_of`] makes it, under its own id, and not empty.
    pub proof fn lemma_wf(self)
        requires
            self.wf(),
        ensures
            forall|id: Seq<char>| #[trigger]
                self@.contains_key(id) ==> self@[id] == blob_of(id, self@[id].data, self@[id].created_at)
                    && self@[id].data.len() > 0,
    {
        assert forall|id: Seq<char>| #[trigger] self@.contains_key(id) implies self@[id] == blob_of(
            id,
            self@[id].data,
            self@[id].created_at,
        ) && self@[id].data.len() > 0 by {
            assert(self.blobs@.contains_key(id));
        }
    }

    /// A store without blobs.
    pub fn new() -> (store: Self)
        ensures
            store.wf(),
            store@ == Map::<Seq<char>, BlobModel>::empty(),
    {
        let store = BlobStore { blobs: Table::new() };
        assert(store@ =~= Map::empty());
        store
    }

    /// Cuts a blob into chunks and keeps it.
    pub fn store_blob(&mut self, id: String, data: Bytes, now: u64) -> (stored: Result<(), StoreError>)
        requires
            old(self).wf(),
        ensures
            final(self).wf(),
            stored is Ok <==> content(data).len() > 0 && !old(self)@.contains_key(id@),
            stored is Ok ==> final(self)@ == old(self)@.insert(id@, blob_of(id@, content(data), now)),
            stored is Err ==> final(self)@ == old(self)@,
            content(data).len() == 0 ==> stored == Err::<(), StoreError>(StoreError::EmptyBlob),
            content(data).len() > 0 && old(self)@.contains_key(id@) ==> (stored matches Err(
                StoreError::DuplicateBlob { id: other },
            ) && other@ == id@),
    {
        if bytes_len(&data) == 0 {
            return Err(StoreError::EmptyBlob);
        }
        if self.blobs.contains_key(&id) {
            return Err(StoreError::DuplicateBlob { id });
        }
        match Blob::build(id.clone(), data, now) {
            Ok(blob) => {
                self.blobs.insert(id, blob);
                proof {
                    assert(self@ =~= old(self)@.insert(id@, blob@));
                }
                Ok(())
            },
            Err(error) => Err(error),
        }
    }

    /// Drops a blob, if there is one with the id.
    pub fn remove_blob(&mut self, id: &str)
        requires
            old(self).wf(),
        ensures
            final(self).wf(),
            final(self)@ == old(self)@.remove(id@),
    {
        let id = id.to_owned();
        self.blobs.remove(&id);
        proof {
            assert(self@ =~= old(self)@.remove(id@));
        }
    }

    /// Drops the blobs whose time is up, and the statuses of blobs that are not kept.
    pub fn remove_stale_blobs(&mut self, bridge_state: &mut BridgeState, now: u64)
        requires
            old(self).wf(),
        ensures
            final(self).wf(),
            final(self)@ == passing(old(self)@, |b: BlobModel| !is_stale(b.created_at, now)),
            final(bridge_state)@ == old(bridge_state)@.restrict(final(self)@.dom()),
    {
        let keep = |blob: &Blob| -> (kept: bool)
            ensures
                kept == !is_stale(blob@.created_at, now),
            { !time_is_up(blob.created_at, now) };
        self.blobs.retain(keep, Ghost(|blob: Blob| !is_stale(blob@.created_at, now)));
        status_retain(&mut bridge_state.upload_status_map, &self.blobs);
        proof {
            assert(self@ =~= passing(old(self)@, |b: BlobModel| !is_stale(b.created_at, now)));
            assert(self@.dom() =~= self.blobs@.dom());
        }
    }

    /// The requested chunks of a blob, each with its bytes where the blob has it; nothing if there is
    /// no such blob.
    pub fn fetch_chunks(&self, id: &str, requested: &Vec<Digest>) -> (reply: Option<Table<Digest, Option<Bytes>>>)
        requires
            self.wf(),
        ensures
            reply is Some <==> self@.contains_key(id@),
            reply matches Some(table) ==> table.wf() && table.order() == distinct(digests(requested@))
                && answers(table) == chunks_for(self@[id@].chunks, digests(requested@)),
    {
        let id = id.to_owned();
        match self.blobs.get(&id) {
            None => None,
            Some(blob) => Some(pick(&blob.chunks, requested)),
        }
    }
}

/// What is handed out when chunks are requested: an entry for each request, with the chunk where
/// there is one.
pub open spec fn chunks_for(
    kept: Map<Seq<u8>, Seq<u8>>,
    requested: Seq<Seq<u8>>,
) -> Map<Seq<u8>, Option<Seq<u8>>> {
    Map::new(
        |h: Seq<u8>| requested.contains(h),
        |h: Seq<u8>|
            if kept.contains_key(h) {
                Some(kept[h])
            } else {
                None
            },
    )
}

/// Picks the requested chunks out.
fn pick(kept: &Table<Digest, Bytes>, requested: &Vec<Digest>) -> (reply: Table<Digest, Option<Bytes>>)
    requires
        kept.wf(),
    ensures
        reply.wf(),
        reply.order() == distinct(digests(requested@)),
        answers(reply) == chunks_for(contents(kept@), digests(requested@)),
{
    let mut reply: Table<Digest, Option<Bytes>> = Table::new();
    let ghost wanted = digests(requested@);
    let ghost found = contents(kept@);
    let mut i: usize = 0;
    proof {
        assert(wanted.take(0) =~= Seq::empty());
    }
    while i < requested.len()
        invariant
            0 <= i <= requested@.len(),
            wanted == digests(requested@),
            found == contents(kept@),
            kept.wf(),
            reply.wf(),
            reply.order() == distinct(wanted.take(i as int)),
            forall|h: Seq<u8>| #[trigger] reply@.contains_key(h) ==> content_of(reply@[h]) == (if found.contains_key(h) {
                Some(found[h])
            } else {
                None
            }),
        decreases requested@.len() - i,
    {
        let hash: Digest = requested[i];
        let chunk: Option<Bytes> = match kept.get(&hash) {
            Some(data) => Some(bytes_clone(data)),
            None => None,
        };
        proof {
            reply.lemma_order();
            assert(wanted.take(i + 1).drop_last() =~= wanted.take(i as int));
            assert(wanted.take(i + 1).last() == hash@);
            assert(reply@.contains_key(hash@) <==> reply.order().contains(hash@));
        }
        reply.insert(hash, chunk);
        i += 1;
    }
    proof {
        assert(wanted.take(i as int) =~= wanted);
        reply.lemma_order();
        lemma_distinct(wanted);
        let expected = chunks_for(found, wanted);
        assert forall|h: Seq<u8>| #[trigger] answers(reply).dom().contains(h) <==> expected.dom().contains(h) by {
            assert(reply.order().contains(h) <==> wanted.contains(h));
        }
        assert(answers(reply) =~= expected);
    }
    reply
}

/// What the blob store waits for. A channel that yields `None` is closed.
pub enum StoreEvent {
    /// It is time to drop blobs whose time is up.
    CleanUpTick,
    /// The bridge hands a blob in.
    Internal(Option<InternalMessage>),
    /// The coordinator was asked to distribute a blob, or could not be, for the given reason.
    Distributed { id: String, failure: Option<String> },
    /// The coordinator asks or tells something.
    Blob(Option<BlobMessage>),
}

/// What is to be done next.
pub enum StoreAction {
    /// Wait for the next event.
    Continue,
    /// A channel is closed: end.
    Stop,
    /// Send the message to the coordinator.
    Distribute(CoordMessage),
    /// Answer the coordinator.
    Reply(Option<Table<Digest, Option<Bytes>>>),
}

/// The blobs that are kept, and the statuses that the bridge shows.
#[verifier::ext_equal]
pub struct StoreModel {
    pub blobs: Map<Seq<char>, BlobModel>,
    pub statuses: Map<Seq<char>, StatusModel>,
}

impl StoreModel {
    /// A blob can be stored: it is not empty, and there is none with its id.
    pub open spec fn admits(self, id: Seq<char>, data: Seq<u8>) -> bool {
        data.len() > 0 && !self.blobs.contains_key(id)
    }

    /// Why a blob that cannot be stored is refused.
    pub open spec fn refusal(self, id: Seq<char>, data: Seq<u8>) -> Seq<char> {
        if data.len() == 0 {
            "Empty blob."@
        } else {
            "Duplicate blob: "@ + id
        }
    }

    /// A blob has a status.
    pub open spec fn with_status(self, id: Seq<char>, status: StatusModel) -> Self {
        StoreModel { statuses: self.statuses.insert(id, status), ..self }
    }

    /// The state after an event.
    pub open spec fn after(self, event: StoreEvent, now: u64) -> Self {
        match event {
            StoreEvent::CleanUpTick => {
                let blobs = passing(self.blobs, |b: BlobModel| !is_stale(b.created_at, now));
                StoreModel { blobs, statuses: self.statuses.restrict(blobs.dom()) }
            },
            StoreEvent::Internal(Some(InternalMessage::NewBlob { id, data })) => if self.admits(
                id@,
                content(data),
            ) {
                StoreModel { blobs: self.blobs.insert(id@, blob_of(id@, content(data), now)), ..self }
            } else {
                self.with_status(
                    id@,
                    StatusModel::Failed { reason: Some(self.refusal(id@, content(data))) },
                )
            },
            StoreEvent::Distributed { id, failure } => match failure {
                None => self.with_status(id@, StatusModel::Pending),
                Some(reason) => self.with_status(id@, StatusModel::Failed { reason: Some(reason@) }),
            },
            StoreEvent::Blob(
                Some(BlobMessage::StoreResult { id, success, failure_reason }),
            ) => if self.blobs.contains_key(id@) && self.statuses.contains_key(id@) {
                self.with_status(
                    id@,
                    if success {
                        StatusModel::Finalized
                    } else {
                        StatusModel::Failed { reason: text_of(failure_reason) }
                    },
                )
            } else {
                self
            },
            _ => self,
        }
    }

    /// What is to be done after an event, where `self` is the state before it.
    pub open spec fn calls_for(self, event: StoreEvent, now: u64, action: StoreAction) -> bool {
        match event {
            StoreEvent::Internal(Some(InternalMessage::NewBlob { id, data })) => if self.admits(
                id@,
                content(data),
            ) {
                action matches StoreAction::Distribute(message) && announces(
                    message,
                    blob_of(id@, content(data), now),
                )
            } else {
                action is Continue
            },
            StoreEvent::Blob(Some(BlobMessage::FetchChunks { id, chunks })) => {
                &&& action matches StoreAction::Reply(reply)
                &&& reply is Some <==> self.blobs.contains_key(id@)
                &&& reply matches Some(table) ==> table.wf() && table.order() == distinct(digests(chunks@))
                    && answers(table) == chunks_for(self.blobs[id@].chunks, digests(chunks@))
            },
            StoreEvent::Internal(None) => action is Stop,
            StoreEvent::Blob(None) => action is Stop,
            _ => action is Continue,
        }
    }
}

/// The message asks for the distribution of the blob.
pub open spec fn announces(message: CoordMessage, blob: BlobModel) -> bool {
    match message {
        CoordMessage::DistributeBlob { id, root_hash, chunk_hashes } => id@ == blob.id && Some(root_hash@)
            == blob.root && digests(chunk_hashes@) == blob.leaves,
    }
}

impl BlobStore {
    /// What the store keeps and what the bridge shows.
    pub open spec fn with(self, bridge_state: BridgeState) -> StoreModel {
        StoreModel { blobs: self@, statuses: bridge_state@ }
    }

    /// Takes an event in, and says what is to be done.
    pub fn handle(&mut self, bridge_state: &mut BridgeState, event: StoreEvent, now: u64) -> (action: StoreAction)
        requires
            old(self).wf(),
        ensures
            final(self).wf(),
            final(self).with(*final(bridge_state)) == old(self).with(*old(bridge_state)).after(event, now),
            old(self).with(*old(bridge_state)).calls_for(event, now, action),
    {
        match event {
            StoreEvent::CleanUpTick => {
                self.remove_stale_blobs(bridge_state, now);
                StoreAction::Continue
            },
            StoreEvent::Internal(message) => match message {
                Some(InternalMessage::NewBlob { id, data }) => match self.take_in(bridge_state, id, data, now) {
                    Some(message) => StoreAction::Distribute(message),
                    None => StoreAction::Continue,
                },
                None => StoreAction::Stop,
            },
            StoreEvent::Distributed { id, failure } => {
                match failure {
                    None => bridge_state.set(id, UploadStatus::Pending),
                    Some(reason) => bridge_state.set(id, UploadStatus::Failed { reason: Some(reason) }),
                }
                StoreAction::Continue
            },
            StoreEvent::Blob(message) => match message {
                Some(BlobMessage::FetchChunks { id, chunks }) => StoreAction::Reply(
                    self.fetch_chunks(id.as_str(), &chunks),
                ),
                Some(BlobMessage::StoreResult { id, success, failure_reason }) => {
                    if self.blobs.contains_key(&id) {
                        if success {
                            bridge_state.change(id, UploadStatus::Finalized);
                        } else {
                            bridge_state.change(id, UploadStatus::Failed { reason: failure_reason });
                        }
                    }
                    StoreAction::Continue
                },
                None => StoreAction::Stop,
            },
        }
    }

    /// Stores a blob, and says what to ask of the coordinator; or takes down why it is refused.
    fn take_in(&mut self, bridge_state: &mut BridgeState, id: String, data: Bytes, now: u64) -> (message: Option<
        CoordMessage,
    >)
        requires
            old(self).wf(),
        ensures
            final(self).wf(),
            final(self).with(*final(bridge_state)) == old(self).with(*old(bridge_state)).after(
                StoreEvent::Internal(Some(InternalMessage::NewBlob { id, data })),
                now,
            ),
            message is Some <==> old(self).with(*old(bridge_state)).admits(id@, content(data)),
            message matches Some(m) ==> announces(m, blob_of(id@, content(data), now)),
    {
        match self.store_blob(id.clone(), data, now) {
            Ok(()) => {
                proof {
                    assert(self@.contains_key(id@));
                    assert(self.blobs@[id@]@ == self@[id@]);
                }
                match self.blobs.get(&id) {
                    Some(blob) => Some(
                        CoordMessage::DistributeBlob {
                            id,
                            root_hash: blob.root_hash,
                            chunk_hashes: table_keys(&blob.chunks),
                        },
                    ),
                    None => None,
                }
            },
            Err(error) => {
                bridge_state.set(id, UploadStatus::Failed { reason: Some(error.message()) });
                None
            },
        }
    }
}

} // verus!
