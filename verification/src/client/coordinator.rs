//! Spreads the chunks of blobs over the peers that offered to store them.
use std::collections::VecDeque;
use vstd::prelude::*;
use bytes::Bytes;
use crate::blake3_wrapper::{digests, hex_encode, lower_hex, Digest};
use crate::chunking::{distinct, lemma_distinct};
use crate::client::blob_store::BlobMessage;
use crate::client::uploads::{
    upload_views, uploads_of, Upload, UploadModel, UploadQueue, UploadsModel,
};
use crate::peyk::protocol::{PeerId, Response};
use crate::peyk::{HandlerMessage, SwarmMessage};
use crate::seqs::lemma_filter_congruent;
use crate::table::{passing, Table};

verus! {

/// The largest blob, in bytes, that is taken in from the network: 8 MiB.
pub const MAX_BLOB_SIZE: usize = 8_388_608;

/// After how many seconds an upload that was begun counts as lost.
pub const CHUNK_UPLOAD_WINDOW: u64 = 30;

/// For how many seconds the word of a storage provider counts: 5 minutes.
pub const STORAGE_PROVIDER_DECAY: u64 = 300;

/// How many downloads may run at a time.
pub const DOWNLOAD_ALLOWANCE: usize = 32;

/// Nanoseconds in a second. Moments are counted in nanoseconds from a fixed moment on.
pub const NANOS_PER_SEC: u64 = 1_000_000_000;

/// The full seconds from one moment to another; none if the other one comes first.
pub open spec fn secs_between(then: u64, now: u64) -> int {
    if then < now {
        (now - then) / NANOS_PER_SEC as int
    } else {
        0
    }
}

fn elapsed_secs(then: u64, now: u64) -> (secs: u64)
    ensures
        secs == secs_between(then, now),
{
    if then < now {
        (now - then) / NANOS_PER_SEC
    } else {
        0
    }
}

/// What the coordinator is asked to do.
pub enum CoordMessage {
    /// Store the chunks of a blob with other peers.
    DistributeBlob { id: String, root_hash: Digest, chunk_hashes: Vec<Digest> },
}

/// What the uploads tell the coordinator.
pub enum InternalMessage {
    /// The upload of a chunk has come to another point.
    UpdateChunkStatus { hash: Digest, new_status: ChunkUploadStatus },
}

/// How far the upload of a chunk has come.
#[derive(Debug, PartialEq, Eq)]
pub enum ChunkUploadStatus {
    /// The upload is still to begin.
    Pending,
    /// The upload was begun.
    Inflight { created_at: u64, to: PeerId },
    /// The peer has the chunk.
    Finalized { on: u64, owner: PeerId },
}

impl Clone for ChunkUploadStatus {
    fn clone(&self) -> (copy: Self)
        ensures
            copy == *self,
    {
        match self {
            ChunkUploadStatus::Pending => ChunkUploadStatus::Pending,
            ChunkUploadStatus::Inflight { created_at, to } => ChunkUploadStatus::Inflight {
                created_at: *created_at,
                to: to.clone(),
            },
            ChunkUploadStatus::Finalized { on, owner } => ChunkUploadStatus::Finalized {
                on: *on,
                owner: owner.clone(),
            },
        }
    }
}

impl ChunkUploadStatus {
    /// Whether the chunk is to be uploaded: it was not begun, or it was begun and is lost.
    pub open spec fn is_due(self, now: u64) -> bool {
        match self {
            ChunkUploadStatus::Pending => true,
            ChunkUploadStatus::Inflight { created_at, .. } => secs_between(created_at, now)
                > CHUNK_UPLOAD_WINDOW,
            ChunkUploadStatus::Finalized { .. } => false,
        }
    }

    fn due(&self, now: u64) -> (due: bool)
        ensures
            due == self.is_due(now),
    {
        match self {
            ChunkUploadStatus::Pending => true,
            ChunkUploadStatus::Inflight { created_at, .. } => elapsed_secs(*created_at, now)
                > CHUNK_UPLOAD_WINDOW,
            ChunkUploadStatus::Finalized { .. } => false,
        }
    }
}

/// The task of storing the chunks of one blob with other peers.
pub struct StorageDeal {
    id: String,
    root_hash: Digest,
    chunks: Table<Digest, ChunkUploadStatus>,
}

/// The view of a [`StorageDeal`].
#[verifier::ext_equal]
pub struct DealModel {
    pub id: Seq<char>,
    pub root: Seq<u8>,
    /// The chunks by digest.
    pub chunks: Map<Seq<u8>, ChunkUploadStatus>,
    /// The digests, in the order in which chunks are chosen.
    pub order: Seq<Seq<u8>>,
}

impl DealModel {
    /// A deal of which nothing is uploaded.
    pub open spec fn fresh(id: Seq<char>, root: Seq<u8>, hashes: Seq<Seq<u8>>) -> Self {
        DealModel {
            id,
            root,
            chunks: Map::new(|h: Seq<u8>| hashes.contains(h), |h: Seq<u8>| ChunkUploadStatus::Pending),
            order: distinct(hashes),
        }
    }

    /// Every chunk is with some peer.
    pub open spec fn is_finalized(self) -> bool {
        forall|h: Seq<u8>| #[trigger] self.chunks.contains_key(h) ==> self.chunks[h] is Finalized
    }

    /// The digests of the chunks that are to be uploaded.
    pub open spec fn due(self, now: u64) -> Seq<Seq<u8>> {
        self.order.filter(|h: Seq<u8>| self.chunks[h].is_due(now))
    }

    /// The order lists exactly the chunks, each once.
    pub open spec fn wf(self) -> bool {
        &&& self.order.no_duplicates()
        &&& forall|h: Seq<u8>| self.chunks.contains_key(h) <==> #[trigger] self.order.contains(h)
    }
}

impl StorageDeal {
    pub closed spec fn wf(self) -> bool {
        self.chunks.wf()
    }

    pub closed spec fn view(self) -> DealModel {
        DealModel {
            id: self.id@,
            root: self.root_hash@,
            chunks: self.chunks@,
            order: self.chunks.order(),
        }
    }

    /// A deal of which nothing is uploaded.
    pub fn new(id: String, root_hash: Digest, chunk_hashes: Vec<Digest>) -> (deal: Self)
        ensures
            deal.wf(),
            deal@ == DealModel::fresh(id@, root_hash@, digests(chunk_hashes@)),
    {
        let mut chunks: Table<Digest, ChunkUploadStatus> = Table::new();
        let ghost hashes = digests(chunk_hashes@);
        let mut i: usize = 0;
        proof {
            assert(hashes.take(0) =~= Seq::empty());
        }
        while i < chunk_hashes.len()
            invariant
                0 <= i <= chunk_hashes@.len(),
                hashes == digests(chunk_hashes@),
                chunks.wf(),
                chunks.order() == distinct(hashes.take(i as int)),
                forall|h: Seq<u8>| #[trigger] chunks@.contains_key(h) ==> chunks@[h] == ChunkUploadStatus::Pending,
            decreases chunk_hashes@.len() - i,
        {
            proof {
                chunks.lemma_order();
                assert(hashes.take(i + 1).drop_last() =~= hashes.take(i as int));
                assert(hashes.take(i + 1).last() == chunk_hashes@[i as int]@);
                assert(chunks@.contains_key(hashes[i as int]) <==> chunks.order().contains(hashes[i as int]));
            }
            chunks.insert(chunk_hashes[i], ChunkUploadStatus::Pending);
            i += 1;
        }
        let deal = StorageDeal { id, root_hash, chunks };
        proof {
            assert(hashes.take(i as int) =~= hashes);
            chunks.lemma_order();
            lemma_distinct(hashes);
            assert forall|h: Seq<u8>| #[trigger] chunks@.dom().contains(h) <==> hashes.contains(h) by {
                assert(chunks.order().contains(h) <==> hashes.contains(h));
            }
            assert(deal@.chunks =~= DealModel::fresh(id@, root_hash@, hashes).chunks);
        }
        deal
    }

    /// Whether every chunk is with some peer.
    pub fn is_finalized(&self) -> (finalized: bool)
        requires
            self.wf(),
        ensures
            finalized == self@.is_finalized(),
    {
        let mut i: usize = 0;
        while i < self.chunks.len()
            invariant
                0 <= i <= self.chunks.order().len(),
                self.chunks.wf(),
                forall|j: int| 0 <= j < i ==> self.chunks@[#[trigger] self.chunks.order()[j]] is Finalized,
            decreases self.chunks.order().len() - i,
        {
            proof {
                self.chunks.lemma_order();
            }
            match self.chunks.value_at(i) {
                ChunkUploadStatus::Finalized { .. } => {},
                _ => {
                    proof {
                        let h = self.chunks.order()[i as int];
                        assert(self.chunks.order().contains(h));
                        assert(self@.chunks.contains_key(h));
                    }
                    return false;
                },
            }
            i += 1;
        }
        proof {
            self.chunks.lemma_order();
            assert forall|h: Seq<u8>| #[trigger] self@.chunks.contains_key(h) implies self@.chunks[h] is Finalized by {
                assert(self.chunks.order().contains(h));
                let j = self.chunks.order().index_of(h);
                assert(self.chunks.order()[j] == h);
            }
        }
        true
    }

    /// The first chunks that are to be uploaded, no more than `limit`.
    fn choose_due(&self, now: u64, limit: usize) -> (chosen: Vec<Digest>)
        requires
            self.wf(),
        ensures
            digests(chosen@) == first_of(self@.due(now), limit as nat),
    {
        let mut chosen: Vec<Digest> = Vec::new();
        let ghost due = |h: Seq<u8>| self@.chunks[h].is_due(now);
        let ghost order = self.chunks.order();
        let mut i: usize = 0;
        proof {
            reveal(Seq::filter);
            assert(order.take(0).filter(due) =~= Seq::empty());
        }
        while i < self.chunks.len()
            invariant
                0 <= i <= order.len(),
                self.chunks.wf(),
                order == self.chunks.order(),
                due == (|h: Seq<u8>| self@.chunks[h].is_due(now)),
                digests(chosen@) =~= order.take(i as int).filter(due),
            decreases order.len() - i,
        {
            proof {
                reveal(Seq::filter);
                assert(order.take(i + 1).drop_last() =~= order.take(i as int));
                assert(order.take(i + 1).last() == order[i as int]);
            }
            if self.chunks.value_at(i).due(now) {
                let hash: Digest = *self.chunks.key_at(i);
                chosen.push(hash);
                assert(digests(chosen@) =~= digests(chosen@.drop_last()).push(hash@));
            }
            i += 1;
        }
        proof {
            assert(order.take(i as int) =~= order);
        }
        let ghost all = chosen@;
        chosen.truncate(limit);
        proof {
            assert(digests(chosen@) =~= first_of(digests(all), limit as nat));
        }
        chosen
    }

    /// Takes down how far the upload of a chunk has come.
    fn report(&mut self, hash: Digest, new_status: ChunkUploadStatus) -> (update: ChunkUpdate)
        requires
            old(self).wf(),
        ensures
            final(self).wf(),
            final(self)@ == (if old(self)@.chunks.contains_key(hash@) {
                DealModel { chunks: old(self)@.chunks.insert(hash@, new_status), ..old(self)@ }
            } else {
                old(self)@
            }),
            update !is NoActiveDeal,
            update is Unsolicited <==> !old(self)@.chunks.contains_key(hash@),
            update is DealFinalized <==> old(self)@.chunks.contains_key(hash@) && new_status is Finalized
                && final(self)@.is_finalized(),
            update matches ChunkUpdate::DealFinalized { message } ==> is_success(message, old(self)@.id),
    {
        let last_step = match new_status {
            ChunkUploadStatus::Finalized { .. } => true,
            _ => false,
        };
        if self.chunks.replace(&hash, new_status).is_none() {
            return ChunkUpdate::Unsolicited;
        }
        if last_step && self.is_finalized() {
            let message = BlobMessage::StoreResult {
                id: self.id.clone(),
                success: true,
                failure_reason: None,
            };
            ChunkUpdate::DealFinalized { message }
        } else {
            ChunkUpdate::Recorded
        }
    }
}

/// Who stores chunks, and which deals are to be carried out.
pub struct Pipeline {
    /// The peers that would store chunks, with the moment they said so.
    storage_provider_hints: Table<PeerId, u64>,
    /// The peers that take chunks, with the moment up to which they do.
    storage_permits: Table<PeerId, u64>,
    pending_storage_deals: VecDeque<StorageDeal>,
    active_storage_deal: Option<StorageDeal>,
    uploads: UploadQueue,
}

/// The view of a [`Pipeline`].
#[verifier::ext_equal]
pub struct PipelineModel {
    pub hints: Map<Seq<char>, u64>,
    pub hint_order: Seq<Seq<char>>,
    pub permits: Map<Seq<char>, u64>,
    pub permit_order: Seq<Seq<char>>,
    pub pending: Seq<DealModel>,
    pub active: Option<DealModel>,
    pub uploads: UploadsModel,
}

/// The names of a list of peers.
pub open spec fn peer_names(peers: Seq<PeerId>) -> Seq<Seq<char>> {
    peers.map_values(|p: PeerId| p@)
}

/// The order of keys after one was given a value: a new key comes last.
pub open spec fn with_key<A>(order: Seq<A>, key: A) -> Seq<A> {
    if order.contains(key) {
        order
    } else {
        order.push(key)
    }
}

/// Up to when a permit that is given now, for some seconds, lasts. Past the end of time it counts as
/// run out.
pub open spec fn permit_end(now: u64, valid_for: u8) -> u64 {
    if now + valid_for * NANOS_PER_SEC <= u64::MAX {
        (now + valid_for * NANOS_PER_SEC) as u64
    } else {
        now
    }
}

/// The first `n` items of a sequence; all of them if there are fewer.
pub open spec fn first_of<A>(items: Seq<A>, n: nat) -> Seq<A> {
    if items.len() <= n {
        items
    } else {
        items.take(n as int)
    }
}

/// What to ask the blob store for, and whom to give it to.
pub struct ChunkRequest {
    /// The blob.
    pub id: String,
    /// The digests of the chunks.
    pub chunks: Vec<Digest>,
    /// The peers that take chunks.
    pub peers: Vec<PeerId>,
}

impl PipelineModel {
    /// Nobody is known and nothing is to be done.
    pub open spec fn idle() -> Self {
        PipelineModel {
            hints: Map::empty(),
            hint_order: Seq::empty(),
            permits: Map::empty(),
            permit_order: Seq::empty(),
            pending: Seq::empty(),
            active: None,
            uploads: UploadsModel::idle(),
        }
    }

    /// Deals wait only while another one is being carried out.
    pub open spec fn is_settled(self) -> bool {
        self.pending.len() > 0 ==> self.active is Some
    }

    /// The orders list the keys of their maps, each once, and no more uploads run than may.
    pub open spec fn wf(self) -> bool {
        &&& self.uploads.is_bounded()
        &&& forall|i: int| 0 <= i < self.pending.len() ==> (#[trigger] self.pending[i]).wf()
        &&& self.active matches Some(deal) ==> deal.wf()
        &&& self.hint_order.no_duplicates()
        &&& forall|p: Seq<char>| self.hints.contains_key(p) <==> #[trigger] self.hint_order.contains(p)
        &&& self.permit_order.no_duplicates()
        &&& forall|p: Seq<char>| self.permits.contains_key(p) <==> #[trigger] self.permit_order.contains(p)
    }

    /// The first waiting deal becomes the active one, unless there is one.
    pub open spec fn begin_next(self) -> Self {
        if self.active is None && self.pending.len() > 0 {
            PipelineModel {
                active: Some(self.pending[0]),
                pending: self.pending.drop_first(),
                ..self
            }
        } else {
            self
        }
    }

    /// A deal comes last in line; it becomes the active one if there is none.
    pub open spec fn add_deal(self, deal: DealModel) -> Self {
        PipelineModel { pending: self.pending.push(deal), ..self }.begin_next()
    }

    /// A peer would store chunks.
    pub open spec fn hint(self, peer: Seq<char>, now: u64) -> Self {
        PipelineModel {
            hints: self.hints.insert(peer, now),
            hint_order: with_key(self.hint_order, peer),
            ..self
        }
    }

    /// The word of a peer that is too old no longer counts.
    pub open spec fn drop_stale_hints(self, now: u64) -> Self {
        PipelineModel {
            hints: passing(self.hints, |at: u64| secs_between(at, now) < STORAGE_PROVIDER_DECAY),
            hint_order: self.hint_order.filter(
                |p: Seq<char>| secs_between(self.hints[p], now) < STORAGE_PROVIDER_DECAY,
            ),
            ..self
        }
    }

    /// A peer takes chunks.
    pub open spec fn permit(self, peer: Seq<char>, until: u64) -> Self {
        PipelineModel {
            permits: self.permits.insert(peer, until),
            permit_order: with_key(self.permit_order, peer),
            ..self
        }
    }

    /// Permits that have run out are dropped.
    pub open spec fn drop_expired_permits(self, now: u64) -> Self {
        PipelineModel {
            permits: passing(self.permits, |until: u64| until > now),
            permit_order: self.permit_order.filter(|p: Seq<char>| self.permits[p] > now),
            ..self
        }
    }

    /// Where there is a deal to carry out and an upload is available, permits that have run out are
    /// dropped.
    pub open spec fn prepare(self, now: u64) -> Self {
        if self.active is Some && self.uploads.available() > 0 {
            self.drop_expired_permits(now)
        } else {
            self
        }
    }

    /// Chunks are to be uploaded.
    pub open spec fn upload(self, more: Seq<UploadModel>) -> Self {
        PipelineModel { uploads: self.uploads.with(more).begin(), ..self }
    }

    /// An upload ended.
    pub open spec fn end_upload(self) -> Self {
        PipelineModel { uploads: self.uploads.without_one().begin(), ..self }
    }

    /// The active deal has the chunk.
    pub open spec fn is_solicited(self, hash: Seq<u8>) -> bool {
        self.active matches Some(deal) && deal.chunks.contains_key(hash)
    }

    /// A chunk of the active deal has come to another point.
    pub open spec fn set_status(self, hash: Seq<u8>, status: ChunkUploadStatus) -> Self {
        match self.active {
            Some(deal) if deal.chunks.contains_key(hash) => PipelineModel {
                active: Some(DealModel { chunks: deal.chunks.insert(hash, status), ..deal }),
                ..self
            },
            _ => self,
        }
    }
}

/// That permits cannot be asked for: no peer is known to store chunks.
#[derive(Debug, Clone, Copy, PartialEq, Eq, Structural)]
pub struct NoStorageProviders;

impl NoStorageProviders {
    /// The error in words.
    pub fn message(&self) -> (text: String)
        ensures
            text@ == "No storage providers to request permits from."@,
    {
        "No storage providers to request permits from.".to_owned()
    }
}

/// What came of a report on a chunk.
pub enum ChunkUpdate {
    /// There is no active deal; the report is ignored.
    NoActiveDeal,
    /// The active deal does not have the chunk; the report is ignored.
    Unsolicited,
    /// The report was taken down.
    Recorded,
    /// The report was taken down, and now every chunk is with some peer. The blob store is to get
    /// the message.
    DealFinalized { message: BlobMessage },
}

impl Pipeline {
    pub closed spec fn wf(self) -> bool {
        &&& self.storage_provider_hints.wf()
        &&& self.storage_permits.wf()
        &&& forall|i: int|
            0 <= i < self.pending_storage_deals@.len() ==> (#[trigger] self.pending_storage_deals@[i]).wf()
        &&& self.active_storage_deal matches Some(deal) ==> deal.wf()
        &&& self.uploads.wf()
    }

    pub closed spec fn view(self) -> PipelineModel {
        PipelineModel {
            hints: self.storage_provider_hints@,
            hint_order: self.storage_provider_hints.order(),
            permits: self.storage_permits@,
            permit_order: self.storage_permits.order(),
            pending: self.pending_storage_deals@.map_values(|d: StorageDeal| d@),
            active: match self.active_storage_deal {
                Some(deal) => Some(deal@),
                None => None,
            },
            uploads: self.uploads@,
        }
    }

    /// The view of a valid pipeline is valid.
    pub proof fn lemma_wf(self)
        requires
            self.wf(),
        ensures
            self@.wf(),
    {
        self.storage_provider_hints.lemma_order();
        self.storage_permits.lemma_order();
        self.uploads.lemma_wf();
        assert forall|i: int| 0 <= i < self@.pending.len() implies (#[trigger] self@.pending[i]).wf() by {
            self.pending_storage_deals@[i].chunks.lemma_order();
        }
        if let Some(deal) = self.active_storage_deal {
            deal.chunks.lemma_order();
        }
    }

    /// A pipeline that knows nobody and has nothing to do.
    pub fn new() -> (pipeline: Self)
        ensures
            pipeline.wf(),
            pipeline@ == PipelineModel::idle(),
    {
        let pipeline = Pipeline {
            storage_provider_hints: Table::new(),
            storage_permits: Table::new(),
            pending_storage_deals: VecDeque::new(),
            active_storage_deal: None,
            uploads: UploadQueue::new(),
        };
        proof {
            assert(pipeline@ =~= PipelineModel::idle());
        }
        pipeline
    }

    /// Puts the deal for a blob last in line, and begins with it if nothing else is being done.
    pub fn new_deal(&mut self, id: String, root_hash: Digest, chunk_hashes: Vec<Digest>)
        requires
            old(self).wf(),
        ensures
            final(self).wf(),
            final(self)@ == old(self)@.add_deal(
                DealModel::fresh(id@, root_hash@, digests(chunk_hashes@)),
            ),
    {
        let deal = StorageDeal::new(id, root_hash, chunk_hashes);
        let ghost model = deal@;
        let ghost before = self@;
        self.pending_storage_deals.push_back(deal);
        proof {
            assert(self@ =~= PipelineModel { pending: before.pending.push(model), ..before });
        }
        self.begin_next_deal();
    }

    /// Begins with the first deal in line, unless another one is being carried out.
    pub fn begin_next_deal(&mut self)
        requires
            old(self).wf(),
        ensures
            final(self).wf(),
            final(self)@ == old(self)@.begin_next(),
    {
        if self.active_storage_deal.is_none() {
            let ghost before = *self;
            self.active_storage_deal = self.pending_storage_deals.pop_front();
            proof {
                assert(self@.pending =~= before@.begin_next().pending);
            }
        }
    }

    /// The message that asks the known providers for permits, where there is a deal to carry out.
    pub fn request_storage_permits(&self) -> (message: Result<Option<SwarmMessage>, NoStorageProviders>)
        requires
            self.wf(),
        ensures
            message is Err <==> self@.hints.is_empty(),
            message matches Ok(m) ==> (m is Some <==> self@.active is Some),
            message matches Ok(Some(m)) ==> m matches SwarmMessage::RequestStoragePermits { peers }
                && peer_names(peers@) == self@.hint_order,
    {
        proof {
            self.storage_provider_hints.lemma_order();
        }
        if self.storage_provider_hints.is_empty() {
            assert(self@.hints.dom() =~= Set::empty());
            return Err(NoStorageProviders);
        }
        proof {
            assert(self.storage_provider_hints.order().contains(self.storage_provider_hints.order()[0]));
        }
        if self.active_storage_deal.is_some() {
            let peers = keys(&self.storage_provider_hints);
            Ok(Some(SwarmMessage::RequestStoragePermits { peers }))
        } else {
            Ok(None)
        }
    }

    /// Takes down how far the upload of a chunk of the active deal has come.
    pub fn update_chunk_status(&mut self, hash: Digest, new_status: ChunkUploadStatus) -> (update: ChunkUpdate)
        requires
            old(self).wf(),
        ensures
            final(self).wf(),
            final(self)@ == old(self)@.set_status(hash@, new_status),
            update is NoActiveDeal <==> old(self)@.active is None,
            update is Unsolicited <==> old(self)@.active is Some && !old(self)@.is_solicited(hash@),
            update is DealFinalized <==> old(self)@.is_solicited(hash@) && new_status is Finalized
                && final(self)@.active->Some_0.is_finalized(),
            update matches ChunkUpdate::DealFinalized { message } ==> is_success(
                message,
                old(self)@.active->Some_0.id,
            ),
    {
        match &mut self.active_storage_deal {
            None => ChunkUpdate::NoActiveDeal,
            Some(deal) => deal.report(hash, new_status),
        }
    }

    /// A peer let it be known that it would store chunks.
    pub fn record_hint(&mut self, peer: PeerId, now: u64)
        requires
            old(self).wf(),
        ensures
            final(self).wf(),
            final(self)@ == old(self)@.hint(peer@, now),
    {
        proof {
            self.storage_provider_hints.lemma_order();
            assert(self@.hints.contains_key(peer@) <==> self@.hint_order.contains(peer@));
        }
        self.storage_provider_hints.insert(peer, now);
    }

    /// The word of providers that is too old no longer counts.
    pub fn drop_stale_hints(&mut self, now: u64)
        requires
            old(self).wf(),
        ensures
            final(self).wf(),
            final(self)@ == old(self)@.drop_stale_hints(now),
    {
        let keep = |at: &u64| -> (fresh: bool)
            ensures
                fresh == (secs_between(*at, now) < STORAGE_PROVIDER_DECAY),
            { elapsed_secs(*at, now) < STORAGE_PROVIDER_DECAY };
        self.storage_provider_hints.retain(
            keep,
            Ghost(|at: u64| secs_between(at, now) < STORAGE_PROVIDER_DECAY),
        );
        proof {
            lemma_filter_congruent(
                old(self)@.hint_order,
                |p: Seq<char>| (|at: u64| secs_between(at, now) < STORAGE_PROVIDER_DECAY)(old(self)@.hints[p]),
                |p: Seq<char>| secs_between(old(self)@.hints[p], now) < STORAGE_PROVIDER_DECAY,
            );
        }
    }

    /// A peer acknowledged that it takes chunks for some seconds.
    pub fn grant_permit(&mut self, peer: PeerId, valid_for: u8, now: u64)
        requires
            old(self).wf(),
        ensures
            final(self).wf(),
            final(self)@ == old(self)@.permit(peer@, permit_end(now, valid_for)),
    {
        let span: u64 = valid_for as u64 * NANOS_PER_SEC;
        let until: u64 = match now.checked_add(span) {
            Some(end) => end,
            None => now,
        };
        proof {
            self.storage_permits.lemma_order();
            assert(self@.permits.contains_key(peer@) <==> self@.permit_order.contains(peer@));
        }
        self.storage_permits.insert(peer, until);
    }

    fn drop_expired_permits(&mut self, now: u64)
        requires
            old(self).wf(),
        ensures
            final(self).wf(),
            final(self)@ == old(self)@.drop_expired_permits(now),
    {
        let keep = |until: &u64| -> (valid: bool)
            ensures
                valid == (*until > now),
            { *until > now };
        self.storage_permits.retain(keep, Ghost(|until: u64| until > now));
        proof {
            lemma_filter_congruent(
                old(self)@.permit_order,
                |p: Seq<char>| (|until: u64| until > now)(old(self)@.permits[p]),
                |p: Seq<char>| old(self)@.permits[p] > now,
            );
        }
    }

    /// What to ask the blob store for, so that chunks of the active deal can be uploaded: as many
    /// chunks that are due as there are uploads available, and the peers that take them.
    pub fn request_chunks(&mut self, now: u64) -> (request: Option<ChunkRequest>)
        requires
            old(self).wf(),
        ensures
            final(self).wf(),
            final(self)@ == old(self)@.prepare(now),
            request is Some <==> old(self)@.active is Some && old(self)@.uploads.available() > 0
                && !final(self)@.permits.is_empty(),
            request matches Some(r) ==> r.id@ == final(self)@.active->Some_0.id && digests(r.chunks@)
                == first_of(final(self)@.active->Some_0.due(now), final(self)@.uploads.available())
                && peer_names(r.peers@) == final(self)@.permit_order,
    {
        let available: usize = self.uploads.available();
        if self.active_storage_deal.is_none() || available == 0 {
            return None;
        }
        self.drop_expired_permits(now);
        proof {
            self.storage_permits.lemma_order();
        }
        if self.storage_permits.is_empty() {
            assert(self@.permits.dom() =~= Set::empty());
            return None;
        }
        proof {
            assert(self.storage_permits.order().contains(self.storage_permits.order()[0]));
        }
        let peers = keys(&self.storage_permits);
        match &self.active_storage_deal {
            None => None,
            Some(deal) => {
                let chunks = deal.choose_due(now, available);
                Some(ChunkRequest { id: deal.id.clone(), chunks, peers })
            },
        }
    }

    /// Chunks were assigned to peers. Those whose upload may begin are handed out; the others wait for
    /// their turn.
    pub fn begin_uploads(&mut self, assignments: &Table<PeerId, Vec<(Digest, Bytes)>>) -> (begun: Vec<Upload>)
        requires
            old(self).wf(),
            assignments.wf(),
        ensures
            final(self).wf(),
            final(self)@ == old(self)@.upload(uploads_of(*assignments)),
            upload_views(begun@) == old(self)@.uploads.with(uploads_of(*assignments)).ready(),
    {
        self.uploads.submit(assignments)
    }

    /// An upload ended. The one whose turn it is, if one waits, is handed out.
    pub fn upload_ended(&mut self) -> (begun: Vec<Upload>)
        requires
            old(self).wf(),
        ensures
            final(self).wf(),
            final(self)@ == old(self)@.end_upload(),
            upload_views(begun@) == old(self)@.uploads.without_one().ready(),
    {
        self.uploads.end()
    }
}

/// The message says that the blob is stored.
pub open spec fn is_success(message: BlobMessage, blob: Seq<char>) -> bool {
    message matches BlobMessage::StoreResult { id, success, failure_reason } && id@ == blob && success
        && failure_reason is None
}

/// The peers of a table, in order.
fn keys(table: &Table<PeerId, u64>) -> (peers: Vec<PeerId>)
    ensures
        peer_names(peers@) == table.order(),
{
    let mut peers: Vec<PeerId> = Vec::new();
    let mut i: usize = 0;
    while i < table.len()
        invariant
            0 <= i <= table.order().len(),
            peer_names(peers@) =~= table.order().take(i as int),
        decreases table.order().len() - i,
    {
        let peer = table.key_at(i).clone();
        assert(peer@ == table.order()[i as int]);
        peers.push(peer);
        assert(table.order().take(i + 1) =~= table.order().take(i as int).push(peer@));
        i += 1;
    }
    assert(table.order().take(i as int) =~= table.order());
    peers
}

/// What the upload of a chunk begins with: the name under which the chunk is pushed, and the report
/// that the upload was begun.
pub fn begin_upload(hash: &Digest, peer: &PeerId, now: u64) -> (begun: (String, InternalMessage))
    ensures
        begun.0@ == lower_hex(hash@),
        begun.1 == (InternalMessage::UpdateChunkStatus {
            hash: *hash,
            new_status: ChunkUploadStatus::Inflight { created_at: now, to: *peer },
        }),
{
    let name = hex_encode(hash.as_slice());
    let message = InternalMessage::UpdateChunkStatus {
        hash: *hash,
        new_status: ChunkUploadStatus::Inflight { created_at: now, to: peer.clone() },
    };
    (name, message)
}

/// What the upload of a chunk ends with: the report that the peer has it. There is none if the push
/// failed; the chunk is then due again when its time is up.
pub fn end_upload(hash: &Digest, peer: &PeerId, pushed: bool, on: u64) -> (report: Option<InternalMessage>)
    ensures
        report == (if pushed {
            Some(
                InternalMessage::UpdateChunkStatus {
                    hash: *hash,
                    new_status: ChunkUploadStatus::Finalized { on, owner: *peer },
                },
            )
        } else {
            None
        }),
{
    if pushed {
        Some(
            InternalMessage::UpdateChunkStatus {
                hash: *hash,
                new_status: ChunkUploadStatus::Finalized { on, owner: peer.clone() },
            },
        )
    } else {
        None
    }
}

/// What the coordinator waits for. A channel that yields `None` is closed.
pub enum CoordEvent {
    /// It is time to forget old hints.
    StaleProvidersTick,
    /// It is time to upload chunks.
    AssignTick,
    /// The swarm hands on a message.
    Handler(Option<HandlerMessage>),
    /// The blob store asks for something.
    Coord(Option<CoordMessage>),
    /// An upload reports.
    Internal(Option<InternalMessage>),
    /// The message that a blob is stored was sent, or could not be.
    StoreNotified { delivered: bool },
    /// A peer pushed a blob; nothing is done with it.
    Pushed { open: bool },
    /// A peer asks for a blob; nothing is done about it.
    Pulled { open: bool },
    /// A transfer came to an end; nothing is done about it.
    Transferred { open: bool },
}

/// What is to be done next.
pub enum CoordAction {
    /// Wait for the next event.
    Continue,
    /// A channel is closed: end.
    Stop,
    /// Send the message to the swarm.
    RequestPermits(SwarmMessage),
    /// Nobody can be asked for permits.
    NoProviders,
    /// Fetch chunks from the blob store and assign them.
    FetchChunks(ChunkRequest),
    /// A report on a chunk was ignored.
    ReportIgnored,
    /// Send the message to the blob store.
    NotifyStore(BlobMessage),
}

impl PipelineModel {
    /// The state after an event.
    pub open spec fn after(self, event: CoordEvent, now: u64) -> Self {
        match event {
            CoordEvent::StaleProvidersTick => self.drop_stale_hints(now),
            CoordEvent::AssignTick => self.prepare(now),
            CoordEvent::Handler(Some(HandlerMessage::WouldStore { peer_id })) => self.hint(peer_id@, now),
            CoordEvent::Handler(
                Some(
                    HandlerMessage::Response {
                        peer_id,
                        response: Response::AckStoragePermit { valid_for },
                        ..
                    },
                ),
            ) => self.permit(peer_id@, permit_end(now, valid_for)),
            CoordEvent::Coord(
                Some(CoordMessage::DistributeBlob { id, root_hash, chunk_hashes }),
            ) => self.add_deal(DealModel::fresh(id@, root_hash@, digests(chunk_hashes@))),
            CoordEvent::Internal(
                Some(InternalMessage::UpdateChunkStatus { hash, new_status }),
            ) => self.set_status(hash@, new_status),
            CoordEvent::StoreNotified { delivered } if delivered => self.begin_next(),
            _ => self,
        }
    }

    /// The event says that a channel is closed.
    pub open spec fn is_closing(event: CoordEvent) -> bool {
        match event {
            CoordEvent::Handler(message) => message is None,
            CoordEvent::Coord(message) => message is None,
            CoordEvent::Internal(message) => message is None,
            CoordEvent::Pushed { open } => !open,
            CoordEvent::Pulled { open } => !open,
            CoordEvent::Transferred { open } => !open,
            _ => false,
        }
    }

    /// What is to be done after an event, where `self` is the state before it.
    pub open spec fn calls_for(self, event: CoordEvent, now: u64, action: CoordAction) -> bool {
        let next = self.after(event, now);
        match event {
            CoordEvent::AssignTick => if self.active is Some && self.uploads.available() > 0
                && !next.permits.is_empty() {
                action matches CoordAction::FetchChunks(request) && request.id@ == next.active->Some_0.id
                    && digests(request.chunks@) == first_of(next.active->Some_0.due(now), self.uploads.available())
                    && peer_names(request.peers@) == next.permit_order
            } else {
                action is Continue
            },
            CoordEvent::Coord(Some(_)) => if next.hints.is_empty() {
                action is NoProviders
            } else {
                action matches CoordAction::RequestPermits(
                    SwarmMessage::RequestStoragePermits { peers },
                ) && peer_names(peers@) == next.hint_order
            },
            CoordEvent::Internal(
                Some(InternalMessage::UpdateChunkStatus { hash, new_status }),
            ) => if !self.is_solicited(hash@) {
                action is ReportIgnored
            } else if new_status is Finalized && next.active->Some_0.is_finalized() {
                action matches CoordAction::NotifyStore(message) && is_success(
                    message,
                    next.active->Some_0.id,
                )
            } else {
                action is Continue
            },
            _ => if Self::is_closing(event) {
                action is Stop
            } else {
                action is Continue
            },
        }
    }
}

impl Pipeline {
    /// Takes an event in, and says what is to be done.
    pub fn handle(&mut self, event: CoordEvent, now: u64) -> (action: CoordAction)
        requires
            old(self).wf(),
        ensures
            final(self).wf(),
            final(self)@ == old(self)@.after(event, now),
            old(self)@.calls_for(event, now, action),
    {
        match event {
            CoordEvent::StaleProvidersTick => {
                self.drop_stale_hints(now);
                CoordAction::Continue
            },
            CoordEvent::AssignTick => match self.request_chunks(now) {
                Some(request) => CoordAction::FetchChunks(request),
                None => CoordAction::Continue,
            },
            CoordEvent::Handler(message) => match message {
                Some(message) => {
                    self.handle_message(message, now);
                    CoordAction::Continue
                },
                None => CoordAction::Stop,
            },
            CoordEvent::Coord(message) => match message {
                Some(CoordMessage::DistributeBlob { id, root_hash, chunk_hashes }) => {
                    self.new_deal(id, root_hash, chunk_hashes);
                    match self.request_storage_permits() {
                        Ok(Some(message)) => CoordAction::RequestPermits(message),
                        Ok(None) => CoordAction::Continue,
                        Err(_) => CoordAction::NoProviders,
                    }
                },
                None => CoordAction::Stop,
            },
            CoordEvent::Internal(message) => match message {
                Some(InternalMessage::UpdateChunkStatus { hash, new_status }) => match self.update_chunk_status(
                    hash,
                    new_status,
                ) {
                    ChunkUpdate::NoActiveDeal | ChunkUpdate::Unsolicited => CoordAction::ReportIgnored,
                    ChunkUpdate::Recorded => CoordAction::Continue,
                    ChunkUpdate::DealFinalized { message } => CoordAction::NotifyStore(message),
                },
                None => CoordAction::Stop,
            },
            CoordEvent::StoreNotified { delivered } => {
                if delivered {
                    self.begin_next_deal();
                }
                CoordAction::Continue
            },
            CoordEvent::Pushed { open } => go_on(open),
            CoordEvent::Pulled { open } => go_on(open),
            CoordEvent::Transferred { open } => go_on(open),
        }
    }

    fn handle_message(&mut self, message: HandlerMessage, now: u64)
        requires
            old(self).wf(),
        ensures
            final(self).wf(),
            final(self)@ == old(self)@.after(CoordEvent::Handler(Some(message)), now),
    {
        match message {
            HandlerMessage::WouldStore { peer_id } => self.record_hint(peer_id, now),
            HandlerMessage::Request { .. } => {},
            HandlerMessage::Response { peer_id, response, .. } => match response {
                Response::AckStoragePermit { valid_for } => self.grant_permit(peer_id, valid_for, now),
            },
        }
    }
}

fn go_on(open: bool) -> (action: CoordAction)
    ensures
        action == (if open {
            CoordAction::Continue
        } else {
            CoordAction::Stop
        }),
{
    if open {
        CoordAction::Continue
    } else {
        CoordAction::Stop
    }
}

/// Every peer of a list is seen by its name, in its place.
pub proof fn law_peers_in_place(peers: Seq<PeerId>)
    ensures
        peer_names(peers).len() == peers.len(),
        forall|i: int| 0 <= i < peers.len() ==> #[trigger] peer_names(peers)[i] == peers[i]@,
{
}

} // verus!
