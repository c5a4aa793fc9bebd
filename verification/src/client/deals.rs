//! What holds of the coordinator whatever happens.
use vstd::prelude::*;
use crate::blake3_wrapper::{digests, Digest};
use crate::chunking::lemma_distinct;
use crate::client::coordinator::{
    first_of, is_success, peer_names, permit_end, secs_between, ChunkRequest, ChunkUploadStatus,
    CoordAction, CoordEvent, CoordMessage, DealModel, InternalMessage, PipelineModel,
    CHUNK_UPLOAD_WINDOW, NANOS_PER_SEC, STORAGE_PROVIDER_DECAY,
};
use crate::client::uploads::{UploadModel, UPLOAD_ALLOWANCE};
use crate::client::blob_store::BlobMessage;
use crate::peyk::protocol::{PeerId, Request, Response};
use crate::peyk::{HandlerMessage, SwarmMessage};
use crate::seqs::{lemma_filter_members, lemma_filter_no_duplicates};

verus! {

/// The deals in the order in which they came: the active one, then those that wait.
pub open spec fn line(pipeline: PipelineModel) -> Seq<DealModel> {
    match pipeline.active {
        Some(deal) => seq![deal] + pipeline.pending,
        None => pipeline.pending,
    }
}

/// A fresh deal lists its chunks, each once.
proof fn lemma_fresh_wf(id: Seq<char>, root: Seq<u8>, hashes: Seq<Seq<u8>>)
    ensures
        DealModel::fresh(id, root, hashes).wf(),
{
    lemma_distinct(hashes);
}

/// Whatever happens, nobody and nothing is listed twice, no more uploads run than may, and where deals
/// wait only while another one is active, that stays so.
pub proof fn law_events_keep_validity(pipeline: PipelineModel, event: CoordEvent, now: u64)
    requires
        pipeline.wf(),
    ensures
        pipeline.after(event, now).wf(),
        pipeline.is_settled() ==> pipeline.after(event, now).is_settled(),
        pipeline.after(event, now).uploads == pipeline.uploads,
{
    let next = pipeline.after(event, now);
    match event {
        CoordEvent::StaleProvidersTick => {
            let fresh = |p: Seq<char>| secs_between(pipeline.hints[p], now) < STORAGE_PROVIDER_DECAY;
            lemma_filter_members(pipeline.hint_order, fresh);
            lemma_filter_no_duplicates(pipeline.hint_order, fresh);
        },
        CoordEvent::AssignTick => {
            let valid = |p: Seq<char>| pipeline.permits[p] > now;
            lemma_filter_members(pipeline.permit_order, valid);
            lemma_filter_no_duplicates(pipeline.permit_order, valid);
        },
        CoordEvent::Handler(_) => {
            assert forall|p: Seq<char>| next.hints.contains_key(p) <==> #[trigger] next.hint_order.contains(p) by {
                lemma_with_key(pipeline.hint_order, next.hint_order, p);
            }
            assert forall|p: Seq<char>| next.permits.contains_key(p) <==> #[trigger] next.permit_order.contains(
                p,
            ) by {
                lemma_with_key(pipeline.permit_order, next.permit_order, p);
            }
        },
        CoordEvent::Coord(Some(CoordMessage::DistributeBlob { id, root_hash, chunk_hashes })) => {
            lemma_fresh_wf(id@, root_hash@, digests(chunk_hashes@));
        },
        _ => {},
    }
}

/// Whatever is uploaded, and whenever an upload ends, no more uploads run than may, and nothing else
/// changes.
pub proof fn law_uploads_keep_validity(pipeline: PipelineModel, more: Seq<UploadModel>)
    requires
        pipeline.wf(),
    ensures
        pipeline.upload(more).wf(),
        pipeline.upload(more).uploads.in_flight <= UPLOAD_ALLOWANCE,
        pipeline.upload(more) == (PipelineModel { uploads: pipeline.upload(more).uploads, ..pipeline }),
        pipeline.end_upload().wf(),
        pipeline.end_upload().uploads.in_flight <= UPLOAD_ALLOWANCE,
        pipeline.end_upload() == (PipelineModel { uploads: pipeline.end_upload().uploads, ..pipeline }),
{
}

/// Where an order is the same as before or one longer, its members are those from before and, where
/// there is one, the last.
proof fn lemma_with_key(before: Seq<Seq<char>>, after: Seq<Seq<char>>, p: Seq<char>)
    requires
        after == before || (after.len() == before.len() + 1 && after == before.push(after.last())),
    ensures
        after == before ==> (after.contains(p) <==> before.contains(p)),
        after != before ==> (after.contains(p) <==> before.contains(p) || p == after.last()),
{
    if after != before {
        if before.contains(p) {
            assert(after[before.index_of(p)] == p);
        }
        if after.contains(p) && p != after.last() {
            assert(before[after.index_of(p)] == p);
        }
        assert(after[after.len() - 1] == after.last());
    }
}

/// Deals are begun in the order in which they came: a new one is last in line, and beginning with
/// the next one changes nothing about the line. After either, a deal waits only while another one is
/// active.
pub proof fn law_first_come_first_served(pipeline: PipelineModel, deal: DealModel)
    ensures
        line(pipeline.add_deal(deal)) == line(pipeline).push(deal),
        pipeline.add_deal(deal).is_settled(),
        line(pipeline.begin_next()) == line(pipeline),
        pipeline.begin_next().is_settled(),
{
    assert(line(pipeline.add_deal(deal)) =~= line(pipeline).push(deal));
    assert(line(pipeline.begin_next()) =~= line(pipeline));
}

/// A deal that is being carried out stays the active one, with the same chunks.
pub proof fn law_active_deal_stays(pipeline: PipelineModel, event: CoordEvent, now: u64)
    requires
        pipeline.active is Some,
    ensures
        pipeline.after(event, now).active is Some,
        pipeline.after(event, now).active->Some_0.id == pipeline.active->Some_0.id,
        pipeline.after(event, now).active->Some_0.root == pipeline.active->Some_0.root,
        pipeline.after(event, now).active->Some_0.order == pipeline.active->Some_0.order,
        pipeline.after(event, now).active->Some_0.chunks.dom() == pipeline.active->Some_0.chunks.dom(),
{
    let before = pipeline.active->Some_0.chunks;
    let after = pipeline.after(event, now).active->Some_0.chunks;
    assert(after.dom() =~= before.dom());
}

/// The chunks that are fetched for upload belong to the active deal and are due, none of them twice,
/// and no more than there are uploads available. The peers that get them hold a permit that has not
/// run out, and none is named twice.
pub proof fn law_only_due_chunks_are_fetched(
    pipeline: PipelineModel,
    now: u64,
    request: ChunkRequest,
)
    requires
        pipeline.wf(),
        pipeline.calls_for(CoordEvent::AssignTick, now, CoordAction::FetchChunks(request)),
    ensures
        pipeline.active is Some,
        request.id@ == pipeline.active->Some_0.id,
        digests(request.chunks@).no_duplicates(),
        request.chunks@.len() <= pipeline.uploads.available(),
        forall|h: Seq<u8>| #[trigger]
            digests(request.chunks@).contains(h) ==> pipeline.active->Some_0.chunks.contains_key(h)
                && pipeline.active->Some_0.chunks[h].is_due(now),
        request.peers@.len() > 0,
        peer_names(request.peers@).no_duplicates(),
        forall|p: Seq<char>| #[trigger]
            peer_names(request.peers@).contains(p) ==> pipeline.permits.contains_key(p) && pipeline.permits[p] > now,
{
    let deal = pipeline.active->Some_0;
    let due = |h: Seq<u8>| deal.chunks[h].is_due(now);
    lemma_filter_members(deal.order, due);
    lemma_filter_no_duplicates(deal.order, due);
    let chosen = first_of(deal.due(now), pipeline.uploads.available());
    assert(digests(request.chunks@) == chosen);
    assert(request.chunks@.len() == digests(request.chunks@).len());
    assert forall|h: Seq<u8>| #[trigger] digests(request.chunks@).contains(h) implies deal.chunks.contains_key(h)
        && deal.chunks[h].is_due(now) by {
        let i = chosen.index_of(h);
        assert(deal.due(now)[i] == h);
        assert(deal.order.filter(due).contains(h));
        assert(deal.order.contains(h));
    }
    let valid = |p: Seq<char>| pipeline.permits[p] > now;
    lemma_filter_members(pipeline.permit_order, valid);
    lemma_filter_no_duplicates(pipeline.permit_order, valid);
    let next = pipeline.after(CoordEvent::AssignTick, now);
    assert(next.permit_order == pipeline.permit_order.filter(valid));
    assert(request.peers@.len() == peer_names(request.peers@).len());
    assert forall|p: Seq<char>| #[trigger] peer_names(request.peers@).contains(p) implies pipeline.permits.contains_key(
        p,
    ) && pipeline.permits[p] > now by {
        assert(pipeline.permit_order.filter(valid).contains(p));
        assert(pipeline.permit_order.contains(p));
    }
    if request.peers@.len() == 0 {
        assert forall|p: Seq<char>| !next.permits.dom().contains(p) by {
            if next.permits.contains_key(p) {
                assert(pipeline.permit_order.contains(p));
                assert(pipeline.permit_order.filter(valid).contains(p));
            }
        }
        assert(next.permits.dom() =~= Set::empty());
    }
}

/// A chunk whose upload was begun is due again once more than thirty full seconds have passed, and
/// not before.
pub proof fn law_lost_upload_is_repeated(created_at: u64, to: PeerId, now: u64)
    ensures
        (ChunkUploadStatus::Inflight { created_at, to }).is_due(now) <==> now >= created_at + (
        CHUNK_UPLOAD_WINDOW + 1) * NANOS_PER_SEC,
{
}

/// A chunk that is with some peer is never due again.
pub proof fn law_finalized_chunk_is_done(on: u64, owner: PeerId, now: u64)
    ensures
        !(ChunkUploadStatus::Finalized { on, owner }).is_due(now),
{
}

/// The word of a storage provider counts for five minutes.
pub proof fn law_hint_lifetime(pipeline: PipelineModel, peer: Seq<char>, said: u64, now: u64)
    ensures
        pipeline.hint(peer, said).drop_stale_hints(now).hints.contains_key(peer) <==> now < said
            + STORAGE_PROVIDER_DECAY * NANOS_PER_SEC,
{
}

/// A permit counts for as many seconds as it was given for, as long as that is before the end of
/// time.
pub proof fn law_permit_lifetime(pipeline: PipelineModel, peer: Seq<char>, given: u64, valid_for: u8, now: u64)
    requires
        given + valid_for * NANOS_PER_SEC <= u64::MAX,
    ensures
        pipeline.permit(peer, permit_end(given, valid_for)).drop_expired_permits(now).permits.contains_key(
            peer,
        ) <==> now < given + valid_for * NANOS_PER_SEC,
{
}

/// Dropping old hints twice does what doing it once does.
pub proof fn law_dropping_hints_is_idempotent(pipeline: PipelineModel, now: u64)
    ensures
        pipeline.drop_stale_hints(now).drop_stale_hints(now).hints == pipeline.drop_stale_hints(now).hints,
{
    let once = pipeline.drop_stale_hints(now);
    assert(once.drop_stale_hints(now).hints =~= once.hints);
}

/// A report on a chunk that the active deal does not have changes nothing.
pub proof fn law_unsolicited_report_is_ignored(
    pipeline: PipelineModel,
    message: InternalMessage,
    now: u64,
    action: CoordAction,
)
    requires
        !pipeline.is_solicited(message->hash@),
        pipeline.calls_for(CoordEvent::Internal(Some(message)), now, action),
    ensures
        pipeline.after(CoordEvent::Internal(Some(message)), now) == pipeline,
        action is ReportIgnored,
{
}

/// When the last chunk of the active deal that was not with some peer is reported to be, the blob
/// store is told that the blob is stored; and it is told so at no other report on the chunk.
pub proof fn law_last_chunk_finalizes_deal(
    pipeline: PipelineModel,
    message: InternalMessage,
    now: u64,
    action: CoordAction,
)
    requires
        pipeline.is_solicited(message->hash@),
        pipeline.calls_for(CoordEvent::Internal(Some(message)), now, action),
    ensures
        action is NotifyStore <==> message->new_status is Finalized && (forall|h: Seq<u8>|
            #![trigger pipeline.active->Some_0.chunks.contains_key(h)]
            pipeline.active->Some_0.chunks.contains_key(h) && h != message->hash@
                ==> pipeline.active->Some_0.chunks[h] is Finalized),
        action matches CoordAction::NotifyStore(told) ==> is_success(told, pipeline.active->Some_0.id),
{
    let deal = pipeline.active->Some_0;
    let hash = message->hash@;
    let next = pipeline.after(CoordEvent::Internal(Some(message)), now).active->Some_0;
    assert(next.chunks == deal.chunks.insert(hash, message->new_status));
    if next.is_finalized() {
        assert forall|h: Seq<u8>|
            #![trigger deal.chunks.contains_key(h)]
            deal.chunks.contains_key(h) && h != hash implies deal.chunks[h] is Finalized by {
            assert(next.chunks.contains_key(h));
        }
    }
    if message->new_status is Finalized && (forall|h: Seq<u8>|
        #![trigger deal.chunks.contains_key(h)]
        deal.chunks.contains_key(h) && h != hash ==> deal.chunks[h] is Finalized) {
        assert forall|h: Seq<u8>| #[trigger] next.chunks.contains_key(h) implies next.chunks[h] is Finalized by {
            assert(h == hash || deal.chunks.contains_key(h));
        }
    }
}

/// Two states differ at most in the hints.
pub open spec fn same_but_hints(a: PipelineModel, b: PipelineModel) -> bool {
    a.permits == b.permits && a.permit_order == b.permit_order && a.pending == b.pending && a.active == b.active
        && a.uploads == b.uploads
}

/// Two states differ at most in the permits.
pub open spec fn same_but_permits(a: PipelineModel, b: PipelineModel) -> bool {
    a.hints == b.hints && a.hint_order == b.hint_order && a.pending == b.pending && a.active == b.active
        && a.uploads == b.uploads
}

/// Two states differ at most in the deals.
pub open spec fn same_but_deals(a: PipelineModel, b: PipelineModel) -> bool {
    a.hints == b.hints && a.hint_order == b.hint_order && a.permits == b.permits && a.permit_order
        == b.permit_order && a.uploads == b.uploads
}

/// The orders of hints and of permits list exactly those who gave them, each once.
pub proof fn law_orders_list_everyone_once(pipeline: PipelineModel, peer: Seq<char>)
    requires
        pipeline.wf(),
    ensures
        pipeline.hint_order.no_duplicates(),
        pipeline.hint_order.contains(peer) <==> pipeline.hints.contains_key(peer),
        pipeline.permit_order.no_duplicates(),
        pipeline.permit_order.contains(peer) <==> pipeline.permits.contains_key(peer),
        pipeline.uploads.in_flight <= 20,
{
}

/// A peer that says it would store chunks is noted with the moment it said so, and nothing else
/// changes.
pub proof fn law_hint_is_noted(pipeline: PipelineModel, peer_id: PeerId, now: u64, other: Seq<char>)
    requires
        other != peer_id@,
    ensures
        ({
            let next = pipeline.after(
                CoordEvent::Handler(Some(HandlerMessage::WouldStore { peer_id })),
                now,
            );
            &&& next.hints.contains_key(peer_id@)
            &&& next.hints[peer_id@] == now
            &&& next.hints.contains_key(other) <==> pipeline.hints.contains_key(other)
            &&& pipeline.hints.contains_key(other) ==> next.hints[other] == pipeline.hints[other]
            &&& same_but_hints(next, pipeline)
        }),
{
}

/// A peer that takes chunks for some seconds is noted with the moment up to which it does, which is
/// now where that would be past the end of time; and nothing else changes.
pub proof fn law_permit_is_noted(
    pipeline: PipelineModel,
    peer_id: PeerId,
    request_id: String,
    valid_for: u8,
    now: u64,
    other: Seq<char>,
)
    requires
        other != peer_id@,
    ensures
        ({
            let next = pipeline.after(
                CoordEvent::Handler(
                    Some(
                        HandlerMessage::Response {
                            peer_id,
                            request_id,
                            response: Response::AckStoragePermit { valid_for },
                        },
                    ),
                ),
                now,
            );
            let end = now + valid_for * 1_000_000_000;
            &&& next.permits.contains_key(peer_id@)
            &&& end <= u64::MAX ==> next.permits[peer_id@] == end
            &&& end > u64::MAX ==> next.permits[peer_id@] == now
            &&& next.permits.contains_key(other) <==> pipeline.permits.contains_key(other)
            &&& pipeline.permits.contains_key(other) ==> next.permits[other] == pipeline.permits[other]
            &&& same_but_permits(next, pipeline)
        }),
{
}

/// At a clean-up the words of providers that are three hundred seconds old or older are forgotten, and
/// no others; nothing else changes.
pub proof fn law_old_hints_are_forgotten(pipeline: PipelineModel, peer: Seq<char>, now: u64)
    ensures
        ({
            let next = pipeline.after(CoordEvent::StaleProvidersTick, now);
            &&& next.hints.contains_key(peer) <==> pipeline.hints.contains_key(peer) && now < pipeline.hints[peer]
                + 300_000_000_000
            &&& next.hints.contains_key(peer) ==> next.hints[peer] == pipeline.hints[peer]
            &&& same_but_hints(next, pipeline)
        }),
{
}

/// A blob that is to be distributed makes a deal that is last in line, for that blob and each of the
/// digests that came with it, none of them begun; if the line was empty it is begun at once. Nothing
/// else changes.
pub proof fn law_deal_joins_the_line(
    pipeline: PipelineModel,
    id: String,
    root_hash: Digest,
    chunk_hashes: Vec<Digest>,
    now: u64,
)
    ensures
        ({
            let next = pipeline.after(
                CoordEvent::Coord(Some(CoordMessage::DistributeBlob { id, root_hash, chunk_hashes })),
                now,
            );
            let deal = line(next).last();
            &&& line(next).len() == line(pipeline).len() + 1
            &&& line(next).drop_last() == line(pipeline)
            &&& next.active is Some
            &&& deal.id == id@
            &&& deal.root == root_hash@
            &&& deal.order.no_duplicates()
            &&& forall|i: int|
                0 <= i < chunk_hashes@.len() ==> deal.chunks.contains_key((#[trigger] chunk_hashes@[i])@)
            &&& forall|h: Seq<u8>| #[trigger]
                deal.chunks.contains_key(h) ==> deal.order.contains(h) && deal.chunks[h] is Pending && exists|i: int|
                    0 <= i < chunk_hashes@.len() && (#[trigger] chunk_hashes@[i])@ == h
            &&& forall|h: Seq<u8>| #[trigger] deal.order.contains(h) ==> deal.chunks.contains_key(h)
            &&& same_but_deals(next, pipeline)
        }),
{
    let hashes = digests(chunk_hashes@);
    let deal = DealModel::fresh(id@, root_hash@, hashes);
    lemma_fresh_wf(id@, root_hash@, hashes);
    law_first_come_first_served(pipeline, deal);
    let next = pipeline.after(
        CoordEvent::Coord(Some(CoordMessage::DistributeBlob { id, root_hash, chunk_hashes })),
        now,
    );
    assert(next == pipeline.add_deal(deal));
    assert(line(next).last() == deal);
    assert(line(next).drop_last() =~= line(pipeline));
    assert forall|i: int| 0 <= i < chunk_hashes@.len() implies deal.chunks.contains_key(
        (#[trigger] chunk_hashes@[i])@,
    ) by {
        assert(hashes[i] == chunk_hashes@[i]@);
        assert(hashes.contains(chunk_hashes@[i]@));
    }
    assert forall|h: Seq<u8>| #[trigger] deal.chunks.contains_key(h) implies deal.order.contains(h)
        && deal.chunks[h] is Pending && exists|i: int| 0 <= i < chunk_hashes@.len() && (#[trigger] chunk_hashes@[i])@
        == h by {
        let i = hashes.index_of(h);
        assert(chunk_hashes@[i]@ == h);
        assert(deal.order.contains(h) <==> deal.chunks.contains_key(h));
    }
}

/// When a blob is to be distributed, everyone who said it would store chunks is asked for a permit,
/// each once, and nobody else; if nobody did, nobody can be asked.
pub proof fn law_everyone_is_asked(
    pipeline: PipelineModel,
    message: CoordMessage,
    now: u64,
    action: CoordAction,
)
    requires
        pipeline.wf(),
        pipeline.calls_for(CoordEvent::Coord(Some(message)), now, action),
    ensures
        action is NoProviders <==> (forall|p: Seq<char>| !(#[trigger] pipeline.hints.contains_key(p))),
        action !is NoProviders ==> {
            &&& action matches CoordAction::RequestPermits(SwarmMessage::RequestStoragePermits { peers })
            &&& forall|p: Seq<char>| #[trigger]
                pipeline.hints.contains_key(p) ==> exists|i: int|
                    0 <= i < peers@.len() && (#[trigger] peers@[i])@ == p
            &&& forall|i: int| 0 <= i < peers@.len() ==> pipeline.hints.contains_key((#[trigger] peers@[i])@)
            &&& forall|i: int, j: int|
                0 <= i < j < peers@.len() ==> (#[trigger] peers@[i])@ != (#[trigger] peers@[j])@
        },
{
    let next = pipeline.after(CoordEvent::Coord(Some(message)), now);
    assert(next.hints == pipeline.hints);
    assert(next.hint_order == pipeline.hint_order);
    if pipeline.hints.is_empty() {
        assert forall|p: Seq<char>| !(#[trigger] pipeline.hints.contains_key(p)) by {
            assert(!pipeline.hints.dom().contains(p));
        }
    } else {
        if forall|p: Seq<char>| !(#[trigger] pipeline.hints.contains_key(p)) {
            assert forall|p: Seq<char>| !(#[trigger] pipeline.hints.dom().contains(p)) by {
                assert(!pipeline.hints.contains_key(p));
            }
            assert(pipeline.hints.dom() =~= Set::empty());
        }
        let peers = action->RequestPermits_0->peers@;
        lemma_names_in_place(peers, pipeline.hint_order);
        assert forall|p: Seq<char>| #[trigger] pipeline.hints.contains_key(p) implies exists|i: int|
            0 <= i < peers.len() && (#[trigger] peers[i])@ == p by {
            assert(pipeline.hint_order.contains(p));
            let i = pipeline.hint_order.index_of(p);
            assert(peers[i]@ == p);
        }
        assert forall|i: int| 0 <= i < peers.len() implies pipeline.hints.contains_key(
            (#[trigger] peers[i])@,
        ) by {
            assert(pipeline.hint_order[i] == peers[i]@);
            assert(pipeline.hint_order.contains(peers[i]@));
        }
        assert forall|i: int, j: int| 0 <= i < j < peers.len() implies (#[trigger] peers[i])@ != (
        #[trigger] peers[j])@ by {
            assert(pipeline.hint_order[i] != pipeline.hint_order[j]);
        }
    }
}

proof fn lemma_names_in_place(peers: Seq<PeerId>, names: Seq<Seq<char>>)
    requires
        peer_names(peers) == names,
    ensures
        peers.len() == names.len(),
        forall|i: int| 0 <= i < peers.len() ==> (#[trigger] peers[i])@ == names[i],
{
    assert forall|i: int| 0 <= i < peers.len() implies (#[trigger] peers[i])@ == names[i] by {
        assert(peer_names(peers)[i] == peers[i]@);
    }
}

/// A chunk is to be uploaded: it was not begun, or it was begun thirty-one seconds ago or earlier and
/// is not known to be stored.
pub open spec fn is_to_upload(status: ChunkUploadStatus, now: u64) -> bool {
    match status {
        ChunkUploadStatus::Pending => true,
        ChunkUploadStatus::Inflight { created_at, .. } => created_at + 31_000_000_000 <= now,
        ChunkUploadStatus::Finalized { .. } => false,
    }
}

/// When it is time to upload, chunks are fetched if and only if a deal is active, fewer than twenty
/// uploads run and some peer holds a permit that has not run out. What is fetched are chunks of that
/// deal that are to be uploaded, each once: as many as uploads may still run, or all there are. Who
/// gets them is everyone with such a permit, each once.
pub proof fn law_chunks_are_fetched_for_upload(pipeline: PipelineModel, now: u64, action: CoordAction)
    requires
        pipeline.wf(),
        pipeline.calls_for(CoordEvent::AssignTick, now, action),
    ensures
        action is FetchChunks <==> pipeline.active is Some && pipeline.uploads.in_flight < 20 && exists|p: Seq<char>|
            #[trigger] pipeline.permits.contains_key(p) && pipeline.permits[p] > now,
        action !is FetchChunks ==> action is Continue,
        action matches CoordAction::FetchChunks(request) ==> {
            let deal = pipeline.active->Some_0;
            &&& request.id@ == deal.id
            &&& request.chunks@.len() <= 20 - pipeline.uploads.in_flight
            &&& forall|i: int|
                0 <= i < request.chunks@.len() ==> deal.chunks.contains_key((#[trigger] request.chunks@[i])@)
                    && is_to_upload(deal.chunks[request.chunks@[i]@], now)
            &&& forall|i: int, j: int|
                0 <= i < j < request.chunks@.len() ==> (#[trigger] request.chunks@[i])@ != (
                #[trigger] request.chunks@[j])@
            &&& request.chunks@.len() < 20 - pipeline.uploads.in_flight ==> forall|h: Seq<u8>| #[trigger]
                deal.chunks.contains_key(h) && is_to_upload(deal.chunks[h], now) ==> exists|i: int|
                    0 <= i < request.chunks@.len() && (#[trigger] request.chunks@[i])@ == h
            &&& forall|p: Seq<char>| #[trigger]
                pipeline.permits.contains_key(p) && pipeline.permits[p] > now ==> exists|i: int|
                    0 <= i < request.peers@.len() && (#[trigger] request.peers@[i])@ == p
            &&& forall|i: int|
                0 <= i < request.peers@.len() ==> pipeline.permits.contains_key((#[trigger] request.peers@[i])@)
                    && pipeline.permits[request.peers@[i]@] > now
            &&& forall|i: int, j: int|
                0 <= i < j < request.peers@.len() ==> (#[trigger] request.peers@[i])@ != (
                #[trigger] request.peers@[j])@
        },
{
    let next = pipeline.after(CoordEvent::AssignTick, now);
    let valid = |p: Seq<char>| pipeline.permits[p] > now;
    lemma_filter_members(pipeline.permit_order, valid);
    lemma_filter_no_duplicates(pipeline.permit_order, valid);
    if pipeline.active is Some && pipeline.uploads.in_flight < 20 {
        assert(next.permit_order == pipeline.permit_order.filter(valid));
        if exists|p: Seq<char>| #[trigger] pipeline.permits.contains_key(p) && pipeline.permits[p] > now {
            let p = choose|p: Seq<char>| #[trigger] pipeline.permits.contains_key(p) && pipeline.permits[p] > now;
            assert(next.permits.contains_key(p));
            assert(next.permits.dom().contains(p));
        } else {
            assert forall|p: Seq<char>| !(#[trigger] next.permits.dom().contains(p)) by {
                if next.permits.contains_key(p) {
                    assert(pipeline.permits.contains_key(p));
                }
            }
            assert(next.permits.dom() =~= Set::empty());
        }
    }
    if let CoordAction::FetchChunks(request) = action {
        let deal = pipeline.active->Some_0;
        let due = |h: Seq<u8>| deal.chunks[h].is_due(now);
        let all = deal.order.filter(due);
        let room = (20 - pipeline.uploads.in_flight) as nat;
        let chosen = request.chunks@;
        lemma_filter_members(deal.order, due);
        lemma_filter_no_duplicates(deal.order, due);
        assert(deal.due(now) == all);
        assert(digests(chosen) == first_of(all, room));
        assert(digests(chosen).len() == chosen.len());
        assert forall|i: int| 0 <= i < chosen.len() implies (#[trigger] chosen[i])@ == all[i] by {
            assert(digests(chosen)[i] == chosen[i]@);
        }
        assert forall|i: int| 0 <= i < chosen.len() implies deal.chunks.contains_key((#[trigger] chosen[i])@)
            && is_to_upload(deal.chunks[chosen[i]@], now) by {
            assert(all.contains(all[i]));
            assert(deal.order.contains(chosen[i]@));
        }
        if chosen.len() < room {
            assert forall|h: Seq<u8>| #[trigger] deal.chunks.contains_key(h) && is_to_upload(
                deal.chunks[h],
                now,
            ) implies exists|i: int| 0 <= i < chosen.len() && (#[trigger] chosen[i])@ == h by {
                assert(deal.order.contains(h));
                assert(all.contains(h));
                let i = all.index_of(h);
                assert(chosen[i]@ == h);
            }
        }
        let peers = request.peers@;
        let names = pipeline.permit_order.filter(valid);
        lemma_names_in_place(peers, names);
        assert forall|p: Seq<char>| #[trigger] pipeline.permits.contains_key(p) && pipeline.permits[p]
            > now implies exists|i: int| 0 <= i < peers.len() && (#[trigger] peers[i])@ == p by {
            assert(pipeline.permit_order.contains(p));
            assert(names.contains(p));
            let i = names.index_of(p);
            assert(peers[i]@ == p);
        }
        assert forall|i: int| 0 <= i < peers.len() implies pipeline.permits.contains_key(
            (#[trigger] peers[i])@,
        ) && pipeline.permits[peers[i]@] > now by {
            assert(names.contains(names[i]));
            assert(pipeline.permit_order.contains(peers[i]@));
        }
    }
}

/// When it is time to upload, permits that have run out are dropped, where a deal is active and fewer
/// than twenty uploads run, and nothing else changes.
pub proof fn law_expired_permits_are_dropped(pipeline: PipelineModel, peer: Seq<char>, now: u64)
    requires
        pipeline.wf(),
    ensures
        ({
            let next = pipeline.after(CoordEvent::AssignTick, now);
            let drops = pipeline.active is Some && pipeline.uploads.in_flight < 20;
            &&& drops ==> (next.permits.contains_key(peer) <==> pipeline.permits.contains_key(peer)
                && pipeline.permits[peer] > now)
            &&& next.permits.contains_key(peer) ==> next.permits[peer] == pipeline.permits[peer]
            &&& !drops ==> next == pipeline
            &&& same_but_permits(next, pipeline)
        }),
{
}

/// A report on a chunk of the active deal is taken down for that chunk and changes nothing else; when
/// it says that the chunk is stored, and all the others are, the blob store is told that the blob is.
/// Any other report is ignored.
pub proof fn law_report_is_taken_down(
    pipeline: PipelineModel,
    hash: Digest,
    new_status: ChunkUploadStatus,
    now: u64,
    action: CoordAction,
    other: Seq<u8>,
)
    requires
        other != hash@,
        pipeline.calls_for(
            CoordEvent::Internal(Some(InternalMessage::UpdateChunkStatus { hash, new_status })),
            now,
            action,
        ),
    ensures
        ({
            let next = pipeline.after(
                CoordEvent::Internal(Some(InternalMessage::UpdateChunkStatus { hash, new_status })),
                now,
            );
            let before = pipeline.active->Some_0;
            let after = next.active->Some_0;
            let known = pipeline.active is Some && before.chunks.contains_key(hash@);
            let done = new_status is Finalized && (forall|h: Seq<u8>|
                #![trigger before.chunks.contains_key(h)]
                before.chunks.contains_key(h) && h != hash@ ==> before.chunks[h] is Finalized);
            &&& !known ==> next == pipeline && action is ReportIgnored
            &&& known ==> {
                &&& next.active is Some
                &&& after.id == before.id && after.root == before.root && after.order == before.order
                &&& after.chunks.contains_key(hash@) && after.chunks[hash@] == new_status
                &&& after.chunks.contains_key(other) <==> before.chunks.contains_key(other)
                &&& before.chunks.contains_key(other) ==> after.chunks[other] == before.chunks[other]
                &&& next.pending == pipeline.pending
                &&& same_but_deals(next, pipeline)
                &&& done ==> (action matches CoordAction::NotifyStore(
                    BlobMessage::StoreResult { id, success, failure_reason },
                ) && id@ == before.id && success && failure_reason is None)
                &&& !done ==> action is Continue
            }
        }),
{
    let message = InternalMessage::UpdateChunkStatus { hash, new_status };
    if pipeline.active is Some && pipeline.active->Some_0.chunks.contains_key(hash@) {
        assert(pipeline.is_solicited(hash@));
        law_last_chunk_finalizes_deal(pipeline, message, now, action);
    }
}

/// A deal is finalized if and only if no chunk of it is anything else.
pub proof fn law_deal_is_finalized_with_its_chunks(deal: DealModel, hash: Seq<u8>)
    ensures
        deal.is_finalized() && deal.chunks.contains_key(hash) ==> deal.chunks[hash] is Finalized,
        deal.is_finalized() || exists|h: Seq<u8>| #[trigger]
            deal.chunks.contains_key(h) && deal.chunks[h] !is Finalized,
{
}

/// Once the blob store was told that a blob is stored, the next deal in line is begun where none is
/// active; where it could not be told, nothing changes.
pub proof fn law_next_deal_is_begun(pipeline: PipelineModel, now: u64)
    ensures
        ({
            let next = pipeline.after(CoordEvent::StoreNotified { delivered: true }, now);
            &&& line(next) == line(pipeline)
            &&& line(next).len() > 0 ==> next.active == Some(line(pipeline)[0])
            &&& same_but_deals(next, pipeline)
        }),
        pipeline.after(CoordEvent::StoreNotified { delivered: false }, now) == pipeline,
{
    let next = pipeline.after(CoordEvent::StoreNotified { delivered: true }, now);
    assert(line(next) =~= line(pipeline));
}

/// Requests of peers, blobs that they push or ask for, transfers that end and closed channels change
/// nothing.
pub proof fn law_rest_changes_nothing(
    pipeline: PipelineModel,
    peer_id: PeerId,
    request_id: String,
    request: Request,
    open: bool,
    now: u64,
)
    ensures
        pipeline.after(
            CoordEvent::Handler(Some(HandlerMessage::Request { peer_id, request_id, request })),
            now,
        ) == pipeline,
        pipeline.after(CoordEvent::Pushed { open }, now) == pipeline,
        pipeline.after(CoordEvent::Pulled { open }, now) == pipeline,
        pipeline.after(CoordEvent::Transferred { open }, now) == pipeline,
        pipeline.after(CoordEvent::Handler(None), now) == pipeline,
        pipeline.after(CoordEvent::Coord(None), now) == pipeline,
        pipeline.after(CoordEvent::Internal(None), now) == pipeline,
{
}

/// The coordinator ends when one of its channels is closed, and only then; permits are asked for only
/// when a blob is to be distributed, chunks are fetched only when it is time to, and the blob store is
/// told something only after a report.
pub proof fn law_what_the_coordinator_does(
    pipeline: PipelineModel,
    event: CoordEvent,
    now: u64,
    action: CoordAction,
)
    requires
        pipeline.calls_for(event, now, action),
    ensures
        action is Stop <==> (match event {
            CoordEvent::Handler(message) => message is None,
            CoordEvent::Coord(message) => message is None,
            CoordEvent::Internal(message) => message is None,
            CoordEvent::Pushed { open } => !open,
            CoordEvent::Pulled { open } => !open,
            CoordEvent::Transferred { open } => !open,
            _ => false,
        }),
        action is RequestPermits || action is NoProviders <==> event matches CoordEvent::Coord(Some(_)),
        action is FetchChunks ==> event is AssignTick,
        action is NotifyStore || action is ReportIgnored ==> event matches CoordEvent::Internal(Some(_)),
{
}

/// When chunks are to be uploaded, and when an upload ends, the queue of uploads alone changes, as it
/// does by itself.
pub proof fn law_uploads_go_through_the_queue(pipeline: PipelineModel, more: Seq<UploadModel>)
    ensures
        pipeline.upload(more).uploads == pipeline.uploads.with(more).begin(),
        pipeline.end_upload().uploads == pipeline.uploads.without_one().begin(),
        same_but_deals(pipeline.upload(more), PipelineModel { uploads: pipeline.upload(more).uploads, ..pipeline }),
        pipeline.upload(more).pending == pipeline.pending && pipeline.upload(more).active == pipeline.active,
        same_but_deals(pipeline.end_upload(), PipelineModel { uploads: pipeline.end_upload().uploads, ..pipeline }),
        pipeline.end_upload().pending == pipeline.pending && pipeline.end_upload().active == pipeline.active,
{
}

/// The limits that a client keeps: blobs of up to 8 MiB from the network and of up to 1 GiB from the
/// bridge; twenty uploads and thirty-two downloads at a time.
pub proof fn law_limits_of_a_client()
    ensures
        crate::client::coordinator::MAX_BLOB_SIZE == 8 * 1024 * 1024,
        crate::client::blob_store::MAX_BLOB_SIZE == 1024 * 1024 * 1024,
        UPLOAD_ALLOWANCE == 20,
        crate::client::coordinator::DOWNLOAD_ALLOWANCE == 32,
{
}

} // verus!
