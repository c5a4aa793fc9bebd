//! What holds of the blob store whatever happens.
use vstd::prelude::*;
use vstd::utf8::encode_utf8;
use bytes::Bytes;
use crate::blake3_wrapper::{blake3_digest, digests, lower_hex, merkle_root, Digest};
use crate::chunking::{
    chunk_digests, chunk_index, chunks, distinct, law_blob_recovered, law_chunk_bounds,
    law_index_by_digest, lemma_distinct, lemma_distinct_is_stable, CHUNK_SIZE,
};
use crate::client::assignment::{answers, present};
use crate::client::blob_store::{
    announces, blob_of, chunks_for, BlobMessage, BlobModel, InternalMessage, StoreAction, StoreEvent,
    StoreError, StoreModel, RETENTION_TIME,
};
use crate::client::coordinator::{CoordMessage, DealModel, MAX_BLOB_SIZE};
use crate::payload::{content, content_of};
use crate::peyk::blob_transfer::{
    law_genuine_push_is_taken, name_of, parse_push, push_reply, TransferError, HASH_MAX_LEN,
};
use crate::peyk::frame::frame;
use crate::seqs::lemma_filter_members;
use crate::status::StatusModel;
use crate::table::Table;

verus! {

/// Every blob that is kept is as [`blob_of`] makes it, under its own id, and not empty.
pub open spec fn is_sound(store: StoreModel) -> bool {
    forall|id: Seq<char>| #[trigger]
        store.blobs.contains_key(id) ==> store.blobs[id] == blob_of(
            id,
            store.blobs[id].data,
            store.blobs[id].created_at,
        ) && store.blobs[id].data.len() > 0
}

/// Whatever happens, the blobs that are kept stay sound.
pub proof fn law_events_keep_soundness(store: StoreModel, event: StoreEvent, now: u64)
    requires
        is_sound(store),
    ensures
        is_sound(store.after(event, now)),
{
}

/// What is handed in can be fetched: after a blob was stored, each of its chunks is there under its
/// digest, and what is there under a digest has it.
pub proof fn law_stored_chunks_can_be_fetched(store: StoreModel, id: String, data: Bytes, now: u64)
    requires
        store.admits(id@, content(data)),
    ensures
        ({
            let next = store.after(StoreEvent::Internal(Some(InternalMessage::NewBlob { id, data })), now);
            let wanted = chunk_digests(chunks(content(data)));
            let fetched = chunks_for(next.blobs[id@].chunks, wanted);
            &&& next.blobs.contains_key(id@)
            &&& forall|i: int|
                0 <= i < wanted.len() ==> fetched.contains_key(#[trigger] wanted[i]) && (
                fetched[wanted[i]] matches Some(part) && blake3_digest(part) == wanted[i] && chunks(
                    content(data),
                ).contains(part))
        }),
{
    let parts = chunks(content(data));
    law_index_by_digest(parts);
    let next = store.after(StoreEvent::Internal(Some(InternalMessage::NewBlob { id, data })), now);
    let wanted = chunk_digests(parts);
    let fetched = chunks_for(next.blobs[id@].chunks, wanted);
    assert(next.blobs[id@].chunks == chunk_index(parts));
    assert forall|i: int| 0 <= i < wanted.len() implies fetched.contains_key(#[trigger] wanted[i]) && (
    fetched[wanted[i]] matches Some(part) && blake3_digest(part) == wanted[i] && parts.contains(part)) by {
        assert(wanted[i] == blake3_digest(parts[i]));
        assert(wanted.contains(wanted[i]));
        assert(chunk_index(parts).contains_key(wanted[i]));
    }
}

/// A blob that was stored can be put together again from what is fetched, in the order of its
/// digests, as long as no two different chunks of it share a digest.
pub proof fn law_stored_blob_is_recovered(store: StoreModel, id: String, data: Bytes, now: u64)
    requires
        store.admits(id@, content(data)),
        forall|i: int, j: int|
            0 <= i < chunks(content(data)).len() && 0 <= j < chunks(content(data)).len() && blake3_digest(
                #[trigger] chunks(content(data))[i],
            ) == blake3_digest(#[trigger] chunks(content(data))[j]) ==> chunks(content(data))[i] == chunks(
                content(data),
            )[j],
    ensures
        ({
            let next = store.after(StoreEvent::Internal(Some(InternalMessage::NewBlob { id, data })), now);
            let wanted = chunk_digests(chunks(content(data)));
            let fetched = chunks_for(next.blobs[id@].chunks, wanted);
            wanted.map_values(|h: Seq<u8>| fetched[h]->Some_0).flatten() == content(data)
        }),
{
    let parts = chunks(content(data));
    let next = store.after(StoreEvent::Internal(Some(InternalMessage::NewBlob { id, data })), now);
    let wanted = chunk_digests(parts);
    let fetched = chunks_for(next.blobs[id@].chunks, wanted);
    law_stored_chunks_can_be_fetched(store, id, data, now);
    law_blob_recovered(content(data));
    assert(wanted.map_values(|h: Seq<u8>| fetched[h]->Some_0) =~= wanted.map_values(
        |h: Seq<u8>| chunk_index(parts)[h],
    )) by {
        assert forall|i: int| 0 <= i < wanted.len() implies fetched[#[trigger] wanted[i]]->Some_0
            == chunk_index(parts)[wanted[i]] by {
            assert(fetched.contains_key(wanted[i]));
        }
    }
}

/// What goes out to peers is genuine: every chunk that is assigned after a fetch has the name under
/// which it is pushed, and a peer that takes blobs of up to [`MAX_BLOB_SIZE`] takes it.
pub proof fn law_assigned_chunks_are_genuine(
    store: StoreModel,
    id: String,
    wanted: Vec<Digest>,
    now: u64,
    reply: Table<Digest, Option<Bytes>>,
    k: int,
)
    requires
        is_sound(store),
        store.calls_for(
            StoreEvent::Blob(Some(BlobMessage::FetchChunks { id, chunks: wanted })),
            now,
            StoreAction::Reply(Some(reply)),
        ),
        0 <= k < present(reply.order(), answers(reply)).len(),
    ensures
        ({
            let (hash, part) = present(reply.order(), answers(reply))[k];
            &&& digests(wanted@).contains(hash)
            &&& blake3_digest(part) == hash
            &&& lower_hex(hash) == name_of(part)
            &&& part.len() <= CHUNK_SIZE
            &&& parse_push(
                frame(encode_utf8(lower_hex(hash))) + frame(part),
                HASH_MAX_LEN,
                MAX_BLOB_SIZE,
            ) == Ok::<(Seq<char>, Seq<u8>), TransferError>((lower_hex(hash), part))
            &&& push_reply(lower_hex(hash), name_of(part)) == seq![1u8]
        }),
{
    let found = answers(reply);
    let has = |h: Seq<u8>| found[h] is Some;
    let hashes = digests(wanted@);
    let kept = store.blobs[id@].chunks;
    let taken = reply.order().filter(has);
    lemma_filter_members(reply.order(), has);
    lemma_distinct(hashes);
    let hash = taken[k];
    assert(taken.contains(hash));
    assert(reply.order().contains(hash));
    assert(distinct(hashes).contains(hash));
    law_index_by_digest(chunks(store.blobs[id@].data));
    assert(store.blobs.contains_key(id@));
    assert(found.contains_key(hash));
    assert(kept.contains_key(hash));
    let data = store.blobs[id@].data;
    let part = kept[hash];
    assert(part.len() <= CHUNK_SIZE) by {
        let i = chunks(data).index_of(part);
        assert(chunks(data)[i] == part);
        law_chunk_bounds(data.len(), i);
    }
    assert(hash.len() == 32) by {
        let i = hashes.index_of(hash);
        assert(hash == wanted@[i]@);
    }
    law_genuine_push_is_taken(part, MAX_BLOB_SIZE);
}

/// The deal that the coordinator makes of an announced blob is for the chunks of that blob, all of
/// them and no others, each once: none that it asks for is missing.
pub proof fn law_deal_covers_blob(id: Seq<char>, data: Seq<u8>, now: u64, message: CoordMessage)
    requires
        announces(message, blob_of(id, data, now)),
    ensures
        ({
            let blob = blob_of(id, data, now);
            let deal = DealModel::fresh(message->id@, message->root_hash@, digests(message->chunk_hashes@));
            &&& deal.id == id
            &&& Some(deal.root) == blob.root
            &&& deal.order == blob.leaves
            &&& deal.chunks.dom() == blob.chunks.dom()
            &&& forall|h: Seq<u8>| #[trigger]
                deal.order.contains(h) ==> chunks_for(blob.chunks, deal.order)[h] == Some(blob.chunks[h])
        }),
{
    let parts = chunks(data);
    let names = chunk_digests(parts);
    let blob = blob_of(id, data, now);
    let deal = DealModel::fresh(message->id@, message->root_hash@, digests(message->chunk_hashes@));
    lemma_distinct(names);
    lemma_distinct_is_stable(blob.leaves);
    law_index_by_digest(parts);
    assert forall|h: Seq<u8>| #[trigger] names.contains(h) <==> blob.chunks.contains_key(h) by {
        if names.contains(h) {
            let i = names.index_of(h);
            assert(h == blake3_digest(parts[i]));
        }
        if blob.chunks.contains_key(h) {
            let i = parts.index_of(blob.chunks[h]);
            assert(names[i] == h);
        }
    }
    assert forall|h: Seq<u8>| #[trigger] deal.chunks.dom().contains(h) <==> blob.chunks.dom().contains(h) by {
        assert(blob.leaves.contains(h) <==> names.contains(h));
    }
    assert(deal.chunks.dom() =~= blob.chunks.dom());
}

/// A blob that is refused leaves the blobs as they are; why it was refused can be asked for.
pub proof fn law_refused_blob_leaves_store(store: StoreModel, id: String, data: Bytes, now: u64)
    requires
        !store.admits(id@, content(data)),
    ensures
        ({
            let next = store.after(StoreEvent::Internal(Some(InternalMessage::NewBlob { id, data })), now);
            &&& next.blobs == store.blobs
            &&& next.statuses == store.statuses.insert(
                id@,
                StatusModel::Failed { reason: Some(store.refusal(id@, content(data))) },
            )
        }),
{
}

/// An id is taken once: after a blob was stored, no other one is stored under its id.
pub proof fn law_id_is_taken_once(store: StoreModel, id: String, data: Bytes, now: u64, other: Seq<u8>)
    requires
        store.admits(id@, content(data)),
    ensures
        !store.after(StoreEvent::Internal(Some(InternalMessage::NewBlob { id, data })), now).admits(id@, other),
{
}

/// Removing a blob undoes storing it.
pub proof fn law_remove_undoes_store(blobs: Map<Seq<char>, BlobModel>, id: Seq<char>, data: Seq<u8>, now: u64)
    requires
        !blobs.contains_key(id),
    ensures
        blobs.insert(id, blob_of(id, data, now)).remove(id) == blobs,
{
    assert(blobs.insert(id, blob_of(id, data, now)).remove(id) =~= blobs);
}

/// The clean-up keeps a blob, unchanged, for four hours, and drops it after that; and it leaves no
/// status of a blob that is not kept.
pub proof fn law_clean_up(store: StoreModel, now: u64)
    ensures
        ({
            let next = store.after(StoreEvent::CleanUpTick, now);
            &&& forall|id: Seq<char>|
                #![trigger next.blobs.contains_key(id)]
                next.blobs.contains_key(id) <==> store.blobs.contains_key(id) && now <= store.blobs[id].created_at
                    + RETENTION_TIME
            &&& forall|id: Seq<char>| #[trigger]
                next.blobs.contains_key(id) ==> next.blobs[id] == store.blobs[id]
            &&& forall|id: Seq<char>|
                #![trigger next.statuses.contains_key(id)]
                next.statuses.contains_key(id) <==> store.statuses.contains_key(id) && next.blobs.contains_key(id)
            &&& forall|id: Seq<char>| #[trigger]
                next.statuses.contains_key(id) ==> next.statuses[id] == store.statuses[id]
        }),
{
}

/// Cleaning up twice does what doing it once does.
pub proof fn law_clean_up_is_idempotent(store: StoreModel, now: u64)
    ensures
        store.after(StoreEvent::CleanUpTick, now).after(StoreEvent::CleanUpTick, now) == store.after(
            StoreEvent::CleanUpTick,
            now,
        ),
{
    let once = store.after(StoreEvent::CleanUpTick, now);
    let twice = once.after(StoreEvent::CleanUpTick, now);
    assert(twice.blobs =~= once.blobs);
    assert(twice.statuses =~= once.statuses);
}

/// A blob is pending once the coordinator has it, and finalized once it is reported to be stored.
pub proof fn law_upload_is_finalized(store: StoreModel, id: String, data: Bytes, now: u64, then: u64, later: u64)
    requires
        store.admits(id@, content(data)),
    ensures
        ({
            let stored = store.after(StoreEvent::Internal(Some(InternalMessage::NewBlob { id, data })), now);
            let pending = stored.after(StoreEvent::Distributed { id, failure: None }, then);
            let done = pending.after(
                StoreEvent::Blob(
                    Some(BlobMessage::StoreResult { id, success: true, failure_reason: None }),
                ),
                later,
            );
            &&& pending.statuses[id@] == StatusModel::Pending
            &&& done.statuses[id@] == StatusModel::Finalized
            &&& done.blobs == stored.blobs
        }),
{
}

/// A digest is that of some chunk of the data.
pub open spec fn is_chunk_digest(data: Seq<u8>, hash: Seq<u8>) -> bool {
    exists|i: int| 0 <= i < chunks(data).len() && blake3_digest(#[trigger] chunks(data)[i]) == hash
}

/// A blob that is stored keeps its id, its bytes and the moment it came; its root is the Merkle root
/// over the digests of all its chunks, each digest once and in the order in which it first comes; and
/// each chunk is kept under its digest.
pub proof fn law_blob_is_kept_whole(id: Seq<char>, data: Seq<u8>, now: u64)
    ensures
        blob_of(id, data, now).id == id,
        blob_of(id, data, now).data == data,
        blob_of(id, data, now).created_at == now,
        blob_of(id, data, now).root == merkle_root(blob_of(id, data, now).leaves),
        blob_of(id, data, now).leaves == distinct(chunk_digests(chunks(data))),
        blob_of(id, data, now).leaves.no_duplicates(),
        forall|h: Seq<u8>| #[trigger]
            blob_of(id, data, now).leaves.contains(h) <==> is_chunk_digest(data, h),
        forall|h: Seq<u8>| #[trigger]
            blob_of(id, data, now).chunks.contains_key(h) <==> is_chunk_digest(data, h),
        forall|h: Seq<u8>| #[trigger]
            blob_of(id, data, now).chunks.contains_key(h) ==> blake3_digest(blob_of(id, data, now).chunks[h]) == h
                && chunks(data).contains(blob_of(id, data, now).chunks[h]),
{
    let parts = chunks(data);
    let names = chunk_digests(parts);
    let blob = blob_of(id, data, now);
    lemma_distinct(names);
    law_index_by_digest(parts);
    assert forall|h: Seq<u8>| #[trigger] blob.leaves.contains(h) <==> is_chunk_digest(data, h) by {
        assert(blob.leaves.contains(h) <==> names.contains(h));
        if names.contains(h) {
            let i = names.index_of(h);
            assert(blake3_digest(parts[i]) == h);
        }
        if is_chunk_digest(data, h) {
            let i = choose|i: int| 0 <= i < parts.len() && blake3_digest(#[trigger] parts[i]) == h;
            assert(names[i] == h);
        }
    }
    assert forall|h: Seq<u8>| #[trigger] blob.chunks.contains_key(h) <==> is_chunk_digest(data, h) by {
        if blob.chunks.contains_key(h) {
            let i = parts.index_of(blob.chunks[h]);
            assert(blake3_digest(parts[i]) == h);
        }
        if is_chunk_digest(data, h) {
            let i = choose|i: int| 0 <= i < parts.len() && blake3_digest(#[trigger] parts[i]) == h;
            assert(blob.chunks.contains_key(blake3_digest(parts[i])));
        }
    }
}

/// A new blob that is not empty and has a new id is announced under its id, with the digests of all
/// its chunks, each once, and with the Merkle root over these; no other is announced.
pub proof fn law_new_blob_is_announced(store: StoreModel, id: String, data: Bytes, now: u64, action: StoreAction)
    requires
        store.calls_for(StoreEvent::Internal(Some(InternalMessage::NewBlob { id, data })), now, action),
    ensures
        content(data).len() > 0 && !store.blobs.contains_key(id@) ==> {
            &&& action matches StoreAction::Distribute(
                CoordMessage::DistributeBlob { id: announced, root_hash, chunk_hashes },
            )
            &&& announced@ == id@
            &&& Some(root_hash@) == merkle_root(Seq::new(chunk_hashes@.len(), |i: int| chunk_hashes@[i]@))
            &&& forall|i: int, j: int|
                0 <= i < j < chunk_hashes@.len() ==> (#[trigger] chunk_hashes@[i])@ != (
                #[trigger] chunk_hashes@[j])@
            &&& forall|i: int|
                0 <= i < chunk_hashes@.len() ==> is_chunk_digest(content(data), (#[trigger] chunk_hashes@[i])@)
            &&& forall|h: Seq<u8>| #[trigger]
                is_chunk_digest(content(data), h) ==> exists|i: int|
                    0 <= i < chunk_hashes@.len() && (#[trigger] chunk_hashes@[i])@ == h
        },
        content(data).len() == 0 || store.blobs.contains_key(id@) ==> action is Continue,
{
    law_blob_is_kept_whole(id@, content(data), now);
    let blob = blob_of(id@, content(data), now);
    if content(data).len() > 0 && !store.blobs.contains_key(id@) {
        let message = action->Distribute_0;
        let hashes = message->chunk_hashes@;
        assert(digests(hashes) =~= Seq::new(hashes.len(), |i: int| hashes[i]@));
        assert(digests(hashes) == blob.leaves);
        assert forall|i: int, j: int| 0 <= i < j < hashes.len() implies (#[trigger] hashes[i])@ != (
        #[trigger] hashes[j])@ by {
            assert(digests(hashes)[i] != digests(hashes)[j]);
        }
        assert forall|i: int| 0 <= i < hashes.len() implies is_chunk_digest(
            content(data),
            (#[trigger] hashes[i])@,
        ) by {
            assert(digests(hashes)[i] == hashes[i]@);
            assert(blob.leaves.contains(hashes[i]@));
        }
        assert forall|h: Seq<u8>| #[trigger] is_chunk_digest(content(data), h) implies exists|i: int|
            0 <= i < hashes.len() && (#[trigger] hashes[i])@ == h by {
            assert(blob.leaves.contains(h));
            let i = blob.leaves.index_of(h);
            assert(hashes[i]@ == h);
        }
    }
}

/// A new blob that is not empty and has a new id is kept as it came, and nothing else changes; any
/// other changes nothing but its own status, which says why.
pub proof fn law_new_blob_is_taken_in(store: StoreModel, id: String, data: Bytes, now: u64, other: Seq<char>)
    requires
        other != id@,
    ensures
        ({
            let next = store.after(StoreEvent::Internal(Some(InternalMessage::NewBlob { id, data })), now);
            let taken = content(data).len() > 0 && !store.blobs.contains_key(id@);
            &&& taken ==> next.blobs.contains_key(id@) && next.blobs[id@] == blob_of(id@, content(data), now)
                && next.statuses == store.statuses
            &&& !taken ==> next.blobs == store.blobs && next.statuses.contains_key(id@)
            &&& content(data).len() == 0 ==> next.statuses[id@] == (StatusModel::Failed {
                reason: Some("Empty blob."@),
            })
            &&& content(data).len() > 0 && store.blobs.contains_key(id@) ==> next.statuses[id@] == (
            StatusModel::Failed { reason: Some("Duplicate blob: "@ + id@) })
            &&& next.blobs.contains_key(other) <==> store.blobs.contains_key(other)
            &&& store.blobs.contains_key(other) ==> next.blobs[other] == store.blobs[other]
            &&& next.statuses.contains_key(other) <==> store.statuses.contains_key(other)
            &&& store.statuses.contains_key(other) ==> next.statuses[other] == store.statuses[other]
        }),
{
}

/// Whatever digests are requested of a blob, each gets an entry: the bytes of a chunk that has the
/// digest, where the blob has one, and none otherwise. Only what is requested gets an entry.
pub proof fn law_requested_chunks_are_handed_out(
    store: StoreModel,
    id: String,
    wanted: Vec<Digest>,
    now: u64,
    action: StoreAction,
)
    requires
        is_sound(store),
        store.calls_for(StoreEvent::Blob(Some(BlobMessage::FetchChunks { id, chunks: wanted })), now, action),
    ensures
        !store.blobs.contains_key(id@) ==> action matches StoreAction::Reply(None),
        store.blobs.contains_key(id@) ==> {
            let data = store.blobs[id@].data;
            &&& action matches StoreAction::Reply(Some(reply))
            &&& forall|i: int|
                0 <= i < wanted@.len() ==> {
                    let hash = (#[trigger] wanted@[i])@;
                    &&& reply@.contains_key(hash)
                    &&& is_chunk_digest(data, hash) ==> (reply@[hash] matches Some(bytes) && blake3_digest(
                        content(bytes),
                    ) == hash && chunks(data).contains(content(bytes)))
                    &&& !is_chunk_digest(data, hash) ==> reply@[hash] is None
                }
            &&& forall|h: Seq<u8>| #[trigger]
                reply@.contains_key(h) ==> exists|i: int| 0 <= i < wanted@.len() && (#[trigger] wanted@[i])@ == h
        },
{
    if store.blobs.contains_key(id@) {
        let blob = store.blobs[id@];
        law_blob_is_kept_whole(id@, blob.data, blob.created_at);
        let reply = action->Reply_0->Some_0;
        let hashes = digests(wanted@);
        let expected = chunks_for(blob.chunks, hashes);
        assert forall|i: int| 0 <= i < wanted@.len() implies {
            let hash = (#[trigger] wanted@[i])@;
            &&& reply@.contains_key(hash)
            &&& is_chunk_digest(blob.data, hash) ==> (reply@[hash] matches Some(bytes) && blake3_digest(
                content(bytes),
            ) == hash && chunks(blob.data).contains(content(bytes)))
            &&& !is_chunk_digest(blob.data, hash) ==> reply@[hash] is None
        } by {
            let hash = wanted@[i]@;
            assert(hashes[i] == hash);
            assert(hashes.contains(hash));
            assert(expected.contains_key(hash));
            assert(answers(reply).contains_key(hash));
            assert(answers(reply)[hash] == content_of(reply@[hash]));
            assert(blob.chunks.contains_key(hash) <==> is_chunk_digest(blob.data, hash));
        }
        assert forall|h: Seq<u8>| #[trigger] reply@.contains_key(h) implies exists|i: int|
            0 <= i < wanted@.len() && (#[trigger] wanted@[i])@ == h by {
            assert(answers(reply).contains_key(h));
            assert(expected.contains_key(h));
            let i = hashes.index_of(h);
            assert(wanted@[i]@ == h);
        }
    }
}

/// What is handed out for a digest does not depend on what else is requested.
pub proof fn law_chunks_are_handed_out_one_by_one(
    kept: Map<Seq<u8>, Seq<u8>>,
    requested: Seq<Seq<u8>>,
    others: Seq<Seq<u8>>,
    hash: Seq<u8>,
)
    requires
        requested.contains(hash),
        others.contains(hash),
    ensures
        chunks_for(kept, requested).contains_key(hash),
        chunks_for(kept, requested)[hash] == chunks_for(kept, others)[hash],
        kept.contains_key(hash) ==> chunks_for(kept, requested)[hash] == Some(kept[hash]),
        !kept.contains_key(hash) ==> chunks_for(kept, requested)[hash] is None,
{
}

/// A blob that the coordinator has is pending, and one that it could not be told of has failed, for
/// the reason that is given; nothing else changes.
pub proof fn law_distribution_is_noted(
    store: StoreModel,
    id: String,
    failure: Option<String>,
    now: u64,
    other: Seq<char>,
)
    requires
        other != id@,
    ensures
        ({
            let next = store.after(StoreEvent::Distributed { id, failure }, now);
            &&& next.blobs == store.blobs
            &&& next.statuses.contains_key(id@)
            &&& failure is None ==> next.statuses[id@] == StatusModel::Pending
            &&& failure matches Some(reason) ==> next.statuses[id@] == (StatusModel::Failed {
                reason: Some(reason@),
            })
            &&& next.statuses.contains_key(other) <==> store.statuses.contains_key(other)
            &&& store.statuses.contains_key(other) ==> next.statuses[other] == store.statuses[other]
        }),
{
}

/// The result of a distribution is noted if the blob is kept and has a status; it says whether the
/// blob is stored, and if it is not, why, where a reason was given. Nothing else changes.
pub proof fn law_result_is_noted(
    store: StoreModel,
    id: String,
    success: bool,
    failure_reason: Option<String>,
    now: u64,
    other: Seq<char>,
)
    requires
        other != id@,
    ensures
        ({
            let next = store.after(
                StoreEvent::Blob(Some(BlobMessage::StoreResult { id, success, failure_reason })),
                now,
            );
            let known = store.blobs.contains_key(id@) && store.statuses.contains_key(id@);
            &&& next.blobs == store.blobs
            &&& !known ==> next.statuses == store.statuses
            &&& known && success ==> next.statuses[id@] == StatusModel::Finalized
            &&& known && !success ==> (next.statuses[id@] matches StatusModel::Failed { reason } && (reason is Some
                <==> failure_reason is Some) && (failure_reason matches Some(text) ==> reason == Some(text@)))
            &&& next.statuses.contains_key(other) <==> store.statuses.contains_key(other)
            &&& store.statuses.contains_key(other) ==> next.statuses[other] == store.statuses[other]
        }),
{
}

/// Handing chunks out, and a closed channel, change nothing.
pub proof fn law_reading_changes_nothing(store: StoreModel, id: String, wanted: Vec<Digest>, now: u64)
    ensures
        store.after(StoreEvent::Blob(Some(BlobMessage::FetchChunks { id, chunks: wanted })), now) == store,
        store.after(StoreEvent::Blob(None), now) == store,
        store.after(StoreEvent::Internal(None), now) == store,
{
}

/// The store ends when one of its channels is closed, and only then; it answers requests for chunks,
/// and announces new blobs, and sends nothing else.
pub proof fn law_what_the_store_does(store: StoreModel, event: StoreEvent, now: u64, action: StoreAction)
    requires
        store.calls_for(event, now, action),
    ensures
        action is Stop <==> event matches StoreEvent::Internal(None) || event matches StoreEvent::Blob(None),
        action is Reply <==> event matches StoreEvent::Blob(Some(BlobMessage::FetchChunks { .. })),
        action is Distribute ==> event matches StoreEvent::Internal(Some(InternalMessage::NewBlob { .. })),
{
}

/// A blob is dropped once four hours, 14,400 seconds, have passed since it came, and not before.
pub proof fn law_blob_lifetime(store: StoreModel, id: Seq<char>, now: u64)
    requires
        store.blobs.contains_key(id),
    ensures
        store.after(StoreEvent::CleanUpTick, now).blobs.contains_key(id) <==> now <= store.blobs[id].created_at
            + 14_400,
{
}

/// The errors of the store in words.
pub proof fn law_store_errors_in_words(id: String)
    ensures
        StoreError::EmptyBlob.text() == "Empty blob."@,
        (StoreError::DuplicateBlob { id }).text() == "Duplicate blob: "@ + id@,
        StoreError::NoMerkleRoot.text() == "Couldn't get the merkle root."@,
{
}

} // verus!
