//! What holds of the blob store of a node whatever happens.
use vstd::prelude::*;
use bytes::Bytes;
use crate::blake3_wrapper::{blake3_digest, lower_hex, merkle_root, Digest};
use crate::chunking::{
    chunk_digests, chunk_end, chunk_start, chunks, law_chunk_bounds, law_chunks_make_up_blob,
};
use crate::node::blob_store::{
    blob_of, ranges_of, root_of, BlobMessage, BlobModel, StoreAction, StoreError, StoreEvent, StoreModel,
    RETENTION_TIME,
};
use crate::node::bridge::{after_upload, UploadRequest};
use crate::node::network::SwarmMessage;
use crate::payload::content;
use crate::status::StatusModel;

verus! {

/// Every blob that is kept is as [`blob_of`] makes it, under its own id, and not empty.
pub open spec fn is_sound(store: StoreModel) -> bool {
    forall|id: Seq<char>| #[trigger]
        store.blobs.contains_key(id) ==> store.blobs[id] == blob_of(
            id,
            store.blobs[id].data,
            store.blobs[id].created_at,
        ) && store.blobs[id].data.len() > 0
}

/// Whatever happens, the blobs that are kept stay sound.
pub proof fn law_events_keep_soundness(store: StoreModel, event: StoreEvent, now: u64)
    requires
        is_sound(store),
    ensures
        is_sound(store.after(event, now)),
{
}

/// The ranges of a blob cut it into its chunks: put together, what they cover is the blob.
pub proof fn law_ranges_cover_blob(data: Seq<u8>)
    requires
        data.len() <= usize::MAX,
    ensures
        forall|i: int|
            0 <= i < ranges_of(data.len()).len() ==> (#[trigger] ranges_of(data.len())[i]).0 < ranges_of(
                data.len(),
            )[i].1 <= data.len(),
        ranges_of(data.len()).map_values(
            |range: (usize, usize)| data.subrange(range.0 as int, range.1 as int),
        ).flatten() == data,
{
    let ranges = ranges_of(data.len());
    let parts = ranges.map_values(|range: (usize, usize)| data.subrange(range.0 as int, range.1 as int));
    assert forall|i: int| 0 <= i < ranges.len() implies (#[trigger] ranges[i]).0 < ranges[i].1 <= data.len()
        && ranges[i].0 == chunk_start(i) && ranges[i].1 == chunk_end(data.len(), i) by {
        law_chunk_bounds(data.len(), i);
    }
    assert(parts =~= chunks(data));
    law_chunks_make_up_blob(data);
}

/// A blob that is refused leaves the blobs as they are; why it was refused can be asked for.
pub proof fn law_refused_blob_leaves_store(store: StoreModel, id: String, data: Bytes, now: u64)
    requires
        !store.admits(id@, content(data)),
    ensures
        ({
            let next = store.after(StoreEvent::Blob(Some(BlobMessage::Store { id, data })), now);
            &&& next.blobs == store.blobs
            &&& next.statuses == store.statuses.insert(
                id@,
                StatusModel::Failed { reason: Some(store.refusal(content(data))) },
            )
        }),
{
}

/// What is handed in is kept as it is, under its id, and no other blob is stored under that id.
pub proof fn law_stored_blob_is_kept(store: StoreModel, id: String, data: Bytes, now: u64, other: Seq<u8>)
    requires
        store.admits(id@, content(data)),
    ensures
        ({
            let next = store.after(StoreEvent::Blob(Some(BlobMessage::Store { id, data })), now);
            &&& next.blobs.contains_key(id@)
            &&& next.blobs[id@].data == content(data)
            &&& !next.admits(id@, other)
        }),
{
}

/// Removing a blob undoes storing it.
pub proof fn law_remove_undoes_store(blobs: Map<Seq<char>, BlobModel>, id: Seq<char>, data: Seq<u8>, now: u64)
    requires
        !blobs.contains_key(id),
    ensures
        blobs.insert(id, blob_of(id, data, now)).remove(id) == blobs,
{
    assert(blobs.insert(id, blob_of(id, data, now)).remove(id) =~= blobs);
}

/// The clean-up keeps a blob, unchanged, for four hours, and drops it after that. What the bridge
/// shows stays as it is.
pub proof fn law_clean_up(store: StoreModel, now: u64)
    ensures
        ({
            let next = store.after(StoreEvent::CleanUpTick, now);
            &&& forall|id: Seq<char>|
                #![trigger next.blobs.contains_key(id)]
                next.blobs.contains_key(id) <==> store.blobs.contains_key(id) && now <= store.blobs[id].created_at
                    + RETENTION_TIME
            &&& forall|id: Seq<char>| #[trigger]
                next.blobs.contains_key(id) ==> next.blobs[id] == store.blobs[id]
            &&& next.statuses == store.statuses
        }),
{
}

/// Cleaning up twice does what doing it once does.
pub proof fn law_clean_up_is_idempotent(store: StoreModel, now: u64)
    ensures
        store.after(StoreEvent::CleanUpTick, now).after(StoreEvent::CleanUpTick, now) == store.after(
            StoreEvent::CleanUpTick,
            now,
        ),
{
    let once = store.after(StoreEvent::CleanUpTick, now);
    assert(once.after(StoreEvent::CleanUpTick, now).blobs =~= once.blobs);
}

/// The last word on an upload stands, and concerns no other blob.
pub proof fn law_last_outcome_stands(
    shown: Map<Seq<char>, StatusModel>,
    earlier: UploadRequest,
    id: String,
    other: Seq<char>,
)
    requires
        other != id@,
    ensures
        ({
            let before = after_upload(shown, Some(earlier));
            let after = after_upload(before, Some(UploadRequest::Success { id }));
            &&& after.contains_key(id@)
            &&& after[id@] == StatusModel::Finalized
            &&& after.contains_key(other) <==> before.contains_key(other)
            &&& before.contains_key(other) ==> after[other] == before[other]
        }),
{
}

/// A blob that is stored keeps its id, its bytes and the moment it came; its root is the Merkle root
/// over the digests of all its chunks, in order; and its ranges cut it every 4 MiB.
pub proof fn law_blob_is_kept_whole(id: Seq<char>, data: Seq<u8>, now: u64)
    requires
        data.len() <= usize::MAX,
    ensures
        blob_of(id, data, now).id == id,
        blob_of(id, data, now).data == data,
        blob_of(id, data, now).created_at == now,
        blob_of(id, data, now).root == merkle_root(
            Seq::new(chunks(data).len(), |i: int| blake3_digest(chunks(data)[i])),
        ),
        blob_of(id, data, now).root == root_of(data),
        blob_of(id, data, now).ranges.len() == chunks(data).len(),
        forall|i: int|
            0 <= i < chunks(data).len() ==> (#[trigger] blob_of(id, data, now).ranges[i]).0 == i * 4_194_304 && chunks(
                data,
            )[i] == data.subrange(
                blob_of(id, data, now).ranges[i].0 as int,
                blob_of(id, data, now).ranges[i].1 as int,
            ),
{
    assert(chunk_digests(chunks(data)) =~= Seq::new(
        chunks(data).len(),
        |i: int| blake3_digest(chunks(data)[i]),
    ));
    assert forall|i: int| 0 <= i < chunks(data).len() implies (#[trigger] blob_of(id, data, now).ranges[i]).0 == i
        * 4_194_304 && chunks(data)[i] == data.subrange(
        blob_of(id, data, now).ranges[i].0 as int,
        blob_of(id, data, now).ranges[i].1 as int,
    ) by {
        law_chunk_bounds(data.len(), i);
    }
}

/// A new blob that is not empty and has a new id is kept as it came, and nothing else changes; any
/// other changes nothing but its own status, which says why.
pub proof fn law_new_blob_is_taken_in(store: StoreModel, id: String, data: Bytes, now: u64, other: Seq<char>)
    requires
        other != id@,
    ensures
        ({
            let next = store.after(StoreEvent::Blob(Some(BlobMessage::Store { id, data })), now);
            let taken = content(data).len() > 0 && !store.blobs.contains_key(id@);
            &&& taken ==> next.blobs.contains_key(id@) && next.blobs[id@] == blob_of(id@, content(data), now)
                && next.statuses == store.statuses
            &&& !taken ==> next.blobs == store.blobs && next.statuses.contains_key(id@)
            &&& content(data).len() == 0 ==> next.statuses[id@] == (StatusModel::Failed {
                reason: Some("Ignored empty blob."@),
            })
            &&& content(data).len() > 0 && store.blobs.contains_key(id@) ==> next.statuses[id@] == (
            StatusModel::Failed {
                reason: Some("Duplicate blob: "@ + lower_hex(root_of(content(data))->Some_0)),
            })
            &&& next.blobs.contains_key(other) <==> store.blobs.contains_key(other)
            &&& store.blobs.contains_key(other) ==> next.blobs[other] == store.blobs[other]
            &&& next.statuses.contains_key(other) <==> store.statuses.contains_key(other)
            &&& store.statuses.contains_key(other) ==> next.statuses[other] == store.statuses[other]
        }),
{
}

/// A blob that the swarm could not be told of has failed, for the reason that is given, and nothing
/// else changes; where the swarm was told, and where it reports back, nothing changes.
pub proof fn law_forwarding_is_noted(
    store: StoreModel,
    id: String,
    reason: String,
    result: bool,
    now: u64,
    other: Seq<char>,
)
    requires
        other != id@,
    ensures
        ({
            let next = store.after(StoreEvent::Forwarded { id, failure: Some(reason) }, now);
            &&& next.blobs == store.blobs
            &&& next.statuses.contains_key(id@)
            &&& next.statuses[id@] == (StatusModel::Failed { reason: Some(reason@) })
            &&& next.statuses.contains_key(other) <==> store.statuses.contains_key(other)
            &&& store.statuses.contains_key(other) ==> next.statuses[other] == store.statuses[other]
        }),
        store.after(StoreEvent::Forwarded { id, failure: None }, now) == store,
        store.after(StoreEvent::Blob(Some(BlobMessage::Persist { id, result })), now) == store,
        store.after(StoreEvent::Blob(None), now) == store,
{
}

/// The store ends when its channel is closed, and only then; it asks the swarm to persist every blob
/// that it takes in, by its id, and sends nothing else.
pub proof fn law_what_the_store_does(store: StoreModel, event: StoreEvent, action: StoreAction)
    requires
        store.calls_for(event, action),
    ensures
        action is Stop <==> event matches StoreEvent::Blob(None),
        event matches StoreEvent::Blob(Some(BlobMessage::Store { id, data })) && content(data).len() > 0
            && !store.blobs.contains_key(id@) ==> (action matches StoreAction::Persist(
            SwarmMessage::PersistBlob(blob),
        ) && blob@ == event->Blob_0->Some_0->Store_id@),
        action is Persist ==> (event matches StoreEvent::Blob(Some(BlobMessage::Store { id, data })) && content(
            data,
        ).len() > 0 && !store.blobs.contains_key(id@)),
{
}

/// A blob is dropped once four hours, 14,400 seconds, have passed since it came, and not before.
pub proof fn law_blob_lifetime(store: StoreModel, id: Seq<char>, now: u64)
    requires
        store.blobs.contains_key(id),
    ensures
        store.after(StoreEvent::CleanUpTick, now).blobs.contains_key(id) <==> now <= store.blobs[id].created_at
            + 14_400,
{
}

/// The errors of the store in words.
pub proof fn law_store_errors_in_words(root_hash: Digest)
    ensures
        StoreError::EmptyBlob.text() == "Ignored empty blob."@,
        (StoreError::DuplicateBlob { root_hash }).text() == "Duplicate blob: "@ + lower_hex(root_hash@),
        StoreError::NoMerkleRoot.text() == "Couldn't get the merkle root."@,
{
}

} // verus!
