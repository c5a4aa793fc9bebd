use bytes::Bytes;
use gozara::blake3_wrapper::{content_name, Digest};
use gozara::chunking::CHUNK_SIZE;
use gozara::client::blob_store::{
    blob_forwarded, get_status, new_blob, BlobMessage, BlobStore, BridgeState, InternalMessage,
    StoreAction, StoreError, StoreEvent, RETENTION_TIME,
};
use gozara::client::coordinator::{
    begin_upload, CoordEvent, CoordMessage, Pipeline, MAX_BLOB_SIZE,
};
use gozara::peyk::blob_transfer::{handle_incoming_push, push};
use gozara::peyk::protocol::PeerId;
use gozara::status::{StatusCode, UploadStatus};

fn bytes(text: &str) -> Bytes {
    Bytes::from(text.as_bytes().to_vec())
}

fn digest(data: &[u8]) -> Digest {
    blake3::hash(data).into()
}

fn id(text: &str) -> String {
    text.to_string()
}

fn hand_in(store: &mut BlobStore, bridge: &mut BridgeState, name: &str, data: Bytes) -> StoreAction {
    let message = InternalMessage::NewBlob { id: id(name), data };
    store.handle(bridge, StoreEvent::Internal(Some(message)), 0)
}

fn failed(reason: &str) -> UploadStatus {
    UploadStatus::Failed { reason: Some(reason.to_string()) }
}

#[test]
fn empty_blob_is_refused() {
    let mut store = BlobStore::new();
    let error = store.store_blob(id("a"), Bytes::new(), 0).unwrap_err();
    assert_eq!(error, StoreError::EmptyBlob);
    assert_eq!(error.message(), "Empty blob.");
}

#[test]
fn duplicate_blob_is_refused() {
    let mut store = BlobStore::new();
    assert_eq!(store.store_blob(id("a"), bytes("one"), 0), Ok(()));
    let error = store.store_blob(id("a"), bytes("two"), 0).unwrap_err();
    assert_eq!(error, StoreError::DuplicateBlob { id: id("a") });
    assert_eq!(error.message(), "Duplicate blob: a");
    let reply = store.fetch_chunks("a", &vec![digest(b"one"), digest(b"two")]).unwrap();
    assert!(reply.get(&digest(b"one")).unwrap().is_some());
    assert!(reply.get(&digest(b"two")).unwrap().is_none());
}

#[test]
fn missing_root_in_words() {
    assert_eq!(StoreError::NoMerkleRoot.message(), "Couldn't get the merkle root.");
}

#[test]
fn stored_chunks_can_be_fetched() {
    let mut raw = vec![5u8; CHUNK_SIZE];
    raw.extend_from_slice(b"end");
    let mut store = BlobStore::new();
    assert_eq!(store.store_blob(id("a"), Bytes::from(raw.clone()), 0), Ok(()));
    let wanted = vec![digest(&raw[..CHUNK_SIZE]), digest(b"end"), digest(b"none")];
    let reply = store.fetch_chunks("a", &wanted).unwrap();
    assert_eq!(reply.len(), 3);
    assert!(reply.get(&wanted[0]).unwrap().as_ref().unwrap() == &raw[..CHUNK_SIZE]);
    assert!(reply.get(&wanted[1]).unwrap().as_ref().unwrap() == &b"end"[..]);
    assert!(reply.get(&wanted[2]).unwrap().is_none());
    assert!(store.fetch_chunks("b", &wanted).is_none());
}

#[test]
fn remove_undoes_store() {
    let mut store = BlobStore::new();
    assert_eq!(store.store_blob(id("a"), bytes("one"), 0), Ok(()));
    store.remove_blob("b");
    assert!(store.fetch_chunks("a", &vec![]).is_some());
    store.remove_blob("a");
    assert!(store.fetch_chunks("a", &vec![]).is_none());
    assert_eq!(store.store_blob(id("a"), bytes("two"), 0), Ok(()));
}

#[test]
fn new_blob_is_announced() {
    let mut raw = vec![5u8; 2 * CHUNK_SIZE];
    raw.extend_from_slice(b"end");
    let mut store = BlobStore::new();
    let mut bridge = BridgeState::new();
    let first = digest(&raw[..CHUNK_SIZE]);
    let last = digest(b"end");
    match hand_in(&mut store, &mut bridge, "a", Bytes::from(raw)) {
        StoreAction::Distribute(CoordMessage::DistributeBlob { id, root_hash, chunk_hashes }) => {
            assert_eq!(id, "a");
            assert_eq!(chunk_hashes, vec![first, last]);
            let mut both = first.to_vec();
            both.extend_from_slice(&last);
            assert_eq!(root_hash, digest(&both));
        }
        _ => panic!("the blob is not announced"),
    }
    assert_eq!(get_status(&bridge, "a"), (StatusCode::NotFound, None));
}

#[test]
fn status_follows_the_distribution() {
    let mut store = BlobStore::new();
    let mut bridge = BridgeState::new();
    hand_in(&mut store, &mut bridge, "a", bytes("one"));
    store.handle(&mut bridge, StoreEvent::Distributed { id: id("a"), failure: None }, 0);
    assert_eq!(get_status(&bridge, "a"), (StatusCode::Okay, Some(UploadStatus::Pending)));
    let result = BlobMessage::StoreResult { id: id("a"), success: true, failure_reason: None };
    store.handle(&mut bridge, StoreEvent::Blob(Some(result)), 0);
    assert_eq!(get_status(&bridge, "a"), (StatusCode::Okay, Some(UploadStatus::Finalized)));
}

#[test]
fn status_of_failures() {
    let mut store = BlobStore::new();
    let mut bridge = BridgeState::new();
    assert!(matches!(
        hand_in(&mut store, &mut bridge, "e", Bytes::new()),
        StoreAction::Continue
    ));
    assert_eq!(get_status(&bridge, "e").1, Some(failed("Empty blob.")));
    hand_in(&mut store, &mut bridge, "a", bytes("one"));
    hand_in(&mut store, &mut bridge, "a", bytes("one"));
    assert_eq!(get_status(&bridge, "a").1, Some(failed("Duplicate blob: a")));
    let failure = Some("channel closed".to_string());
    store.handle(&mut bridge, StoreEvent::Distributed { id: id("a"), failure }, 0);
    assert_eq!(get_status(&bridge, "a").1, Some(failed("channel closed")));
    let result = BlobMessage::StoreResult { id: id("a"), success: false, failure_reason: None };
    store.handle(&mut bridge, StoreEvent::Blob(Some(result)), 0);
    assert_eq!(get_status(&bridge, "a").1, Some(UploadStatus::Failed { reason: None }));
}

#[test]
fn results_for_unknown_blobs_are_ignored() {
    let mut store = BlobStore::new();
    let mut bridge = BridgeState::new();
    let result = BlobMessage::StoreResult { id: id("a"), success: true, failure_reason: None };
    store.handle(&mut bridge, StoreEvent::Blob(Some(result)), 0);
    assert_eq!(get_status(&bridge, "a").0, StatusCode::NotFound);
    hand_in(&mut store, &mut bridge, "a", bytes("one"));
    let result = BlobMessage::StoreResult { id: id("a"), success: true, failure_reason: None };
    store.handle(&mut bridge, StoreEvent::Blob(Some(result)), 0);
    assert_eq!(get_status(&bridge, "a").0, StatusCode::NotFound);
}

#[test]
fn blobs_are_kept_for_four_hours() {
    let mut store = BlobStore::new();
    let mut bridge = BridgeState::new();
    assert_eq!(RETENTION_TIME, 4 * 60 * 60);
    assert_eq!(store.store_blob(id("old"), bytes("one"), 100), Ok(()));
    assert_eq!(store.store_blob(id("new"), bytes("two"), 101), Ok(()));
    for name in ["old", "new", "gone"] {
        store.handle(&mut bridge, StoreEvent::Distributed { id: id(name), failure: None }, 0);
    }
    store.handle(&mut bridge, StoreEvent::CleanUpTick, 100 + RETENTION_TIME);
    assert!(store.fetch_chunks("old", &vec![]).is_some());
    assert_eq!(get_status(&bridge, "old").0, StatusCode::Okay);
    assert_eq!(get_status(&bridge, "gone").0, StatusCode::NotFound);
    store.handle(&mut bridge, StoreEvent::CleanUpTick, 101 + RETENTION_TIME);
    assert!(store.fetch_chunks("old", &vec![]).is_none());
    assert_eq!(get_status(&bridge, "old").0, StatusCode::NotFound);
    assert!(store.fetch_chunks("new", &vec![]).is_some());
    assert_eq!(get_status(&bridge, "new").0, StatusCode::Okay);
}

#[test]
fn bridge_refuses_known_ids() {
    let mut store = BlobStore::new();
    let mut bridge = BridgeState::new();
    match new_blob(&bridge, id("a"), bytes("one")) {
        Ok(InternalMessage::NewBlob { id, data }) => {
            assert_eq!(id, "a");
            assert_eq!(data, bytes("one"));
        }
        Err(_) => panic!("refused"),
    }
    store.handle(&mut bridge, StoreEvent::Distributed { id: id("a"), failure: None }, 0);
    assert_eq!(
        new_blob(&bridge, id("a"), bytes("one")).err(),
        Some(StatusCode::InternalServerError)
    );
    assert_eq!(blob_forwarded(true), StatusCode::Created);
    assert_eq!(blob_forwarded(false), StatusCode::InternalServerError);
}

#[test]
fn status_codes() {
    assert_eq!(StatusCode::Okay.as_u16(), 200);
    assert_eq!(StatusCode::Created.as_u16(), 201);
    assert_eq!(StatusCode::NotFound.as_u16(), 404);
    assert_eq!(StatusCode::InternalServerError.as_u16(), 500);
}

#[test]
fn store_answers_the_coordinator() {
    let mut store = BlobStore::new();
    let mut bridge = BridgeState::new();
    hand_in(&mut store, &mut bridge, "a", bytes("one"));
    let fetch = BlobMessage::FetchChunks { id: id("a"), chunks: vec![digest(b"one")] };
    match store.handle(&mut bridge, StoreEvent::Blob(Some(fetch)), 0) {
        StoreAction::Reply(Some(reply)) => assert_eq!(reply.len(), 1),
        _ => panic!("no chunks"),
    }
    let fetch = BlobMessage::FetchChunks { id: id("b"), chunks: vec![digest(b"one")] };
    assert!(matches!(
        store.handle(&mut bridge, StoreEvent::Blob(Some(fetch)), 0),
        StoreAction::Reply(None)
    ));
    assert!(matches!(store.handle(&mut bridge, StoreEvent::Blob(None), 0), StoreAction::Stop));
    assert!(matches!(store.handle(&mut bridge, StoreEvent::Internal(None), 0), StoreAction::Stop));
}

#[test]
fn assigned_chunks_pass_the_check_of_the_receiver() {
    let mut store = BlobStore::new();
    assert_eq!(store.store_blob(id("a"), bytes("one"), 0), Ok(()));
    let reply = store.fetch_chunks("a", &vec![digest(b"one")]);
    let peer = PeerId::new(id("p"));
    let table = Pipeline::assign_chunks(&vec![peer.clone()], reply).ok().unwrap();
    let (hash, data) = &table.get(&peer).unwrap()[0];
    let (name, _) = begin_upload(hash, &peer, 0);
    assert_eq!(name, content_name(b"one"));
    let stream = push(&name, data).unwrap();
    let verdict = handle_incoming_push(peer.clone(), &stream, MAX_BLOB_SIZE).unwrap();
    assert_eq!(verdict.reply, vec![1]);
    assert!(verdict.outcome.is_ok());
}

#[test]
fn deal_covers_the_announced_blob() {
    let mut raw = vec![5u8; 2 * CHUNK_SIZE];
    raw.extend_from_slice(b"end");
    let mut store = BlobStore::new();
    let mut bridge = BridgeState::new();
    let message = match hand_in(&mut store, &mut bridge, "a", Bytes::from(raw)) {
        StoreAction::Distribute(message) => message,
        _ => panic!("the blob is not announced"),
    };
    let mut pipeline = Pipeline::new();
    pipeline.grant_permit(PeerId::new(id("p")), 60, 0);
    pipeline.handle(CoordEvent::Coord(Some(message)), 0);
    let request = pipeline.request_chunks(0).unwrap();
    assert_eq!(request.chunks.len(), 2);
    let reply = store.fetch_chunks(&request.id, &request.chunks).unwrap();
    for hash in &request.chunks {
        let part = reply.get(hash).unwrap().as_ref().unwrap();
        assert_eq!(digest(part), *hash);
    }
}

#[test]
fn cleaning_up_twice_changes_nothing_more() {
    let mut store = BlobStore::new();
    let mut bridge = BridgeState::new();
    assert_eq!(store.store_blob(id("old"), bytes("one"), 0), Ok(()));
    assert_eq!(store.store_blob(id("new"), bytes("two"), 9), Ok(()));
    for _ in 0..2 {
        store.remove_stale_blobs(&mut bridge, RETENTION_TIME + 5);
        assert!(store.fetch_chunks("old", &vec![]).is_none());
        assert!(store.fetch_chunks("new", &vec![]).is_some());
    }
}
