use bytes::Bytes;
use gozara::blake3_wrapper::Digest;
use gozara::chunking::CHUNK_SIZE;
use gozara::node::blob_store::{
    blob_forwarded, get_status, new_blob, BlobMessage, BlobStore, BridgeState, StoreAction,
    StoreError, StoreEvent, MAX_BLOB_SIZE, RETENTION_TIME,
};
use gozara::node::bridge::{self, AppState, BridgeAction, UploadRequest};
use gozara::node::network::SwarmMessage;
use gozara::status::{StatusCode, UploadStatus};

fn bytes(text: &str) -> Bytes {
    Bytes::from(text.as_bytes().to_vec())
}

fn id(text: &str) -> String {
    text.to_string()
}

fn digest(data: &[u8]) -> Digest {
    blake3::hash(data).into()
}

fn hand_in(store: &mut BlobStore, state: &mut BridgeState, name: &str, data: Bytes) -> StoreAction {
    let message = BlobMessage::Store { id: id(name), data };
    store.handle(state, StoreEvent::Blob(Some(message)), 0)
}

fn failed(reason: &str) -> UploadStatus {
    UploadStatus::Failed { reason: Some(reason.to_string()) }
}

#[test]
fn node_limits() {
    assert_eq!(RETENTION_TIME, 4 * 60 * 60);
    assert_eq!(MAX_BLOB_SIZE, 1024 * 1024 * 1024);
    assert_eq!(bridge::MAX_BLOB_SIZE, 1024 * 1024 * 1024);
}

#[test]
fn node_refuses_empty_blob() {
    let mut store = BlobStore::new();
    let error = store.store_blob(id("a"), Bytes::new(), 0).unwrap_err();
    assert_eq!(error, StoreError::EmptyBlob);
    assert_eq!(error.message(), "Ignored empty blob.");
}

#[test]
fn node_refuses_duplicate_blob_by_its_root() {
    let mut store = BlobStore::new();
    assert_eq!(store.store_blob(id("a"), bytes("one"), 0), Ok(()));
    let error = store.store_blob(id("a"), bytes("two"), 0).unwrap_err();
    assert_eq!(error, StoreError::DuplicateBlob { root_hash: digest(b"two") });
    assert_eq!(
        error.message(),
        format!("Duplicate blob: {}", blake3::hash(b"two").to_hex())
    );
}

#[test]
fn node_root_counts_equal_chunks() {
    let mut store = BlobStore::new();
    let raw = vec![3u8; 2 * CHUNK_SIZE];
    assert_eq!(store.store_blob(id("a"), Bytes::from(raw.clone()), 0), Ok(()));
    let part = digest(&raw[..CHUNK_SIZE]);
    let mut both = part.to_vec();
    both.extend_from_slice(&part);
    let error = store.store_blob(id("a"), Bytes::from(raw), 0).unwrap_err();
    assert_eq!(error, StoreError::DuplicateBlob { root_hash: digest(&both) });
}

#[test]
fn node_without_root() {
    let mut store = BlobStore::new();
    let error = store.keep(id("a"), bytes("one"), None, 0).unwrap_err();
    assert_eq!(error, StoreError::NoMerkleRoot);
    assert_eq!(error.message(), "Couldn't get the merkle root.");
    assert_eq!(store.keep(id("a"), bytes("one"), Some(digest(b"one")), 0), Ok(()));
}

#[test]
fn node_drops_blobs() {
    let mut store = BlobStore::new();
    assert_eq!(store.store_blob(id("a"), bytes("one"), 5), Ok(()));
    store.remove_stale_blobs(5 + RETENTION_TIME);
    assert!(store.store_blob(id("a"), bytes("two"), 6).is_err());
    store.remove_stale_blobs(6 + RETENTION_TIME);
    assert_eq!(store.store_blob(id("a"), bytes("two"), 6), Ok(()));
    store.remove_blob("a");
    assert_eq!(store.store_blob(id("a"), bytes("three"), 6), Ok(()));
}

#[test]
fn node_passes_blobs_on() {
    let mut store = BlobStore::new();
    let mut state = BridgeState::new();
    assert!(matches!(
        hand_in(&mut store, &mut state, "a", bytes("one")),
        StoreAction::Persist(SwarmMessage::PersistBlob(blob)) if blob == "a"
    ));
    assert!(matches!(
        hand_in(&mut store, &mut state, "a", bytes("two")),
        StoreAction::Continue
    ));
    let reason = format!("Duplicate blob: {}", blake3::hash(b"two").to_hex());
    assert_eq!(get_status(&state, "a"), (StatusCode::Okay, Some(failed(&reason))));
    hand_in(&mut store, &mut state, "e", Bytes::new());
    assert_eq!(get_status(&state, "e").1, Some(failed("Ignored empty blob.")));
}

#[test]
fn node_takes_failures_down() {
    let mut store = BlobStore::new();
    let mut state = BridgeState::new();
    let failure = Some("channel closed".to_string());
    store.handle(&mut state, StoreEvent::Forwarded { id: id("a"), failure }, 0);
    assert_eq!(get_status(&state, "a").1, Some(failed("channel closed")));
    store.handle(&mut state, StoreEvent::Forwarded { id: id("b"), failure: None }, 0);
    assert_eq!(get_status(&state, "b"), (StatusCode::NotFound, None));
    let message = BlobMessage::Persist { id: id("a"), result: true };
    assert!(matches!(
        store.handle(&mut state, StoreEvent::Blob(Some(message)), 0),
        StoreAction::Continue
    ));
    assert!(matches!(store.handle(&mut state, StoreEvent::Blob(None), 0), StoreAction::Stop));
}

#[test]
fn node_clean_up_leaves_the_statuses() {
    let mut store = BlobStore::new();
    let mut state = BridgeState::new();
    hand_in(&mut store, &mut state, "a", bytes("one"));
    blob_forwarded(&mut state, id("a"), true);
    store.handle(&mut state, StoreEvent::CleanUpTick, RETENTION_TIME + 1);
    assert_eq!(store.store_blob(id("a"), bytes("one"), 0), Ok(()));
    assert_eq!(get_status(&state, "a").1, Some(UploadStatus::Pending));
}

#[test]
fn node_bridge_refuses_known_ids() {
    let mut state = BridgeState::new();
    assert!(matches!(
        new_blob(&state, id("a"), bytes("one")),
        Ok(BlobMessage::Store { id, data }) if id == "a" && data == bytes("one")
    ));
    assert_eq!(blob_forwarded(&mut state, id("a"), false), StatusCode::InternalServerError);
    assert_eq!(get_status(&state, "a"), (StatusCode::NotFound, None));
    assert_eq!(blob_forwarded(&mut state, id("a"), true), StatusCode::Created);
    assert_eq!(get_status(&state, "a"), (StatusCode::Okay, Some(UploadStatus::Pending)));
    assert_eq!(
        new_blob(&state, id("a"), bytes("one")).err(),
        Some(StatusCode::InternalServerError)
    );
}

#[test]
fn bridge_takes_outcomes_down() {
    let mut state = AppState::new();
    assert_eq!(bridge::get_status(&state, "a"), (StatusCode::NotFound, None));
    assert_eq!(bridge::blob_forwarded(&mut state, id("a"), true), StatusCode::Created);
    assert_eq!(bridge::get_status(&state, "a").1, Some(UploadStatus::Pending));
    assert_eq!(
        state.handle(Some(UploadRequest::Success { id: id("a") })),
        BridgeAction::Recorded
    );
    assert_eq!(bridge::get_status(&state, "a").1, Some(UploadStatus::Finalized));
    assert_eq!(
        state.handle(Some(UploadRequest::Success { id: id("b") })),
        BridgeAction::RecordedUnknown
    );
    assert_eq!(bridge::get_status(&state, "b").1, Some(UploadStatus::Finalized));
    let outcome = UploadRequest::Failed { id: id("a"), reason: "lost".to_string() };
    assert_eq!(state.handle(Some(outcome)), BridgeAction::Recorded);
    assert_eq!(bridge::get_status(&state, "a").1, Some(failed("lost")));
    assert_eq!(state.handle(None), BridgeAction::Stop);
}

#[test]
fn bridge_refuses_ids_it_shows() {
    let mut state = AppState::new();
    assert!(bridge::new_blob(&state, id("a"), bytes("one")).is_ok());
    assert_eq!(
        bridge::blob_forwarded(&mut state, id("a"), false),
        StatusCode::InternalServerError
    );
    bridge::blob_forwarded(&mut state, id("a"), true);
    assert_eq!(
        bridge::new_blob(&state, id("a"), bytes("one")).err(),
        Some(StatusCode::InternalServerError)
    );
}
