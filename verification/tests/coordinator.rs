use bytes::Bytes;
use gozara::blake3_wrapper::Digest;
use gozara::client::assignment::AssignError;
use gozara::client::blob_store::BlobMessage;
use gozara::client::coordinator::{
    begin_upload, end_upload, ChunkRequest, ChunkUpdate, ChunkUploadStatus, CoordAction,
    CoordEvent, CoordMessage, InternalMessage, Pipeline, StorageDeal, NANOS_PER_SEC,
};
use gozara::client::uploads::{UploadQueue, UPLOAD_ALLOWANCE};
use gozara::peyk::protocol::{PeerId, Request, Response};
use gozara::peyk::{HandlerMessage, SwarmMessage};
use gozara::table::Table;

fn peer(name: &str) -> PeerId {
    PeerId::new(name.to_string())
}

fn hash(byte: u8) -> Digest {
    [byte; 32]
}

fn secs(n: u64) -> u64 {
    n * NANOS_PER_SEC
}

fn distribute(id: &str, hashes: Vec<Digest>) -> CoordEvent {
    CoordEvent::Coord(Some(CoordMessage::DistributeBlob {
        id: id.to_string(),
        root_hash: hash(0),
        chunk_hashes: hashes,
    }))
}

fn would_store(name: &str) -> CoordEvent {
    CoordEvent::Handler(Some(HandlerMessage::WouldStore { peer_id: peer(name) }))
}

fn ack(name: &str, valid_for: u8) -> CoordEvent {
    CoordEvent::Handler(Some(HandlerMessage::Response {
        peer_id: peer(name),
        request_id: "1".to_string(),
        response: Response::AckStoragePermit { valid_for },
    }))
}

fn report(byte: u8, new_status: ChunkUploadStatus) -> CoordEvent {
    CoordEvent::Internal(Some(InternalMessage::UpdateChunkStatus { hash: hash(byte), new_status }))
}

fn finalized(name: &str) -> ChunkUploadStatus {
    ChunkUploadStatus::Finalized { on: 0, owner: peer(name) }
}

fn fetched(action: CoordAction) -> Option<ChunkRequest> {
    match action {
        CoordAction::FetchChunks(request) => Some(request),
        CoordAction::Continue => None,
        _ => panic!("neither a fetch nor nothing"),
    }
}

fn asked(action: CoordAction) -> Vec<PeerId> {
    match action {
        CoordAction::RequestPermits(SwarmMessage::RequestStoragePermits { peers }) => peers,
        _ => panic!("nobody is asked"),
    }
}

fn told(action: CoordAction) -> String {
    match action {
        CoordAction::NotifyStore(BlobMessage::StoreResult { id, success, failure_reason }) => {
            assert!(success);
            assert_eq!(failure_reason, None);
            id
        }
        _ => panic!("the blob store is not told"),
    }
}

#[test]
fn nobody_to_ask() {
    let mut pipeline = Pipeline::new();
    let action = pipeline.handle(distribute("blob", vec![hash(1)]), 0);
    assert!(matches!(action, CoordAction::NoProviders));
    let error = pipeline.request_storage_permits().err().unwrap();
    assert_eq!(error.message(), "No storage providers to request permits from.");
}

#[test]
fn known_providers_are_asked() {
    let mut pipeline = Pipeline::new();
    pipeline.handle(would_store("a"), 0);
    pipeline.handle(would_store("b"), 0);
    pipeline.handle(would_store("a"), 1);
    assert!(matches!(pipeline.request_storage_permits(), Ok(None)));
    let peers = asked(pipeline.handle(distribute("blob", vec![hash(1)]), 2));
    assert_eq!(peers, vec![peer("a"), peer("b")]);
}

#[test]
fn hints_last_five_minutes() {
    let mut pipeline = Pipeline::new();
    pipeline.handle(would_store("a"), secs(10));
    pipeline.handle(would_store("b"), secs(11));
    pipeline.handle(CoordEvent::StaleProvidersTick, secs(310));
    let peers = asked(pipeline.handle(distribute("blob", vec![hash(1)]), secs(310)));
    assert_eq!(peers, vec![peer("b")]);
    pipeline.handle(CoordEvent::StaleProvidersTick, secs(311) - 1);
    let peers = asked(pipeline.handle(distribute("more", vec![hash(1)]), secs(310)));
    assert_eq!(peers, vec![peer("b")]);
    pipeline.handle(CoordEvent::StaleProvidersTick, secs(311));
    let action = pipeline.handle(distribute("last", vec![hash(1)]), secs(311));
    assert!(matches!(action, CoordAction::NoProviders));
}

#[test]
fn chunks_are_fetched_for_permitted_peers() {
    let mut pipeline = Pipeline::new();
    pipeline.handle(distribute("blob", vec![hash(1), hash(2), hash(1), hash(3)]), 0);
    assert!(fetched(pipeline.handle(CoordEvent::AssignTick, 0)).is_none());
    pipeline.handle(ack("a", 60), 0);
    pipeline.handle(ack("b", 30), 0);
    let request =
        fetched(pipeline.handle(CoordEvent::AssignTick, secs(1))).unwrap();
    assert_eq!(request.id, "blob");
    assert_eq!(request.chunks, vec![hash(1), hash(2), hash(3)]);
    assert_eq!(request.peers, vec![peer("a"), peer("b")]);
}

fn assigned(name: &str, count: u8) -> Table<PeerId, Vec<(Digest, Bytes)>> {
    let mut table = Table::new();
    let chunks = (0..count).map(|i| (hash(i), Bytes::from(vec![i]))).collect();
    table.insert(peer(name), chunks);
    table
}

#[test]
fn no_more_chunks_than_uploads() {
    let mut pipeline = Pipeline::new();
    pipeline.handle(distribute("blob", vec![hash(1), hash(2), hash(3)]), 0);
    pipeline.handle(ack("a", 60), 0);
    assert_eq!(pipeline.begin_uploads(&assigned("a", 18)).len(), 18);
    let request = fetched(pipeline.handle(CoordEvent::AssignTick, 0)).unwrap();
    assert_eq!(request.chunks, vec![hash(1), hash(2)]);
    assert_eq!(pipeline.begin_uploads(&assigned("a", 2)).len(), 2);
    assert!(fetched(pipeline.handle(CoordEvent::AssignTick, 0)).is_none());
    assert!(pipeline.upload_ended().is_empty());
    let request = fetched(pipeline.handle(CoordEvent::AssignTick, 0)).unwrap();
    assert_eq!(request.chunks, vec![hash(1)]);
}

#[test]
fn uploads_wait_for_their_turn() {
    let mut queue = UploadQueue::new();
    assert_eq!(queue.available(), UPLOAD_ALLOWANCE);
    assert_eq!(UPLOAD_ALLOWANCE, 20);
    let begun = queue.submit(&assigned("a", 22));
    assert_eq!(begun.len(), 20);
    assert_eq!(begun[0].peer, peer("a"));
    assert_eq!(begun[19].hash, hash(19));
    assert_eq!(begun[19].data, Bytes::from(vec![19u8]));
    assert_eq!(queue.available(), 0);
    assert!(queue.submit(&assigned("b", 1)).is_empty());
    let next = queue.end();
    assert_eq!(next.len(), 1);
    assert_eq!(next[0].hash, hash(20));
    assert_eq!(queue.end()[0].hash, hash(21));
    assert_eq!(queue.end()[0].peer, peer("b"));
    assert!(queue.end().is_empty());
    assert_eq!(queue.available(), 1);
}

#[test]
fn idle_queue_has_nothing_to_end() {
    let mut queue = UploadQueue::new();
    assert!(queue.end().is_empty());
    assert_eq!(queue.available(), 20);
}

#[test]
fn permits_run_out() {
    let mut pipeline = Pipeline::new();
    pipeline.handle(distribute("blob", vec![hash(1)]), 0);
    pipeline.handle(ack("a", 60), 0);
    pipeline.handle(ack("b", 30), 0);
    let request =
        fetched(pipeline.handle(CoordEvent::AssignTick, secs(30) - 1)).unwrap();
    assert_eq!(request.peers.len(), 2);
    let request =
        fetched(pipeline.handle(CoordEvent::AssignTick, secs(30))).unwrap();
    assert_eq!(request.peers, vec![peer("a")]);
    assert!(fetched(pipeline.handle(CoordEvent::AssignTick, secs(60))).is_none());
}

#[test]
fn permit_past_the_end_of_time_has_run_out() {
    let mut pipeline = Pipeline::new();
    pipeline.new_deal("blob".to_string(), hash(0), vec![hash(1)]);
    pipeline.grant_permit(peer("a"), 255, u64::MAX - 5);
    assert!(pipeline.request_chunks(u64::MAX - 5).is_none());
}

#[test]
fn lost_upload_is_due_again() {
    let mut pipeline = Pipeline::new();
    pipeline.handle(distribute("blob", vec![hash(1), hash(2)]), 0);
    pipeline.handle(ack("a", 255), 0);
    let status = ChunkUploadStatus::Inflight { created_at: secs(5), to: peer("a") };
    assert!(matches!(pipeline.handle(report(1, status), secs(5)), CoordAction::Continue));
    let tick = CoordEvent::AssignTick;
    let request = fetched(pipeline.handle(tick, secs(36) - 1)).unwrap();
    assert_eq!(request.chunks, vec![hash(2)]);
    let tick = CoordEvent::AssignTick;
    let request = fetched(pipeline.handle(tick, secs(36))).unwrap();
    assert_eq!(request.chunks, vec![hash(1), hash(2)]);
}

#[test]
fn finalized_chunk_is_not_fetched_again() {
    let mut pipeline = Pipeline::new();
    pipeline.handle(distribute("blob", vec![hash(1), hash(2)]), 0);
    pipeline.handle(ack("a", 255), 0);
    pipeline.handle(report(2, finalized("a")), 0);
    let tick = CoordEvent::AssignTick;
    let request = fetched(pipeline.handle(tick, secs(200))).unwrap();
    assert_eq!(request.chunks, vec![hash(1)]);
}

#[test]
fn store_is_told_when_all_chunks_are_stored() {
    let mut pipeline = Pipeline::new();
    pipeline.handle(distribute("blob", vec![hash(1), hash(2)]), 0);
    assert!(matches!(pipeline.handle(report(2, finalized("a")), 0), CoordAction::Continue));
    let action = pipeline.handle(report(1, finalized("b")), 0);
    assert_eq!(told(action), "blob");
}

#[test]
fn reports_on_other_chunks_are_ignored() {
    let mut pipeline = Pipeline::new();
    assert!(matches!(
        pipeline.update_chunk_status(hash(1), ChunkUploadStatus::Pending),
        ChunkUpdate::NoActiveDeal
    ));
    pipeline.handle(distribute("blob", vec![hash(1)]), 0);
    assert!(matches!(
        pipeline.update_chunk_status(hash(9), ChunkUploadStatus::Pending),
        ChunkUpdate::Unsolicited
    ));
    assert!(matches!(
        pipeline.update_chunk_status(hash(1), ChunkUploadStatus::Pending),
        ChunkUpdate::Recorded
    ));
    assert!(matches!(
        pipeline.handle(report(9, finalized("a")), 0),
        CoordAction::ReportIgnored
    ));
}

#[test]
fn active_deal_stays_when_others_come() {
    let mut pipeline = Pipeline::new();
    pipeline.handle(ack("a", 255), 0);
    pipeline.handle(distribute("first", vec![hash(1)]), 0);
    pipeline.handle(distribute("second", vec![hash(2)]), 0);
    let request = fetched(pipeline.handle(CoordEvent::AssignTick, 0)).unwrap();
    assert_eq!(request.id, "first");
    pipeline.handle(report(1, finalized("a")), 0);
    pipeline.handle(CoordEvent::StoreNotified { delivered: true }, 0);
    let request = fetched(pipeline.handle(CoordEvent::AssignTick, 0)).unwrap();
    assert_eq!(request.id, "first");
    assert!(request.chunks.is_empty());
}

#[test]
fn deal_of_no_chunks_is_finalized() {
    assert!(StorageDeal::new("empty".to_string(), hash(0), vec![]).is_finalized());
    assert!(!StorageDeal::new("blob".to_string(), hash(0), vec![hash(1)]).is_finalized());
}

#[test]
fn closed_channels_end_the_coordinator() {
    let mut pipeline = Pipeline::new();
    assert!(matches!(pipeline.handle(CoordEvent::Handler(None), 0), CoordAction::Stop));
    assert!(matches!(pipeline.handle(CoordEvent::Coord(None), 0), CoordAction::Stop));
    assert!(matches!(pipeline.handle(CoordEvent::Internal(None), 0), CoordAction::Stop));
    assert!(matches!(pipeline.handle(CoordEvent::Pushed { open: false }, 0), CoordAction::Stop));
    assert!(matches!(pipeline.handle(CoordEvent::Pulled { open: false }, 0), CoordAction::Stop));
    assert!(matches!(
        pipeline.handle(CoordEvent::Transferred { open: false }, 0),
        CoordAction::Stop
    ));
    assert!(matches!(
        pipeline.handle(CoordEvent::Transferred { open: true }, 0),
        CoordAction::Continue
    ));
}

#[test]
fn requests_of_peers_change_nothing() {
    let mut pipeline = Pipeline::new();
    let event = CoordEvent::Handler(Some(HandlerMessage::Request {
        peer_id: peer("a"),
        request_id: "2".to_string(),
        request: Request::RequestStoragePermit,
    }));
    assert!(matches!(pipeline.handle(event, 0), CoordAction::Continue));
    assert!(pipeline.request_storage_permits().is_err());
}

#[test]
fn upload_begins_and_ends() {
    let (name, message) = begin_upload(&hash(0xab), &peer("a"), 7);
    assert_eq!(name, "ab".repeat(32));
    let InternalMessage::UpdateChunkStatus { hash: h, new_status } = message;
    assert_eq!(h, hash(0xab));
    assert_eq!(new_status, ChunkUploadStatus::Inflight { created_at: 7, to: peer("a") });
    assert!(end_upload(&hash(0xab), &peer("a"), false, 8).is_none());
    match end_upload(&hash(0xab), &peer("a"), true, 8) {
        Some(InternalMessage::UpdateChunkStatus { hash: h, new_status }) => {
            assert_eq!(h, hash(0xab));
            assert_eq!(new_status, ChunkUploadStatus::Finalized { on: 8, owner: peer("a") });
        }
        None => panic!("no report"),
    }
}

fn reply(present: &[u8], missing: &[u8]) -> Table<Digest, Option<Bytes>> {
    let mut table = Table::new();
    for byte in present {
        table.insert(hash(*byte), Some(Bytes::from(vec![*byte])));
    }
    for byte in missing {
        table.insert(hash(*byte), None);
    }
    table
}

fn share(table: &Table<PeerId, Vec<(Digest, Bytes)>>, name: &str) -> Vec<u8> {
    table.get(&peer(name)).unwrap().iter().map(|(h, data)| {
        assert_eq!(*h, hash(data[0]));
        data[0]
    }).collect()
}

#[test]
fn chunks_are_dealt_in_turn() {
    let peers = vec![peer("a"), peer("b")];
    let table =
        Pipeline::assign_chunks(&peers, Some(reply(&[1, 2, 3, 4, 5], &[6]))).ok().unwrap();
    assert_eq!(table.len(), 2);
    assert_eq!(share(&table, "a"), vec![1, 3, 5]);
    assert_eq!(share(&table, "b"), vec![2, 4]);
}

#[test]
fn peers_without_chunks_get_no_share() {
    let peers = vec![peer("a"), peer("b"), peer("c")];
    let table = Pipeline::assign_chunks(&peers, Some(reply(&[1, 2], &[]))).ok().unwrap();
    assert_eq!(table.len(), 2);
    assert!(!table.contains_key(&peer("c")));
}

#[test]
fn nothing_to_assign() {
    let peers = vec![peer("a")];
    assert_eq!(Pipeline::assign_chunks(&peers, None).err(), Some(AssignError::NoChunks));
    assert_eq!(
        Pipeline::assign_chunks(&peers, Some(reply(&[], &[1]))).err(),
        Some(AssignError::ChunksMissing)
    );
    assert_eq!(
        Pipeline::assign_chunks(&vec![], Some(reply(&[1], &[]))).err(),
        Some(AssignError::NoPeers)
    );
}

#[test]
fn different_chunks_have_different_names() {
    let mut other = hash(7);
    other[31] = 8;
    assert_ne!(begin_upload(&hash(7), &peer("a"), 0).0, begin_upload(&other, &peer("a"), 0).0);
}

#[test]
fn dropping_hints_twice_changes_nothing_more() {
    let mut pipeline = Pipeline::new();
    pipeline.record_hint(peer("a"), 0);
    pipeline.record_hint(peer("b"), secs(100));
    pipeline.begin_next_deal();
    for _ in 0..2 {
        pipeline.drop_stale_hints(secs(300));
        let peers = asked(pipeline.handle(distribute("blob", vec![hash(1)]), secs(300)));
        assert_eq!(peers, vec![peer("b")]);
    }
}
