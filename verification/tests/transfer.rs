use gozara::blake3_wrapper::content_name;
use gozara::peyk::blob_transfer::{
    blob_follows, check_pulled, handle_incoming_get, handle_incoming_push, hash_from_bytes,
    judge_push, pull, pull_answer, pull_outcome, push, push_answer, push_outcome, reason_follows,
    Direction, IncomingPull, TransferError, TransferEvent, HASH_MAX_LEN, PULL_PROTOCOL,
    PUSH_PROTOCOL, REASON_MAX_LEN,
};
use gozara::peyk::frame::{frame_len, read_frame, write_frame, FrameError};
use gozara::peyk::protocol::PeerId;

const MAX_PAYLOAD: usize = 8_388_608;

fn peer() -> PeerId {
    PeerId::new("12D3KooWTest".to_string())
}

#[test]
fn protocol_names() {
    assert_eq!(PUSH_PROTOCOL, "/gozara/blob-push/1.0.0");
    assert_eq!(PULL_PROTOCOL, "/gozara/blob-pull/1.0.0");
}

#[test]
fn frame_layout() {
    assert_eq!(write_frame(b"hi"), Ok(vec![0, 0, 0, 2, b'h', b'i']));
    assert_eq!(write_frame(b""), Ok(vec![0, 0, 0, 0]));
    let long = write_frame(&vec![7u8; 66_051]).unwrap();
    assert_eq!(&long[..4], &[0, 1, 2, 3]);
    assert_eq!(long.len(), 66_055);
}

#[test]
fn frame_round_trip() {
    let mut bytes = write_frame(b"chunk").unwrap();
    bytes.extend_from_slice(b"more");
    assert_eq!(read_frame(&bytes, 5), Ok(b"chunk".to_vec()));
}

#[test]
fn frame_over_the_limit() {
    let bytes = write_frame(b"chunk").unwrap();
    assert_eq!(read_frame(&bytes, 4), Err(FrameError::ExceedsLimit { len: 5, max_len: 4 }));
    assert_eq!(
        frame_len(&[0, 0, 1, 0], 255),
        Err(FrameError::ExceedsLimit { len: 256, max_len: 255 })
    );
    assert_eq!(frame_len(&[0, 0, 1, 0], 256), Ok(256));
}

#[test]
fn frame_cut_short() {
    assert_eq!(read_frame(&[0, 0, 0], 9), Err(FrameError::Truncated));
    assert_eq!(read_frame(&[0, 0, 0, 2, 1], 9), Err(FrameError::Truncated));
}

#[test]
fn hash_is_text() {
    assert_eq!(hash_from_bytes(b"caf\xc3\xa9".to_vec()), Ok("caf\u{e9}".to_string()));
    assert_eq!(hash_from_bytes(vec![0xff, 0xfe]), Err(TransferError::HashNotUtf8));
}

#[test]
fn push_sends_name_and_data() {
    assert_eq!(push("ab", b"xyz"), Ok(vec![0, 0, 0, 2, b'a', b'b', 0, 0, 0, 3, b'x', b'y', b'z']));
}

#[test]
fn push_taken() {
    assert_eq!(push_answer(&[1]), Ok(None));
    let (result, event) = push_outcome(peer(), "ab".to_string(), 3, None);
    assert_eq!(result, Ok(()));
    assert_eq!(
        event,
        TransferEvent {
            peer: peer(),
            hash: "ab".to_string(),
            len: 3,
            direction: Direction::Push,
            ok: true
        }
    );
}

#[test]
fn push_refused() {
    let mut answer = vec![0u8];
    answer.extend_from_slice(&write_frame(b"no room").unwrap());
    let refusal = push_answer(&answer).unwrap();
    assert_eq!(refusal, Some(b"no room".to_vec()));
    let (result, event) = push_outcome(peer(), "ab".to_string(), 3, refusal);
    assert_eq!(result, Err(TransferError::Refused { reason: "no room".to_string() }));
    assert!(!event.ok);
    assert_eq!(event.len, 3);
}

#[test]
fn push_refused_in_broken_text() {
    let (result, _) = push_outcome(peer(), "ab".to_string(), 3, Some(vec![b'a', 0xff]));
    assert_eq!(result, Err(TransferError::Refused { reason: "a\u{fffd}".to_string() }));
}

#[test]
fn push_answer_that_is_not_one() {
    assert_eq!(push_answer(&[]), Err(FrameError::Truncated));
    assert_eq!(push_answer(&[0]), Err(FrameError::Truncated));
    assert_eq!(
        push_answer(&[2, 0, 0, 16, 1]),
        Err(FrameError::ExceedsLimit { len: 4097, max_len: REASON_MAX_LEN })
    );
}

#[test]
fn pull_sends_the_name() {
    assert_eq!(pull("ab"), Ok(vec![0, 0, 0, 2, b'a', b'b']));
}

#[test]
fn pull_finds_nothing() {
    let reply = IncomingPull { peer: peer(), hash: "ab".to_string() }.respond(None).unwrap();
    assert_eq!(reply, vec![0]);
    assert_eq!(pull_answer(&reply, MAX_PAYLOAD), Ok(None));
    let (result, event) = pull_outcome(peer(), "ab".to_string(), None);
    assert_eq!(result, Ok(None));
    assert_eq!(
        event,
        TransferEvent {
            peer: peer(),
            hash: "ab".to_string(),
            len: 0,
            direction: Direction::Pull,
            ok: false
        }
    );
}

#[test]
fn pull_finds_the_blob() {
    let data = b"a blob".to_vec();
    let name = content_name(&data);
    let incoming = IncomingPull { peer: peer(), hash: name.clone() };
    let reply = incoming.respond(Some(data.clone())).unwrap();
    assert_eq!(reply[0], 1);
    let answer = pull_answer(&reply, MAX_PAYLOAD).unwrap();
    assert_eq!(answer, Some(data.clone()));
    let (result, event) = pull_outcome(peer(), name, answer);
    assert_eq!(result, Ok(Some(data)));
    assert!(event.ok);
    assert_eq!(event.len, 6);
}

#[test]
fn pull_gets_another_blob() {
    let name = content_name(b"wanted");
    let (result, event) = pull_outcome(peer(), name.clone(), Some(b"other".to_vec()));
    assert_eq!(
        result,
        Err(TransferError::HashMismatch {
            direction: Direction::Pull,
            expected: name,
            actual: content_name(b"other")
        })
    );
    assert!(!event.ok);
    assert_eq!(event.len, 0);
}

#[test]
fn pulled_blob_is_checked_by_name() {
    let (result, _) =
        check_pulled(peer(), "n".to_string(), Some(b"data".to_vec()), "n".to_string());
    assert_eq!(result, Ok(Some(b"data".to_vec())));
    let (result, _) =
        check_pulled(peer(), "n".to_string(), Some(b"data".to_vec()), "m".to_string());
    assert_eq!(
        result,
        Err(TransferError::HashMismatch {
            direction: Direction::Pull,
            expected: "n".to_string(),
            actual: "m".to_string()
        })
    );
}

#[test]
fn pull_answer_that_is_not_one() {
    assert_eq!(pull_answer(&[], 9), Err(FrameError::Truncated));
    assert_eq!(
        pull_answer(&[1, 0, 0, 0, 10], 9),
        Err(FrameError::ExceedsLimit { len: 10, max_len: 9 })
    );
}

#[test]
fn pushed_blob_under_its_own_name() {
    let name = content_name(b"data");
    let verdict =
        judge_push(peer(), name.clone(), content_name(b"data"), b"data".to_vec()).unwrap();
    assert_eq!(verdict.reply, vec![1]);
    let taken = verdict.outcome.unwrap();
    assert_eq!(taken.peer, peer());
    assert_eq!(taken.hash, name);
    assert_eq!(taken.data, b"data".to_vec());
}

#[test]
fn pushed_blob_under_another_name() {
    let stream = push("short", b"data").unwrap();
    let verdict = handle_incoming_push(peer(), &stream, MAX_PAYLOAD).unwrap();
    let actual = content_name(b"data");
    assert_eq!(
        verdict.outcome,
        Err(TransferError::HashMismatch {
            direction: Direction::Push,
            expected: "short".to_string(),
            actual: actual.clone()
        })
    );
    let reason = push_answer(&verdict.reply).unwrap().unwrap();
    assert_eq!(
        String::from_utf8(reason).unwrap(),
        format!("integrity check failed (got {})", actual)
    );
}

#[test]
fn genuine_push_is_taken() {
    let name = content_name(b"data");
    let stream = push(&name, b"data").unwrap();
    let verdict = handle_incoming_push(peer(), &stream, MAX_PAYLOAD).unwrap();
    assert_eq!(verdict.reply, vec![1]);
    let taken = verdict.outcome.unwrap();
    assert_eq!(taken.peer, peer());
    assert_eq!(taken.hash, name);
    assert_eq!(taken.data, b"data".to_vec());
    assert_eq!(push_answer(&verdict.reply), Ok(None));
}

#[test]
fn genuine_pull_is_served() {
    let name = content_name(b"data");
    let stream = pull(&name).unwrap();
    let incoming = handle_incoming_get(peer(), &stream).unwrap();
    assert_eq!(incoming.hash, name);
    let reply = incoming.respond(Some(b"data".to_vec())).unwrap();
    let answer = pull_answer(&reply, MAX_PAYLOAD).unwrap();
    let (result, event) = pull_outcome(peer(), name, answer);
    assert_eq!(result, Ok(Some(b"data".to_vec())));
    assert!(event.ok);
}

#[test]
fn pushed_name_over_the_ceiling() {
    let stream = push(&"a".repeat(65), b"data").unwrap();
    assert_eq!(
        handle_incoming_push(peer(), &stream, MAX_PAYLOAD),
        Err(TransferError::Frame {
            error: FrameError::ExceedsLimit { len: 65, max_len: HASH_MAX_LEN }
        })
    );
}

#[test]
fn answers_that_go_on() {
    assert!(!reason_follows(1));
    assert!(reason_follows(0));
    assert!(reason_follows(2));
    assert!(!blob_follows(0));
    assert!(blob_follows(1));
    assert!(blob_follows(2));
}

#[test]
fn errors_in_words() {
    assert_eq!(
        FrameError::ExceedsLimit { len: 4097, max_len: 10 }.message(),
        "frame of 4097 bytes exceeds 10-byte limit"
    );
    assert_eq!(
        FrameError::ExceedsLimit { len: usize::MAX, max_len: 0 }.message(),
        format!("frame of {} bytes exceeds 0-byte limit", usize::MAX)
    );
    let too_large = u32::try_from(u64::MAX).unwrap_err();
    assert_eq!(FrameError::TooLarge { len: 1 << 33 }.message(), too_large.to_string());
    let eof = std::io::Error::from(std::io::ErrorKind::UnexpectedEof);
    assert_eq!(FrameError::Truncated.message(), eof.to_string());
    assert_eq!(
        TransferError::Frame { error: FrameError::Truncated }.message(),
        FrameError::Truncated.message()
    );
    assert_eq!(TransferError::HashNotUtf8.message(), "hash was not valid utf-8");
    assert_eq!(TransferError::Refused { reason: "no room".to_string() }.message(), "no room");
    let mismatch = |direction| TransferError::HashMismatch {
        direction,
        expected: "a".to_string(),
        actual: "b".to_string(),
    };
    assert_eq!(
        mismatch(Direction::Pull).message(),
        "Pull hash mismatch, expected `a` but got `b`"
    );
    assert_eq!(
        mismatch(Direction::Push).message(),
        "Hash mismatch for incoming push, expected `a` got `b`"
    );
}

#[test]
fn pushed_blob_too_large() {
    let stream = push("short", b"data").unwrap();
    assert_eq!(
        handle_incoming_push(peer(), &stream, 3),
        Err(TransferError::Frame { error: FrameError::ExceedsLimit { len: 4, max_len: 3 } })
    );
}

#[test]
fn pushed_name_not_text() {
    assert_eq!(
        handle_incoming_push(peer(), &[0, 0, 0, 1, 0xff, 0, 0, 0, 0], MAX_PAYLOAD),
        Err(TransferError::HashNotUtf8)
    );
}

#[test]
fn push_cut_short() {
    assert_eq!(
        handle_incoming_push(peer(), &[0, 0, 0, 1, b'a'], MAX_PAYLOAD),
        Err(TransferError::Frame { error: FrameError::Truncated })
    );
}

#[test]
fn pull_request_is_read() {
    let stream = pull("short").unwrap();
    assert_eq!(
        handle_incoming_get(peer(), &stream),
        Ok(IncomingPull { peer: peer(), hash: "short".to_string() })
    );
    assert_eq!(
        handle_incoming_get(peer(), &[0, 0, 0, 1, 0xff]),
        Err(TransferError::HashNotUtf8)
    );
    assert_eq!(
        handle_incoming_get(peer(), &[0, 0, 0, 65]),
        Err(TransferError::Frame { error: FrameError::ExceedsLimit { len: 65, max_len: 64 } })
    );
}
