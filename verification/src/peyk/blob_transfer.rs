//! Moving blobs between peers: a peer pushes a blob to another, or pulls one from it.
//!
//! A push sends the name of a blob and the blob, each in a frame; the answer is one byte, followed,
//! where the push is refused, by a frame with the reason. A pull sends a name in a frame; the answer
//! is one byte, followed, where the blob is there, by a frame with the blob. The name of a blob is
//! its digest in hexadecimal.
use vstd::prelude::*;
use vstd::utf8::{decode_utf8, encode_utf8, is_ascii_chars, valid_utf8};
use crate::blake3_wrapper::{blake3_digest, content_name, hex_digit, lower_hex};
use crate::peyk::frame::{
    append, frame, law_frame_round_trip, parse_frame, read_frame, write_frame,
    FrameError,
};
use crate::peyk::protocol::PeerId;
use crate::text::{join, string_from_utf8, string_from_utf8_lossy, utf8_lossy};

verus! {

/// The protocol name of pushes.
pub const PUSH_PROTOCOL: &'static str = "/gozara/blob-push/1.0.0";

/// The protocol name of pulls.
pub const PULL_PROTOCOL: &'static str = "/gozara/blob-pull/1.0.0";

/// The ceiling on the frame that names a blob: the 64 digits of a name fit under it.
pub const HASH_MAX_LEN: usize = 64;

/// The ceiling on the frame that says why a push is refused.
pub const REASON_MAX_LEN: usize = 4096;

/// Which way a blob moved.
#[derive(Debug, Clone, Copy, PartialEq, Eq, Structural)]
pub enum Direction {
    Push,
    Pull,
}

/// What is told of a transfer that came to an end.
#[derive(Debug, PartialEq, Eq)]
pub struct TransferEvent {
    pub peer: PeerId,
    pub hash: String,
    pub len: usize,
    pub direction: Direction,
    pub ok: bool,
}

/// A blob that a peer pushed.
#[derive(Debug, PartialEq, Eq)]
pub struct IncomingPush {
    pub peer: PeerId,
    pub hash: String,
    pub data: Vec<u8>,
}

/// A blob that a peer asks for.
#[derive(Debug, PartialEq, Eq)]
pub struct IncomingPull {
    pub peer: PeerId,
    pub hash: String,
}

/// Why a transfer failed.
#[derive(Debug, PartialEq, Eq)]
pub enum TransferError {
    /// A frame cannot be written or read.
    Frame { error: FrameError },
    /// The name of a blob is not UTF-8.
    HashNotUtf8,
    /// The peer refused a push.
    Refused { reason: String },
    /// The name of a blob is not that of the data that came with it.
    HashMismatch { direction: Direction, expected: String, actual: String },
}

impl TransferError {
    /// The error in words.
    pub open spec fn text(self) -> Seq<char> {
        match self {
            TransferError::Frame { error } => error.text(),
            TransferError::HashNotUtf8 => "hash was not valid utf-8"@,
            TransferError::Refused { reason } => reason@,
            TransferError::HashMismatch { direction: Direction::Pull, expected, actual } =>
                "Pull hash mismatch, expected `"@ + expected@ + "` but got `"@ + actual@ + "`"@,
            TransferError::HashMismatch { direction: Direction::Push, expected, actual } =>
                "Hash mismatch for incoming push, expected `"@ + expected@ + "` got `"@ + actual@ + "`"@,
        }
    }

    /// The error in words.
    pub fn message(&self) -> (text: String)
        ensures
            text@ == self.text(),
    {
        match self {
            TransferError::Frame { error } => error.message(),
            TransferError::HashNotUtf8 => "hash was not valid utf-8".to_owned(),
            TransferError::Refused { reason } => reason.clone(),
            TransferError::HashMismatch { direction, expected, actual } => match direction {
                Direction::Pull => {
                    let start = join("Pull hash mismatch, expected `", expected.as_str(), "` but got `");
                    join(start.as_str(), actual.as_str(), "`")
                },
                Direction::Push => {
                    let start = join(
                        "Hash mismatch for incoming push, expected `",
                        expected.as_str(),
                        "` got `",
                    );
                    join(start.as_str(), actual.as_str(), "`")
                },
            },
        }
    }
}

/// The view of bytes that may be missing.
pub open spec fn bytes_of(bytes: Option<Vec<u8>>) -> Option<Seq<u8>> {
    match bytes {
        Some(b) => Some(b@),
        None => None,
    }
}

/// The name of a blob.
pub open spec fn name_of(data: Seq<u8>) -> Seq<char> {
    lower_hex(blake3_digest(data))
}

/// Reads the name of a blob.
pub fn hash_from_bytes(bytes: Vec<u8>) -> (hash: Result<String, TransferError>)
    ensures
        valid_utf8(bytes@) ==> (hash matches Ok(h) && h@ == decode_utf8(bytes@)),
        !valid_utf8(bytes@) ==> hash == Err::<String, TransferError>(TransferError::HashNotUtf8),
{
    match string_from_utf8(bytes) {
        Some(hash) => Ok(hash),
        None => Err(TransferError::HashNotUtf8),
    }
}

/// What a push sends.
pub fn push(hash: &str, data: &[u8]) -> (sent: Result<Vec<u8>, FrameError>)
    ensures
        sent is Ok <==> encode_utf8(hash@).len() <= u32::MAX && data@.len() <= u32::MAX,
        sent matches Ok(bytes) ==> bytes@ == frame(encode_utf8(hash@)) + frame(data@),
        encode_utf8(hash@).len() > u32::MAX ==> sent == Err::<Vec<u8>, FrameError>(
            FrameError::TooLarge { len: encode_utf8(hash@).len() as usize },
        ),
        encode_utf8(hash@).len() <= u32::MAX && data@.len() > u32::MAX ==> sent == Err::<Vec<u8>, FrameError>(
            FrameError::TooLarge { len: data@.len() as usize },
        ),
{
    let mut bytes = match write_frame(hash.as_bytes()) {
        Ok(bytes) => bytes,
        Err(error) => return Err(error),
    };
    match write_frame(data) {
        Ok(body) => {
            append(&mut bytes, body.as_slice());
            Ok(bytes)
        },
        Err(error) => Err(error),
    }
}

/// Whether the answer to a push that starts with the given byte goes on with the frame that holds the
/// reason of a refusal.
pub fn reason_follows(tag: u8) -> (follows: bool)
    ensures
        follows == (parse_push_answer(seq![tag]) != Ok::<Option<Seq<u8>>, FrameError>(None)),
{
    tag != 1
}

/// What the answer to a push says: nothing, if the blob was taken; otherwise the reason why not.
pub open spec fn parse_push_answer(stream: Seq<u8>) -> Result<Option<Seq<u8>>, FrameError> {
    if stream.len() == 0 {
        Err(FrameError::Truncated)
    } else if stream[0] == 1 {
        Ok(None)
    } else {
        match parse_frame(stream.skip(1), REASON_MAX_LEN) {
            Ok(reason) => Ok(Some(reason)),
            Err(error) => Err(error),
        }
    }
}

/// Reads the answer to a push: whether the blob was taken, and otherwise the reason why not.
pub fn push_answer(stream: &[u8]) -> (answer: Result<Option<Vec<u8>>, FrameError>)
    ensures
        match answer {
            Ok(refusal) => parse_push_answer(stream@) == Ok::<Option<Seq<u8>>, FrameError>(bytes_of(refusal)),
            Err(error) => parse_push_answer(stream@) == Err::<Option<Seq<u8>>, FrameError>(error),
        },
{
    if stream.len() == 0 {
        return Err(FrameError::Truncated);
    }
    if stream[0] == 1 {
        return Ok(None);
    }
    let rest = vstd::slice::slice_subrange(stream, 1, stream.len());
    assert(rest@ =~= stream@.skip(1));
    match read_frame(rest, REASON_MAX_LEN) {
        Ok(reason) => Ok(Some(reason)),
        Err(error) => Err(error),
    }
}

/// What came of a push that was answered, and what is told of it. `refusal` is the reason why the
/// blob was not taken, if it was not.
pub fn push_outcome(peer: PeerId, hash: String, len: usize, refusal: Option<Vec<u8>>) -> (outcome: (
    Result<(), TransferError>,
    TransferEvent,
))
    ensures
        refusal is None ==> outcome.0 is Ok,
        refusal matches Some(reason) ==> (outcome.0 matches Err(TransferError::Refused { reason: text }) && text@
            == utf8_lossy(reason@) && (valid_utf8(reason@) ==> text@ == decode_utf8(reason@))),
        outcome.1 == (TransferEvent { peer, hash, len, direction: Direction::Push, ok: refusal is None }),
{
    match refusal {
        None => (
            Ok(()),
            TransferEvent { peer, hash, len, direction: Direction::Push, ok: true },
        ),
        Some(reason) => (
            Err(TransferError::Refused { reason: string_from_utf8_lossy(reason.as_slice()) }),
            TransferEvent { peer, hash, len, direction: Direction::Push, ok: false },
        ),
    }
}

/// What a pull sends.
pub fn pull(hash: &str) -> (sent: Result<Vec<u8>, FrameError>)
    ensures
        encode_utf8(hash@).len() <= u32::MAX ==> (sent matches Ok(bytes) && bytes@ == frame(encode_utf8(hash@))),
        encode_utf8(hash@).len() > u32::MAX ==> sent == Err::<Vec<u8>, FrameError>(
            FrameError::TooLarge { len: encode_utf8(hash@).len() as usize },
        ),
{
    write_frame(hash.as_bytes())
}

/// Whether the answer to a pull that starts with the given byte goes on with the frame that holds the
/// blob.
pub fn blob_follows(tag: u8) -> (follows: bool)
    ensures
        follows == (parse_pull_answer(seq![tag], 0) != Ok::<Option<Seq<u8>>, FrameError>(None)),
{
    tag != 0
}

/// What the answer to a pull holds: the blob, if the peer has it.
pub open spec fn parse_pull_answer(stream: Seq<u8>, max_payload_len: usize) -> Result<Option<Seq<u8>>, FrameError> {
    if stream.len() == 0 {
        Err(FrameError::Truncated)
    } else if stream[0] == 0 {
        Ok(None)
    } else {
        match parse_frame(stream.skip(1), max_payload_len) {
            Ok(data) => Ok(Some(data)),
            Err(error) => Err(error),
        }
    }
}

/// Reads the answer to a pull: the blob, if the peer has it.
pub fn pull_answer(stream: &[u8], max_payload_len: usize) -> (answer: Result<Option<Vec<u8>>, FrameError>)
    ensures
        match answer {
            Ok(data) => parse_pull_answer(stream@, max_payload_len) == Ok::<Option<Seq<u8>>, FrameError>(
                bytes_of(data),
            ),
            Err(error) => parse_pull_answer(stream@, max_payload_len) == Err::<Option<Seq<u8>>, FrameError>(
                error,
            ),
        },
{
    if stream.len() == 0 {
        return Err(FrameError::Truncated);
    }
    if stream[0] == 0 {
        return Ok(None);
    }
    let rest = vstd::slice::slice_subrange(stream, 1, stream.len());
    assert(rest@ =~= stream@.skip(1));
    match read_frame(rest, max_payload_len) {
        Ok(data) => Ok(Some(data)),
        Err(error) => Err(error),
    }
}

/// What came of a pull that was answered, and what is told of it. `answer` is what the frame behind
/// the answer holds, if the blob is there, and `received` the name of that.
pub fn check_pulled(peer: PeerId, hash: String, answer: Option<Vec<u8>>, received: String) -> (outcome: (
    Result<Option<Vec<u8>>, TransferError>,
    TransferEvent,
))
    ensures
        answer is None ==> outcome.0 == Ok::<Option<Vec<u8>>, TransferError>(None),
        answer is Some && received@ == hash@ ==> outcome.0 == Ok::<Option<Vec<u8>>, TransferError>(answer),
        answer is Some && received@ != hash@ ==> (outcome.0 matches Err(
            TransferError::HashMismatch { direction: Direction::Pull, expected, actual },
        ) && expected@ == hash@ && actual@ == received@),
        outcome.1 == (TransferEvent {
            peer,
            hash,
            len: (if outcome.0 is Ok && answer is Some {
                answer->Some_0@.len() as usize
            } else {
                0
            }),
            direction: Direction::Pull,
            ok: answer is Some && received@ == hash@,
        }),
{
    match answer {
        None => (
            Ok(None),
            TransferEvent { peer, hash, len: 0, direction: Direction::Pull, ok: false },
        ),
        Some(data) => if received == hash {
            let len: usize = data.len();
            (
                Ok(Some(data)),
                TransferEvent { peer, hash, len, direction: Direction::Pull, ok: true },
            )
        } else {
            (
                Err(
                    TransferError::HashMismatch {
                        direction: Direction::Pull,
                        expected: hash.clone(),
                        actual: received,
                    },
                ),
                TransferEvent { peer, hash, len: 0, direction: Direction::Pull, ok: false },
            )
        },
    }
}

/// What came of a pull that was answered, and what is told of it: a blob counts only if its name is
/// the one that was asked for.
pub fn pull_outcome(peer: PeerId, hash: String, answer: Option<Vec<u8>>) -> (outcome: (
    Result<Option<Vec<u8>>, TransferError>,
    TransferEvent,
))
    ensures
        answer is None ==> outcome.0 == Ok::<Option<Vec<u8>>, TransferError>(None),
        answer matches Some(data) ==> (if name_of(data@) == hash@ {
            outcome.0 == Ok::<Option<Vec<u8>>, TransferError>(answer)
        } else {
            outcome.0 matches Err(
                TransferError::HashMismatch { direction: Direction::Pull, expected, actual },
            ) && expected@ == hash@
                && actual@ == name_of(data@)
        }),
        outcome.1 == (TransferEvent {
            peer,
            hash,
            len: (if outcome.0 is Ok && answer is Some {
                answer->Some_0@.len() as usize
            } else {
                0
            }),
            direction: Direction::Pull,
            ok: answer is Some && name_of(answer->Some_0@) == hash@,
        }),
{
    let received = match &answer {
        Some(data) => content_name(data.as_slice()),
        None => String::new(),
    };
    check_pulled(peer, hash, answer, received)
}

/// What a pushed blob is answered, and what comes of it.
#[derive(Debug, PartialEq, Eq)]
pub struct PushVerdict {
    /// The bytes to answer with.
    pub reply: Vec<u8>,
    /// The blob, if it is taken.
    pub outcome: Result<IncomingPush, TransferError>,
}

/// Why a push is refused.
pub open spec fn refusal(actual: Seq<char>) -> Seq<char> {
    "integrity check failed (got "@ + actual + ")"@
}

/// What a push is answered: `actual` is the name of the data that came, `expected` the name that came
/// with it.
pub open spec fn push_reply(expected: Seq<char>, actual: Seq<char>) -> Seq<u8> {
    if expected == actual {
        seq![1u8]
    } else {
        seq![0u8] + frame(encode_utf8(refusal(actual)))
    }
}

/// The blob is taken if and only if the name that came with it is its own.
pub open spec fn is_verdict(
    verdict: PushVerdict,
    peer: PeerId,
    expected: Seq<char>,
    actual: Seq<char>,
    data: Seq<u8>,
) -> bool {
    &&& verdict.reply@ == push_reply(expected, actual)
    &&& expected == actual ==> (verdict.outcome matches Ok(incoming) && incoming.peer == peer && incoming.hash@
        == actual && incoming.data@ == data)
    &&& expected != actual ==> (verdict.outcome matches Err(
        TransferError::HashMismatch { direction: Direction::Push, expected: e, actual: a },
    ) && e@ == expected && a@ == actual)
}

/// Decides on a pushed blob, given the name that came with it and the name of its data.
pub fn judge_push(peer: PeerId, expected_hash: String, actual_hash: String, data: Vec<u8>) -> (verdict: Result<
    PushVerdict,
    FrameError,
>)
    ensures
        verdict is Ok <==> expected_hash@ == actual_hash@ || encode_utf8(refusal(actual_hash@)).len()
            <= u32::MAX,
        verdict matches Ok(v) ==> is_verdict(v, peer, expected_hash@, actual_hash@, data@),
        verdict matches Err(e) ==> e == (FrameError::TooLarge {
            len: encode_utf8(refusal(actual_hash@)).len() as usize,
        }),
{
    let mut reply: Vec<u8> = Vec::new();
    if actual_hash != expected_hash {
        reply.push(0);
        let reason = join("integrity check failed (got ", actual_hash.as_str(), ")");
        match write_frame(reason.as_str().as_bytes()) {
            Ok(body) => {
                append(&mut reply, body.as_slice());
                assert(reply@ =~= push_reply(expected_hash@, actual_hash@));
                Ok(
                    PushVerdict {
                        reply,
                        outcome: Err(
                            TransferError::HashMismatch {
                                direction: Direction::Push,
                                expected: expected_hash,
                                actual: actual_hash,
                            },
                        ),
                    },
                )
            },
            Err(error) => Err(error),
        }
    } else {
        reply.push(1);
        assert(reply@ =~= push_reply(expected_hash@, actual_hash@));
        Ok(PushVerdict { reply, outcome: Ok(IncomingPush { peer, hash: actual_hash, data }) })
    }
}

/// What a push that comes in holds: the name of the blob, and the blob.
pub open spec fn parse_push(stream: Seq<u8>, max_hash_len: usize, max_payload_len: usize) -> Result<
    (Seq<char>, Seq<u8>),
    TransferError,
> {
    match parse_frame(stream, max_hash_len) {
        Err(error) => Err(TransferError::Frame { error }),
        Ok(hash) => if !valid_utf8(hash) {
            Err(TransferError::HashNotUtf8)
        } else {
            match parse_frame(stream.skip(4 + hash.len() as int), max_payload_len) {
                Err(error) => Err(TransferError::Frame { error }),
                Ok(data) => Ok((decode_utf8(hash), data)),
            }
        },
    }
}

/// Reads a push that comes in, and decides on it: the blob is taken if the name that came with it is
/// its own.
pub fn handle_incoming_push(peer: PeerId, stream: &[u8], max_payload_len: usize) -> (verdict: Result<
    PushVerdict,
    TransferError,
>)
    ensures
        match parse_push(stream@, HASH_MAX_LEN, max_payload_len) {
            Ok((hash, data)) => verdict matches Ok(v) && is_verdict(v, peer, hash, name_of(data), data),
            Err(error) => verdict == Err::<PushVerdict, TransferError>(error),
        },
{
    let name = match read_frame(stream, HASH_MAX_LEN) {
        Ok(name) => name,
        Err(error) => return Err(TransferError::Frame { error }),
    };
    let start: usize = 4 + name.len();
    let expected_hash = match hash_from_bytes(name) {
        Ok(hash) => hash,
        Err(error) => return Err(error),
    };
    let rest = vstd::slice::slice_subrange(stream, start, stream.len());
    assert(rest@ =~= stream@.skip(start as int));
    let data = match read_frame(rest, max_payload_len) {
        Ok(data) => data,
        Err(error) => return Err(TransferError::Frame { error }),
    };
    let actual_hash = content_name(data.as_slice());
    proof {
        lemma_refusal_len(blake3_digest(data@));
    }
    match judge_push(peer, expected_hash, actual_hash, data) {
        Ok(verdict) => Ok(verdict),
        Err(error) => Err(TransferError::Frame { error }),
    }
}

/// Reads a pull that comes in: the name of the blob that is asked for.
pub fn handle_incoming_get(peer: PeerId, stream: &[u8]) -> (incoming: Result<IncomingPull, TransferError>)
    ensures
        match parse_frame(stream@, HASH_MAX_LEN) {
            Err(error) => incoming == Err::<IncomingPull, TransferError>(TransferError::Frame { error }),
            Ok(hash) => if valid_utf8(hash) {
                incoming matches Ok(pull) && pull.peer == peer && pull.hash@ == decode_utf8(hash)
            } else {
                incoming == Err::<IncomingPull, TransferError>(TransferError::HashNotUtf8)
            },
        },
{
    match read_frame(stream, HASH_MAX_LEN) {
        Ok(name) => match hash_from_bytes(name) {
            Ok(hash) => Ok(IncomingPull { peer, hash }),
            Err(error) => Err(error),
        },
        Err(error) => Err(TransferError::Frame { error }),
    }
}

/// What a pull is answered.
pub open spec fn pull_reply(data: Option<Seq<u8>>) -> Seq<u8> {
    match data {
        Some(bytes) => seq![1u8] + frame(bytes),
        None => seq![0u8],
    }
}

impl IncomingPull {
    /// The bytes to answer a pull with: the blob, or that it is not there.
    pub fn respond(self, data: Option<Vec<u8>>) -> (reply: Result<Vec<u8>, FrameError>)
        ensures
            reply is Ok <==> (data matches Some(bytes) ==> bytes@.len() <= u32::MAX),
            reply matches Ok(r) ==> r@ == pull_reply(bytes_of(data)),
            reply matches Err(e) ==> e == (FrameError::TooLarge { len: data->Some_0@.len() as usize }),
    {
        let mut reply: Vec<u8> = Vec::new();
        match data {
            Some(bytes) => {
                reply.push(1);
                match write_frame(bytes.as_slice()) {
                    Ok(body) => {
                        append(&mut reply, body.as_slice());
                        assert(reply@ =~= pull_reply(Some(bytes@)));
                        Ok(reply)
                    },
                    Err(error) => Err(error),
                }
            },
            None => {
                reply.push(0);
                assert(reply@ =~= pull_reply(None));
                Ok(reply)
            },
        }
    }
}

/// The reason why a push is refused fits into a frame.
proof fn lemma_refusal_len(digest: Seq<u8>)
    requires
        digest.len() == 32,
    ensures
        encode_utf8(refusal(lower_hex(digest))).len() == 93,
{
    reveal_strlit("integrity check failed (got ");
    reveal_strlit(")");
    let text = refusal(lower_hex(digest));
    assert(is_ascii_chars(lower_hex(digest))) by {
        lemma_hex_is_ascii(digest);
    }
    assert(is_ascii_chars(text));
    vstd::utf8::is_ascii_chars_encode_utf8(text);
}

proof fn lemma_hex_is_ascii(bytes: Seq<u8>)
    ensures
        is_ascii_chars(lower_hex(bytes)),
{
    assert forall|i: int| 0 <= i < lower_hex(bytes).len() implies '\0' <= #[trigger] lower_hex(bytes)[i] <= '\u{7f}' by {
        let n = if i % 2 == 0 {
            bytes[i / 2] as int / 16
        } else {
            bytes[i / 2] as int % 16
        };
        assert(0 <= n < 16);
        assert(hex_digit(n) as int == if n < 10 {
            48 + n
        } else {
            87 + n
        });
    }
}

/// A peer that is asked for a blob and answers with it is understood: the bytes come out as they went
/// in, if the one who asks takes so many.
pub proof fn law_pull_found(data: Seq<u8>, max_payload_len: usize)
    requires
        data.len() <= u32::MAX,
        data.len() <= max_payload_len,
    ensures
        parse_pull_answer(pull_reply(Some(data)), max_payload_len) == Ok::<Option<Seq<u8>>, FrameError>(
            Some(data),
        ),
{
    law_frame_round_trip(data, Seq::empty(), max_payload_len);
    assert(pull_reply(Some(data)).skip(1) =~= frame(data) + Seq::empty());
}

/// A peer that is asked for a blob and does not have it is understood.
pub proof fn law_pull_missing(max_payload_len: usize)
    ensures
        parse_pull_answer(pull_reply(None), max_payload_len) == Ok::<Option<Seq<u8>>, FrameError>(None),
{
}

/// What a push is answered is understood: a blob that came under its own name counts as taken, and any
/// other as refused, for the reason that was given.
pub proof fn law_push_answered(expected: Seq<char>, data: Seq<u8>)
    requires
        blake3_digest(data).len() == 32,
    ensures
        expected == name_of(data) ==> parse_push_answer(push_reply(expected, name_of(data))) == Ok::<
            Option<Seq<u8>>,
            FrameError,
        >(None),
        expected != name_of(data) ==> parse_push_answer(push_reply(expected, name_of(data))) == Ok::<
            Option<Seq<u8>>,
            FrameError,
        >(Some(encode_utf8(refusal(name_of(data))))),
{
    lemma_refusal_len(blake3_digest(data));
    let reason = encode_utf8(refusal(name_of(data)));
    law_frame_round_trip(reason, Seq::empty(), REASON_MAX_LEN);
    if expected != name_of(data) {
        assert(push_reply(expected, name_of(data)).skip(1) =~= frame(reason) + Seq::empty());
    }
}

/// What a push sends is read as it was sent, if the receiver takes names and blobs so long.
pub proof fn law_push_read(hash: Seq<char>, data: Seq<u8>, max_hash_len: usize, max_payload_len: usize)
    requires
        encode_utf8(hash).len() <= u32::MAX,
        encode_utf8(hash).len() <= max_hash_len,
        data.len() <= u32::MAX,
        data.len() <= max_payload_len,
    ensures
        parse_push(frame(encode_utf8(hash)) + frame(data), max_hash_len, max_payload_len) == Ok::<
            (Seq<char>, Seq<u8>),
            TransferError,
        >((hash, data)),
{
    vstd::utf8::encode_utf8_valid_utf8(hash);
    vstd::utf8::encode_utf8_decode_utf8(hash);
    let name = encode_utf8(hash);
    lemma_first_frame(name, frame(data), max_hash_len);
    lemma_second_frame(frame(name), 4 + name.len() as int, data, max_payload_len);
    lemma_push_parts(frame(name) + frame(data), name, data, max_hash_len, max_payload_len);
}

/// What the frame at the start of the stream holds.
#[verifier::opaque]
spec fn reads(stream: Seq<u8>, max_len: usize, bytes: Seq<u8>) -> bool {
    parse_frame(stream, max_len) == Ok::<Seq<u8>, FrameError>(bytes)
}

proof fn lemma_first_frame(bytes: Seq<u8>, rest: Seq<u8>, max_len: usize)
    requires
        bytes.len() <= u32::MAX,
        bytes.len() <= max_len,
    ensures
        reads(frame(bytes) + rest, max_len, bytes),
{
    reveal(reads);
    law_frame_round_trip(bytes, rest, max_len);
}

proof fn lemma_second_frame(front: Seq<u8>, n: int, bytes: Seq<u8>, max_len: usize)
    requires
        n == front.len(),
        bytes.len() <= u32::MAX,
        bytes.len() <= max_len,
    ensures
        reads((front + frame(bytes)).skip(n), max_len, bytes),
{
    lemma_first_frame(bytes, Seq::empty(), max_len);
    lemma_skip_front(front, frame(bytes));
}

/// A push whose two frames can be read can be read.
proof fn lemma_push_parts(
    stream: Seq<u8>,
    name: Seq<u8>,
    data: Seq<u8>,
    max_hash_len: usize,
    max_payload_len: usize,
)
    requires
        reads(stream, max_hash_len, name),
        valid_utf8(name),
        reads(stream.skip(4 + name.len() as int), max_payload_len, data),
    ensures
        parse_push(stream, max_hash_len, max_payload_len) == Ok::<(Seq<char>, Seq<u8>), TransferError>(
            (decode_utf8(name), data),
        ),
{
    reveal(reads);
}

/// A blob that is pushed under its own name is taken, and whoever pushed it learns so, if the receiver
/// takes blobs so long.
pub proof fn law_genuine_push_is_taken(data: Seq<u8>, max_payload_len: usize)
    requires
        blake3_digest(data).len() == 32,
        data.len() <= u32::MAX,
        data.len() <= max_payload_len,
    ensures
        parse_push(frame(encode_utf8(name_of(data))) + frame(data), HASH_MAX_LEN, max_payload_len) == Ok::<
            (Seq<char>, Seq<u8>),
            TransferError,
        >((name_of(data), data)),
        push_reply(name_of(data), name_of(data)) == seq![1u8],
        parse_push_answer(push_reply(name_of(data), name_of(data))) == Ok::<Option<Seq<u8>>, FrameError>(None),
{
    lemma_name_len(data);
    law_push_read(name_of(data), data, HASH_MAX_LEN, max_payload_len);
    law_push_answered(name_of(data), data);
}

/// A blob that is asked for by its own name is found and comes back as it is, from a peer that has it
/// and answers with it, if the one who asks takes blobs so long. The name that the peer reads is the
/// one that was sent, and what comes back has that name.
pub proof fn law_genuine_pull_is_served(data: Seq<u8>, max_payload_len: usize)
    requires
        blake3_digest(data).len() == 32,
        data.len() <= u32::MAX,
        data.len() <= max_payload_len,
    ensures
        ({
            let sent = frame(encode_utf8(name_of(data)));
            &&& parse_frame(sent, HASH_MAX_LEN) matches Ok(read)
            &&& valid_utf8(read)
            &&& decode_utf8(read) == name_of(data)
        }),
        parse_pull_answer(pull_reply(Some(data)), max_payload_len) == Ok::<Option<Seq<u8>>, FrameError>(
            Some(data),
        ),
{
    lemma_name_len(data);
    law_pull_read(name_of(data), HASH_MAX_LEN);
    law_pull_found(data, max_payload_len);
}

/// The name of a blob takes 64 bytes.
proof fn lemma_name_len(data: Seq<u8>)
    requires
        blake3_digest(data).len() == 32,
    ensures
        encode_utf8(name_of(data)).len() == 64,
{
    lemma_hex_is_ascii(blake3_digest(data));
    vstd::utf8::is_ascii_chars_encode_utf8(name_of(data));
}

proof fn lemma_skip_front(front: Seq<u8>, back: Seq<u8>)
    ensures
        (front + back).skip(front.len() as int) == back,
        back + Seq::<u8>::empty() == back,
{
    assert((front + back).skip(front.len() as int) =~= back);
    assert(back + Seq::<u8>::empty() =~= back);
}

/// What a pull sends is read as it was sent, if the receiver takes names so long.
pub proof fn law_pull_read(hash: Seq<char>, max_hash_len: usize)
    requires
        encode_utf8(hash).len() <= u32::MAX,
        encode_utf8(hash).len() <= max_hash_len,
    ensures
        parse_frame(frame(encode_utf8(hash)), max_hash_len) == Ok::<Seq<u8>, FrameError>(encode_utf8(hash)),
        valid_utf8(encode_utf8(hash)),
        decode_utf8(encode_utf8(hash)) == hash,
{
    let name = encode_utf8(hash);
    assert(parse_frame(frame(name), max_hash_len) == Ok::<Seq<u8>, FrameError>(name)) by {
        law_frame_round_trip(name, Seq::empty(), max_hash_len);
        lemma_skip_front(name, frame(name));
    }
    vstd::utf8::encode_utf8_valid_utf8(hash);
    vstd::utf8::encode_utf8_decode_utf8(hash);
}

/// A pushed blob that is taken is the one that its name says.
pub proof fn law_taken_blob_is_genuine(verdict: PushVerdict, peer: PeerId, expected: Seq<char>, data: Seq<u8>)
    requires
        is_verdict(verdict, peer, expected, name_of(data), data),
        verdict.outcome is Ok,
    ensures
        verdict.outcome->Ok_0.hash@ == expected,
        verdict.outcome->Ok_0.hash@ == name_of(verdict.outcome->Ok_0.data@),
{
}

/// The name of a blob is its digest in hexadecimal.
pub proof fn law_name_is_the_digest(data: Seq<u8>)
    ensures
        name_of(data) == lower_hex(blake3_digest(data)),
{
}

/// Bytes that are there are seen as they are.
pub proof fn law_bytes_that_are_there(bytes: Option<Vec<u8>>)
    ensures
        bytes_of(bytes) is Some <==> bytes is Some,
        bytes matches Some(b) ==> bytes_of(bytes) == Some(b@),
{
}

/// The answer to a push says that the blob was taken if and only if its first byte is one; otherwise
/// what follows is a frame of at most 4096 bytes, which holds the reason.
pub proof fn law_push_answer_is_read(stream: Seq<u8>, reason: Seq<u8>)
    ensures
        parse_push_answer(stream) == Ok::<Option<Seq<u8>>, FrameError>(None) <==> stream.len() > 0 && stream[0] == 1,
        parse_push_answer(stream) == Ok::<Option<Seq<u8>>, FrameError>(Some(reason)) <==> stream.len() > 0
            && stream[0] != 1 && parse_frame(stream.skip(1), 4096) == Ok::<Seq<u8>, FrameError>(reason),
        stream.len() == 0 ==> parse_push_answer(stream) == Err::<Option<Seq<u8>>, FrameError>(
            FrameError::Truncated,
        ),
        forall|error: FrameError|
            stream.len() > 0 ==> (#[trigger] parse_push_answer(stream) == Err::<Option<Seq<u8>>, FrameError>(error)
                <==> stream[0] != 1 && parse_frame(stream.skip(1), 4096) == Err::<Seq<u8>, FrameError>(error)),
{
}

/// The answer to a pull says that the blob is not there if and only if its first byte is zero;
/// otherwise what follows is a frame, which holds the blob.
pub proof fn law_pull_answer_is_read(stream: Seq<u8>, max_payload_len: usize, data: Seq<u8>)
    ensures
        parse_pull_answer(stream, max_payload_len) == Ok::<Option<Seq<u8>>, FrameError>(None) <==> stream.len() > 0
            && stream[0] == 0,
        parse_pull_answer(stream, max_payload_len) == Ok::<Option<Seq<u8>>, FrameError>(Some(data))
            <==> stream.len() > 0 && stream[0] != 0 && parse_frame(stream.skip(1), max_payload_len) == Ok::<
            Seq<u8>,
            FrameError,
        >(data),
        stream.len() == 0 ==> parse_pull_answer(stream, max_payload_len) == Err::<
            Option<Seq<u8>>,
            FrameError,
        >(FrameError::Truncated),
        forall|error: FrameError|
            stream.len() > 0 ==> (#[trigger] parse_pull_answer(stream, max_payload_len) == Err::<
                Option<Seq<u8>>,
                FrameError,
            >(error) <==> stream[0] != 0 && parse_frame(stream.skip(1), max_payload_len) == Err::<
                Seq<u8>,
                FrameError,
            >(error)),
{
}

/// A push that comes in is read as two frames in a row: the first holds the name, in UTF-8, and the
/// second the blob. Whatever is wrong with the first comes before what is wrong with the second.
pub proof fn law_incoming_push_is_read(
    stream: Seq<u8>,
    max_hash_len: usize,
    max_payload_len: usize,
    first: Seq<u8>,
    second: Seq<u8>,
    error: FrameError,
)
    ensures
        parse_frame(stream, max_hash_len) == Err::<Seq<u8>, FrameError>(error) ==> parse_push(
            stream,
            max_hash_len,
            max_payload_len,
        ) == Err::<(Seq<char>, Seq<u8>), TransferError>(TransferError::Frame { error }),
        parse_frame(stream, max_hash_len) == Ok::<Seq<u8>, FrameError>(first) && !valid_utf8(first)
            ==> parse_push(stream, max_hash_len, max_payload_len) == Err::<
            (Seq<char>, Seq<u8>),
            TransferError,
        >(TransferError::HashNotUtf8),
        parse_frame(stream, max_hash_len) == Ok::<Seq<u8>, FrameError>(first) && valid_utf8(first)
            && parse_frame(stream.skip(4 + first.len() as int), max_payload_len) == Err::<Seq<u8>, FrameError>(
            error,
        ) ==> parse_push(stream, max_hash_len, max_payload_len) == Err::<(Seq<char>, Seq<u8>), TransferError>(
            TransferError::Frame { error },
        ),
        parse_frame(stream, max_hash_len) == Ok::<Seq<u8>, FrameError>(first) && valid_utf8(first)
            && parse_frame(stream.skip(4 + first.len() as int), max_payload_len) == Ok::<Seq<u8>, FrameError>(
            second,
        ) ==> parse_push(stream, max_hash_len, max_payload_len) == Ok::<(Seq<char>, Seq<u8>), TransferError>(
            (decode_utf8(first), second),
        ),
{
}

/// A pushed blob is taken, and answered with a one, if and only if it came under its own name; the
/// one who pushed, the name and the bytes are handed on as they came. Any other is answered with a
/// zero and the reason, in a frame.
pub proof fn law_push_is_judged_by_its_name(
    verdict: PushVerdict,
    peer: PeerId,
    expected: Seq<char>,
    actual: Seq<char>,
    data: Seq<u8>,
)
    requires
        is_verdict(verdict, peer, expected, actual, data),
    ensures
        verdict.outcome is Ok <==> expected == actual,
        verdict.outcome is Ok <==> verdict.reply@ == seq![1u8],
        verdict.outcome matches Ok(taken) ==> taken.peer == peer && taken.hash@ == expected && taken.data@ == data,
        verdict.outcome matches Err(error) ==> (error matches TransferError::HashMismatch {
            direction,
            expected: e,
            actual: a,
        } && direction is Push && e@ == expected && a@ == actual),
        verdict.outcome is Err ==> verdict.reply@.len() > 0 && verdict.reply@[0] == 0 && verdict.reply@.skip(1)
            == frame(encode_utf8("integrity check failed (got "@ + actual + ")"@)),
{
    if expected != actual {
        let reason = frame(encode_utf8("integrity check failed (got "@ + actual + ")"@));
        assert(verdict.reply@ =~= seq![0u8] + reason);
        assert(verdict.reply@.skip(1) =~= reason);
        assert(verdict.reply@[0] == 0);
    }
}

/// A pull is answered with a zero alone if the blob is not there, and with a one and the blob, in a
/// frame, if it is.
pub proof fn law_pull_is_answered(data: Option<Seq<u8>>)
    ensures
        data is None ==> pull_reply(data) == seq![0u8],
        data matches Some(bytes) ==> pull_reply(data)[0] == 1 && pull_reply(data).skip(1) == frame(bytes),
{
    if let Some(bytes) = data {
        assert(pull_reply(data).skip(1) =~= frame(bytes));
    }
}

/// The errors on transfers in words.
pub proof fn law_transfer_errors_in_words(error: FrameError, reason: String, expected: String, actual: String)
    ensures
        (TransferError::Frame { error }).text() == error.text(),
        TransferError::HashNotUtf8.text() == "hash was not valid utf-8"@,
        (TransferError::Refused { reason }).text() == reason@,
        (TransferError::HashMismatch { direction: Direction::Pull, expected, actual }).text()
            == "Pull hash mismatch, expected `"@ + expected@ + "` but got `"@ + actual@ + "`"@,
        (TransferError::HashMismatch { direction: Direction::Push, expected, actual }).text()
            == "Hash mismatch for incoming push, expected `"@ + expected@ + "` got `"@ + actual@ + "`"@,
{
}

} // verus!
