//! The peer-to-peer layer.
pub mod blob_transfer;
pub mod frame;
pub mod protocol;
pub mod swarm;

use vstd::prelude::*;
use bytes::Bytes;
use crate::blake3_wrapper::Digest;
use crate::table::Table;
use self::protocol::{PeerId, Request, Response};

verus! {

/// What the swarm is asked to do.
pub enum SwarmMessage {
    /// Ask these peers for permission to store chunks with them.
    RequestStoragePermits { peers: Vec<PeerId> },
    /// Store these chunks with these peers.
    Store { chunks: Table<PeerId, Vec<(Digest, Bytes)>> },
}

/// What the swarm hands on to whoever handles inbound messages.
pub enum HandlerMessage {
    /// The peer let it be known that it would store chunks.
    WouldStore { peer_id: PeerId },
    /// The peer asks something. The channel for the answer stays with the transport, which knows it by
    /// the id of the request.
    Request { peer_id: PeerId, request_id: String, request: Request },
    /// The peer answered the request that has the id.
    Response { peer_id: PeerId, request_id: String, response: Response },
}

} // verus!
