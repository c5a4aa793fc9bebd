//! The verified core of a peer-to-peer blob store.
//!
//! A blob is cut into chunks, every chunk is named by its BLAKE3 digest, and the chunks are spread
//! over the peers that offered to store them. This crate holds what decides and computes: the blob
//! stores, the coordinator of uploads, the wire format of transfers, and the reactions to network
//! events. Sockets, clocks and tasks are left to the program around it.

pub mod blake3_wrapper;
pub mod chunking;
pub mod client;
pub mod identity;
pub mod node;
pub mod payload;
pub mod peyk;
pub mod seqs;
pub mod setup;
pub mod status;
pub mod table;
pub mod text;
