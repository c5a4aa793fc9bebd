# gozara

The core of a peer-to-peer blob store, verified with Verus.

A client cuts a blob into chunks of 4 MiB, names every chunk by its BLAKE3 digest, and has other
peers store the chunks. A node keeps the blobs that are handed to it over HTTP and passes them on to
the network. What decides and computes is in `src/`, with contracts that Verus proves; what waits,
listens and sends is in `app/`.

- `src/client/`: the blob store of a client, the coordinator and the queue of its uploads, and how
  chunks are dealt out to peers. `custody.rs` and `deals.rs` hold the laws that every event keeps.
- `src/node/`: the blob store of a node, its bridge, its configuration and its network.
- `src/peyk/`: the wire format of transfers, and what is done about events in the swarm.
- `src/chunking.rs`, `src/blake3_wrapper.rs`: chunks, digests and Merkle trees.
- `src/identity.rs`, `src/setup.rs`: keys, peer ids and addresses, and how a member goes public.
- `src/table.rs`, `src/status.rs`, `src/payload.rs`, `src/text.rs`, `src/seqs.rs`: what the others
  are built on.

Functions marked `#[verifier::external_body]` call other crates. Their contracts are not proved; the
comment above each says what is relied on.
