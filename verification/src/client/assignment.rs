//! Dealing chunks out to peers in turn.
use vstd::prelude::*;
use bytes::Bytes;
use crate::blake3_wrapper::Digest;
use crate::client::coordinator::{peer_names, Pipeline};
use crate::payload::{bytes_clone, content, content_of};
use crate::peyk::protocol::PeerId;
use crate::seqs::{lemma_filter_members, lemma_filter_no_duplicates};
use crate::table::Table;

verus! {

/// What the blob store answered: the bytes of each requested chunk, where it has them.
pub open spec fn answers(reply: Table<Digest, Option<Bytes>>) -> Map<Seq<u8>, Option<Seq<u8>>> {
    reply@.map_values(|data: Option<Bytes>| content_of(data))
}

/// The chunks that an answer holds, in the order of their digests, each with its digest.
pub open spec fn present(
    order: Seq<Seq<u8>>,
    found: Map<Seq<u8>, Option<Seq<u8>>>,
) -> Seq<(Seq<u8>, Seq<u8>)> {
    order.filter(|h: Seq<u8>| found[h] is Some).map_values(|h: Seq<u8>| (h, found[h]->Some_0))
}

/// Chunks with their digests.
pub open spec fn named(chunks: Seq<(Digest, Bytes)>) -> Seq<(Seq<u8>, Seq<u8>)> {
    chunks.map_values(|c: (Digest, Bytes)| (c.0@, content(c.1)))
}

/// The chunks that each peer is to get.
pub open spec fn shares(
    assignments: Map<Seq<char>, Vec<(Digest, Bytes)>>,
) -> Map<Seq<char>, Seq<(Seq<u8>, Seq<u8>)>> {
    assignments.map_values(|chunks: Vec<(Digest, Bytes)>| named(chunks@))
}

/// What a peer was dealt; nothing if it has no share.
pub open spec fn share_of<C>(dealt: Map<Seq<char>, Seq<C>>, peer: Seq<char>) -> Seq<C> {
    if dealt.contains_key(peer) {
        dealt[peer]
    } else {
        Seq::empty()
    }
}

/// Deals chunks out to peers in turn: the first chunk to the first peer, the next one to the next,
/// and after the last peer to the first again.
pub open spec fn deal_out<C>(peers: Seq<Seq<char>>, chunks: Seq<C>) -> Map<Seq<char>, Seq<C>>
    decreases chunks.len(),
{
    if chunks.len() == 0 {
        Map::empty()
    } else {
        let dealt = deal_out(peers, chunks.drop_last());
        let peer = peers[(chunks.len() - 1) % peers.len() as int];
        dealt.insert(peer, share_of(dealt, peer).push(chunks.last()))
    }
}

/// Why no chunks could be assigned.
#[derive(Debug, Clone, Copy, PartialEq, Eq, Structural)]
pub enum AssignError {
    /// The blob store does not have the blob.
    NoChunks,
    /// The blob store has none of the chunks.
    ChunksMissing,
    /// There is no peer to assign them to.
    NoPeers,
}

/// The chunks that an answer holds.
fn take_present(reply: &Table<Digest, Option<Bytes>>) -> (chunks: Vec<(Digest, Bytes)>)
    requires
        reply.wf(),
    ensures
        named(chunks@) == present(reply.order(), answers(*reply)),
{
    let mut chunks: Vec<(Digest, Bytes)> = Vec::new();
    let ghost order = reply.order();
    let ghost found = answers(*reply);
    let ghost has = |h: Seq<u8>| found[h] is Some;
    let ghost entry = |h: Seq<u8>| (h, found[h]->Some_0);
    let mut i: usize = 0;
    proof {
        reveal(Seq::filter);
        assert(order.take(0).filter(has) =~= Seq::empty());
    }
    while i < reply.len()
        invariant
            0 <= i <= order.len(),
            reply.wf(),
            order == reply.order(),
            found == answers(*reply),
            has == (|h: Seq<u8>| found[h] is Some),
            entry == (|h: Seq<u8>| (h, found[h]->Some_0)),
            named(chunks@) =~= order.take(i as int).filter(has).map_values(entry),
        decreases order.len() - i,
    {
        proof {
            reveal(Seq::filter);
            reply.lemma_order();
            assert(order.take(i + 1).drop_last() =~= order.take(i as int));
            assert(order.take(i + 1).last() == order[i as int]);
            assert(order.contains(order[i as int]));
            assert(found[order[i as int]] == content_of(reply@[order[i as int]]));
        }
        match reply.value_at(i) {
            Some(data) => {
                let hash: Digest = *reply.key_at(i);
                let copy = bytes_clone(data);
                chunks.push((hash, copy));
                proof {
                    assert(named(chunks@) =~= named(chunks@.drop_last()).push((hash@, content(copy))));
                    let taken = order.take(i as int).filter(has);
                    assert(taken.push(hash@).map_values(entry) =~= taken.map_values(entry).push(entry(hash@)));
                }
            },
            None => {},
        }
        i += 1;
    }
    proof {
        assert(order.take(i as int) =~= order);
    }
    chunks
}

impl Pipeline {
    /// Deals the chunks that the blob store handed out to the peers in turn.
    pub fn assign_chunks(
        peers: &Vec<PeerId>,
        reply: Option<Table<Digest, Option<Bytes>>>,
    ) -> (assigned: Result<Table<PeerId, Vec<(Digest, Bytes)>>, AssignError>)
        requires
            reply matches Some(r) ==> r.wf(),
        ensures
            assigned == Err::<Table<PeerId, Vec<(Digest, Bytes)>>, AssignError>(AssignError::NoChunks)
                <==> reply is None,
            assigned == Err::<Table<PeerId, Vec<(Digest, Bytes)>>, AssignError>(AssignError::ChunksMissing)
                <==> (reply matches Some(r) && present(r.order(), answers(r)).len() == 0),
            assigned == Err::<Table<PeerId, Vec<(Digest, Bytes)>>, AssignError>(AssignError::NoPeers)
                <==> (reply matches Some(r) && present(r.order(), answers(r)).len() > 0 && peers@.len() == 0),
            assigned matches Ok(table) ==> {
                &&& table.wf()
                &&& reply is Some
                &&& shares(table@) == deal_out(
                    peer_names(peers@),
                    present(reply->Some_0.order(), answers(reply->Some_0)),
                )
            },
    {
        let reply = match reply {
            Some(r) => r,
            None => return Err(AssignError::NoChunks),
        };
        let chunks = take_present(&reply);
        let ghost all = named(chunks@);
        assert(all.len() == chunks@.len());
        if chunks.len() == 0 {
            return Err(AssignError::ChunksMissing);
        }
        if peers.len() == 0 {
            return Err(AssignError::NoPeers);
        }
        let ghost names = peer_names(peers@);
        let mut assignments: Table<PeerId, Vec<(Digest, Bytes)>> = Table::new();
        let num_peers: usize = peers.len();
        let mut peer_index: usize = 0;
        let mut i: usize = 0;
        proof {
            assert(shares(assignments@) =~= Map::empty());
            assert(all.take(0) =~= Seq::empty());
        }
        while i < chunks.len()
            invariant
                0 <= i <= chunks@.len(),
                peers@.len() > 0,
                names == peer_names(peers@),
                all == named(chunks@),
                num_peers == peers@.len(),
                peer_index < num_peers,
                peer_index == i as int % peers@.len() as int,
                assignments.wf(),
                shares(assignments@) == deal_out(names, all.take(i as int)),
            decreases chunks@.len() - i,
        {
            let ghost before = assignments@;
            let peer = peers[peer_index].clone();
            let ghost name = peer@;
            let chunk = (chunks[i].0, bytes_clone(&chunks[i].1));
            let ghost item = (chunk.0@, content(chunk.1));
            proof {
                assert(all.take(i + 1).drop_last() =~= all.take(i as int));
                assert(all.take(i + 1).last() == item);
                assert(names[peer_index as int] == name);
            }
            match assignments.replace(&peer, Vec::new()) {
                Some(mut share) => {
                    let ghost had = share@;
                    share.push(chunk);
                    proof {
                        assert(named(share@) =~= named(had).push(item));
                    }
                    assignments.insert(peer, share);
                    proof {
                        assert(shares(assignments@) =~= shares(before).insert(name, named(had).push(item)));
                    }
                },
                None => {
                    let mut share: Vec<(Digest, Bytes)> = Vec::new();
                    share.push(chunk);
                    proof {
                        assert(named(share@) =~= Seq::empty().push(item));
                    }
                    assignments.insert(peer, share);
                    proof {
                        assert(shares(assignments@) =~= shares(before).insert(name, Seq::empty().push(item)));
                    }
                },
            }
            proof {
                lemma_next_turn(i as int, peers@.len() as int);
            }
            peer_index = if peer_index + 1 == num_peers {
                0
            } else {
                peer_index + 1
            };
            i += 1;
        }
        assert(all.take(i as int) =~= all);
        Ok(assignments)
    }
}

proof fn lemma_next_turn(i: int, n: int)
    requires
        n > 0,
        i >= 0,
    ensures
        (i + 1) % n == if i % n + 1 == n {
            0
        } else {
            i % n + 1
        },
{
    vstd::arithmetic::div_mod::lemma_fundamental_div_mod(i, n);
    let q = i / n;
    let r = i % n;
    assert(i == n * q + r);
    if r + 1 == n {
        assert(i + 1 == (q + 1) * n + 0) by (nonlinear_arith)
            requires
                i == n * q + r,
                r + 1 == n,
        ;
        vstd::arithmetic::div_mod::lemma_fundamental_div_mod_converse(i + 1, n, q + 1, 0);
    } else {
        assert(i + 1 == q * n + (r + 1)) by (nonlinear_arith)
            requires
                i == n * q + r,
        ;
        vstd::arithmetic::div_mod::lemma_fundamental_div_mod_converse(i + 1, n, q, r + 1);
    }
}

/// The number of chunks that peer `i` of `n` gets when `len` chunks are dealt out.
pub open spec fn share_len(len: int, n: int, i: int) -> int {
    if i < len {
        (len - 1 - i) / n + 1
    } else {
        0
    }
}

/// The position of the chunk that peer `i` of `n` gets in round `k`.
pub open spec fn turn(i: int, k: int, n: int) -> int {
    i + k * n
}

/// The share consists of the chunks that come at the turns of peer `i` of `n`.
pub open spec fn is_turns_of<C>(share: Seq<C>, chunks: Seq<C>, i: int, n: int) -> bool {
    forall|k: int|
        #![trigger share[k]]
        #![trigger turn(i, k, n)]
        0 <= k < share.len() ==> 0 <= turn(i, k, n) < chunks.len() && share[k] == chunks[turn(i, k, n)]
}

/// Of `n` peers, the one at `i` gets the chunks at `i`, `i + n`, `i + 2n` and so on, and no other:
/// every chunk goes to exactly one peer.
pub proof fn law_round_robin<C>(peers: Seq<Seq<char>>, chunks: Seq<C>, i: int)
    requires
        peers.no_duplicates(),
        0 <= i < peers.len(),
    ensures
        deal_out(peers, chunks).contains_key(peers[i]) <==> i < chunks.len(),
        share_of(deal_out(peers, chunks), peers[i]).len() == share_len(
            chunks.len() as int,
            peers.len() as int,
            i,
        ),
        is_turns_of(share_of(deal_out(peers, chunks), peers[i]), chunks, i, peers.len() as int),
    decreases chunks.len(),
{
    let n = peers.len() as int;
    if chunks.len() > 0 {
        let front = chunks.drop_last();
        let j = chunks.len() - 1;
        law_round_robin(peers, front, i);
        vstd::arithmetic::div_mod::lemma_fundamental_div_mod(j, n);
        let dealt = deal_out(peers, front);
        let share = share_of(dealt, peers[i]);
        if i < j {
            vstd::arithmetic::div_mod::lemma_fundamental_div_mod(j - 1 - i, n);
            vstd::arithmetic::div_mod::lemma_fundamental_div_mod(j - i, n);
        }
        if j % n == i {
            let k = share.len() as int;
            lemma_turn_of(i, j, n);
            assert(k * n + i == j);
            assert(share_len(j + 1, n, i) == k + 1);
            let now = share_of(deal_out(peers, chunks), peers[i]);
            assert(now == share.push(chunks.last()));
            assert forall|m: int| 0 <= m < now.len() implies 0 <= #[trigger] turn(i, m, n) < chunks.len()
                && now[m] == chunks[turn(i, m, n)] by {
                if m < k {
                    assert(now[m] == share[m]);
                    assert(0 <= turn(i, m, n) < front.len());
                }
            }
        } else {
            assert(peers[j % n] != peers[i]);
            lemma_not_turn_of(i, j, n);
            let now = share_of(deal_out(peers, chunks), peers[i]);
            assert(now == share);
            assert forall|m: int| 0 <= m < now.len() implies 0 <= #[trigger] turn(i, m, n) < chunks.len()
                && now[m] == chunks[turn(i, m, n)] by {
                assert(now[m] == share[m]);
            }
        }
    }
}

proof fn lemma_turn_of(i: int, j: int, n: int)
    requires
        0 <= i < n,
        0 <= j,
        j % n == i,
    ensures
        i <= j,
        share_len(j, n, i) * n + i == j,
        share_len(j + 1, n, i) == share_len(j, n, i) + 1,
{
    vstd::arithmetic::div_mod::lemma_fundamental_div_mod(j, n);
    let q = j / n;
    assert(j == n * q + i);
    assert(0 <= q) by (nonlinear_arith)
        requires
            j == n * q + i,
            0 <= j,
            i < n,
            0 < n,
    ;
    assert(j - i == q * n + 0) by (nonlinear_arith)
        requires
            j == n * q + i,
    ;
    vstd::arithmetic::div_mod::lemma_fundamental_div_mod_converse(j - i, n, q, 0);
    if i < j {
        assert(j - 1 - i == (q - 1) * n + (n - 1)) by (nonlinear_arith)
            requires
                j - i == q * n,
        ;
        vstd::arithmetic::div_mod::lemma_fundamental_div_mod_converse(j - 1 - i, n, q - 1, n - 1);
    } else {
        assert(q == 0) by (nonlinear_arith)
            requires
                j - i == q * n,
                j <= i,
                0 <= q,
                0 < n,
        ;
    }
}

proof fn lemma_not_turn_of(i: int, j: int, n: int)
    requires
        0 <= i < n,
        0 <= j,
        j % n != i,
    ensures
        share_len(j + 1, n, i) == share_len(j, n, i),
{
    if i <= j {
        vstd::arithmetic::div_mod::lemma_fundamental_div_mod(j - i, n);
        let q = (j - i) / n;
        let r = (j - i) % n;
        assert(j - i == n * q + r);
        if r == 0 {
            assert(j == q * n + i) by (nonlinear_arith)
                requires
                    j - i == n * q + r,
                    r == 0,
            ;
            vstd::arithmetic::div_mod::lemma_fundamental_div_mod_converse(j, n, q, i);
        }
        assert(i < j);
        assert(j - 1 - i == q * n + (r - 1)) by (nonlinear_arith)
            requires
                j - i == n * q + r,
        ;
        vstd::arithmetic::div_mod::lemma_fundamental_div_mod_converse(j - 1 - i, n, q, r - 1);
    }
}

/// No peer gets more than one chunk more than another.
pub proof fn law_shares_balanced<C>(peers: Seq<Seq<char>>, chunks: Seq<C>, i: int, j: int)
    requires
        peers.no_duplicates(),
        0 <= i < peers.len(),
        0 <= j < peers.len(),
    ensures
        share_of(deal_out(peers, chunks), peers[i]).len() <= share_of(
            deal_out(peers, chunks),
            peers[j],
        ).len() + 1,
{
    law_round_robin(peers, chunks, i);
    law_round_robin(peers, chunks, j);
    let len = chunks.len() as int;
    let n = peers.len() as int;
    if i < len {
        if j < len {
            let a = len - 1 - i;
            let b = len - 1 - j;
            assert(a / n <= b / n + 1) by (nonlinear_arith)
                requires
                    a <= b + n,
                    0 < n,
                    0 <= a,
                    0 <= b,
            ;
        } else {
            vstd::arithmetic::div_mod::lemma_basic_div(len - 1 - i, n);
        }
    }
}

/// Every chunk is dealt: chunk `j` goes to peer `j mod n`, in round `j div n`.
pub proof fn law_every_chunk_dealt<C>(peers: Seq<Seq<char>>, chunks: Seq<C>, j: int)
    requires
        peers.no_duplicates(),
        peers.len() > 0,
        0 <= j < chunks.len(),
    ensures
        deal_out(peers, chunks).contains_key(peers[j % peers.len() as int]),
        0 <= j / (peers.len() as int) < deal_out(peers, chunks)[peers[j % peers.len() as int]].len(),
        deal_out(peers, chunks)[peers[j % peers.len() as int]][j / peers.len() as int] == chunks[j],
{
    let n = peers.len() as int;
    let i = j % n;
    let k = j / n;
    vstd::arithmetic::div_mod::lemma_fundamental_div_mod(j, n);
    vstd::arithmetic::div_mod::lemma_div_pos_is_pos(j, n);
    assert(j == k * n + i) by (nonlinear_arith)
        requires
            j == n * k + i,
    ;
    assert(i <= j) by (nonlinear_arith)
        requires
            j == k * n + i,
            0 <= k,
            0 < n,
    ;
    law_round_robin(peers, chunks, i);
    let len = chunks.len() as int;
    assert(j - i == k * n + 0);
    vstd::arithmetic::div_mod::lemma_fundamental_div_mod_converse(j - i, n, k, 0);
    vstd::arithmetic::div_mod::lemma_div_is_ordered(j - i, len - 1 - i, n);
    assert(turn(i, k, n) == j);
}

/// Of `n` peers, the one at `i` gets the chunk at `i + k * n` in round `k`, for as many rounds as there
/// are such chunks, and nothing else; nobody else gets any.
pub proof fn law_every_nth_chunk<C>(peers: Seq<Seq<char>>, chunks: Seq<C>, i: int, k: int, other: Seq<char>)
    requires
        peers.no_duplicates(),
        0 <= i < peers.len(),
        0 <= k,
    ensures
        deal_out(peers, chunks).contains_key(peers[i]) <==> i < chunks.len(),
        i < chunks.len() ==> (k < deal_out(peers, chunks)[peers[i]].len() <==> i + k * peers.len() < chunks.len()),
        i + k * peers.len() < chunks.len() ==> deal_out(peers, chunks)[peers[i]][k] == chunks[i + k * peers.len()],
        deal_out(peers, chunks).contains_key(other) ==> peers.contains(other),
{
    let n = peers.len() as int;
    let len = chunks.len() as int;
    law_round_robin(peers, chunks, i);
    lemma_only_peers(peers, chunks, other);
    assert(0 <= k * n) by (nonlinear_arith)
        requires
            0 <= k,
            0 < n,
    ;
    if i < len {
        let m = len - 1 - i;
        let q = m / n;
        vstd::arithmetic::div_mod::lemma_fundamental_div_mod(m, n);
        if k <= q {
            assert(k * n <= m) by (nonlinear_arith)
                requires
                    k <= q,
                    m == n * q + m % n,
                    0 <= m % n,
                    0 < n,
            ;
        } else {
            assert(k * n > m) by (nonlinear_arith)
                requires
                    k >= q + 1,
                    m == n * q + m % n,
                    m % n < n,
                    0 < n,
            ;
        }
        assert(turn(i, k, n) == i + k * n);
    }
}

/// Chunks are dealt to peers only.
proof fn lemma_only_peers<C>(peers: Seq<Seq<char>>, chunks: Seq<C>, peer: Seq<char>)
    requires
        peers.len() > 0,
    ensures
        deal_out(peers, chunks).contains_key(peer) ==> peers.contains(peer),
    decreases chunks.len(),
{
    if chunks.len() > 0 {
        lemma_only_peers(peers, chunks.drop_last(), peer);
        let i = (chunks.len() - 1) % peers.len() as int;
        assert(peers.contains(peers[i]));
    }
}

/// The chunks that an answer holds are those that the blob store has, each once, with its digest and
/// its bytes.
pub proof fn law_chunks_that_are_present(reply: Table<Digest, Option<Bytes>>)
    requires
        reply.wf(),
    ensures
        forall|k: int|
            0 <= k < present(reply.order(), answers(reply)).len() ==> {
                let (hash, data) = #[trigger] present(reply.order(), answers(reply))[k];
                reply@.contains_key(hash) && (reply@[hash] matches Some(bytes) && content(bytes) == data)
            },
        forall|i: int, j: int|
            0 <= i < j < present(reply.order(), answers(reply)).len() ==> (#[trigger] present(
                reply.order(),
                answers(reply),
            )[i]).0 != (#[trigger] present(reply.order(), answers(reply))[j]).0,
        forall|hash: Seq<u8>| #[trigger]
            reply@.contains_key(hash) && reply@[hash] is Some ==> exists|k: int|
                0 <= k < present(reply.order(), answers(reply)).len() && (#[trigger] present(
                    reply.order(),
                    answers(reply),
                )[k]).0 == hash,
{
    let found = answers(reply);
    let has = |h: Seq<u8>| found[h] is Some;
    let taken = reply.order().filter(has);
    let all = present(reply.order(), found);
    reply.lemma_order();
    lemma_filter_members(reply.order(), has);
    lemma_filter_no_duplicates(reply.order(), has);
    assert forall|k: int| 0 <= k < all.len() implies {
        let (hash, data) = #[trigger] all[k];
        reply@.contains_key(hash) && (reply@[hash] matches Some(bytes) && content(bytes) == data)
    } by {
        assert(taken.contains(taken[k]));
        assert(reply.order().contains(taken[k]));
        assert(found[taken[k]] == content_of(reply@[taken[k]]));
    }
    assert forall|i: int, j: int| 0 <= i < j < all.len() implies (#[trigger] all[i]).0 != (#[trigger] all[j]).0 by {
        assert(taken[i] != taken[j]);
    }
    assert forall|hash: Seq<u8>| #[trigger] reply@.contains_key(hash) && reply@[hash] is Some implies exists|k: int|
        0 <= k < all.len() && (#[trigger] all[k]).0 == hash by {
        assert(reply.order().contains(hash));
        assert(found[hash] == content_of(reply@[hash]));
        assert(taken.contains(hash));
        let k = taken.index_of(hash);
        assert(all[k].0 == hash);
    }
}

/// The shares of an assignment are seen as they are: under each peer the digests and the bytes of its
/// chunks, in order.
pub proof fn law_shares_in_place(assignments: Map<Seq<char>, Vec<(Digest, Bytes)>>, peer: Seq<char>)
    ensures
        shares(assignments).contains_key(peer) <==> assignments.contains_key(peer),
        assignments.contains_key(peer) ==> shares(assignments)[peer].len() == assignments[peer]@.len(),
        assignments.contains_key(peer) ==> forall|k: int|
            0 <= k < assignments[peer]@.len() ==> (#[trigger] shares(assignments)[peer][k]).0
                == assignments[peer]@[k].0@ && shares(assignments)[peer][k].1 == content(assignments[peer]@[k].1),
{
}

/// What is assigned to peers is what the blob store handed out: every chunk that it has goes to a
/// peer, to one only and once only, with its own bytes, and nothing else is assigned to anyone.
pub proof fn law_chunks_are_assigned_once(
    peers: Vec<PeerId>,
    reply: Table<Digest, Option<Bytes>>,
    assigned: Table<PeerId, Vec<(Digest, Bytes)>>,
)
    requires
        reply.wf(),
        peers@.len() > 0,
        forall|i: int, j: int| 0 <= i < j < peers@.len() ==> (#[trigger] peers@[i])@ != (#[trigger] peers@[j])@,
        shares(assigned@) == deal_out(peer_names(peers@), present(reply.order(), answers(reply))),
    ensures
        forall|p: Seq<char>, k: int| #[trigger]
            is_assigned(assigned@, p, k) ==> {
                &&& exists|i: int| 0 <= i < peers@.len() && (#[trigger] peers@[i])@ == p
                &&& reply@.contains_key(assigned@[p]@[k].0@)
                &&& reply@[assigned@[p]@[k].0@] matches Some(bytes) && content(bytes) == content(assigned@[p]@[k].1)
            },
        forall|p: Seq<char>, k: int, q: Seq<char>, m: int|
            (#[trigger] is_assigned(assigned@, p, k) && #[trigger] is_assigned(assigned@, q, m)
                && assigned@[p]@[k].0@ == assigned@[q]@[m].0@) ==> p == q && k == m,
        forall|hash: Seq<u8>| #[trigger]
            reply@.contains_key(hash) && reply@[hash] is Some ==> exists|p: Seq<char>, k: int|
                #[trigger] is_assigned(assigned@, p, k) && assigned@[p]@[k].0@ == hash,
{
    let names = peer_names(peers@);
    let chunks = present(reply.order(), answers(reply));
    let n = names.len() as int;
    let dealt = deal_out(names, chunks);
    law_chunks_that_are_present(reply);
    assert(names.no_duplicates()) by {
        assert forall|i: int, j: int| 0 <= i < names.len() && 0 <= j < names.len() && i != j implies names[i]
            != names[j] by {
            if i < j {
                assert(peers@[i]@ != peers@[j]@);
            } else {
                assert(peers@[j]@ != peers@[i]@);
            }
        }
    }
    assert forall|p: Seq<char>, k: int| #[trigger] is_assigned(assigned@, p, k) implies {
        let at = names.index_of(p) + k * n;
        &&& names.contains(p)
        &&& 0 <= names.index_of(p) < n
        &&& names[names.index_of(p)] == p
        &&& 0 <= at < chunks.len()
        &&& assigned@[p]@[k].0@ == chunks[at].0
        &&& content(assigned@[p]@[k].1) == chunks[at].1
    } by {
        law_shares_in_place(assigned@, p);
        lemma_only_peers(names, chunks, p);
        let i = names.index_of(p);
        law_every_nth_chunk(names, chunks, i, k, p);
        assert(dealt[p][k] == (assigned@[p]@[k].0@, content(assigned@[p]@[k].1)));
        assert(0 <= k * n) by (nonlinear_arith)
            requires
                0 <= k,
                0 < n,
        ;
    }
    assert forall|p: Seq<char>, k: int| #[trigger] is_assigned(assigned@, p, k) implies {
        &&& exists|i: int| 0 <= i < peers@.len() && (#[trigger] peers@[i])@ == p
        &&& reply@.contains_key(assigned@[p]@[k].0@)
        &&& reply@[assigned@[p]@[k].0@] matches Some(bytes) && content(bytes) == content(assigned@[p]@[k].1)
    } by {
        let i = names.index_of(p);
        assert(peers@[i]@ == p);
        let at = i + k * n;
        assert(chunks[at].0 == assigned@[p]@[k].0@);
    }
    assert forall|p: Seq<char>, k: int, q: Seq<char>, m: int|
        (#[trigger] is_assigned(assigned@, p, k) && #[trigger] is_assigned(assigned@, q, m) && assigned@[p]@[k].0@
            == assigned@[q]@[m].0@) implies p == q && k == m by {
        let i = names.index_of(p);
        let j = names.index_of(q);
        let at = i + k * n;
        let there = j + m * n;
        assert(chunks[at].0 == chunks[there].0);
        assert(at == there);
        assert(k == m && i == j) by (nonlinear_arith)
            requires
                i + k * n == j + m * n,
                0 <= i < n,
                0 <= j < n,
        ;
    }
    assert forall|hash: Seq<u8>| #[trigger] reply@.contains_key(hash) && reply@[hash] is Some implies exists|
        p: Seq<char>,
        k: int,
    | #[trigger] is_assigned(assigned@, p, k) && assigned@[p]@[k].0@ == hash by {
        let j = choose|j: int| 0 <= j < chunks.len() && (#[trigger] chunks[j]).0 == hash;
        law_every_chunk_dealt(names, chunks, j);
        let p = names[j % n];
        let k = j / n;
        law_shares_in_place(assigned@, p);
        assert(is_assigned(assigned@, p, k));
        assert(dealt[p][k].0 == assigned@[p]@[k].0@);
    }
}

/// There is a chunk at place `k` of the share of the peer.
pub open spec fn is_assigned(assigned: Map<Seq<char>, Vec<(Digest, Bytes)>>, peer: Seq<char>, k: int) -> bool {
    assigned.contains_key(peer) && 0 <= k < assigned[peer]@.len()
}

} // verus!
