//! Uploads that run and uploads that wait for their turn.
use std::collections::VecDeque;
use vstd::prelude::*;
use bytes::Bytes;
use crate::blake3_wrapper::Digest;
use crate::client::assignment::{named, shares};
use crate::client::coordinator::first_of;
use crate::payload::{bytes_clone, content};
use crate::peyk::protocol::PeerId;
use crate::seqs::{lemma_filter_all, lemma_filter_concat, lemma_filter_members};
use crate::table::Table;

verus! {

/// How many uploads may run at a time.
pub const UPLOAD_ALLOWANCE: usize = 20;

/// A chunk that is to be pushed to a peer.
pub struct Upload {
    pub peer: PeerId,
    pub hash: Digest,
    pub data: Bytes,
}

/// The view of an [`Upload`].
pub struct UploadModel {
    pub peer: Seq<char>,
    pub hash: Seq<u8>,
    pub data: Seq<u8>,
}

impl View for Upload {
    type V = UploadModel;

    open spec fn view(&self) -> UploadModel {
        UploadModel { peer: self.peer@, hash: self.hash@, data: content(self.data) }
    }
}

/// The views of a list of uploads.
pub open spec fn upload_views(uploads: Seq<Upload>) -> Seq<UploadModel> {
    uploads.map_values(|u: Upload| u@)
}

/// The uploads of the chunks that one peer is to get.
pub open spec fn uploads_to(peer: Seq<char>, chunks: Seq<(Seq<u8>, Seq<u8>)>) -> Seq<UploadModel> {
    chunks.map_values(|c: (Seq<u8>, Seq<u8>)| UploadModel { peer, hash: c.0, data: c.1 })
}

/// The uploads of the chunks that the peers are to get, peer by peer.
pub open spec fn uploads_for(
    peers: Seq<Seq<char>>,
    dealt: Map<Seq<char>, Seq<(Seq<u8>, Seq<u8>)>>,
) -> Seq<UploadModel>
    decreases peers.len(),
{
    if peers.len() == 0 {
        Seq::empty()
    } else {
        uploads_for(peers.drop_last(), dealt) + uploads_to(peers.last(), dealt[peers.last()])
    }
}

/// The uploads that assignments call for.
pub open spec fn uploads_of(assignments: Table<PeerId, Vec<(Digest, Bytes)>>) -> Seq<UploadModel> {
    uploads_for(assignments.order(), shares(assignments@))
}

/// The view of an [`UploadQueue`].
#[verifier::ext_equal]
pub struct UploadsModel {
    /// The uploads that wait, in the order in which they came.
    pub waiting: Seq<UploadModel>,
    /// The number of uploads that were begun and have not ended.
    pub in_flight: nat,
}

impl UploadsModel {
    /// Nothing runs and nothing waits.
    pub open spec fn idle() -> Self {
        UploadsModel { waiting: Seq::empty(), in_flight: 0 }
    }

    /// No more uploads run than may, and none waits that could run.
    pub open spec fn is_bounded(self) -> bool {
        &&& self.in_flight <= UPLOAD_ALLOWANCE
        &&& self.waiting.len() > 0 ==> self.in_flight == UPLOAD_ALLOWANCE
    }

    /// The number of uploads that may be begun.
    pub open spec fn available(self) -> nat {
        (UPLOAD_ALLOWANCE - self.in_flight) as nat
    }

    /// The waiting uploads that may be begun.
    pub open spec fn ready(self) -> Seq<UploadModel> {
        first_of(self.waiting, self.available())
    }

    /// The waiting uploads that may be begun are.
    pub open spec fn begin(self) -> Self {
        UploadsModel {
            waiting: self.waiting.skip(self.ready().len() as int),
            in_flight: self.in_flight + self.ready().len(),
        }
    }

    /// More uploads come.
    pub open spec fn with(self, more: Seq<UploadModel>) -> Self {
        UploadsModel { waiting: self.waiting + more, ..self }
    }

    /// An upload ends, if one runs.
    pub open spec fn without_one(self) -> Self {
        UploadsModel {
            in_flight: if self.in_flight > 0 {
                (self.in_flight - 1) as nat
            } else {
                0
            },
            ..self
        }
    }
}

/// Uploads that run and uploads that wait for their turn.
pub struct UploadQueue {
    waiting: VecDeque<Upload>,
    in_flight: usize,
}

impl UploadQueue {
    pub closed spec fn wf(self) -> bool {
        self@.is_bounded()
    }

    pub closed spec fn view(self) -> UploadsModel {
        UploadsModel { waiting: upload_views(self.waiting@), in_flight: self.in_flight as nat }
    }

    /// The view of a valid queue is bounded.
    pub proof fn lemma_wf(self)
        requires
            self.wf(),
        ensures
            self@.is_bounded(),
    {
    }

    /// A queue in which nothing runs and nothing waits.
    pub fn new() -> (queue: Self)
        ensures
            queue.wf(),
            queue@ == UploadsModel::idle(),
    {
        let queue = UploadQueue { waiting: VecDeque::new(), in_flight: 0 };
        assert(queue@ =~= UploadsModel::idle());
        queue
    }

    /// The number of uploads that may be begun.
    pub fn available(&self) -> (n: usize)
        requires
            self.wf(),
        ensures
            n == self@.available(),
    {
        UPLOAD_ALLOWANCE - self.in_flight
    }

    /// Takes down the chunks that a peer is to get.
    fn line_up(&mut self, peer: &PeerId, chunks: &Vec<(Digest, Bytes)>)
        ensures
            final(self)@ == old(self)@.with(uploads_to(peer@, named(chunks@))),
    {
        let ghost more = uploads_to(peer@, named(chunks@));
        let mut i: usize = 0;
        while i < chunks.len()
            invariant
                0 <= i <= chunks@.len(),
                more == uploads_to(peer@, named(chunks@)),
                self.in_flight == old(self).in_flight,
                upload_views(self.waiting@) =~= upload_views(old(self).waiting@) + more.take(i as int),
            decreases chunks@.len() - i,
        {
            let upload = Upload {
                peer: peer.clone(),
                hash: chunks[i].0,
                data: bytes_clone(&chunks[i].1),
            };
            proof {
                assert(named(chunks@)[i as int] == (chunks@[i as int].0@, content(chunks@[i as int].1)));
                assert(upload@ == more[i as int]);
                assert(more.take(i + 1) =~= more.take(i as int).push(upload@));
            }
            let ghost before = self.waiting@;
            self.waiting.push_back(upload);
            proof {
                assert(upload_views(self.waiting@) =~= upload_views(before).push(upload@));
            }
            i += 1;
        }
        assert(more.take(i as int) =~= more);
    }

    /// Begins the waiting uploads that may be begun, and hands them out.
    fn begin(&mut self) -> (begun: Vec<Upload>)
        requires
            old(self)@.in_flight <= UPLOAD_ALLOWANCE,
        ensures
            final(self).wf(),
            final(self)@ == old(self)@.begin(),
            upload_views(begun@) == old(self)@.ready(),
    {
        let mut begun: Vec<Upload> = Vec::new();
        let ghost all = old(self)@.waiting;
        while self.in_flight < UPLOAD_ALLOWANCE && self.waiting.len() > 0
            invariant
                all == old(self)@.waiting,
                begun@.len() <= all.len(),
                self.in_flight <= UPLOAD_ALLOWANCE,
                self.in_flight == old(self).in_flight + begun@.len(),
                upload_views(begun@) =~= all.take(begun@.len() as int),
                upload_views(self.waiting@) =~= all.skip(begun@.len() as int),
            decreases self.waiting@.len(),
        {
            let ghost n = begun@.len() as int;
            let ghost before = self.waiting@;
            proof {
                assert(upload_views(before).len() == before.len());
                assert(all.skip(n).len() == all.len() - n);
                assert(upload_views(before)[0] == all.skip(n)[0]);
            }
            match self.waiting.pop_front() {
                Some(upload) => {
                    begun.push(upload);
                    self.in_flight = self.in_flight + 1;
                    proof {
                        assert(all.take(n + 1) =~= all.take(n).push(all[n]));
                        assert(upload_views(begun@) =~= all.take(n).push(upload@));
                        assert(self.waiting@ =~= before.skip(1));
                        assert(upload_views(self.waiting@) =~= all.skip(n + 1)) by {
                            assert forall|j: int| 0 <= j < self.waiting@.len() implies upload_views(
                                self.waiting@,
                            )[j] == all.skip(n + 1)[j] by {
                                assert(upload_views(before)[j + 1] == all.skip(n)[j + 1]);
                            }
                        }
                    }
                },
                None => {},
            }
        }
        proof {
            assert(upload_views(self.waiting@).len() == self.waiting@.len());
            assert(upload_views(begun@) =~= old(self)@.ready());
            assert(self@ =~= old(self)@.begin());
        }
        begun
    }

    /// Takes down the uploads that assignments call for, begins those that may be begun, and hands
    /// them out.
    pub fn submit(&mut self, assignments: &Table<PeerId, Vec<(Digest, Bytes)>>) -> (begun: Vec<Upload>)
        requires
            old(self).wf(),
            assignments.wf(),
        ensures
            final(self).wf(),
            final(self)@ == old(self)@.with(uploads_of(*assignments)).begin(),
            upload_views(begun@) == old(self)@.with(uploads_of(*assignments)).ready(),
    {
        let ghost order = assignments.order();
        let ghost dealt = shares(assignments@);
        let mut i: usize = 0;
        proof {
            assert(order.take(0) =~= Seq::empty());
            assert(self@ =~= old(self)@.with(uploads_for(order.take(0), dealt)));
        }
        while i < assignments.len()
            invariant
                0 <= i <= order.len(),
                assignments.wf(),
                order == assignments.order(),
                dealt == shares(assignments@),
                old(self)@.is_bounded(),
                self@ == old(self)@.with(uploads_for(order.take(i as int), dealt)),
            decreases order.len() - i,
        {
            proof {
                assignments.lemma_order();
                assert(order.contains(order[i as int]));
                assert(assignments@.contains_key(order[i as int]));
                assert(order.take(i + 1).drop_last() =~= order.take(i as int));
                assert(order.take(i + 1).last() == order[i as int]);
            }
            self.line_up(assignments.key_at(i), assignments.value_at(i));
            proof {
                assert(self@ =~= old(self)@.with(uploads_for(order.take(i + 1), dealt)));
            }
            i += 1;
        }
        assert(order.take(i as int) =~= order);
        self.begin()
    }

    /// An upload ended. Begins one that waits, if one does, and hands it out.
    pub fn end(&mut self) -> (begun: Vec<Upload>)
        requires
            old(self).wf(),
        ensures
            final(self).wf(),
            final(self)@ == old(self)@.without_one().begin(),
            upload_views(begun@) == old(self)@.without_one().ready(),
    {
        if self.in_flight > 0 {
            self.in_flight = self.in_flight - 1;
        }
        assert(self@ =~= old(self)@.without_one());
        self.begin()
    }
}

/// What happens to a queue of uploads.
pub enum UploadStep {
    /// More uploads come.
    Submitted(Seq<UploadModel>),
    /// An upload that runs ends.
    Ended,
}

/// The queue after a step, and the uploads that are begun in it.
pub open spec fn step(queue: UploadsModel, what: UploadStep) -> (UploadsModel, Seq<UploadModel>) {
    match what {
        UploadStep::Submitted(more) => (queue.with(more).begin(), queue.with(more).ready()),
        UploadStep::Ended => (queue.without_one().begin(), queue.without_one().ready()),
    }
}

/// What became of a queue in which nothing ran and nothing waited.
pub struct History {
    pub queue: UploadsModel,
    /// The uploads that came.
    pub came: Seq<UploadModel>,
    /// The uploads that were begun, in order.
    pub begun: Seq<UploadModel>,
    /// The number of uploads that ended.
    pub ended: nat,
}

/// What became of the queue in a number of steps.
pub open spec fn history(steps: Seq<UploadStep>) -> History
    decreases steps.len(),
{
    if steps.len() == 0 {
        History { queue: UploadsModel::idle(), came: Seq::empty(), begun: Seq::empty(), ended: 0 }
    } else {
        let past = history(steps.drop_last());
        let (queue, begun) = step(past.queue, steps.last());
        History {
            queue,
            came: match steps.last() {
                UploadStep::Submitted(more) => past.came + more,
                UploadStep::Ended => past.came,
            },
            begun: past.begun + begun,
            ended: if steps.last() is Ended && past.queue.in_flight > 0 {
                past.ended + 1
            } else {
                past.ended
            },
        }
    }
}

/// Whatever comes and ends, never more than twenty uploads are between their beginning
/// and their end; and uploads are begun in the order in which they came, none of them lost or begun
/// twice.
pub proof fn law_uploads_stay_within_allowance(steps: Seq<UploadStep>)
    ensures
        history(steps).queue.is_bounded(),
        history(steps).begun.len() - history(steps).ended == history(steps).queue.in_flight,
        history(steps).begun.len() - history(steps).ended <= 20,
        history(steps).queue.waiting.len() > 0 ==> history(steps).begun.len() - history(steps).ended == 20,
        history(steps).begun + history(steps).queue.waiting == history(steps).came,
    decreases steps.len(),
{
    if steps.len() > 0 {
        let past = history(steps.drop_last());
        law_uploads_stay_within_allowance(steps.drop_last());
        let now = history(steps);
        let queue = match steps.last() {
            UploadStep::Submitted(more) => past.queue.with(more),
            UploadStep::Ended => past.queue.without_one(),
        };
        assert(queue.ready() + queue.begin().waiting =~= queue.waiting);
        assert(now.begun + now.queue.waiting =~= now.came);
    } else {
        let now = history(steps);
        assert(now.begun + now.queue.waiting =~= now.came);
    }
}

/// Every upload of a list is seen as it is, in its place.
pub proof fn law_uploads_in_place(uploads: Seq<Upload>)
    ensures
        upload_views(uploads).len() == uploads.len(),
        forall|i: int|
            0 <= i < uploads.len() ==> (#[trigger] upload_views(uploads)[i]).peer == uploads[i].peer@ && upload_views(
                uploads,
            )[i].hash == uploads[i].hash@ && upload_views(uploads)[i].data == content(uploads[i].data),
{
}

/// The uploads to one peer, in order.
pub open spec fn addressed_to(uploads: Seq<UploadModel>, peer: Seq<char>) -> Seq<UploadModel> {
    uploads.filter(|u: UploadModel| u.peer == peer)
}

/// The uploads that are addressed to a peer are, in order, exactly the chunks of its share, each with
/// its digest and its bytes; a peer that has no share gets none.
pub proof fn law_peer_gets_its_share(assignments: Table<PeerId, Vec<(Digest, Bytes)>>, peer: Seq<char>)
    requires
        assignments.wf(),
    ensures
        assignments@.contains_key(peer) ==> {
            let got = addressed_to(uploads_of(assignments), peer);
            let share = assignments@[peer]@;
            &&& got.len() == share.len()
            &&& forall|k: int|
                0 <= k < share.len() ==> (#[trigger] got[k]).peer == peer && got[k].hash == share[k].0@ && got[k].data
                    == content(share[k].1)
        },
        !assignments@.contains_key(peer) ==> addressed_to(uploads_of(assignments), peer).len() == 0,
{
    let order = assignments.order();
    let dealt = shares(assignments@);
    assignments.lemma_order();
    lemma_addressed(order, dealt, peer);
    if assignments@.contains_key(peer) {
        assert(order.contains(peer));
        assert(dealt[peer] == named(assignments@[peer]@));
    } else {
        assert(!order.contains(peer));
    }
}

/// There are as many uploads of a chunk to a peer as the chunk occurs in the share of the peer.
pub proof fn law_chunk_is_uploaded_as_often_as_assigned(
    assignments: Table<PeerId, Vec<(Digest, Bytes)>>,
    upload: UploadModel,
)
    requires
        assignments.wf(),
    ensures
        assignments@.contains_key(upload.peer) ==> uploads_of(assignments).to_multiset().count(upload)
            == assignments@[upload.peer]@.map_values(
            |c: (Digest, Bytes)| (c.0@, content(c.1)),
        ).to_multiset().count((upload.hash, upload.data)),
        !assignments@.contains_key(upload.peer) ==> uploads_of(assignments).to_multiset().count(upload) == 0,
{
    let all = uploads_of(assignments);
    let peer = upload.peer;
    let got = addressed_to(all, peer);
    law_peer_gets_its_share(assignments, peer);
    lemma_count_addressed(all, upload);
    if assignments@.contains_key(peer) {
        let share = assignments@[peer]@.map_values(|c: (Digest, Bytes)| (c.0@, content(c.1)));
        assert(got =~= uploads_to(peer, share)) by {
            assert forall|k: int| 0 <= k < share.len() implies #[trigger] got[k] == uploads_to(peer, share)[k] by {
                assert(got[k].peer == peer);
            }
        }
        lemma_count_uploads_to(peer, share, upload);
    } else {
        assert(got =~= Seq::empty());
        got.to_multiset_ensures();
    }
}

proof fn lemma_count_addressed(all: Seq<UploadModel>, upload: UploadModel)
    ensures
        all.to_multiset().count(upload) == addressed_to(all, upload.peer).to_multiset().count(upload),
    decreases all.len(),
{
    reveal(Seq::filter);
    let mine = |u: UploadModel| u.peer == upload.peer;
    broadcast use vstd::seq_lib::group_to_multiset_ensures;

    if all.len() > 0 {
        let front = all.drop_last();
        lemma_count_addressed(front, upload);
        assert(front.push(all.last()) =~= all);
        if mine(all.last()) {
            assert(all.filter(mine) =~= front.filter(mine).push(all.last()));
        }
    }
}

proof fn lemma_count_uploads_to(peer: Seq<char>, chunks: Seq<(Seq<u8>, Seq<u8>)>, upload: UploadModel)
    requires
        upload.peer == peer,
    ensures
        uploads_to(peer, chunks).to_multiset().count(upload) == chunks.to_multiset().count(
            (upload.hash, upload.data),
        ),
    decreases chunks.len(),
{
    broadcast use vstd::seq_lib::group_to_multiset_ensures;

    if chunks.len() > 0 {
        let front = chunks.drop_last();
        lemma_count_uploads_to(peer, front, upload);
        assert(front.push(chunks.last()) =~= chunks);
        assert(uploads_to(peer, chunks) =~= uploads_to(peer, front).push(uploads_to(peer, chunks).last()));
    } else {
        assert(uploads_to(peer, chunks) =~= Seq::empty());
    }
}

/// Of the uploads for peers that are listed once each, those for one peer are its own.
proof fn lemma_addressed(
    peers: Seq<Seq<char>>,
    dealt: Map<Seq<char>, Seq<(Seq<u8>, Seq<u8>)>>,
    peer: Seq<char>,
)
    requires
        peers.no_duplicates(),
    ensures
        peers.contains(peer) ==> addressed_to(uploads_for(peers, dealt), peer) == uploads_to(peer, dealt[peer]),
        !peers.contains(peer) ==> addressed_to(uploads_for(peers, dealt), peer).len() == 0,
    decreases peers.len(),
{
    reveal(Seq::filter);
    let mine = |u: UploadModel| u.peer == peer;
    if peers.len() > 0 {
        let front = peers.drop_last();
        let last = peers.last();
        lemma_addressed(front, dealt, peer);
        let more = uploads_to(last, dealt[last]);
        lemma_filter_concat(uploads_for(front, dealt), more, mine);
        assert(peers[peers.len() - 1] == last);
        if peer == last {
            if front.contains(peer) {
                assert(peers[front.index_of(peer)] == peers[peers.len() - 1]);
            }
            lemma_filter_all(more, mine);
            assert(addressed_to(uploads_for(front, dealt), peer) =~= Seq::empty());
            assert(addressed_to(uploads_for(peers, dealt), peer) =~= more);
        } else {
            lemma_filter_members(more, mine);
            if more.filter(mine).len() > 0 {
                assert(more.filter(mine).contains(more.filter(mine)[0]));
            }
            assert(more.filter(mine) =~= Seq::empty());
            if peers.contains(peer) {
                assert(front[peers.index_of(peer)] == peer);
            }
            if front.contains(peer) {
                assert(peers[front.index_of(peer)] == peer);
            }
            assert(addressed_to(uploads_for(peers, dealt), peer) =~= addressed_to(uploads_for(front, dealt), peer));
        }
    }
}

/// When uploads come, as many of those that wait are begun, those that came first before the others,
/// as there is room for; the rest wait on, in order. No more than twenty run, and none waits while
/// fewer do.
pub proof fn law_uploads_begin_in_order(queue: UploadsModel, more: Seq<UploadModel>)
    requires
        queue.in_flight <= 20,
    ensures
        queue.with(more).ready() + queue.with(more).begin().waiting == queue.waiting + more,
        queue.with(more).begin().in_flight == queue.in_flight + queue.with(more).ready().len(),
        queue.with(more).begin().in_flight <= 20,
        queue.with(more).begin().waiting.len() > 0 ==> queue.with(more).begin().in_flight == 20,
        queue.available() == 20 - queue.in_flight,
{
    let all = queue.with(more);
    assert(all.ready() + all.begin().waiting =~= queue.waiting + more);
}

/// When an upload ends, the one that waited longest is begun, if one waits.
pub proof fn law_next_upload_takes_over(queue: UploadsModel)
    requires
        0 < queue.in_flight <= 20,
        queue.waiting.len() > 0 ==> queue.in_flight == 20,
    ensures
        queue.waiting.len() > 0 ==> queue.without_one().ready() == seq![queue.waiting[0]]
            && queue.without_one().begin().waiting == queue.waiting.drop_first()
            && queue.without_one().begin().in_flight == queue.in_flight,
        queue.waiting.len() == 0 ==> queue.without_one().ready().len() == 0
            && queue.without_one().begin().waiting.len() == 0 && queue.without_one().begin().in_flight
            == queue.in_flight - 1,
{
    if queue.waiting.len() > 0 {
        assert(queue.without_one().ready() =~= seq![queue.waiting[0]]);
        assert(queue.without_one().begin().waiting =~= queue.waiting.drop_first());
    }
}

} // verus!
