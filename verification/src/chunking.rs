//! Cutting a blob into chunks and naming the chunks by their digests.
use vstd::prelude::*;
use bytes::Bytes;
use crate::blake3_wrapper::{blake3_digest, digest, digests, Digest};
use crate::payload::{bytes_as_slice, bytes_len, bytes_part, content, contents};
use crate::table::Table;

verus! {

/// The size of a chunk: 4 MiB. Only the last chunk of a blob may be shorter.
pub const CHUNK_SIZE: usize = 4_194_304;

/// The number of chunks of a blob of `len` bytes.
pub open spec fn chunk_count(len: nat) -> nat {
    ((len + CHUNK_SIZE - 1) / CHUNK_SIZE as int) as nat
}

/// Where chunk `i` starts.
pub open spec fn chunk_start(i: int) -> int {
    i * CHUNK_SIZE
}

/// Where chunk `i` of a blob of `len` bytes ends.
pub open spec fn chunk_end(len: nat, i: int) -> int {
    if (i + 1) * CHUNK_SIZE < len {
        (i + 1) * CHUNK_SIZE
    } else {
        len as int
    }
}

/// The chunks of a blob, in order.
pub open spec fn chunks(data: Seq<u8>) -> Seq<Seq<u8>> {
    Seq::new(
        chunk_count(data.len()),
        |i: int| data.subrange(chunk_start(i), chunk_end(data.len(), i)),
    )
}

/// The digests of a list of chunks.
pub open spec fn chunk_digests(parts: Seq<Seq<u8>>) -> Seq<Seq<u8>> {
    parts.map_values(|part: Seq<u8>| blake3_digest(part))
}

/// The parts by name. Where two share a name, the later one stands.
pub open spec fn index_by(names: Seq<Seq<u8>>, parts: Seq<Seq<u8>>) -> Map<Seq<u8>, Seq<u8>>
    decreases parts.len(),
{
    if parts.len() == 0 {
        Map::empty()
    } else {
        index_by(names.drop_last(), parts.drop_last()).insert(names.last(), parts.last())
    }
}

/// The chunks by digest.
pub open spec fn chunk_index(parts: Seq<Seq<u8>>) -> Map<Seq<u8>, Seq<u8>> {
    index_by(chunk_digests(parts), parts)
}

/// The items of a sequence in order, each at its first occurrence only.
pub open spec fn distinct<A>(items: Seq<A>) -> Seq<A>
    decreases items.len(),
{
    if items.len() == 0 {
        items
    } else {
        let front = distinct(items.drop_last());
        if front.contains(items.last()) {
            front
        } else {
            front.push(items.last())
        }
    }
}

/// The start and the end of every chunk of a blob of `len` bytes.
pub fn chunk_ranges(len: usize) -> (ranges: Vec<(usize, usize)>)
    ensures
        ranges@.len() == chunk_count(len as nat),
        forall|i: int|
            0 <= i < ranges@.len() ==> (#[trigger] ranges@[i]).0 == chunk_start(i) && ranges@[i].1
                == chunk_end(len as nat, i),
{
    let mut ranges: Vec<(usize, usize)> = Vec::new();
    let mut start: usize = 0;
    while start < len
        invariant
            0 <= start <= len,
            start == len ==> ranges@.len() == chunk_count(len as nat),
            start < len ==> start == ranges@.len() * CHUNK_SIZE,
            forall|i: int|
                0 <= i < ranges@.len() ==> (#[trigger] ranges@[i]).0 == chunk_start(i) && ranges@[i].1
                    == chunk_end(len as nat, i),
        decreases len - start,
    {
        let end: usize = if len - start <= CHUNK_SIZE {
            len
        } else {
            start + CHUNK_SIZE
        };
        ranges.push((start, end));
        start = end;
    }
    ranges
}

/// The digests of the chunks of a blob, in order.
pub fn name_chunks(data: &Bytes) -> (names: Vec<Digest>)
    ensures
        digests(names@) == chunk_digests(chunks(content(*data))),
{
    let len: usize = bytes_len(data);
    let ranges = chunk_ranges(len);
    let ghost parts = chunks(content(*data));
    let mut names: Vec<Digest> = Vec::new();
    let mut i: usize = 0;
    while i < ranges.len()
        invariant
            0 <= i <= ranges@.len(),
            len == content(*data).len(),
            parts == chunks(content(*data)),
            ranges@.len() == chunk_count(len as nat),
            forall|j: int|
                0 <= j < ranges@.len() ==> (#[trigger] ranges@[j]).0 == chunk_start(j) && ranges@[j].1
                    == chunk_end(len as nat, j),
            names@.len() == i,
            forall|j: int| 0 <= j < i ==> (#[trigger] names@[j])@ == blake3_digest(parts[j]),
        decreases ranges@.len() - i,
    {
        proof {
            law_chunk_bounds(len as nat, i as int);
        }
        let part = bytes_part(data, ranges[i].0, ranges[i].1);
        names.push(digest(bytes_as_slice(&part)));
        i += 1;
    }
    assert(digests(names@) =~= chunk_digests(parts));
    names
}

/// The chunks of a blob by the names that they are given.
pub fn index_chunks(data: &Bytes, names: &Vec<Digest>) -> (index: Table<Digest, Bytes>)
    requires
        names@.len() == chunk_count(content(*data).len()),
    ensures
        index.wf(),
        contents(index@) == index_by(digests(names@), chunks(content(*data))),
        index.order() == distinct(digests(names@)),
{
    let len: usize = bytes_len(data);
    let ranges = chunk_ranges(len);
    let ghost parts = chunks(content(*data));
    let mut index: Table<Digest, Bytes> = Table::new();
    let mut i: usize = 0;
    proof {
        assert(digests(names@).take(0) =~= Seq::empty());
        assert(contents(index@) =~= Map::empty());
    }
    while i < ranges.len()
        invariant
            0 <= i <= ranges@.len(),
            len == content(*data).len(),
            parts == chunks(content(*data)),
            names@.len() == ranges@.len(),
            ranges@.len() == chunk_count(len as nat),
            forall|j: int|
                0 <= j < ranges@.len() ==> (#[trigger] ranges@[j]).0 == chunk_start(j) && ranges@[j].1
                    == chunk_end(len as nat, j),
            index.wf(),
            contents(index@) == index_by(digests(names@).take(i as int), parts.take(i as int)),
            index.order() == distinct(digests(names@).take(i as int)),
        decreases ranges@.len() - i,
    {
        let ghost before = index;
        proof {
            law_chunk_bounds(len as nat, i as int);
            index.lemma_order();
        }
        let part = bytes_part(data, ranges[i].0, ranges[i].1);
        index.insert(names[i], part);
        proof {
            let all = digests(names@);
            assert(all.take(i + 1).drop_last() =~= all.take(i as int));
            assert(parts.take(i + 1).drop_last() =~= parts.take(i as int));
            assert(all.take(i + 1).last() == names@[i as int]@);
            assert(parts.take(i + 1).last() == parts[i as int]);
            assert(contents(index@) =~= contents(before@).insert(names@[i as int]@, content(part)));
            assert(before@.contains_key(names@[i as int]@) <==> before.order().contains(names@[i as int]@));
        }
        i += 1;
    }
    proof {
        assert(digests(names@).take(i as int) =~= digests(names@));
        assert(parts.take(i as int) =~= parts);
    }
    index
}

/// Every chunk is a part of its blob: it starts where the one before it ends, holds at least one
/// byte and at most [`CHUNK_SIZE`], and only the last one may hold fewer than that.
pub proof fn law_chunk_bounds(len: nat, i: int)
    requires
        0 <= i < chunk_count(len),
    ensures
        0 <= chunk_start(i) < chunk_end(len, i) <= len,
        chunk_end(len, i) - chunk_start(i) <= CHUNK_SIZE,
        i + 1 < chunk_count(len) ==> chunk_end(len, i) - chunk_start(i) == CHUNK_SIZE,
        i + 1 < chunk_count(len) ==> chunk_end(len, i) == chunk_start(i + 1),
        i + 1 == chunk_count(len) ==> chunk_end(len, i) == len,
{
}

/// The chunks of a blob, put together, are the blob.
pub proof fn law_chunks_make_up_blob(data: Seq<u8>)
    ensures
        chunks(data).flatten() == data,
{
    let n = chunks(data).len();
    lemma_first_chunks(data, n);
    assert(chunks(data).take(n as int) =~= chunks(data));
    if n > 0 {
        law_chunk_bounds(data.len(), n - 1);
    }
    assert(data.take(data.len() as int) =~= data);
}

/// The first `n` chunks, put together, are the blob up to the end of the last of them.
proof fn lemma_first_chunks(data: Seq<u8>, n: nat)
    requires
        n <= chunk_count(data.len()),
    ensures
        chunks(data).take(n as int).flatten() == data.take(
            if n == 0 {
                0
            } else {
                chunk_end(data.len(), n - 1)
            },
        ),
    decreases n,
{
    let parts = chunks(data);
    if n == 0 {
        assert(parts.take(0) =~= Seq::empty());
        assert(data.take(0) =~= Seq::empty());
    } else {
        lemma_first_chunks(data, (n - 1) as nat);
        law_chunk_bounds(data.len(), n - 1);
        if n >= 2 {
            law_chunk_bounds(data.len(), n - 2);
        }
        assert(parts.take(n as int) =~= parts.take(n - 1).push(parts[n - 1]));
        parts.take(n - 1).lemma_flatten_push(parts[n - 1]);
        assert(data.take(chunk_end(data.len(), n - 1)) =~= data.take(chunk_start(n - 1)) + parts[n - 1]);
    }
}

/// Every chunk can be found under its digest, and what is found under a digest is a chunk that has
/// it.
pub proof fn law_index_by_digest(parts: Seq<Seq<u8>>)
    ensures
        forall|i: int|
            0 <= i < parts.len() ==> chunk_index(parts).contains_key(blake3_digest(#[trigger] parts[i])),
        forall|h: Seq<u8>| #[trigger]
            chunk_index(parts).contains_key(h) ==> blake3_digest(chunk_index(parts)[h]) == h
                && parts.contains(chunk_index(parts)[h]),
    decreases parts.len(),
{
    if parts.len() > 0 {
        let front = parts.drop_last();
        law_index_by_digest(front);
        assert(chunk_digests(parts).drop_last() =~= chunk_digests(front));
        assert forall|i: int| 0 <= i < parts.len() implies chunk_index(parts).contains_key(
            blake3_digest(#[trigger] parts[i]),
        ) by {
            if i < front.len() {
                assert(front[i] == parts[i]);
            }
        }
        assert forall|h: Seq<u8>| #[trigger] chunk_index(parts).contains_key(h) implies blake3_digest(
            chunk_index(parts)[h],
        ) == h && parts.contains(chunk_index(parts)[h]) by {
            if h == blake3_digest(parts.last()) {
                assert(parts[parts.len() - 1] == chunk_index(parts)[h]);
            } else {
                assert(chunk_index(front).contains_key(h));
                let i = front.index_of(chunk_index(front)[h]);
                assert(parts[i] == chunk_index(parts)[h]);
            }
        }
    }
}

/// A blob can be put together again from its digests and its chunks by digest, as long as no two
/// different chunks of it share a digest.
pub proof fn law_blob_recovered(data: Seq<u8>)
    requires
        forall|i: int, j: int|
            0 <= i < chunks(data).len() && 0 <= j < chunks(data).len() && blake3_digest(
                #[trigger] chunks(data)[i],
            ) == blake3_digest(#[trigger] chunks(data)[j]) ==> chunks(data)[i] == chunks(data)[j],
    ensures
        chunk_digests(chunks(data)).map_values(
            |h: Seq<u8>| chunk_index(chunks(data))[h],
        ).flatten() == data,
{
    let parts = chunks(data);
    law_index_by_digest(parts);
    let found = chunk_digests(parts).map_values(|h: Seq<u8>| chunk_index(parts)[h]);
    assert forall|i: int| 0 <= i < parts.len() implies found[i] == parts[i] by {
        let h = blake3_digest(parts[i]);
        assert(chunk_index(parts).contains_key(h));
        let j = parts.index_of(chunk_index(parts)[h]);
        assert(blake3_digest(parts[j]) == blake3_digest(parts[i]));
    }
    assert(found =~= parts);
    law_chunks_make_up_blob(data);
}

/// [`distinct`] keeps exactly the items of a sequence, and none of them twice.
pub proof fn lemma_distinct<A>(items: Seq<A>)
    ensures
        distinct(items).no_duplicates(),
        forall|x: A| #[trigger] distinct(items).contains(x) <==> items.contains(x),
        items.len() > 0 ==> distinct(items).len() > 0,
    decreases items.len(),
{
    if items.len() > 0 {
        let front = items.drop_last();
        let kept = distinct(front);
        lemma_distinct(front);
        assert forall|x: A| #[trigger] distinct(items).contains(x) <==> items.contains(x) by {
            assert(kept.contains(x) <==> front.contains(x));
            if front.contains(x) {
                assert(items[front.index_of(x)] == x);
            }
            if items.contains(x) && x != items.last() {
                assert(front[items.index_of(x)] == x);
            }
            assert(items[items.len() - 1] == items.last());
            if !kept.contains(items.last()) {
                let out = distinct(items);
                assert(out[out.len() - 1] == items.last());
                if kept.contains(x) {
                    assert(out[kept.index_of(x)] == x);
                }
                if out.contains(x) && x != items.last() {
                    assert(kept[out.index_of(x)] == x);
                }
            }
        }
        assert(distinct(items).contains(items.last()));
    }
}

/// [`distinct`] leaves a sequence without duplicates as it is.
pub proof fn lemma_distinct_is_stable<A>(items: Seq<A>)
    requires
        items.no_duplicates(),
    ensures
        distinct(items) == items,
    decreases items.len(),
{
    if items.len() > 0 {
        let front = items.drop_last();
        lemma_distinct_is_stable(front);
        if front.contains(items.last()) {
            assert(items[front.index_of(items.last())] == items[items.len() - 1]);
        }
        assert(front.push(items.last()) =~= items);
    }
}

/// Chunk `i` holds the bytes from `i` times 4 MiB on, 4 MiB of them or as many as are left; there are
/// as many chunks as it takes.
pub proof fn law_chunk_holds_its_part(data: Seq<u8>, i: int)
    ensures
        chunks(data).len() * 4_194_304 >= data.len(),
        data.len() > 0 ==> (chunks(data).len() - 1) * 4_194_304 < data.len(),
        data.len() == 0 ==> chunks(data).len() == 0,
        0 <= i < chunks(data).len() && i + 1 < chunks(data).len() ==> chunks(data)[i] == data.subrange(
            i * 4_194_304,
            i * 4_194_304 + 4_194_304,
        ),
        0 <= i < chunks(data).len() && i + 1 == chunks(data).len() ==> chunks(data)[i] == data.skip(
            i * 4_194_304,
        ),
{
    if 0 <= i < chunks(data).len() {
        law_chunk_bounds(data.len(), i);
        if i + 1 == chunks(data).len() {
            assert(chunks(data)[i] =~= data.skip(i * 4_194_304));
        }
    }
}

/// The ranges of a blob start at multiples of 4 MiB, the first at its start, and each ends 4 MiB on
/// or at the end of the blob, whichever comes first.
pub proof fn law_ranges_are_steps(len: nat, i: int)
    requires
        0 <= i < chunk_count(len),
    ensures
        chunk_start(i) == i * 4_194_304,
        chunk_end(len, i) == i * 4_194_304 + 4_194_304 || chunk_end(len, i) == len,
        chunk_end(len, i) <= i * 4_194_304 + 4_194_304,
        chunk_end(len, i) <= len,
        chunk_start(i) < chunk_end(len, i),
        chunk_count(len) * 4_194_304 >= len,
{
}

/// Every chunk is named by its digest, in its place.
pub proof fn law_chunks_are_named_by_digest(parts: Seq<Seq<u8>>)
    ensures
        chunk_digests(parts).len() == parts.len(),
        forall|i: int| 0 <= i < parts.len() ==> #[trigger] chunk_digests(parts)[i] == blake3_digest(parts[i]),
{
}

/// Something is found under the names that were given, and under no others.
pub proof fn law_found_under_given_names(names: Seq<Seq<u8>>, parts: Seq<Seq<u8>>, name: Seq<u8>)
    requires
        names.len() == parts.len(),
    ensures
        index_by(names, parts).contains_key(name) <==> names.contains(name),
    decreases parts.len(),
{
    if parts.len() > 0 {
        let front = names.drop_last();
        law_found_under_given_names(front, parts.drop_last(), name);
        assert(names[names.len() - 1] == names.last());
        if names.contains(name) && name != names.last() {
            assert(front[names.index_of(name)] == name);
        }
        if front.contains(name) {
            assert(names[front.index_of(name)] == name);
        }
    }
}

/// What is found under a name is the last part that has it.
pub proof fn law_last_part_stands(names: Seq<Seq<u8>>, parts: Seq<Seq<u8>>, i: int)
    requires
        names.len() == parts.len(),
        0 <= i < names.len(),
        forall|j: int| i < j < names.len() ==> #[trigger] names[j] != names[i],
    ensures
        index_by(names, parts)[names[i]] == parts[i],
    decreases parts.len(),
{
    if i < names.len() - 1 {
        let front = names.drop_last();
        assert(names[names.len() - 1] != names[i]);
        assert(front[i] == names[i]);
        law_last_part_stands(front, parts.drop_last(), i);
    }
}

/// Items keep the order in which they first occur: what the first items make is how all of them
/// begin.
pub proof fn law_distinct_keeps_order<A>(items: Seq<A>, k: int)
    requires
        0 <= k <= items.len(),
    ensures
        distinct(items.take(k)).len() <= distinct(items).len(),
        distinct(items).take(distinct(items.take(k)).len() as int) == distinct(items.take(k)),
    decreases items.len(),
{
    if k == items.len() {
        assert(items.take(k) =~= items);
        assert(distinct(items).take(distinct(items).len() as int) =~= distinct(items));
    } else {
        let front = items.drop_last();
        law_distinct_keeps_order(front, k);
        assert(front.take(k) =~= items.take(k));
        let n = distinct(items.take(k)).len() as int;
        assert(distinct(items).take(n) =~= distinct(front).take(n));
    }
}

} // verus!
