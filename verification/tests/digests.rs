use bytes::Bytes;
use gozara::blake3_wrapper::{content_name, merkle, Blake3Hash, Digest};
use gozara::chunking::{chunk_ranges, index_chunks, name_chunks, CHUNK_SIZE};
use rs_merkle::Hasher;

fn leaf(byte: u8) -> Digest {
    [byte; 32]
}

fn pair(left: &Digest, right: &Digest) -> Digest {
    let mut both = left.to_vec();
    both.extend_from_slice(right);
    blake3::hash(&both).into()
}

#[test]
fn name_of_nothing() {
    assert_eq!(
        content_name(b""),
        "af1349b9f5f9a1a6a0404dea36dcc9499bcb25c9adc112b7cc9a93cae41f3262"
    );
}

#[test]
fn name_of_abc() {
    assert_eq!(
        content_name(b"abc"),
        "6437b3ac38465133ffb63b75273a8db548c558465d79db03fd359c6cd5bd9d85"
    );
}

#[test]
fn hasher_is_blake3() {
    let expected: [u8; 32] = blake3::hash(b"abc").into();
    assert_eq!(Blake3Hash::hash(b"abc"), expected);
}

#[test]
fn no_leaves_no_root() {
    let (_, root) = merkle(&[]);
    assert_eq!(root, None);
}

#[test]
fn single_leaf_is_the_root() {
    let (_, root) = merkle(&[leaf(7)]);
    assert_eq!(root, Some(leaf(7)));
}

#[test]
fn two_leaves_are_hashed_together() {
    let (_, root) = merkle(&[leaf(1), leaf(2)]);
    assert_eq!(root, Some(pair(&leaf(1), &leaf(2))));
}

#[test]
fn order_of_leaves_matters() {
    let (_, one) = merkle(&[leaf(1), leaf(2)]);
    let (_, other) = merkle(&[leaf(2), leaf(1)]);
    assert_ne!(one, other);
}

#[test]
fn odd_leaf_moves_up() {
    let (_, root) = merkle(&[leaf(1), leaf(2), leaf(3)]);
    assert_eq!(root, Some(pair(&pair(&leaf(1), &leaf(2)), &leaf(3))));
}

#[test]
fn ranges_of_nothing() {
    assert_eq!(chunk_ranges(0), vec![]);
}

#[test]
fn ranges_of_short_blob() {
    assert_eq!(chunk_ranges(5), vec![(0, 5)]);
}

#[test]
fn ranges_of_full_chunk() {
    assert_eq!(chunk_ranges(4_194_304), vec![(0, 4_194_304)]);
}

#[test]
fn ranges_of_long_blob() {
    assert_eq!(
        chunk_ranges(9_000_000),
        vec![(0, 4_194_304), (4_194_304, 8_388_608), (8_388_608, 9_000_000)]
    );
}

#[test]
fn ranges_up_to_the_largest_length() {
    let ranges = chunk_ranges(1_073_741_825);
    assert_eq!(ranges.len(), 257);
    assert_eq!(ranges[256], (1_073_741_824, 1_073_741_825));
}

#[test]
fn chunks_are_named_by_their_bytes() {
    let mut raw = vec![1u8; CHUNK_SIZE];
    raw.extend_from_slice(b"tail");
    let data = Bytes::from(raw);
    let names = name_chunks(&data);
    let first: Digest = blake3::hash(&vec![1u8; CHUNK_SIZE]).into();
    let last: Digest = blake3::hash(b"tail").into();
    assert_eq!(names, vec![first, last]);
    let index = index_chunks(&data, &names);
    assert_eq!(index.len(), 2);
    assert_eq!(index.get(&last).map(|part| part.to_vec()), Some(b"tail".to_vec()));
    assert_eq!(index.get(&first).map(|part| part.len()), Some(CHUNK_SIZE));
}

#[test]
fn equal_chunks_are_indexed_once() {
    let data = Bytes::from(vec![9u8; 2 * CHUNK_SIZE]);
    let names = name_chunks(&data);
    assert_eq!(names.len(), 2);
    assert_eq!(names[0], names[1]);
    let index = index_chunks(&data, &names);
    assert_eq!(index.len(), 1);
}

#[test]
fn blob_is_put_together_again() {
    let mut raw: Vec<u8> = Vec::new();
    for i in 0..(2 * CHUNK_SIZE + 77) {
        raw.push((i % 251) as u8);
    }
    let data = Bytes::from(raw.clone());
    let names = name_chunks(&data);
    let index = index_chunks(&data, &names);
    let mut again: Vec<u8> = Vec::new();
    for name in &names {
        again.extend_from_slice(index.get(name).unwrap());
    }
    assert!(again == raw);
}
