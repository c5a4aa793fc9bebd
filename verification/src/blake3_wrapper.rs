//! BLAKE3 digests, their hexadecimal form, and Merkle trees over them.
use vstd::prelude::*;

verus! {

/// A 32-byte digest.
pub type Digest = [u8; 32];

/// The BLAKE3 digest of a byte string.
pub uninterp spec fn blake3_digest(data: Seq<u8>) -> Seq<u8>;

/// Calls `blake3::hash` and takes the digest as raw bytes.
///
/// Trusted: the digest depends on the input bytes alone.
#[verifier::external_body]
pub(crate) fn digest(data: &[u8]) -> (hash: Digest)
    ensures
        hash@ == blake3_digest(data@),
{
    blake3::hash(data).into()
}

/// The views of a list of digests.
pub open spec fn digests(hashes: Seq<Digest>) -> Seq<Seq<u8>> {
    hashes.map_values(|h: Digest| h@)
}

/// The lowercase hexadecimal digit of a number below 16.
pub open spec fn hex_digit(n: int) -> char {
    if n < 10 {
        ('0' as int + n) as char
    } else {
        ('a' as int + n - 10) as char
    }
}

/// The lowercase hexadecimal form of a byte string: two digits for each byte, the high one first.
pub open spec fn lower_hex(bytes: Seq<u8>) -> Seq<char> {
    Seq::new(
        bytes.len() * 2,
        |i: int|
            if i % 2 == 0 {
                hex_digit(bytes[i / 2] as int / 16)
            } else {
                hex_digit(bytes[i / 2] as int % 16)
            },
    )
}

/// Calls `to_hex` of `blake3::Hash` and takes the digits as an owned string.
///
/// Trusted: the digest comes out in lowercase hexadecimal.
#[verifier::external_body]
pub(crate) fn digest_to_hex(hash: &Digest) -> (text: String)
    ensures
        text@ == lower_hex(hash@),
{
    blake3::Hash::from_bytes(*hash).to_hex().to_string()
}

/// Calls `hex::encode`.
///
/// Trusted: the bytes come out in lowercase hexadecimal.
#[verifier::external_body]
pub(crate) fn hex_encode(bytes: &[u8]) -> (text: String)
    ensures
        text@ == lower_hex(bytes@),
{
    hex::encode(bytes)
}

/// The name under which data travels: its digest in hexadecimal.
pub fn content_name(data: &[u8]) -> (name: String)
    ensures
        name@ == lower_hex(blake3_digest(data@)),
        name@.len() == 64,
{
    let hash: Digest = digest(data);
    digest_to_hex(&hash)
}

/// Two byte strings have the same hexadecimal form only if they are equal.
pub proof fn law_hex_tells_apart(a: Seq<u8>, b: Seq<u8>)
    requires
        lower_hex(a) == lower_hex(b),
    ensures
        a == b,
{
    assert(lower_hex(a).len() == a.len() * 2);
    assert(lower_hex(b).len() == b.len() * 2);
    assert forall|i: int| 0 <= i < a.len() implies a[i] == b[i] by {
        let high = 2 * i;
        let low = 2 * i + 1;
        assert(high / 2 == i && high % 2 == 0 && low / 2 == i && low % 2 == 1);
        assert(lower_hex(a)[high] == hex_digit(a[i] as int / 16));
        assert(lower_hex(b)[high] == hex_digit(b[i] as int / 16));
        assert(lower_hex(a)[low] == hex_digit(a[i] as int % 16));
        assert(lower_hex(b)[low] == hex_digit(b[i] as int % 16));
        lemma_hex_digit(a[i] as int / 16, b[i] as int / 16);
        lemma_hex_digit(a[i] as int % 16, b[i] as int % 16);
    }
    assert(a =~= b);
}

proof fn lemma_hex_digit(m: int, n: int)
    requires
        0 <= m < 16,
        0 <= n < 16,
        hex_digit(m) == hex_digit(n),
    ensures
        m == n,
{
    assert(hex_digit(m) as int == if m < 10 {
        48 + m
    } else {
        87 + m
    });
    assert(hex_digit(n) as int == if n < 10 {
        48 + n
    } else {
        87 + n
    });
}

/// The hash function of the Merkle trees.
#[derive(Clone, Copy)]
pub struct Blake3Hash;

impl rs_merkle::Hasher for Blake3Hash {
    type Hash = [u8; 32];

    fn hash(data: &[u8]) -> (out: [u8; 32])
        ensures
            out@ == blake3_digest(data@),
    {
        digest(data)
    }
}

/// A Merkle tree over digests: `rs_merkle::MerkleTree` with [`Blake3Hash`].
#[verifier::external_body]
pub struct BlobTree {
    tree: rs_merkle::MerkleTree<Blake3Hash>,
}

/// The leaves of a Merkle tree, from left to right.
pub uninterp spec fn merkle_leaves(tree: BlobTree) -> Seq<Seq<u8>>;

/// The root that `rs_merkle` computes, with [`Blake3Hash`], over a list of leaves.
pub uninterp spec fn merkle_root(leaves: Seq<Seq<u8>>) -> Option<Seq<u8>>;

/// Calls `rs_merkle::MerkleTree::from_leaves`.
///
/// Trusted: the tree holds the given leaves in the given order.
#[verifier::external_body]
pub(crate) fn tree_from_leaves(leaves: &[Digest]) -> (tree: BlobTree)
    ensures
        merkle_leaves(tree) == digests(leaves@),
{
    BlobTree { tree: rs_merkle::MerkleTree::<Blake3Hash>::from_leaves(leaves) }
}

/// Calls `rs_merkle::MerkleTree::root`.
///
/// Trusted: the root depends on the leaves alone; only a tree without leaves has none; and a single
/// leaf is its own root.
#[verifier::external_body]
pub(crate) fn tree_root(tree: &BlobTree) -> (root: Option<Digest>)
    ensures
        digest_of(root) == merkle_root(merkle_leaves(*tree)),
        root is None <==> merkle_leaves(*tree).len() == 0,
        merkle_leaves(*tree).len() == 1 ==> digest_of(root) == Some(merkle_leaves(*tree)[0]),
{
    tree.tree.root()
}

/// The view of a digest that may be missing.
pub open spec fn digest_of(hash: Option<Digest>) -> Option<Seq<u8>> {
    match hash {
        Some(h) => Some(h@),
        None => None,
    }
}

/// The Merkle tree over a list of digests, and its root.
pub fn merkle(leaves: &[Digest]) -> (grown: (BlobTree, Option<Digest>))
    ensures
        merkle_leaves(grown.0) == digests(leaves@),
        digest_of(grown.1) == merkle_root(digests(leaves@)),
        grown.1 is None <==> leaves@.len() == 0,
        leaves@.len() == 1 ==> digest_of(grown.1) == Some(leaves@[0]@),
{
    let tree = tree_from_leaves(leaves);
    let root = tree_root(&tree);
    (tree, root)
}

/// Every digest of a list is seen as it is, in its place.
pub proof fn law_digests_in_place(hashes: Seq<Digest>)
    ensures
        digests(hashes).len() == hashes.len(),
        forall|i: int| 0 <= i < hashes.len() ==> #[trigger] digests(hashes)[i] == hashes[i]@,
{
}

/// The number that a lowercase hexadecimal digit stands for; nothing that is not one stands for a
/// number below sixteen.
pub open spec fn hex_value(c: char) -> int {
    if '0' <= c <= '9' {
        c as int - '0' as int
    } else if 'a' <= c <= 'f' {
        c as int - 'a' as int + 10
    } else {
        16
    }
}

/// The hexadecimal form of a byte string can be read back: two digits for each byte, and they make
/// up the byte.
pub proof fn law_hex_reads_back(bytes: Seq<u8>, i: int)
    requires
        0 <= i < bytes.len(),
    ensures
        lower_hex(bytes).len() == 2 * bytes.len(),
        hex_value(lower_hex(bytes)[2 * i]) < 16,
        hex_value(lower_hex(bytes)[2 * i + 1]) < 16,
        16 * hex_value(lower_hex(bytes)[2 * i]) + hex_value(lower_hex(bytes)[2 * i + 1]) == bytes[i],
{
    let high = 2 * i;
    let low = 2 * i + 1;
    assert(high / 2 == i && high % 2 == 0 && low / 2 == i && low % 2 == 1);
    lemma_hex_value(bytes[i] as int / 16);
    lemma_hex_value(bytes[i] as int % 16);
}

proof fn lemma_hex_value(n: int)
    requires
        0 <= n < 16,
    ensures
        hex_value(hex_digit(n)) == n,
{
    assert(hex_digit(n) as int == if n < 10 {
        48 + n
    } else {
        87 + n
    });
}

} // verus!
