//! Who a member of the network is, and which other members and addresses it is told of.
use vstd::prelude::*;
use libp2p::identity::Keypair;
use libp2p::Multiaddr;
use crate::peyk::protocol::PeerId;

verus! {

/// `libp2p::identity::Keypair`, the key of a member.
#[verifier::external_type_specification]
#[verifier::external_body]
pub struct ExKeypair(libp2p::identity::Keypair);

/// `libp2p::Multiaddr`, a network address.
#[verifier::external_type_specification]
#[verifier::external_body]
pub struct ExMultiaddr(libp2p::Multiaddr);

/// The key that the bytes encode; nothing if they encode none.
pub uninterp spec fn encoded_key(bytes: Seq<u8>) -> Option<Keypair>;

/// The peer id, in base58, of the key that the bytes encode; nothing if they encode none.
pub uninterp spec fn encoded_peer(bytes: Seq<u8>) -> Option<Seq<char>>;

/// Calls `Keypair::from_protobuf_encoding`, and takes the peer id of the key along in base58.
///
/// Trusted: whether there is a key, which one it is, and what its peer id is, depends on the bytes
/// alone.
#[verifier::external_body]
fn decode_key(bytes: &[u8]) -> (key: Option<(Keypair, String)>)
    ensures
        key is Some <==> encoded_key(bytes@) is Some,
        key is Some <==> encoded_peer(bytes@) is Some,
        key matches Some(k) ==> encoded_key(bytes@) == Some(k.0),
        key matches Some(k) ==> encoded_peer(bytes@) == Some(k.1@),
{
    let key = Keypair::from_protobuf_encoding(bytes).ok()?;
    let peer = libp2p::PeerId::from_public_key(&key.public()).to_base58();
    Some((key, peer))
}

/// Calls `Keypair::generate_ed25519`, and takes the peer id of the key along in base58, and its
/// encoding, which `Keypair::to_protobuf_encoding` gives.
///
/// Trusted: whatever key comes out, its encoding is decoded to that key, with the same peer id. Which
/// key comes out is left to chance, which the operating system has to provide.
#[verifier::external_body]
fn generate_key() -> (key: (Keypair, String, Vec<u8>))
    ensures
        encoded_key(key.2@) == Some(key.0),
        encoded_peer(key.2@) == Some(key.1@),
{
    let key = Keypair::generate_ed25519();
    let peer = libp2p::PeerId::from_public_key(&key.public()).to_base58();
    let bytes = key.to_protobuf_encoding().unwrap();
    (key, peer, bytes)
}

/// Why a key file gives no key.
#[derive(Debug, Clone, Copy, PartialEq, Eq, Structural)]
pub enum KeyError {
    /// It cannot be read.
    Unreadable,
    /// What it holds is not the encoding of a key.
    NotAKey,
}

/// Who a member is: its key, and the peer id that goes with it.
pub struct Identity {
    key: Keypair,
    peer: String,
}

/// The view of an [`Identity`].
pub struct IdentityModel {
    pub key: Keypair,
    /// The peer id in base58.
    pub peer: Seq<char>,
}

/// The identity that the bytes of a key file give; nothing if they encode no key.
pub open spec fn encoded_identity(bytes: Seq<u8>) -> Option<IdentityModel> {
    match (encoded_key(bytes), encoded_peer(bytes)) {
        (Some(key), Some(peer)) => Some(IdentityModel { key, peer }),
        _ => None,
    }
}

impl View for Identity {
    type V = IdentityModel;

    closed spec fn view(&self) -> IdentityModel {
        IdentityModel { key: self.key, peer: self.peer@ }
    }
}

impl Identity {
    /// The identity that a key file holds. `read` is what the file holds, if it can be read.
    pub fn from_file(read: Option<Vec<u8>>) -> (identity: Result<Identity, KeyError>)
        ensures
            match read {
                None => identity == Err::<Identity, KeyError>(KeyError::Unreadable),
                Some(bytes) => match encoded_identity(bytes@) {
                    Some(held) => identity matches Ok(i) && i@ == held,
                    None => identity == Err::<Identity, KeyError>(KeyError::NotAKey),
                },
            },
    {
        match read {
            None => Err(KeyError::Unreadable),
            Some(bytes) => match decode_key(bytes.as_slice()) {
                Some((key, peer)) => Ok(Identity { key, peer }),
                None => Err(KeyError::NotAKey),
            },
        }
    }

    /// A fresh identity, and what a key file has to hold for it.
    pub fn generate() -> (fresh: (Identity, Vec<u8>))
        ensures
            encoded_identity(fresh.1@) == Some(fresh.0@),
    {
        let (key, peer, bytes) = generate_key();
        (Identity { key, peer }, bytes)
    }

    /// The peer id in base58.
    pub fn peer_id(&self) -> (text: &str)
        ensures
            text@ == self@.peer,
    {
        self.peer.as_str()
    }

    /// The key.
    pub fn keypair(&self) -> (key: &Keypair)
        ensures
            *key == self@.key,
    {
        &self.key
    }
}

/// The peer id that a text denotes, written back in base58; nothing if the text denotes none.
pub uninterp spec fn peer_named(text: Seq<char>) -> Option<Seq<char>>;

/// Calls `from_str` of `libp2p::PeerId`, and writes the peer id back with `to_base58`.
///
/// Trusted: whether the text denotes a peer id, and which, depends on the text alone.
#[verifier::external_body]
fn parse_base58(text: &str) -> (peer: Option<String>)
    ensures
        peer is Some <==> peer_named(text@) is Some,
        peer matches Some(p) ==> peer_named(text@) == Some(p@),
{
    text.parse::<libp2p::PeerId>().ok().map(|peer| peer.to_base58())
}

/// The peer with the peer id that the text denotes.
pub fn parse_peer(text: &str) -> (peer: Option<PeerId>)
    ensures
        match peer_named(text@) {
            Some(name) => peer matches Some(p) && p@ == name,
            None => peer is None,
        },
{
    match parse_base58(text) {
        Some(name) => Some(PeerId::new(name)),
        None => None,
    }
}

/// The address that a text denotes; nothing if the text denotes none.
pub uninterp spec fn address_named(text: Seq<char>) -> Option<Multiaddr>;

/// The binary form of the address that a text denotes; nothing if the text denotes none.
pub uninterp spec fn address_bytes(text: Seq<char>) -> Option<Seq<u8>>;

/// Calls `from_str` of `libp2p::Multiaddr`, and takes the binary form of the address along.
///
/// Trusted: whether the text denotes an address, which one it is, and what its binary form is, depends
/// on the text alone.
#[verifier::external_body]
fn parse_address(text: &str) -> (address: Option<(Multiaddr, Vec<u8>)>)
    ensures
        address is Some <==> address_named(text@) is Some,
        address is Some <==> address_bytes(text@) is Some,
        address matches Some(a) ==> address_named(text@) == Some(a.0),
        address matches Some(a) ==> address_bytes(text@) == Some(a.1@),
{
    let address: Multiaddr = text.parse().ok()?;
    let bytes = address.to_vec();
    Some((address, bytes))
}

/// A network address.
pub struct Address {
    address: Multiaddr,
    bytes: Vec<u8>,
}

/// The view of an [`Address`].
pub struct AddressModel {
    pub address: Multiaddr,
    /// The binary form.
    pub bytes: Seq<u8>,
}

/// The address that a text denotes, with its binary form; nothing if the text denotes none.
pub open spec fn denoted_address(text: Seq<char>) -> Option<AddressModel> {
    match (address_named(text), address_bytes(text)) {
        (Some(address), Some(bytes)) => Some(AddressModel { address, bytes }),
        _ => None,
    }
}

impl View for Address {
    type V = AddressModel;

    closed spec fn view(&self) -> AddressModel {
        AddressModel { address: self.address, bytes: self.bytes@ }
    }
}

impl Address {
    /// The address that the text denotes.
    pub fn parse(text: &str) -> (address: Option<Address>)
        ensures
            match denoted_address(text@) {
                Some(denoted) => address matches Some(a) && a@ == denoted,
                None => address is None,
            },
    {
        match parse_address(text) {
            Some((address, bytes)) => Some(Address { address, bytes }),
            None => None,
        }
    }

    /// The binary form.
    pub fn as_bytes(&self) -> (bytes: &[u8])
        ensures
            bytes@ == self@.bytes,
    {
        self.bytes.as_slice()
    }

    /// The address.
    pub fn multiaddr(&self) -> (address: &Multiaddr)
        ensures
            *address == self@.address,
    {
        &self.address
    }
}

/// The text denotes an address.
pub open spec fn is_address(text: Seq<char>) -> bool {
    address_named(text) is Some && address_bytes(text) is Some
}

/// The bytes encode a key.
pub open spec fn is_key(bytes: Seq<u8>) -> bool {
    encoded_key(bytes) is Some && encoded_peer(bytes) is Some
}

/// What the bytes of a key file give is the key that they encode, with its peer id; and it is given
/// whenever they encode one.
pub proof fn law_key_file_gives_its_key(bytes: Seq<u8>)
    ensures
        encoded_identity(bytes) is Some <==> encoded_key(bytes) is Some && encoded_peer(bytes) is Some,
        encoded_identity(bytes) matches Some(identity) ==> encoded_key(bytes) == Some(identity.key)
            && encoded_peer(bytes) == Some(identity.peer),
{
}

/// What a text denotes is the address that it is parsed to, with its binary form; and it denotes one
/// whenever it can be parsed.
pub proof fn law_text_denotes_its_address(text: Seq<char>)
    ensures
        denoted_address(text) is Some <==> address_named(text) is Some && address_bytes(text) is Some,
        denoted_address(text) matches Some(denoted) ==> address_named(text) == Some(denoted.address)
            && address_bytes(text) == Some(denoted.bytes),
{
}

} // verus!
