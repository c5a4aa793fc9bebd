//! How a member of the network goes public: who it is, what it listens on, what it subscribes to, and
//! where it can be reached.
use vstd::prelude::*;
use crate::identity::{
    denoted_address, encoded_identity, parse_peer, peer_named, Address, Identity, IdentityModel, KeyError,
};
use crate::peyk::protocol::PeerId;
use crate::text::join;

verus! {

/// Where the file goes that holds a key which was generated.
pub const GENERATED_KEY_FILE: &'static str = "./key.secret";

/// A key that was generated, to be saved to a file.
pub struct KeyToSave {
    pub path: String,
    pub bytes: Vec<u8>,
}

/// What it takes to go public.
pub struct Setup {
    pub identity: Identity,
    /// The key to be saved, if it was generated.
    pub save: Option<KeyToSave>,
    /// The addresses to listen on, in order.
    pub listen_on: Vec<Address>,
    /// The gossip topic to subscribe to.
    pub topic: String,
    pub bootnode: PeerId,
    pub bootnode_address: Address,
    /// The addresses to be known by, in order.
    pub external_addresses: Vec<Address>,
}

/// Why a member cannot go public.
#[derive(Debug, Clone, Copy, PartialEq, Eq, Structural)]
pub enum SetupError {
    /// The key file gives no key.
    Key(KeyError),
    /// An address to listen on is not an address.
    ListenAddress,
    /// The peer id of the bootnode is not a peer id.
    BootnodePeerId,
    /// The IP address of the bootnode does not make an address.
    BootnodeAddress,
    /// The external IP address and port do not make an address.
    ExternalAddress,
}

/// That a member cannot go public.
pub struct SetupFailure {
    pub error: SetupError,
    /// The key to be saved, if one was generated.
    pub save: Option<KeyToSave>,
}

/// What a member is configured with.
pub struct Member {
    pub has_key_file: bool,
    pub bootnode_peer_id: Seq<char>,
    pub bootnode_ip_addr: Seq<char>,
    pub external_ip_addr: Seq<char>,
    pub external_port: Seq<char>,
    pub zone: Seq<char>,
}

/// The gossip topic of a zone.
pub open spec fn zone_topic(zone: Seq<char>) -> Seq<char> {
    "gozara-"@ + zone + "-zone"@
}

/// The address of the bootnode: its port is always the same.
pub open spec fn bootnode_at(ip: Seq<char>) -> Seq<char> {
    "/ip4/"@ + ip + "/tcp/20201"@
}

/// The address of a TCP port.
pub open spec fn tcp_at(ip: Seq<char>, port: Seq<char>) -> Seq<char> {
    "/ip4/"@ + ip + "/tcp/"@ + port
}

/// The address of a QUIC port.
pub open spec fn quic_at(ip: Seq<char>, port: Seq<char>) -> Seq<char> {
    "/ip4/"@ + ip + "/udp/"@ + port + "/quic-v1"@
}

/// The first thing that keeps a member from going public, if any does. `read` is what its key file
/// holds, if it has one that can be read.
pub open spec fn flaw(member: Member, read: Option<Vec<u8>>) -> Option<SetupError> {
    if member.has_key_file && read is None {
        Some(SetupError::Key(KeyError::Unreadable))
    } else if member.has_key_file && encoded_identity(read->Some_0@) is None {
        Some(SetupError::Key(KeyError::NotAKey))
    } else if denoted_address("/ip4/0.0.0.0/udp/20201/quic-v1"@) is None || denoted_address(
        "/ip4/0.0.0.0/tcp/20201"@,
    ) is None {
        Some(SetupError::ListenAddress)
    } else if peer_named(member.bootnode_peer_id) is None {
        Some(SetupError::BootnodePeerId)
    } else if denoted_address(bootnode_at(member.bootnode_ip_addr)) is None {
        Some(SetupError::BootnodeAddress)
    } else if denoted_address(tcp_at(member.external_ip_addr, member.external_port)) is None || denoted_address(
        quic_at(member.external_ip_addr, member.external_port),
    ) is None {
        Some(SetupError::ExternalAddress)
    } else {
        None
    }
}

/// The addresses are the ones that the two texts denote.
pub open spec fn denoted_by(addresses: Seq<Address>, first: Seq<char>, second: Seq<char>) -> bool {
    &&& addresses.len() == 2
    &&& denoted_address(first) == Some(addresses[0]@)
    &&& denoted_address(second) == Some(addresses[1]@)
}

/// What is saved is the key of the identity.
pub open spec fn saves(save: Option<KeyToSave>, identity: IdentityModel) -> bool {
    save matches Some(key) && key.path@ == GENERATED_KEY_FILE@ && encoded_identity(key.bytes@) == Some(identity)
}

/// The identity is the one in the key file, and nothing is saved; without a key file it is a
/// generated one, and its key is saved.
pub open spec fn is_identified(
    identity: IdentityModel,
    save: Option<KeyToSave>,
    has_key_file: bool,
    read: Option<Vec<u8>>,
) -> bool {
    if has_key_file {
        save is None && encoded_identity(read->Some_0@) == Some(identity)
    } else {
        saves(save, identity)
    }
}

/// The setup is the one for the member, where `read` is what its key file holds.
pub open spec fn is_setup(setup: Setup, member: Member, read: Option<Vec<u8>>) -> bool {
    &&& is_identified(setup.identity@, setup.save, member.has_key_file, read)
    &&& denoted_by(
        setup.listen_on@,
        "/ip4/0.0.0.0/udp/20201/quic-v1"@,
        "/ip4/0.0.0.0/tcp/20201"@,
    )
    &&& setup.topic@ == zone_topic(member.zone)
    &&& peer_named(member.bootnode_peer_id) == Some(setup.bootnode@)
    &&& denoted_address(bootnode_at(member.bootnode_ip_addr)) == Some(setup.bootnode_address@)
    &&& denoted_by(
        setup.external_addresses@,
        tcp_at(member.external_ip_addr, member.external_port),
        quic_at(member.external_ip_addr, member.external_port),
    )
}

/// The member goes public as it is configured, or the first flaw keeps it from that. A key that was
/// generated is saved in either case.
pub open spec fn is_outcome(outcome: Result<Setup, SetupFailure>, member: Member, read: Option<Vec<u8>>) -> bool {
    match flaw(member, read) {
        Some(error) => {
            &&& outcome matches Err(failure)
            &&& failure.error == error
            &&& if member.has_key_file {
                failure.save is None
            } else {
                exists|identity: IdentityModel| saves(failure.save, identity)
            }
        },
        None => outcome matches Ok(setup) && is_setup(setup, member, read),
    }
}

/// The identity of a member, and the key to be saved.
fn identify(has_key_file: bool, read: Option<Vec<u8>>) -> (identity: Result<
    (Identity, Option<KeyToSave>),
    KeyError,
>)
    ensures
        has_key_file && read is None ==> identity == Err::<(Identity, Option<KeyToSave>), KeyError>(
            KeyError::Unreadable,
        ),
        has_key_file && read is Some && encoded_identity(read->Some_0@) is None ==> identity == Err::<
            (Identity, Option<KeyToSave>),
            KeyError,
        >(KeyError::NotAKey),
        !has_key_file || (read is Some && encoded_identity(read->Some_0@) is Some) ==> (identity matches Ok(i)
            && is_identified(i.0@, i.1, has_key_file, read)),
{
    if has_key_file {
        match Identity::from_file(read) {
            Ok(identity) => Ok((identity, None)),
            Err(error) => Err(error),
        }
    } else {
        let (identity, bytes) = Identity::generate();
        Ok((identity, Some(KeyToSave { path: GENERATED_KEY_FILE.to_owned(), bytes })))
    }
}

/// The addresses that two texts denote, if both do.
fn parse_both(first: &str, second: &str) -> (addresses: Option<Vec<Address>>)
    ensures
        addresses is Some <==> denoted_address(first@) is Some && denoted_address(second@) is Some,
        addresses matches Some(a) ==> denoted_by(a@, first@, second@),
{
    match (Address::parse(first), Address::parse(second)) {
        (Some(one), Some(other)) => {
            let mut addresses: Vec<Address> = Vec::new();
            addresses.push(one);
            addresses.push(other);
            Some(addresses)
        },
        _ => None,
    }
}

/// Works out what it takes to go public.
pub(crate) fn plan(
    has_key_file: bool,
    read: Option<Vec<u8>>,
    bootnode_peer_id: &str,
    bootnode_ip_addr: &str,
    external_ip_addr: &str,
    external_port: &str,
    zone: &str,
) -> (outcome: Result<Setup, SetupFailure>)
    ensures
        is_outcome(
            outcome,
            (Member {
                has_key_file,
                bootnode_peer_id: bootnode_peer_id@,
                bootnode_ip_addr: bootnode_ip_addr@,
                external_ip_addr: external_ip_addr@,
                external_port: external_port@,
                zone: zone@,
            }),
            read,
        ),
{
    let (identity, save) = match identify(has_key_file, read) {
        Ok(identified) => identified,
        Err(error) => return Err(SetupFailure { error: SetupError::Key(error), save: None }),
    };
    assert(!has_key_file ==> saves(save, identity@));
    let listen_on = match parse_both("/ip4/0.0.0.0/udp/20201/quic-v1", "/ip4/0.0.0.0/tcp/20201") {
        Some(addresses) => addresses,
        None => return Err(SetupFailure { error: SetupError::ListenAddress, save }),
    };
    let bootnode = match parse_peer(bootnode_peer_id) {
        Some(peer) => peer,
        None => return Err(SetupFailure { error: SetupError::BootnodePeerId, save }),
    };
    let bootnode_text = join("/ip4/", bootnode_ip_addr, "/tcp/20201");
    let bootnode_address = match Address::parse(bootnode_text.as_str()) {
        Some(address) => address,
        None => return Err(SetupFailure { error: SetupError::BootnodeAddress, save }),
    };
    let tcp_host = join("/ip4/", external_ip_addr, "/tcp/");
    let udp_host = join("/ip4/", external_ip_addr, "/udp/");
    let tcp = join(tcp_host.as_str(), external_port, "");
    let quic = join(udp_host.as_str(), external_port, "/quic-v1");
    proof {
        reveal_strlit("");
        assert(tcp@ =~= tcp_at(external_ip_addr@, external_port@));
        assert(quic@ =~= quic_at(external_ip_addr@, external_port@));
    }
    let external_addresses = match parse_both(tcp.as_str(), quic.as_str()) {
        Some(addresses) => addresses,
        None => return Err(SetupFailure { error: SetupError::ExternalAddress, save }),
    };
    Ok(
        Setup {
            identity,
            save,
            listen_on,
            topic: join("gozara-", zone, "-zone"),
            bootnode,
            bootnode_address,
            external_addresses,
        },
    )
}

/// A member that has no key file, and is later given the one that was saved for it, has the same key
/// and the same peer id again.
pub proof fn law_saved_key_keeps_identity(first: Setup, then: Setup, member: Member, later: Member, read: Vec<u8>)
    requires
        !member.has_key_file,
        is_setup(first, member, None),
        later.has_key_file,
        read@ == first.save->Some_0.bytes@,
        is_setup(then, later, Some(read)),
    ensures
        then.identity@ == first.identity@,
        then.identity@.key == first.identity@.key,
        then.identity@.peer == first.identity@.peer,
        then.save is None,
{
}

/// A key file that gives no key keeps a member from going public: no fresh key stands in for it.
pub proof fn law_bad_key_file_is_an_error(
    outcome: Result<Setup, SetupFailure>,
    member: Member,
    read: Option<Vec<u8>>,
)
    requires
        member.has_key_file,
        read is None || encoded_identity(read->Some_0@) is None,
        is_outcome(outcome, member, read),
    ensures
        outcome matches Err(failure) && failure.error is Key && failure.save is None,
{
}

/// Members of the same zone meet in the same topic, and members of different zones do not.
pub proof fn law_topic_tells_zones_apart(a: Seq<char>, b: Seq<char>)
    ensures
        zone_topic(a) == zone_topic(b) <==> a == b,
{
    reveal_strlit("gozara-");
    reveal_strlit("-zone");
    assert(zone_topic(a).subrange(7, zone_topic(a).len() - 5) =~= a);
    assert(zone_topic(b).subrange(7, zone_topic(b).len() - 5) =~= b);
}

} // verus!
