//! The part of a node that faces the network.
use vstd::prelude::*;
use libp2p::Multiaddr;
use crate::blake3_wrapper::Digest;
use crate::node::config::NodeConfig;
use crate::peyk::protocol::PeerId;
use crate::peyk::swarm::{check_public, is_public, AddressPart};
use crate::identity::{
    address_named, encoded_key, encoded_peer, is_address, is_key, peer_named, KeyError,
};
use crate::setup::{is_outcome, plan, Member, Setup, SetupError, SetupFailure};

verus! {

/// What the swarm of a node is asked to do with a blob that goes by its digest.
#[derive(Debug, PartialEq, Eq)]
pub enum SwarmRequest {
    /// Get the blob.
    NeedBlob(Digest),
    /// Store the blob with other peers.
    PersistBlob(Digest),
}

/// What the blob store of a node asks of the swarm.
#[derive(Debug, PartialEq, Eq)]
pub enum SwarmMessage {
    /// Store the blob with the given id with other peers.
    PersistBlob(String),
}

/// What happens in the swarm of a node. A channel that yields `None` is closed.
pub enum NetworkEvent {
    /// It is time to look for peers.
    DiscoveryTick,
    /// The swarm is asked to do something with a blob.
    Request(Option<SwarmRequest>),
    /// The blob store asks something.
    Message(Option<SwarmMessage>),
    /// An address of a peer became known. `parts` are the parts of the address.
    NewExternalAddrOfPeer { peer_id: PeerId, address: Multiaddr, parts: Vec<AddressPart> },
    /// A peer says that a proof is ready.
    ProofIsReady,
    /// Gossip, an answer of a peer, or anything else.
    Other,
}

/// What the swarm of a node does next.
#[derive(Debug, PartialEq, Eq)]
pub enum NetworkAction {
    /// Nothing.
    Continue,
    /// The channel is closed: end.
    Stop,
    /// Look for the peers closest to a random one.
    FindClosestPeers,
    /// Remember the address of the peer.
    AddAddress { peer_id: PeerId, address: Multiaddr },
    /// Answer that it is accepted.
    Accept,
}

/// What is to be done about an event.
pub open spec fn reaction(event: NetworkEvent) -> NetworkAction {
    match event {
        NetworkEvent::DiscoveryTick => NetworkAction::FindClosestPeers,
        NetworkEvent::Request(None) => NetworkAction::Stop,
        NetworkEvent::Message(None) => NetworkAction::Stop,
        NetworkEvent::NewExternalAddrOfPeer { peer_id, address, parts } if is_public(
            parts@,
        ) => NetworkAction::AddAddress { peer_id, address },
        NetworkEvent::ProofIsReady => NetworkAction::Accept,
        _ => NetworkAction::Continue,
    }
}

/// Decides what is to be done about an event.
pub fn process_swarm(event: NetworkEvent) -> (action: NetworkAction)
    ensures
        action == reaction(event),
{
    match event {
        NetworkEvent::DiscoveryTick => NetworkAction::FindClosestPeers,
        NetworkEvent::Request(request) => match request {
            Some(_) => NetworkAction::Continue,
            None => NetworkAction::Stop,
        },
        NetworkEvent::Message(message) => match message {
            Some(_) => NetworkAction::Continue,
            None => NetworkAction::Stop,
        },
        NetworkEvent::NewExternalAddrOfPeer { peer_id, address, parts } => if check_public(&parts) {
            NetworkAction::AddAddress { peer_id, address }
        } else {
            NetworkAction::Continue
        },
        NetworkEvent::ProofIsReady => NetworkAction::Accept,
        NetworkEvent::Other => NetworkAction::Continue,
    }
}

/// What the configuration of a node says of it.
pub open spec fn member(config: NodeConfig) -> Member {
    Member {
        has_key_file: config.key_file is Some,
        bootnode_peer_id: config.bootnode_peer_id@,
        bootnode_ip_addr: config.bootnode_ip_addr@,
        external_ip_addr: config.external_ip_addr@,
        external_port: config.external_port@,
        zone: config.zone@,
    }
}

/// Works out what it takes for a node to go public. `read` is what the key file of the configuration
/// holds, if there is one that can be read.
pub fn go_public(config: NodeConfig, read: Option<Vec<u8>>) -> (outcome: Result<Setup, SetupFailure>)
    ensures
        is_outcome(outcome, member(config), read),
{
    plan(
        config.key_file.is_some(),
        read,
        config.bootnode_peer_id.as_str(),
        config.bootnode_ip_addr.as_str(),
        config.external_ip_addr.as_str(),
        config.external_port.as_str(),
        config.zone.as_str(),
    )
}

/// An address of a peer that becomes known is remembered, with its peer, if and only if each of its
/// IPv4 parts, however many there are and whatever else it is made of, lies outside of
/// `10.0.0.0/8`, `172.16.0.0/12`, `192.168.0.0/16` and `127.0.0.0/8`.
pub proof fn law_public_address_is_remembered(peer_id: PeerId, address: Multiaddr, parts: Vec<AddressPart>)
    ensures
        (forall|i: int|
            0 <= i < parts@.len() ==> (#[trigger] parts@[i] matches AddressPart::Ip4(ip) ==> ip@[0] != 10 && !(ip@[0]
                == 172 && 16 <= ip@[1] < 32) && !(ip@[0] == 192 && ip@[1] == 168) && ip@[0] != 127)) ==> reaction(NetworkEvent::NewExternalAddrOfPeer { peer_id, address, parts })
            == (NetworkAction::AddAddress { peer_id, address }),
        (exists|i: int|
            0 <= i < parts@.len() && (#[trigger] parts@[i] matches AddressPart::Ip4(ip) && (ip@[0] == 10 || (ip@[0]
                == 172 && 16 <= ip@[1] < 32) || (ip@[0] == 192 && ip@[1] == 168) || ip@[0] == 127)))
            ==> reaction(NetworkEvent::NewExternalAddrOfPeer { peer_id, address, parts })
            == NetworkAction::Continue,
{
}

/// The swarm of a node ends when one of its channels is closed, and only then; it looks for peers at
/// every tick, and accepts every proof that is ready. Anything else is left alone.
pub proof fn law_rest_of_the_network(event: NetworkEvent)
    ensures
        reaction(event) is Stop <==> event matches NetworkEvent::Request(None) || event matches NetworkEvent::Message(
            None,
        ),
        reaction(event) is FindClosestPeers <==> event is DiscoveryTick,
        reaction(event) is Accept <==> event is ProofIsReady,
        reaction(event) is AddAddress ==> event is NewExternalAddrOfPeer,
{
}

/// What a node that goes public, or fails to, comes by: everything is as its configuration says.
pub proof fn law_node_goes_public_as_configured(
    config: NodeConfig,
    read: Option<Vec<u8>>,
    outcome: Result<Setup, SetupFailure>,
)
    requires
        is_outcome(outcome, member(config), read),
    ensures
        outcome matches Ok(setup) ==> {
            &&& setup.topic@ == "gozara-"@ + config.zone@ + "-zone"@
            &&& peer_named(config.bootnode_peer_id@) == Some(setup.bootnode@)
            &&& address_named("/ip4/"@ + config.bootnode_ip_addr@ + "/tcp/20201"@) == Some(
                setup.bootnode_address@.address,
            )
            &&& setup.listen_on@.len() == 2
            &&& address_named("/ip4/0.0.0.0/udp/20201/quic-v1"@) == Some(setup.listen_on@[0]@.address)
            &&& address_named("/ip4/0.0.0.0/tcp/20201"@) == Some(setup.listen_on@[1]@.address)
            &&& setup.external_addresses@.len() == 2
            &&& address_named("/ip4/"@ + config.external_ip_addr@ + "/tcp/"@ + config.external_port@) == Some(
                setup.external_addresses@[0]@.address,
            )
            &&& address_named(
                "/ip4/"@ + config.external_ip_addr@ + "/udp/"@ + config.external_port@ + "/quic-v1"@,
            ) == Some(setup.external_addresses@[1]@.address)
            &&& config.key_file is Some ==> read is Some && setup.save is None && encoded_key(
                read->Some_0@,
            ) == Some(setup.identity@.key) && encoded_peer(read->Some_0@) == Some(setup.identity@.peer)
            &&& config.key_file is None ==> (setup.save matches Some(save) && save.path@ == "./key.secret"@
                && encoded_key(save.bytes@) == Some(setup.identity@.key) && encoded_peer(save.bytes@) == Some(
                setup.identity@.peer,
            ))
        },
        outcome matches Err(failure) ==> {
            &&& config.key_file is Some ==> failure.save is None
            &&& config.key_file is None ==> (failure.save matches Some(save) && save.path@ == "./key.secret"@
                && encoded_key(save.bytes@) is Some)
        },
{
}

/// A node goes public if and only if its key file, where it has one, holds a key, and the peer id and
/// every address denote what they should; otherwise the error says what is wrong first.
pub proof fn law_node_goes_public_unless_flawed(
    config: NodeConfig,
    read: Option<Vec<u8>>,
    outcome: Result<Setup, SetupFailure>,
)
    requires
        is_outcome(outcome, member(config), read),
    ensures
        ({
            let key = config.key_file is None || (read matches Some(bytes) && is_key(bytes@));
            let listen = is_address("/ip4/0.0.0.0/udp/20201/quic-v1"@) && is_address("/ip4/0.0.0.0/tcp/20201"@);
            let peer = peer_named(config.bootnode_peer_id@) is Some;
            let boot = is_address("/ip4/"@ + config.bootnode_ip_addr@ + "/tcp/20201"@);
            let external = is_address("/ip4/"@ + config.external_ip_addr@ + "/tcp/"@ + config.external_port@) && is_address("/ip4/"@ + config.external_ip_addr@ + "/udp/"@ + config.external_port@ + "/quic-v1"@);
            &&& outcome is Ok <==> key && listen && peer && boot && external
            &&& outcome matches Err(failure) ==> {
                &&& failure.error == SetupError::Key(KeyError::Unreadable) <==> config.key_file is Some && read is None
                &&& failure.error == SetupError::Key(KeyError::NotAKey) <==> !key && read is Some
                &&& failure.error is ListenAddress <==> key && !listen
                &&& failure.error is BootnodePeerId <==> key && listen && !peer
                &&& failure.error is BootnodeAddress <==> key && listen && peer && !boot
                &&& failure.error is ExternalAddress <==> key && listen && peer && boot && !external
            }
        }),
{
}

} // verus!
