//! What the swarm does about what happens in it.
use vstd::prelude::*;
use libp2p::Multiaddr;
use crate::peyk::protocol::{PeerId, Request, Response};
use crate::peyk::{HandlerMessage, SwarmMessage};

verus! {

/// A part of a network address.
#[derive(Debug, Clone, Copy, PartialEq, Eq)]
pub enum AddressPart {
    /// An IPv4 address.
    Ip4([u8; 4]),
    /// Anything else: a port, a transport, a name.
    Other,
}

/// The IPv4 address is of a private network: `10.0.0.0/8`, `172.16.0.0/12` or `192.168.0.0/16`.
pub open spec fn is_private(ip: Seq<u8>) -> bool {
    ||| ip[0] == 10
    ||| ip[0] == 172 && 16 <= ip[1] <= 31
    ||| ip[0] == 192 && ip[1] == 168
}

/// The IPv4 address is of the machine itself: `127.0.0.0/8`.
pub open spec fn is_loopback(ip: Seq<u8>) -> bool {
    ip[0] == 127
}

/// No part of the address is an IPv4 address of a private network or of the machine itself.
pub open spec fn is_public(address: Seq<AddressPart>) -> bool {
    forall|i: int|
        0 <= i < address.len() ==> (#[trigger] address[i] matches AddressPart::Ip4(ip) ==> !is_private(ip@)
            && !is_loopback(ip@))
}

/// Whether an address can be reached from elsewhere.
pub fn check_public(address: &Vec<AddressPart>) -> (public: bool)
    ensures
        public == is_public(address@),
{
    let mut i: usize = 0;
    while i < address.len()
        invariant
            0 <= i <= address@.len(),
            forall|j: int|
                0 <= j < i ==> (#[trigger] address@[j] matches AddressPart::Ip4(ip) ==> !is_private(ip@)
                    && !is_loopback(ip@)),
        decreases address@.len() - i,
    {
        match address[i] {
            AddressPart::Ip4(ip) => {
                assert(address@[i as int] == AddressPart::Ip4(ip));
                if ip[0] == 10 || (ip[0] == 172 && 16 <= ip[1] && ip[1] <= 31) || (ip[0] == 192 && ip[1] == 168)
                    || ip[0] == 127 {
                    return false;
                }
            },
            AddressPart::Other => {},
        }
        i += 1;
    }
    true
}

/// `bincode::ErrorKind`, why bytes could not be decoded.
#[verifier::external_type_specification]
#[verifier::external_body]
pub struct ExErrorKind(bincode::ErrorKind);

/// Calls `bincode::deserialize` for a `u8`.
///
/// Trusted: the first byte is the result, whatever follows it; the call fails only where there is
/// none.
#[verifier::external_body]
fn decode_byte(data: &[u8]) -> (byte: Result<u8, Box<bincode::ErrorKind>>)
    ensures
        byte is Ok <==> data@.len() > 0,
        byte matches Ok(b) ==> b == data@[0],
{
    bincode::deserialize::<u8>(data)
}

/// What happens in the swarm. A channel that yields `None` is closed.
pub enum SwarmEvent {
    /// It is time to look for peers.
    DiscoveryTick,
    /// The swarm is asked to do something.
    Message(Option<SwarmMessage>),
    /// An address of a peer became known. `parts` are the parts of the address.
    NewExternalAddrOfPeer { peer_id: PeerId, address: Multiaddr, parts: Vec<AddressPart> },
    /// A peer passed gossip on.
    Gossip { peer_id: PeerId, data: Vec<u8> },
    /// A peer asks something.
    Request { peer_id: PeerId, request_id: String, request: Request },
    /// A peer answered the request that has the id.
    Response { peer_id: PeerId, request_id: String, response: Response },
    /// Anything else.
    Other,
}

/// What the swarm does next.
pub enum SwarmAction {
    /// Nothing.
    Continue,
    /// Look for the peers closest to a random one.
    FindClosestPeers,
    /// Send the request to each of the peers, in order.
    SendRequests { peers: Vec<PeerId>, request: Request },
    /// Remember the address of the peer.
    AddAddress { peer_id: PeerId, address: Multiaddr },
    /// Hand the message on.
    Relay(HandlerMessage),
    /// Gossip that cannot be decoded is ignored.
    GossipIgnored,
    /// The channel on which the swarm is asked to do things is closed. The swarm goes on.
    ChannelClosed,
}

/// What is to be done about an event.
pub open spec fn reaction(event: SwarmEvent) -> SwarmAction {
    match event {
        SwarmEvent::DiscoveryTick => SwarmAction::FindClosestPeers,
        SwarmEvent::Message(None) => SwarmAction::ChannelClosed,
        SwarmEvent::Message(Some(SwarmMessage::RequestStoragePermits { peers })) => SwarmAction::SendRequests {
            peers,
            request: Request::RequestStoragePermit,
        },
        SwarmEvent::Message(Some(SwarmMessage::Store { .. })) => SwarmAction::Continue,
        SwarmEvent::NewExternalAddrOfPeer { peer_id, address, parts } => if is_public(parts@) {
            SwarmAction::AddAddress { peer_id, address }
        } else {
            SwarmAction::Continue
        },
        SwarmEvent::Gossip { peer_id, data } => if data@.len() > 0 {
            SwarmAction::Relay(HandlerMessage::WouldStore { peer_id })
        } else {
            SwarmAction::GossipIgnored
        },
        SwarmEvent::Request { peer_id, request_id, request } => SwarmAction::Relay(
            HandlerMessage::Request { peer_id, request_id, request },
        ),
        SwarmEvent::Response { peer_id, request_id, response } => SwarmAction::Relay(
            HandlerMessage::Response { peer_id, request_id, response },
        ),
        SwarmEvent::Other => SwarmAction::Continue,
    }
}

/// Decides what is to be done about an event.
pub fn process_swarm(event: SwarmEvent) -> (action: SwarmAction)
    ensures
        action == reaction(event),
{
    match event {
        SwarmEvent::DiscoveryTick => SwarmAction::FindClosestPeers,
        SwarmEvent::Message(message) => match message {
            Some(SwarmMessage::RequestStoragePermits { peers }) => SwarmAction::SendRequests {
                peers,
                request: Request::RequestStoragePermit,
            },
            Some(SwarmMessage::Store { .. }) => SwarmAction::Continue,
            None => SwarmAction::ChannelClosed,
        },
        SwarmEvent::NewExternalAddrOfPeer { peer_id, address, parts } => if check_public(&parts) {
            SwarmAction::AddAddress { peer_id, address }
        } else {
            SwarmAction::Continue
        },
        SwarmEvent::Gossip { peer_id, data } => match decode_byte(data.as_slice()) {
            Ok(_) => SwarmAction::Relay(HandlerMessage::WouldStore { peer_id }),
            Err(_) => SwarmAction::GossipIgnored,
        },
        SwarmEvent::Request { peer_id, request_id, request } => SwarmAction::Relay(
            HandlerMessage::Request { peer_id, request_id, request },
        ),
        SwarmEvent::Response { peer_id, request_id, response } => SwarmAction::Relay(
            HandlerMessage::Response { peer_id, request_id, response },
        ),
        SwarmEvent::Other => SwarmAction::Continue,
    }
}

/// An address of a peer that becomes known is remembered, with its peer, if and only if each of its
/// IPv4 parts, however many there are and whatever else it is made of, lies outside of
/// `10.0.0.0/8`, `172.16.0.0/12`, `192.168.0.0/16` and `127.0.0.0/8`.
pub proof fn law_public_address_is_remembered(peer_id: PeerId, address: Multiaddr, parts: Vec<AddressPart>)
    ensures
        (forall|i: int|
            0 <= i < parts@.len() ==> (#[trigger] parts@[i] matches AddressPart::Ip4(ip) ==> ip@[0] != 10 && !(ip@[0]
                == 172 && 16 <= ip@[1] < 32) && !(ip@[0] == 192 && ip@[1] == 168) && ip@[0] != 127)) ==> reaction(SwarmEvent::NewExternalAddrOfPeer { peer_id, address, parts })
            == (SwarmAction::AddAddress { peer_id, address }),
        (exists|i: int|
            0 <= i < parts@.len() && (#[trigger] parts@[i] matches AddressPart::Ip4(ip) && (ip@[0] == 10 || (ip@[0]
                == 172 && 16 <= ip@[1] < 32) || (ip@[0] == 192 && ip@[1] == 168) || ip@[0] == 127)))
            ==> reaction(SwarmEvent::NewExternalAddrOfPeer { peer_id, address, parts }) == SwarmAction::Continue,
{
}

/// Parts that are not IPv4 addresses do not matter: where one stands among others, leaving it out
/// changes nothing about whether the address is remembered.
pub proof fn law_other_parts_do_not_matter(parts: Seq<AddressPart>, at: int)
    requires
        0 <= at < parts.len(),
        parts[at] is Other,
    ensures
        is_public(parts) <==> is_public(parts.remove(at)),
{
    let rest = parts.remove(at);
    if is_public(rest) {
        assert forall|i: int| 0 <= i < parts.len() implies (#[trigger] parts[i] matches AddressPart::Ip4(ip)
            ==> !is_private(ip@) && !is_loopback(ip@)) by {
            if i < at {
                assert(rest[i] == parts[i]);
            } else if i > at {
                assert(rest[i - 1] == parts[i]);
            }
        }
    }
    if is_public(parts) {
        assert forall|i: int| 0 <= i < rest.len() implies (#[trigger] rest[i] matches AddressPart::Ip4(ip)
            ==> !is_private(ip@) && !is_loopback(ip@)) by {
            if i < at {
                assert(rest[i] == parts[i]);
            } else {
                assert(rest[i] == parts[i + 1]);
            }
        }
    }
}

/// Each peer that permits are to be asked of is asked, in order, and for nothing else.
pub proof fn law_permits_are_asked_of_all(peers: Vec<PeerId>)
    ensures
        reaction(SwarmEvent::Message(Some(SwarmMessage::RequestStoragePermits { peers })))
            matches SwarmAction::SendRequests { peers: asked, request } && asked@ == peers@ && request
            == Request::RequestStoragePermit,
{
}

/// What peers say is handed on, and nothing is made up: gossip that holds anything, as the word of the
/// peer that passed it on; requests and answers with their peer, their id and what they say. Nothing
/// else is handed on.
pub proof fn law_what_peers_say_is_handed_on(
    event: SwarmEvent,
    peer_id: PeerId,
    request_id: String,
    request: Request,
    response: Response,
    data: Vec<u8>,
)
    ensures
        data@.len() > 0 ==> reaction(SwarmEvent::Gossip { peer_id, data }) == SwarmAction::Relay(
            HandlerMessage::WouldStore { peer_id },
        ),
        data@.len() == 0 ==> reaction(SwarmEvent::Gossip { peer_id, data }) == SwarmAction::GossipIgnored,
        reaction(SwarmEvent::Request { peer_id, request_id, request }) == SwarmAction::Relay(
            HandlerMessage::Request { peer_id, request_id, request },
        ),
        reaction(SwarmEvent::Response { peer_id, request_id, response }) == SwarmAction::Relay(
            HandlerMessage::Response { peer_id, request_id, response },
        ),
        reaction(event) is Relay ==> event is Gossip || event is Request || event is Response,
{
}

/// Peers are looked for at every tick and only then; a closed channel does not end the swarm; what is
/// asked to be stored, and anything else, is left alone.
pub proof fn law_rest_of_the_swarm(event: SwarmEvent)
    ensures
        reaction(event) is FindClosestPeers <==> event is DiscoveryTick,
        reaction(event) is ChannelClosed <==> event matches SwarmEvent::Message(None),
        event is Other ==> reaction(event) is Continue,
        event matches SwarmEvent::Message(Some(SwarmMessage::Store { .. })) ==> reaction(event) is Continue,
{
}

/// An address is public if and only if each of its IPv4 parts lies outside of `10.0.0.0/8`,
/// `172.16.0.0/12`, `192.168.0.0/16` and `127.0.0.0/8`; one such part alone decides that it is not.
pub proof fn law_public_part_by_part(parts: Seq<AddressPart>, more: Seq<AddressPart>, ip: [u8; 4])
    ensures
        is_public(parts + more) <==> is_public(parts) && is_public(more),
        is_public(Seq::empty()),
        is_public(seq![AddressPart::Other]),
        is_public(seq![AddressPart::Ip4(ip)]) <==> ip@[0] != 10 && !(ip@[0] == 172 && 16 <= ip@[1] < 32) && !(ip@[0]
            == 192 && ip@[1] == 168) && ip@[0] != 127,
{
    let all = parts + more;
    if is_public(all) {
        assert forall|i: int| 0 <= i < parts.len() implies (#[trigger] parts[i] matches AddressPart::Ip4(a)
            ==> !is_private(a@) && !is_loopback(a@)) by {
            assert(all[i] == parts[i]);
        }
        assert forall|i: int| 0 <= i < more.len() implies (#[trigger] more[i] matches AddressPart::Ip4(a)
            ==> !is_private(a@) && !is_loopback(a@)) by {
            assert(all[parts.len() + i] == more[i]);
        }
    }
    let one = seq![AddressPart::Ip4(ip)];
    assert(one[0] == AddressPart::Ip4(ip));
}

} // verus!
