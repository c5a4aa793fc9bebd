use gozara::client;
use gozara::identity::{parse_peer, Address, Identity, KeyError};
use gozara::node::config::{MissingVariable, NodeConfig, Variables};
use gozara::node::network::{self, NetworkAction, NetworkEvent};
use gozara::peyk::protocol::{PeerId, Request, Response};
use gozara::peyk::swarm::{check_public, process_swarm, AddressPart, SwarmAction, SwarmEvent};
use gozara::peyk::{HandlerMessage, SwarmMessage};
use gozara::setup::{Setup, SetupError};
use gozara::table::Table;
use libp2p::identity::Keypair;
use libp2p::Multiaddr;

const BOOTNODE: &str = "12D3KooWDpJ7As7BWAwRMfu1VU2WCqNjvq387JEYKDBj4kx6nXTN";

fn peer(name: &str) -> PeerId {
    PeerId::new(name.to_string())
}

fn public(ip: [u8; 4]) -> bool {
    check_public(&vec![AddressPart::Ip4(ip), AddressPart::Other])
}

#[test]
fn private_addresses() {
    assert!(!public([10, 0, 0, 1]));
    assert!(!public([172, 16, 0, 1]));
    assert!(!public([172, 31, 255, 255]));
    assert!(!public([192, 168, 1, 1]));
    assert!(!public([127, 0, 0, 1]));
}

#[test]
fn public_addresses() {
    assert!(public([8, 8, 8, 8]));
    assert!(public([172, 15, 0, 1]));
    assert!(public([172, 32, 0, 1]));
    assert!(public([192, 167, 0, 1]));
    assert!(public([11, 0, 0, 1]));
}

#[test]
fn addresses_without_ip4_are_public() {
    assert!(check_public(&vec![]));
    assert!(check_public(&vec![AddressPart::Other]));
}

#[test]
fn one_private_part_is_enough() {
    assert!(!check_public(&vec![
        AddressPart::Ip4([8, 8, 8, 8]),
        AddressPart::Other,
        AddressPart::Ip4([10, 0, 0, 1])
    ]));
}

#[test]
fn tick_looks_for_peers() {
    assert!(matches!(process_swarm(SwarmEvent::DiscoveryTick), SwarmAction::FindClosestPeers));
}

#[test]
fn permits_are_asked_of_each_peer() {
    let peers = vec![peer("a"), peer("b")];
    match process_swarm(SwarmEvent::Message(Some(SwarmMessage::RequestStoragePermits { peers }))) {
        SwarmAction::SendRequests { peers, request } => {
            assert_eq!(peers, vec![peer("a"), peer("b")]);
            assert_eq!(request, Request::RequestStoragePermit);
        }
        _ => panic!("the peers are not asked"),
    }
}

#[test]
fn store_message_is_left_alone() {
    let chunks = Table::new();
    assert!(matches!(
        process_swarm(SwarmEvent::Message(Some(SwarmMessage::Store { chunks }))),
        SwarmAction::Continue
    ));
}

#[test]
fn closed_channel_does_not_end_the_swarm() {
    assert!(matches!(process_swarm(SwarmEvent::Message(None)), SwarmAction::ChannelClosed));
}

fn multiaddr(text: &str) -> Multiaddr {
    text.parse().unwrap()
}

#[test]
fn public_address_is_remembered() {
    let event = SwarmEvent::NewExternalAddrOfPeer {
        peer_id: peer("a"),
        address: multiaddr("/ip4/8.8.8.8"),
        parts: vec![AddressPart::Ip4([8, 8, 8, 8])],
    };
    match process_swarm(event) {
        SwarmAction::AddAddress { peer_id, address } => {
            assert_eq!(peer_id, peer("a"));
            assert_eq!(address, multiaddr("/ip4/8.8.8.8"));
        }
        _ => panic!("the address is not remembered"),
    }
    let event = SwarmEvent::NewExternalAddrOfPeer {
        peer_id: peer("a"),
        address: multiaddr("/ip4/127.0.0.1"),
        parts: vec![AddressPart::Ip4([127, 0, 0, 1])],
    };
    assert!(matches!(process_swarm(event), SwarmAction::Continue));
}

#[test]
fn gossip_is_decoded() {
    let data = bincode::serialize(&7u8).unwrap();
    let event = SwarmEvent::Gossip { peer_id: peer("a"), data };
    assert!(matches!(
        process_swarm(event),
        SwarmAction::Relay(HandlerMessage::WouldStore { peer_id }) if peer_id == peer("a")
    ));
    let event = SwarmEvent::Gossip { peer_id: peer("a"), data: vec![7, 8, 9] };
    assert!(matches!(process_swarm(event), SwarmAction::Relay(_)));
    let event = SwarmEvent::Gossip { peer_id: peer("a"), data: vec![] };
    assert!(matches!(process_swarm(event), SwarmAction::GossipIgnored));
}

#[test]
fn requests_and_answers_are_handed_on() {
    let event = SwarmEvent::Request {
        peer_id: peer("a"),
        request_id: "17".to_string(),
        request: Request::RequestStoragePermit,
    };
    match process_swarm(event) {
        SwarmAction::Relay(HandlerMessage::Request { peer_id, request_id, request }) => {
            assert_eq!(peer_id, peer("a"));
            assert_eq!(request_id, "17");
            assert_eq!(request, Request::RequestStoragePermit);
        }
        _ => panic!("the request is not handed on"),
    }
    let event = SwarmEvent::Response {
        peer_id: peer("b"),
        request_id: "18".to_string(),
        response: Response::AckStoragePermit { valid_for: 9 },
    };
    match process_swarm(event) {
        SwarmAction::Relay(HandlerMessage::Response { peer_id, request_id, response }) => {
            assert_eq!(peer_id, peer("b"));
            assert_eq!(request_id, "18");
            assert_eq!(response, Response::AckStoragePermit { valid_for: 9 });
        }
        _ => panic!("the answer is not handed on"),
    }
    assert!(matches!(process_swarm(SwarmEvent::Other), SwarmAction::Continue));
}

#[test]
fn node_reactions() {
    assert_eq!(network::process_swarm(NetworkEvent::DiscoveryTick), NetworkAction::FindClosestPeers);
    assert_eq!(
        network::process_swarm(NetworkEvent::Request(Some(network::SwarmRequest::NeedBlob([0; 32])))),
        NetworkAction::Continue
    );
    assert_eq!(network::process_swarm(NetworkEvent::Request(None)), NetworkAction::Stop);
    assert_eq!(
        network::process_swarm(NetworkEvent::Message(Some(network::SwarmMessage::PersistBlob(
            "b".to_string()
        )))),
        NetworkAction::Continue
    );
    assert_eq!(network::process_swarm(NetworkEvent::Message(None)), NetworkAction::Stop);
    assert_eq!(network::process_swarm(NetworkEvent::ProofIsReady), NetworkAction::Accept);
    assert_eq!(network::process_swarm(NetworkEvent::Other), NetworkAction::Continue);
}

#[test]
fn node_remembers_public_addresses_only() {
    let known = |text: &str, ip| NetworkEvent::NewExternalAddrOfPeer {
        peer_id: peer("a"),
        address: multiaddr(text),
        parts: vec![AddressPart::Ip4(ip)],
    };
    assert_eq!(
        network::process_swarm(known("/ip4/1.2.3.4", [1, 2, 3, 4])),
        NetworkAction::AddAddress { peer_id: peer("a"), address: multiaddr("/ip4/1.2.3.4") }
    );
    assert_eq!(
        network::process_swarm(known("/ip4/192.168.3.4", [192, 168, 3, 4])),
        NetworkAction::Continue
    );
}

fn variables() -> Variables {
    Variables {
        grpc_addr: Some("grpc".to_string()),
        key_file: None,
        bootnode_peer_id: Some(BOOTNODE.to_string()),
        bootnode_ip_addr: Some("1.2.3.4".to_string()),
        bootnode_port: Some("999".to_string()),
        external_ip_addr: Some("5.6.7.8".to_string()),
        external_port: Some("30303".to_string()),
        zone: None,
    }
}

#[test]
fn config_from_variables() {
    let config = NodeConfig::from_variables(variables()).unwrap();
    assert_eq!(config.grpc_addr, "grpc");
    assert_eq!(config.key_file, None);
    assert_eq!(config.bootnode_port, "999");
    assert_eq!(config.zone, "ME");
    let mut vars = variables();
    vars.zone = Some("EU".to_string());
    vars.key_file = Some("key".to_string());
    let config = NodeConfig::from_variables(vars).unwrap();
    assert_eq!(config.zone, "EU");
    assert_eq!(config.key_file, Some("key".to_string()));
}

#[test]
fn missing_variables() {
    let mut vars = variables();
    vars.grpc_addr = None;
    vars.external_port = None;
    let missing = NodeConfig::from_variables(vars).unwrap_err();
    assert_eq!(missing, MissingVariable::NodeGrpcAddr);
    assert_eq!(missing.message(), "`NODE_GRPC_ADDR` is missing");
    let mut vars = variables();
    vars.bootnode_peer_id = None;
    assert_eq!(
        NodeConfig::from_variables(vars).unwrap_err().message(),
        "`BOOTNODE_PEER_ID` is missing"
    );
    let mut vars = variables();
    vars.bootnode_ip_addr = None;
    assert_eq!(
        NodeConfig::from_variables(vars).unwrap_err().message(),
        "`BOOTNODE_IP_ADDR` is missing"
    );
    let mut vars = variables();
    vars.bootnode_port = None;
    assert_eq!(
        NodeConfig::from_variables(vars).unwrap_err().message(),
        "`BOOTNODE_PORT` is missing"
    );
    let mut vars = variables();
    vars.external_ip_addr = None;
    assert_eq!(
        NodeConfig::from_variables(vars).unwrap_err().message(),
        "`EXTERNAL_IP_ADDR` is missing"
    );
    let mut vars = variables();
    vars.external_port = None;
    assert_eq!(
        NodeConfig::from_variables(vars).unwrap_err().message(),
        "`EXTERNAL_PORT` is missing"
    );
}

fn check_address(address: &Address, text: &str) {
    assert_eq!(*address.multiaddr(), multiaddr(text));
    assert_eq!(address.multiaddr().to_string(), text);
    assert_eq!(address.as_bytes(), multiaddr(text).to_vec());
}

fn check_setup(setup: &Setup) {
    assert_eq!(setup.listen_on.len(), 2);
    check_address(&setup.listen_on[0], "/ip4/0.0.0.0/udp/20201/quic-v1");
    check_address(&setup.listen_on[1], "/ip4/0.0.0.0/tcp/20201");
    assert_eq!(setup.topic, "gozara-ME-zone");
    assert_eq!(setup.bootnode.as_str(), BOOTNODE);
    check_address(&setup.bootnode_address, "/ip4/1.2.3.4/tcp/20201");
    assert_eq!(setup.external_addresses.len(), 2);
    check_address(&setup.external_addresses[0], "/ip4/5.6.7.8/tcp/30303");
    check_address(&setup.external_addresses[1], "/ip4/5.6.7.8/udp/30303/quic-v1");
}

fn error_of(config: client::Config, read: Option<Vec<u8>>) -> SetupError {
    client::go_public(config, read).err().unwrap().error
}

fn client_config(key_file: Option<&str>) -> client::Config {
    client::Config {
        grpc_addr: "grpc".to_string(),
        key_file: key_file.map(|path| path.to_string()),
        bootnode_peer_id: BOOTNODE.to_string(),
        bootnode_ip_addr: "1.2.3.4".to_string(),
        bootnode_port: "999".to_string(),
        external_ip_addr: "5.6.7.8".to_string(),
        external_port: "30303".to_string(),
        zone: "ME".to_string(),
    }
}

#[test]
fn node_goes_public() {
    let config = NodeConfig::from_variables(variables()).unwrap();
    let setup = network::go_public(config, None).ok().unwrap();
    check_setup(&setup);
    let save = setup.save.as_ref().unwrap();
    assert_eq!(save.path, "./key.secret");
}

#[test]
fn client_goes_public_with_its_key() {
    let key = Keypair::generate_ed25519();
    let bytes = key.to_protobuf_encoding().unwrap();
    let setup = client::go_public(client_config(Some("my.key")), Some(bytes)).ok().unwrap();
    check_setup(&setup);
    assert!(setup.save.is_none());
    let peer_id = key.public().to_peer_id();
    assert_eq!(setup.identity.peer_id(), peer_id.to_base58());
    assert_eq!(setup.identity.keypair().public(), key.public());
}

#[test]
fn saved_key_gives_the_same_identity() {
    let first = client::go_public(client_config(None), None).ok().unwrap();
    let saved = first.save.unwrap();
    let then = client::go_public(client_config(Some(&saved.path)), Some(saved.bytes)).ok().unwrap();
    assert_eq!(then.identity.peer_id(), first.identity.peer_id());
    assert_eq!(then.identity.keypair().public(), first.identity.keypair().public());
    assert_eq!(
        then.identity.peer_id(),
        then.identity.keypair().public().to_peer_id().to_base58()
    );
    assert!(then.save.is_none());
    let other = client::go_public(client_config(None), None).ok().unwrap();
    assert_ne!(other.identity.peer_id(), first.identity.peer_id());
}

#[test]
fn bad_key_files_are_errors() {
    let failure = client::go_public(client_config(Some("my.key")), None).err().unwrap();
    assert_eq!(failure.error, SetupError::Key(KeyError::Unreadable));
    assert!(failure.save.is_none());
    let failure =
        client::go_public(client_config(Some("my.key")), Some(vec![1, 2, 3])).err().unwrap();
    assert_eq!(failure.error, SetupError::Key(KeyError::NotAKey));
    assert!(failure.save.is_none());
    assert_eq!(Identity::from_file(Some(vec![])).err(), Some(KeyError::NotAKey));
}

#[test]
fn generated_key_is_saved_though_the_setup_fails() {
    let mut config = client_config(None);
    config.bootnode_peer_id = "nobody".to_string();
    let failure = client::go_public(config, None).err().unwrap();
    assert_eq!(failure.error, SetupError::BootnodePeerId);
    let saved = failure.save.unwrap();
    assert_eq!(saved.path, "./key.secret");
    assert!(Identity::from_file(Some(saved.bytes)).is_ok());
}

#[test]
fn bad_addresses_are_errors() {
    let mut config = client_config(None);
    config.bootnode_peer_id = "nobody".to_string();
    assert_eq!(error_of(config, None), SetupError::BootnodePeerId);
    let mut config = client_config(None);
    config.bootnode_ip_addr = "1.2.3".to_string();
    assert_eq!(error_of(config, None), SetupError::BootnodeAddress);
    let mut config = client_config(None);
    config.external_port = "70000".to_string();
    assert_eq!(error_of(config, None), SetupError::ExternalAddress);
    assert!(Address::parse("1.2.3.4").is_none());
    assert!(parse_peer("").is_none());
    assert_eq!(parse_peer(BOOTNODE).unwrap().as_str(), BOOTNODE);
}

#[test]
fn zones_have_their_own_topics() {
    let mut vars = variables();
    vars.zone = Some("EU".to_string());
    let config = NodeConfig::from_variables(vars).unwrap();
    assert_eq!(network::go_public(config, None).ok().unwrap().topic, "gozara-EU-zone");
}
