//! The client: cuts blobs into chunks and has other peers store them.
pub mod assignment;
pub mod blob_store;
pub mod coordinator;
pub mod custody;
pub mod deals;
pub mod uploads;

use vstd::prelude::*;
use crate::identity::{
    address_named, encoded_key, encoded_peer, is_address, is_key, peer_named, KeyError,
};
use crate::setup::{is_outcome, plan, Member, Setup, SetupError, SetupFailure};

verus! {

/// The configuration of a client.
#[derive(Debug, PartialEq, Eq)]
pub struct Config {
    pub grpc_addr: String,
    pub key_file: Option<String>,
    pub bootnode_peer_id: String,
    pub bootnode_ip_addr: String,
    pub bootnode_port: String,
    pub external_ip_addr: String,
    pub external_port: String,
    pub zone: String,
}

/// What the configuration of a client says of it.
pub open spec fn member(config: Config) -> Member {
    Member {
        has_key_file: config.key_file is Some,
        bootnode_peer_id: config.bootnode_peer_id@,
        bootnode_ip_addr: config.bootnode_ip_addr@,
        external_ip_addr: config.external_ip_addr@,
        external_port: config.external_port@,
        zone: config.zone@,
    }
}

/// Works out what it takes for a client to go public. `read` is what the key file of the configuration
/// holds, if there is one that can be read.
pub fn go_public(config: Config, read: Option<Vec<u8>>) -> (outcome: Result<Setup, SetupFailure>)
    ensures
        is_outcome(outcome, member(config), read),
{
    plan(
        config.key_file.is_some(),
        read,
        config.bootnode_peer_id.as_str(),
        config.bootnode_ip_addr.as_str(),
        config.external_ip_addr.as_str(),
        config.external_port.as_str(),
        config.zone.as_str(),
    )
}

/// What a client that goes public, or fails to, comes by: everything is as its configuration says.
pub proof fn law_client_goes_public_as_configured(
    config: Config,
    read: Option<Vec<u8>>,
    outcome: Result<Setup, SetupFailure>,
)
    requires
        is_outcome(outcome, member(config), read),
    ensures
        outcome matches Ok(setup) ==> {
            &&& setup.topic@ == "gozara-"@ + config.zone@ + "-zone"@
            &&& peer_named(config.bootnode_peer_id@) == Some(setup.bootnode@)
            &&& address_named("/ip4/"@ + config.bootnode_ip_addr@ + "/tcp/20201"@) == Some(
                setup.bootnode_address@.address,
            )
            &&& setup.listen_on@.len() == 2
            &&& address_named("/ip4/0.0.0.0/udp/20201/quic-v1"@) == Some(setup.listen_on@[0]@.address)
            &&& address_named("/ip4/0.0.0.0/tcp/20201"@) == Some(setup.listen_on@[1]@.address)
            &&& setup.external_addresses@.len() == 2
            &&& address_named("/ip4/"@ + config.external_ip_addr@ + "/tcp/"@ + config.external_port@) == Some(
                setup.external_addresses@[0]@.address,
            )
            &&& address_named(
                "/ip4/"@ + config.external_ip_addr@ + "/udp/"@ + config.external_port@ + "/quic-v1"@,
            ) == Some(setup.external_addresses@[1]@.address)
            &&& config.key_file is Some ==> read is Some && setup.save is None && encoded_key(
                read->Some_0@,
            ) == Some(setup.identity@.key) && encoded_peer(read->Some_0@) == Some(setup.identity@.peer)
            &&& config.key_file is None ==> (setup.save matches Some(save) && save.path@ == "./key.secret"@
                && encoded_key(save.bytes@) == Some(setup.identity@.key) && encoded_peer(save.bytes@) == Some(
                setup.identity@.peer,
            ))
        },
        outcome matches Err(failure) ==> {
            &&& config.key_file is Some ==> failure.save is None
            &&& config.key_file is None ==> (failure.save matches Some(save) && save.path@ == "./key.secret"@
                && encoded_key(save.bytes@) is Some)
        },
{
}

/// A client goes public if and only if its key file, where it has one, holds a key, and the peer id and
/// every address denote what they should; otherwise the error says what is wrong first.
pub proof fn law_client_goes_public_unless_flawed(
    config: Config,
    read: Option<Vec<u8>>,
    outcome: Result<Setup, SetupFailure>,
)
    requires
        is_outcome(outcome, member(config), read),
    ensures
        ({
            let key = config.key_file is None || (read matches Some(bytes) && is_key(bytes@));
            let listen = is_address("/ip4/0.0.0.0/udp/20201/quic-v1"@) && is_address("/ip4/0.0.0.0/tcp/20201"@);
            let peer = peer_named(config.bootnode_peer_id@) is Some;
            let boot = is_address("/ip4/"@ + config.bootnode_ip_addr@ + "/tcp/20201"@);
            let external = is_address("/ip4/"@ + config.external_ip_addr@ + "/tcp/"@ + config.external_port@) && is_address("/ip4/"@ + config.external_ip_addr@ + "/udp/"@ + config.external_port@ + "/quic-v1"@);
            &&& outcome is Ok <==> key && listen && peer && boot && external
            &&& outcome matches Err(failure) ==> {
                &&& failure.error == SetupError::Key(KeyError::Unreadable) <==> config.key_file is Some && read is None
                &&& failure.error == SetupError::Key(KeyError::NotAKey) <==> !key && read is Some
                &&& failure.error is ListenAddress <==> key && !listen
                &&& failure.error is BootnodePeerId <==> key && listen && !peer
                &&& failure.error is BootnodeAddress <==> key && listen && peer && !boot
                &&& failure.error is ExternalAddress <==> key && listen && peer && boot && !external
            }
        }),
{
}


} // verus!
