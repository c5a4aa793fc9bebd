//! How a node is configured.
use vstd::prelude::*;
use crate::text::join;

verus! {

/// The configuration of a node.
#[derive(Debug, PartialEq, Eq)]
pub struct NodeConfig {
    pub grpc_addr: String,
    pub key_file: Option<String>,
    pub bootnode_peer_id: String,
    pub bootnode_ip_addr: String,
    pub bootnode_port: String,
    pub external_ip_addr: String,
    pub external_port: String,
    pub zone: String,
}

/// The zone of a node that is not told another one.
pub const DEFAULT_ZONE: &'static str = "ME";

/// The environment variables that configure a node, where they are set.
#[derive(Debug, PartialEq, Eq)]
pub struct Variables {
    /// `NODE_GRPC_ADDR`
    pub grpc_addr: Option<String>,
    /// `KEY_FILE`
    pub key_file: Option<String>,
    /// `BOOTNODE_PEER_ID`
    pub bootnode_peer_id: Option<String>,
    /// `BOOTNODE_IP_ADDR`
    pub bootnode_ip_addr: Option<String>,
    /// `BOOTNODE_PORT`
    pub bootnode_port: Option<String>,
    /// `EXTERNAL_IP_ADDR`
    pub external_ip_addr: Option<String>,
    /// `EXTERNAL_PORT`
    pub external_port: Option<String>,
    /// `ZONE`
    pub zone: Option<String>,
}

/// A variable that has to be set is not.
#[derive(Debug, Clone, Copy, PartialEq, Eq, Structural)]
pub enum MissingVariable {
    NodeGrpcAddr,
    BootnodePeerId,
    BootnodeIpAddr,
    BootnodePort,
    ExternalIpAddr,
    ExternalPort,
}

impl MissingVariable {
    /// The name of the variable.
    pub open spec fn variable(self) -> Seq<char> {
        match self {
            MissingVariable::NodeGrpcAddr => "NODE_GRPC_ADDR"@,
            MissingVariable::BootnodePeerId => "BOOTNODE_PEER_ID"@,
            MissingVariable::BootnodeIpAddr => "BOOTNODE_IP_ADDR"@,
            MissingVariable::BootnodePort => "BOOTNODE_PORT"@,
            MissingVariable::ExternalIpAddr => "EXTERNAL_IP_ADDR"@,
            MissingVariable::ExternalPort => "EXTERNAL_PORT"@,
        }
    }

    /// The error in words.
    pub fn message(&self) -> (text: String)
        ensures
            text@ == "`"@ + self.variable() + "` is missing"@,
    {
        let name = match self {
            MissingVariable::NodeGrpcAddr => "NODE_GRPC_ADDR",
            MissingVariable::BootnodePeerId => "BOOTNODE_PEER_ID",
            MissingVariable::BootnodeIpAddr => "BOOTNODE_IP_ADDR",
            MissingVariable::BootnodePort => "BOOTNODE_PORT",
            MissingVariable::ExternalIpAddr => "EXTERNAL_IP_ADDR",
            MissingVariable::ExternalPort => "EXTERNAL_PORT",
        };
        join("`", name, "` is missing")
    }
}

impl Variables {
    /// The first variable that has to be set and is not.
    pub open spec fn first_missing(self) -> Option<MissingVariable> {
        if self.grpc_addr is None {
            Some(MissingVariable::NodeGrpcAddr)
        } else if self.bootnode_peer_id is None {
            Some(MissingVariable::BootnodePeerId)
        } else if self.bootnode_ip_addr is None {
            Some(MissingVariable::BootnodeIpAddr)
        } else if self.bootnode_port is None {
            Some(MissingVariable::BootnodePort)
        } else if self.external_ip_addr is None {
            Some(MissingVariable::ExternalIpAddr)
        } else if self.external_port is None {
            Some(MissingVariable::ExternalPort)
        } else {
            None
        }
    }
}

impl NodeConfig {
    /// Reads the configuration. The key file may be missing, and so may the zone; the other
    /// variables have to be set.
    pub fn from_variables(vars: Variables) -> (config: Result<NodeConfig, MissingVariable>)
        ensures
            match vars.first_missing() {
                Some(missing) => config == Err::<NodeConfig, MissingVariable>(missing),
                None => config matches Ok(c) && Some(c.grpc_addr) == vars.grpc_addr && c.key_file
                    == vars.key_file && Some(c.bootnode_peer_id) == vars.bootnode_peer_id && Some(
                    c.bootnode_ip_addr,
                ) == vars.bootnode_ip_addr && Some(c.bootnode_port) == vars.bootnode_port && Some(
                    c.external_ip_addr,
                ) == vars.external_ip_addr && Some(c.external_port) == vars.external_port && c.zone@ == (
                match vars.zone {
                    Some(zone) => zone@,
                    None => DEFAULT_ZONE@,
                }),
            },
    {
        let grpc_addr = match vars.grpc_addr {
            Some(value) => value,
            None => return Err(MissingVariable::NodeGrpcAddr),
        };
        let bootnode_peer_id = match vars.bootnode_peer_id {
            Some(value) => value,
            None => return Err(MissingVariable::BootnodePeerId),
        };
        let bootnode_ip_addr = match vars.bootnode_ip_addr {
            Some(value) => value,
            None => return Err(MissingVariable::BootnodeIpAddr),
        };
        let bootnode_port = match vars.bootnode_port {
            Some(value) => value,
            None => return Err(MissingVariable::BootnodePort),
        };
        let external_ip_addr = match vars.external_ip_addr {
            Some(value) => value,
            None => return Err(MissingVariable::ExternalIpAddr),
        };
        let external_port = match vars.external_port {
            Some(value) => value,
            None => return Err(MissingVariable::ExternalPort),
        };
        let zone = match vars.zone {
            Some(value) => value,
            None => DEFAULT_ZONE.to_owned(),
        };
        Ok(
            NodeConfig {
                grpc_addr,
                key_file: vars.key_file,
                bootnode_peer_id,
                bootnode_ip_addr,
                bootnode_port,
                external_ip_addr,
                external_port,
                zone,
            },
        )
    }
}

/// A node is configured if and only if the six variables that have to be set are; where they are not,
/// the error names the first of them that is missing, and it is missing.
pub proof fn law_missing_variable_is_named(vars: Variables)
    ensures
        vars.first_missing() is None <==> vars.grpc_addr is Some && vars.bootnode_peer_id is Some
            && vars.bootnode_ip_addr is Some && vars.bootnode_port is Some && vars.external_ip_addr is Some
            && vars.external_port is Some,
        vars.first_missing() matches Some(missing) ==> match missing {
            MissingVariable::NodeGrpcAddr => vars.grpc_addr is None,
            MissingVariable::BootnodePeerId => vars.grpc_addr is Some && vars.bootnode_peer_id is None,
            MissingVariable::BootnodeIpAddr => vars.grpc_addr is Some && vars.bootnode_peer_id is Some
                && vars.bootnode_ip_addr is None,
            MissingVariable::BootnodePort => vars.grpc_addr is Some && vars.bootnode_peer_id is Some
                && vars.bootnode_ip_addr is Some && vars.bootnode_port is None,
            MissingVariable::ExternalIpAddr => vars.grpc_addr is Some && vars.bootnode_peer_id is Some
                && vars.bootnode_ip_addr is Some && vars.bootnode_port is Some && vars.external_ip_addr is None,
            MissingVariable::ExternalPort => vars.grpc_addr is Some && vars.bootnode_peer_id is Some
                && vars.bootnode_ip_addr is Some && vars.bootnode_port is Some && vars.external_ip_addr is Some
                && vars.external_port is None,
        },
{
}

} // verus!
