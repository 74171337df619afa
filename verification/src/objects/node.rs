//! Nodes of the cluster.

use vstd::prelude::*;
use super::Metadata;

verus! {

/// A worker machine.
#[derive(Clone, Debug, PartialEq)]
pub struct Node {
    pub metadata: Metadata,
    pub status: NodeStatus,
}

impl Node {
    /// The node's internal IP address, if it reports one.
    pub fn internal_ip(&self) -> (r: Option<String>)
        ensures
            r == self.status.addresses.internal_ip,
    {
        match &self.status.addresses.internal_ip {
            Some(ip) => Some(ip.clone()),
            None => None,
        }
    }
}

/// The observed state of a node.
#[derive(Clone, Debug, PartialEq)]
pub struct NodeStatus {
    /// Addresses reachable to the node, at most one of each type.
    pub addresses: NodeAddresses,
    /// The resources available for scheduling. Defaults to capacity.
    pub allocatable: Capacity,
    /// The total resources of the node.
    pub capacity: Capacity,
    /// Endpoint on which the kubelet is listening.
    pub kubelet_port: u16,
    /// Set of ids to uniquely identify the node.
    pub node_info: NodeInfo,
    /// Last heartbeat time, in milliseconds since the Unix epoch.
    pub last_heartbeat: i64,
}

impl NodeStatus {
    /// No addresses, zero capacity, kubelet port 10250, heartbeat at the epoch.
    pub fn default() -> (r: NodeStatus)
        ensures
            r.addresses.hostname is None,
            r.addresses.external_ip is None,
            r.addresses.internal_ip is None,
            r.allocatable == (Capacity { cpu: 0, memory: 0 }),
            r.capacity == (Capacity { cpu: 0, memory: 0 }),
            r.kubelet_port == 10250,
            r.node_info.architecture@.len() == 0,
            r.node_info.machine_id@.len() == 0,
            r.node_info.operating_system@.len() == 0,
            r.node_info.os_image@.len() == 0,
            r.last_heartbeat == 0,
    {
        NodeStatus {
            addresses: NodeAddresses { hostname: None, external_ip: None, internal_ip: None },
            allocatable: Capacity { cpu: 0, memory: 0 },
            capacity: Capacity { cpu: 0, memory: 0 },
            kubelet_port: 10250,
            node_info: NodeInfo {
                architecture: String::new(),
                machine_id: String::new(),
                operating_system: String::new(),
                os_image: String::new(),
            },
            last_heartbeat: 0,
        }
    }
}

/// The types of node addresses.
#[derive(Clone, Copy, Debug, PartialEq, Eq, Hash, Structural)]
pub enum NodeAddressType {
    Hostname,
    ExternalIP,
    InternalIP,
}

/// The addresses of a node, at most one of each type.
#[derive(Clone, Debug, PartialEq)]
pub struct NodeAddresses {
    pub hostname: Option<String>,
    pub external_ip: Option<String>,
    pub internal_ip: Option<String>,
}

impl NodeAddresses {
    /// The address of type `t`, if present.
    pub open spec fn address_of(self, t: NodeAddressType) -> Option<String> {
        match t {
            NodeAddressType::Hostname => self.hostname,
            NodeAddressType::ExternalIP => self.external_ip,
            NodeAddressType::InternalIP => self.internal_ip,
        }
    }

    /// The address of type `t`, if present.
    pub fn get(&self, t: NodeAddressType) -> (r: Option<String>)
        ensures
            r == self.address_of(t),
    {
        let a = match t {
            NodeAddressType::Hostname => &self.hostname,
            NodeAddressType::ExternalIP => &self.external_ip,
            NodeAddressType::InternalIP => &self.internal_ip,
        };
        match a {
            Some(s) => Some(s.clone()),
            None => None,
        }
    }
}

/// Identification reported by the node.
#[derive(Clone, Debug, PartialEq, Default)]
pub struct NodeInfo {
    /// The architecture reported by the node.
    pub architecture: String,
    /// Machine ID reported by the node.
    pub machine_id: String,
    /// The operating system reported by the node.
    pub operating_system: String,
    /// OS image reported by the node from /etc/os-release.
    pub os_image: String,
}

/// Compute capacity of a node.
#[derive(Clone, Copy, Debug, PartialEq, Eq, Default, Structural)]
pub struct Capacity {
    /// Number of cpu cores on the node.
    pub cpu: u16,
    /// Amount of memory in kilobytes.
    pub memory: u64,
}

} // verus!
