//! Services: stable addresses in front of sets of pods.

use vstd::prelude::*;
use super::{object_reference::ObjectReference, Labels, Metadata};
use crate::net::Ipv4Addr;

verus! {

/// A stable cluster address that load-balances over the pods its selector matches.
#[derive(Clone, Debug, PartialEq)]
pub struct Service {
    pub metadata: Metadata,
    pub spec: ServiceSpec,
}

/// The desired state of a service.
#[derive(Clone, Debug, PartialEq)]
pub struct ServiceSpec {
    /// Route traffic to pods with labels matching this selector.
    pub selector: Labels,
    /// The ports exposed by this service.
    pub ports: Vec<ServicePort>,
    /// The endpoints that implement the service; a set, without repetitions.
    pub endpoints: Vec<Ipv4Addr>,
    /// The IP address of the service, usually assigned randomly.
    pub cluster_ip: Option<Ipv4Addr>,
}

/// A port of a service.
#[derive(Clone, Copy, Debug, PartialEq, Eq, Structural)]
pub struct ServicePort {
    /// The port exposed by this service.
    pub port: u16,
    /// The port to access on the pods targeted by the service.
    pub target_port: u16,
}

impl Service {
    /// The service of a function: a fresh uid, owned by the function,
    /// selecting pods labelled `func=<func_name>`, port 80 to 80, no
    /// endpoints yet, at `cluster_ip`.
    pub fn from_function(name: &str, func_name: &str, cluster_ip: Ipv4Addr) -> (r: Self)
        ensures
            r.metadata.name@ == name@,
            r.metadata.uid is Some,
            r.metadata.labels@ == Map::<Seq<char>, Seq<char>>::empty(),
            r.metadata.owner_references@.len() == 1,
            r.metadata.owner_references@[0].kind@ == seq!['f', 'u', 'n', 'c', 't', 'i', 'o', 'n'],
            r.metadata.owner_references@[0].name@ == func_name@,
            r.spec.selector@ == map![seq!['f', 'u', 'n', 'c'] => func_name@],
            r.spec.ports@ == seq![ServicePort { port: 80, target_port: 80 }],
            r.spec.endpoints@.len() == 0,
            r.spec.cluster_ip == Some(cluster_ip),
    {
        proof {
            reveal_strlit("function");
            reveal_strlit("func");
        }
        let mut owner_references = Vec::new();
        owner_references.push(ObjectReference::new(
            crate::text::to_owned_string("function"),
            crate::text::to_owned_string(func_name),
        ));
        let metadata = Metadata {
            name: crate::text::to_owned_string(name),
            uid: Some(crate::ids::new_uid()),
            labels: Labels::new(),
            owner_references,
        };
        let mut selector = Labels::new();
        selector.set("func", func_name);
        assert("func"@ =~= seq!['f', 'u', 'n', 'c']);
        assert("function"@ =~= seq!['f', 'u', 'n', 'c', 't', 'i', 'o', 'n']);
        assert(selector@ =~= map![seq!['f', 'u', 'n', 'c'] => func_name@]);
        let mut ports = Vec::new();
        ports.push(ServicePort { port: 80, target_port: 80 });
        assert(ports@ =~= seq![ServicePort { port: 80, target_port: 80 }]);
        let spec = ServiceSpec { selector, ports, endpoints: Vec::new(), cluster_ip: Some(cluster_ip) };
        Service { metadata, spec }
    }
}

} // verus!
