//! Ingresses: host and path routing to services.

use vstd::prelude::*;
use super::Metadata;

verus! {

/// Routes requests for hosts and paths to services.
#[derive(Clone, Debug, PartialEq)]
pub struct Ingress {
    pub metadata: Metadata,
    pub spec: IngressSpec,
}

/// The rules of an ingress.
#[derive(Clone, Debug, PartialEq)]
pub struct IngressSpec {
    /// A list of host rules used to configure the Ingress.
    pub rules: Vec<IngressRule>,
}

/// The paths of one host.
#[derive(Clone, Debug, PartialEq)]
pub struct IngressRule {
    /// The fully qualified domain name of a host, ending with `.minik8s.com`.
    /// Generated if not specified.
    pub host: Option<String>,
    /// Paths that map requests to services.
    pub paths: Vec<IngressPath>,
}

/// A path and the service that serves it.
#[derive(Clone, Debug, PartialEq)]
pub struct IngressPath {
    /// Matched against the path of an incoming request.
    pub path: String,
    /// The backend service.
    pub service: IngressService,
}

/// A backend service.
#[derive(Clone, Debug, PartialEq)]
pub struct IngressService {
    /// Name of the service, in the same namespace as the ingress.
    pub name: String,
    /// Port of the service.
    pub port: u16,
}

} // verus!
