//! Replica sets.

use vstd::prelude::*;
use super::{pod::PodTemplateSpec, Labels, Metadata};

verus! {

/// ReplicaSet ensures that a specified number of pod replicas are running
/// at any given time.
#[derive(Clone, Debug, PartialEq)]
pub struct ReplicaSet {
    pub metadata: Metadata,
    /// Defines the specification of the desired behavior of the ReplicaSet.
    pub spec: ReplicaSetSpec,
    /// The most recently observed status of the ReplicaSet.
    pub status: Option<ReplicaSetStatus>,
}

/// The desired state of a replica set.
#[derive(Clone, Debug, PartialEq)]
pub struct ReplicaSetSpec {
    /// Label keys and values that must match in order to be controlled by
    /// this replica set. It must match the pod template's labels.
    pub selector: Labels,
    /// The pod that will be created if insufficient replicas are detected.
    pub template: PodTemplateSpec,
    /// The number of desired replicas. Defaults to 1.
    pub replicas: u32,
}

/// The default number of replicas.
pub fn default_replicas() -> (r: u32)
    ensures
        r == 1,
{
    1
}

/// The observed state of a replica set.
#[derive(Clone, Copy, Debug, PartialEq, Eq, Default, Structural)]
pub struct ReplicaSetStatus {
    /// The most recently oberved number of replicas.
    pub replicas: u32,
    /// The number of pods targeted by this ReplicaSet with a Ready Condition.
    pub ready_replicas: u32,
}

} // verus!
