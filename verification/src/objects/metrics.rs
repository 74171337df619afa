//! Resource metrics of pods and functions.

use vstd::prelude::*;
use crate::keyed::KeyedMap;

verus! {

/// A compute resource.
#[derive(Clone, Copy, Debug, PartialEq, Eq, Hash, Structural)]
pub enum Resource {
    CPU,
    Memory,
}

impl Resource {
    /// The name of the resource, as displayed.
    pub fn to_string(&self) -> (s: String)
        ensures
            *self == Resource::CPU ==> s@ == seq!['C', 'P', 'U'],
            *self == Resource::Memory ==> s@ == seq!['M', 'e', 'm', 'o', 'r', 'y'],
    {
        let s = match self {
            Resource::CPU => crate::text::to_owned_string("CPU"),
            Resource::Memory => crate::text::to_owned_string("Memory"),
        };
        proof {
            reveal_strlit("CPU");
            reveal_strlit("Memory");
        }
        s
    }
}

/// Usage of each resource, where measured.
#[derive(Clone, Copy, Debug, PartialEq, Eq, Structural)]
pub struct ResourceUsage {
    /// CPU usage in milli CPU.
    pub cpu: Option<i64>,
    /// Memory usage in bytes.
    pub memory: Option<i64>,
}

impl ResourceUsage {
    /// No resource measured.
    pub fn new() -> (r: ResourceUsage)
        ensures
            r.cpu is None,
            r.memory is None,
    {
        ResourceUsage { cpu: None, memory: None }
    }

    /// The usage of `resource`, if measured.
    pub open spec fn usage_of(self, resource: Resource) -> Option<i64> {
        match resource {
            Resource::CPU => self.cpu,
            Resource::Memory => self.memory,
        }
    }

    /// The usage of `resource`, if measured.
    pub fn get(&self, resource: Resource) -> (r: Option<i64>)
        ensures
            r == self.usage_of(resource),
    {
        match resource {
            Resource::CPU => self.cpu,
            Resource::Memory => self.memory,
        }
    }

    /// Records the usage of `resource`.
    pub fn insert(&mut self, resource: Resource, value: i64)
        ensures
            final(self).usage_of(resource) == Some(value),
            forall|r: Resource| r != resource ==> final(self).usage_of(r) == old(self).usage_of(r),
    {
        match resource {
            Resource::CPU => self.cpu = Some(value),
            Resource::Memory => self.memory = Some(value),
        }
    }
}

/// Metrics of containers in a pod.
#[derive(Clone, Debug, PartialEq)]
pub struct PodMetrics {
    /// Pod name
    pub name: String,
    /// Time of the measurement, in milliseconds since the Unix epoch.
    pub timestamp: i64,
    /// Duration in seconds over which the metrics were gathered.
    pub window: u32,
    /// Metrics for all containers collected within the same time window.
    pub containers: Vec<ContainerMetrics>,
}

/// Metrics of one container.
#[derive(Clone, Debug, PartialEq)]
pub struct ContainerMetrics {
    pub name: String,
    pub usage: ResourceUsage,
}

/// An overall summary of PodMetrics.
#[derive(Clone, Copy, Debug, PartialEq, Eq, Structural)]
pub struct PodMetric {
    /// Time of the measurement, in milliseconds since the Unix epoch.
    pub timestamp: i64,
    /// Duration in seconds over which the metrics were gathered.
    pub window: u32,
    pub value: i64,
}

impl crate::copy::DeepCopy for PodMetric {
    fn deep_copy(&self) -> (r: Self) {
        *self
    }
}

/// A mapping from pod names to metrics.
pub type PodMetricsInfo = KeyedMap<PodMetric>;

/// The request rate of a function.
#[derive(Clone, Debug, PartialEq)]
pub struct FunctionMetric {
    /// Function name
    pub name: String,
    /// Time of the measurement, in milliseconds since the Unix epoch.
    pub timestamp: i64,
    pub value: i64,
}

} // verus!
