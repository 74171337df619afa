//! Serverless functions.

use vstd::prelude::*;
use super::{hpa::{HorizontalPodAutoscalerBehavior, MetricSource}, Labels, Metadata};
use crate::text::{push_str, push_char};

verus! {

/// A function: code packed into an image and served behind a service,
/// scaled by an autoscaler.
#[derive(Clone, Debug, PartialEq)]
pub struct Function {
    pub metadata: Metadata,
    pub spec: FunctionSpec,
    pub status: Option<FunctionStatus>,
}

/// The desired behavior of a function.
#[derive(Clone, Debug, PartialEq)]
pub struct FunctionSpec {
    /// The upper limit for the number of replicas. Defaults to 10.
    pub max_replicas: u32,
    /// The scaling behavior in both directions.
    pub behavior: HorizontalPodAutoscalerBehavior,
    /// The metric that drives the replica count.
    pub metrics: MetricSource,
}

/// The default upper limit of replicas of a function.
pub fn default_max_replicas() -> (r: u32)
    ensures
        r == 10,
{
    10
}

/// The observed state of a function.
#[derive(Clone, Debug, PartialEq, Default)]
pub struct FunctionStatus {
    pub service_ref: String,
    pub filename: String,
    pub host: String,
    /// The name of the image which wraps this function.
    pub image: Option<String>,
}

/// The host name under which a function is served.
pub open spec fn function_host(name: Seq<char>) -> Seq<char> {
    name + seq!['.', 'f', 'u', 'n', 'c', '.', 'm', 'i', 'n', 'i', 'k', '8', 's', '.', 'c', 'o', 'm']
}

impl Function {
    /// Initializes a newly created function: a fresh uid, the single label
    /// `function=<name>`, and a status naming its service, code file and host.
    pub fn init(&mut self, svc_name: String, filename: String)
        ensures
            final(self).metadata.name == old(self).metadata.name,
            final(self).metadata.uid is Some,
            final(self).metadata.labels@ == map![
                seq!['f', 'u', 'n', 'c', 't', 'i', 'o', 'n'] => old(self).metadata.name@
            ],
            final(self).metadata.owner_references == old(self).metadata.owner_references,
            final(self).spec == old(self).spec,
            final(self).status is Some,
            final(self).status->0.service_ref == svc_name,
            final(self).status->0.filename == filename,
            final(self).status->0.host@ == function_host(old(self).metadata.name@),
            final(self).status->0.image is None,
    {
        proof {
            reveal_strlit(".func.minik8s.com");
            reveal_strlit("function");
        }
        let mut host = self.metadata.name.clone();
        push_str(&mut host, ".func.minik8s.com");
        let mut labels = Labels::new();
        labels.set("function", self.metadata.name.as_str());
        assert("function"@ =~= seq!['f', 'u', 'n', 'c', 't', 'i', 'o', 'n']);
        assert(".func.minik8s.com"@ =~= seq!['.', 'f', 'u', 'n', 'c', '.', 'm', 'i', 'n', 'i', 'k', '8', 's', '.', 'c', 'o', 'm']);
        assert(labels@ =~= map![
            seq!['f', 'u', 'n', 'c', 't', 'i', 'o', 'n'] => self.metadata.name@
        ]);
        self.metadata.uid = Some(crate::ids::new_uid());
        self.metadata.labels = labels;
        self.status = Some(FunctionStatus { service_ref: svc_name, filename, host, image: None });
    }
}

} // verus!
