//! Horizontal pod autoscalers.

use vstd::prelude::*;
use super::{function::Function, metrics::Resource, object_reference::ObjectReference, Metadata};

verus! {

/// Scales the replica set named by `spec.scale_target_ref` with the load.
#[derive(Clone, Debug, PartialEq)]
pub struct HorizontalPodAutoscaler {
    pub metadata: Metadata,
    pub spec: HorizontalPodAutoscalerSpec,
    pub status: Option<HorizontalPodAutoscalerStatus>,
}

/// The desired behavior of an autoscaler.
#[derive(Clone, Debug, PartialEq)]
pub struct HorizontalPodAutoscalerSpec {
    /// The upper limit for the number of replicas. Not less than min_replicas.
    pub max_replicas: u32,
    /// The lower limit for the number of replicas. Defaults to 1.
    pub min_replicas: u32,
    /// The target resource to scale.
    pub scale_target_ref: ObjectReference,
    /// The scaling behavior in both directions.
    pub behavior: HorizontalPodAutoscalerBehavior,
    /// The metric that drives the replica count.
    /// Defaults to 80% average CPU utilization.
    pub metrics: MetricSource,
}

/// The default lower limit of replicas.
pub fn default_min_replicas() -> (r: u32)
    ensures
        r == 1,
{
    1
}

/// The default metric: 80% average CPU utilization.
pub fn default_metrics() -> (r: MetricSource)
    ensures
        r == MetricSource::Resource(
            ResourceMetricSource { name: Resource::CPU, target: MetricTarget::AverageUtilization(80) },
        ),
{
    MetricSource::Resource(ResourceMetricSource::default())
}

/// The scaling behavior in both directions.
#[derive(Clone, Debug, PartialEq)]
pub struct HorizontalPodAutoscalerBehavior {
    /// Scaling policy for scaling down. By default scaling down to min_replicas
    /// is allowed, with a 60 second stabilization window.
    pub scale_down: HPAScalingRules,
    /// Scaling policy for scaling up. By default the higher of: 4 pods per 60
    /// seconds, or doubling per 60 seconds; no stabilization.
    pub scale_up: HPAScalingRules,
}

/// The default scale-down rules: 100% per 60 s, window 60 s.
pub open spec fn default_scale_down_rules(r: HPAScalingRules) -> bool {
    &&& r.policies@ == seq![
        HPAScalingPolicy { type_: ScalingPolicyType::Percent, value: 100, period_seconds: 60 },
    ]
    &&& r.select_policy == PolicySelection::Max
    &&& r.stabilization_window_seconds == 60
}

/// The default scale-up rules: the higher of 4 pods or 100% per 60 s, no window.
pub open spec fn default_scale_up_rules(r: HPAScalingRules) -> bool {
    &&& r.policies@ == seq![
        HPAScalingPolicy { type_: ScalingPolicyType::Pods, value: 4, period_seconds: 60 },
        HPAScalingPolicy { type_: ScalingPolicyType::Percent, value: 100, period_seconds: 60 },
    ]
    &&& r.select_policy == PolicySelection::Max
    &&& r.stabilization_window_seconds == 0
}

/// The default scale-down rules.
pub fn default_scale_down_behavior() -> (r: HPAScalingRules)
    ensures
        default_scale_down_rules(r),
{
    let mut policies = Vec::new();
    policies.push(HPAScalingPolicy { type_: ScalingPolicyType::Percent, value: 100, period_seconds: 60 });
    let r = HPAScalingRules {
        policies,
        select_policy: PolicySelection::Max,
        stabilization_window_seconds: 60,
    };
    assert(r.policies@ =~= seq![
        HPAScalingPolicy { type_: ScalingPolicyType::Percent, value: 100, period_seconds: 60 },
    ]);
    r
}

/// The default scale-up rules.
pub fn default_scale_up_behavior() -> (r: HPAScalingRules)
    ensures
        default_scale_up_rules(r),
{
    let mut policies = Vec::new();
    policies.push(HPAScalingPolicy { type_: ScalingPolicyType::Pods, value: 4, period_seconds: 60 });
    policies.push(HPAScalingPolicy { type_: ScalingPolicyType::Percent, value: 100, period_seconds: 60 });
    let r = HPAScalingRules {
        policies,
        select_policy: PolicySelection::Max,
        stabilization_window_seconds: 0,
    };
    assert(r.policies@ =~= seq![
        HPAScalingPolicy { type_: ScalingPolicyType::Pods, value: 4, period_seconds: 60 },
        HPAScalingPolicy { type_: ScalingPolicyType::Percent, value: 100, period_seconds: 60 },
    ]);
    r
}

impl HorizontalPodAutoscalerBehavior {
    /// The default behavior in both directions.
    pub fn default() -> (r: HorizontalPodAutoscalerBehavior)
        ensures
            default_scale_down_rules(r.scale_down),
            default_scale_up_rules(r.scale_up),
    {
        HorizontalPodAutoscalerBehavior {
            scale_down: default_scale_down_behavior(),
            scale_up: default_scale_up_behavior(),
        }
    }

    /// A copy of the behavior.
    pub fn copy(&self) -> (r: HorizontalPodAutoscalerBehavior)
        ensures
            r.scale_down.same_as(self.scale_down),
            r.scale_up.same_as(self.scale_up),
    {
        HorizontalPodAutoscalerBehavior { scale_down: self.scale_down.copy(), scale_up: self.scale_up.copy() }
    }
}

/// The scaling behavior in one direction: policies that limit the rate, and
/// a stabilization window against flapping.
#[derive(Clone, Debug, PartialEq)]
pub struct HPAScalingRules {
    /// Potential scaling policies.
    pub policies: Vec<HPAScalingPolicy>,
    /// Which policy is used. Defaults to Max.
    pub select_policy: PolicySelection,
    /// Seconds for which past recommendations are considered, 0 to 3600.
    pub stabilization_window_seconds: u32,
}

/// The longest period of a list of policies, 0 for none.
pub open spec fn longest_period_of(ps: Seq<HPAScalingPolicy>) -> u32
    decreases ps.len(),
{
    if ps.len() == 0 {
        0
    } else {
        let rest = longest_period_of(ps.drop_last());
        if ps.last().period_seconds > rest {
            ps.last().period_seconds
        } else {
            rest
        }
    }
}

impl HPAScalingRules {
    /// Whether two rules hold the same policies and settings.
    pub open spec fn same_as(self, other: HPAScalingRules) -> bool {
        &&& self.policies@ == other.policies@
        &&& self.select_policy == other.select_policy
        &&& self.stabilization_window_seconds == other.stabilization_window_seconds
    }

    /// A copy of the rules.
    pub fn copy(&self) -> (r: HPAScalingRules)
        ensures
            r.same_as(*self),
    {
        let mut policies: Vec<HPAScalingPolicy> = Vec::new();
        let mut i: usize = 0;
        while i < self.policies.len()
            invariant
                i <= self.policies.len(),
                policies@ == self.policies@.take(i as int),
            decreases self.policies.len() - i,
        {
            policies.push(self.policies[i]);
            i = i + 1;
            assert(policies@ =~= self.policies@.take(i as int));
        }
        assert(self.policies@.take(i as int) =~= self.policies@);
        HPAScalingRules {
            policies,
            select_policy: self.select_policy,
            stabilization_window_seconds: self.stabilization_window_seconds,
        }
    }

    /// The longest period of the policies, 0 when there are none.
    pub fn longest_period(&self) -> (r: u32)
        ensures
            r == longest_period_of(self.policies@),
            forall|i: int| 0 <= i < self.policies@.len() ==> self.policies@[i].period_seconds <= r,
            self.policies@.len() > 0 ==> exists|i: int|
                0 <= i < self.policies@.len() && self.policies@[i].period_seconds == r,
    {
        let mut best: u32 = 0;
        let mut i: usize = 0;
        assert(self.policies@.take(0) =~= Seq::<HPAScalingPolicy>::empty());
        while i < self.policies.len()
            invariant
                i <= self.policies.len(),
                best == longest_period_of(self.policies@.take(i as int)),
                forall|j: int| 0 <= j < i ==> self.policies@[j].period_seconds <= best,
                i > 0 ==> exists|j: int| 0 <= j < i && self.policies@[j].period_seconds == best,
            decreases self.policies.len() - i,
        {
            assert(self.policies@.take(i + 1).drop_last() =~= self.policies@.take(i as int));
            assert(self.policies@.take(i + 1).last() == self.policies@[i as int]);
            if self.policies[i].period_seconds > best {
                best = self.policies[i].period_seconds;
            }
            i = i + 1;
        }
        assert(self.policies@.take(i as int) =~= self.policies@);
        best
    }
}

/// How to choose a policy from several.
#[derive(Clone, Copy, Debug, PartialEq, Eq, Structural)]
pub enum PolicySelection {
    /// The policy with the lowest recommendation value.
    Min,
    /// The policy with the highest recommendation value.
    Max,
    /// Scaling in this direction is disabled.
    Disabled,
}

impl PolicySelection {
    /// The default selection, Max.
    pub fn default() -> (r: PolicySelection)
        ensures
            r == PolicySelection::Max,
    {
        PolicySelection::Max
    }
}

/// A single policy which must hold true for a specified past interval.
#[derive(Clone, Copy, Debug, PartialEq, Eq, Structural)]
pub struct HPAScalingPolicy {
    /// The kind of policy.
    pub type_: ScalingPolicyType,
    /// The amount of change permitted by the policy; greater than zero.
    pub value: u32,
    /// The window of time for which the policy holds, 1 to 1800 seconds.
    pub period_seconds: u32,
}

/// Whether a policy limits a number of pods or a percentage.
#[derive(Clone, Copy, Debug, PartialEq, Eq, Structural)]
pub enum ScalingPolicyType {
    Pods,
    Percent,
}

/// The metric that drives an autoscaler.
#[derive(Clone, Debug, PartialEq)]
pub enum MetricSource {
    Resource(ResourceMetricSource),
    Function(FunctionMetricSource),
}

impl MetricSource {
    /// A copy of the metric source.
    pub fn copy(&self) -> (r: MetricSource)
        ensures
            r == *self,
    {
        match self {
            MetricSource::Resource(m) => MetricSource::Resource(*m),
            MetricSource::Function(f) => MetricSource::Function(
                FunctionMetricSource { name: f.name.clone(), target: f.target },
            ),
        }
    }
}

/// Scaling on a resource metric (CPU or memory), averaged over the pods of
/// the scale target.
#[derive(Clone, Copy, Debug, PartialEq, Eq, Structural)]
pub struct ResourceMetricSource {
    /// Name of the resource.
    pub name: Resource,
    /// Target value for the given metric.
    pub target: MetricTarget,
}

impl ResourceMetricSource {
    /// The default: 80% average CPU utilization.
    pub fn default() -> (r: ResourceMetricSource)
        ensures
            r == (ResourceMetricSource { name: Resource::CPU, target: MetricTarget::AverageUtilization(80) }),
    {
        ResourceMetricSource { name: Resource::CPU, target: MetricTarget::AverageUtilization(80) }
    }
}

/// Scaling on the request rate of a function.
#[derive(Clone, Debug, PartialEq)]
pub struct FunctionMetricSource {
    /// Name of the function.
    pub name: String,
    /// Target average queries in a 15s window.
    pub target: u64,
}

/// The target of a resource metric.
#[derive(Clone, Copy, Debug, PartialEq, Eq, Structural)]
pub enum MetricTarget {
    /// Target average utilization, as a percentage of the requests.
    AverageUtilization(u32),
    /// Target average value across the pods.
    AverageValue(u64),
}

/// The observed state of an autoscaler.
#[derive(Clone, Copy, Debug, PartialEq, Eq, Structural)]
pub struct HorizontalPodAutoscalerStatus {
    /// Desired number of replicas, as last calculated.
    pub desired_replicas: u32,
    /// Current number of replicas, as last seen.
    pub current_replicas: u32,
    /// When the autoscaler last scaled, in milliseconds since the Unix epoch.
    pub last_scale_time: Option<i64>,
}

impl HorizontalPodAutoscaler {
    /// The autoscaler of a function: it scales the function's replica set
    /// between 0 and the function's `max_replicas`.
    pub fn from_function(func: &Function) -> (r: Self)
        ensures
            r.metadata.name@ == func.metadata.name@,
            r.metadata.uid is None,
            r.metadata.labels@ == func.metadata.labels@,
            r.metadata.owner_references@.len() == 1,
            r.metadata.owner_references@[0].kind@ == seq!['f', 'u', 'n', 'c', 't', 'i', 'o', 'n'],
            r.metadata.owner_references@[0].name@ == func.metadata.name@,
            r.spec.scale_target_ref.kind@ == seq![
                'R', 'e', 'p', 'l', 'i', 'c', 'a', 'S', 'e', 't',
            ],
            r.spec.scale_target_ref.name@ == func.metadata.name@,
            r.spec.behavior.scale_down.same_as(func.spec.behavior.scale_down),
            r.spec.behavior.scale_up.same_as(func.spec.behavior.scale_up),
            r.spec.min_replicas == 0,
            r.spec.max_replicas == func.spec.max_replicas,
            r.spec.metrics == func.spec.metrics,
            r.status is None,
    {
        proof {
            reveal_strlit("function");
            reveal_strlit("ReplicaSet");
        }
        let func_name = func.metadata.name.clone();
        let mut owner_references = Vec::new();
        owner_references.push(
            ObjectReference::new(crate::text::to_owned_string("function"), func_name.clone()),
        );
        let metadata = Metadata {
            name: func_name.clone(),
            uid: None,
            labels: func.metadata.labels.copy(),
            owner_references,
        };
        let spec = HorizontalPodAutoscalerSpec {
            scale_target_ref: ObjectReference::new(crate::text::to_owned_string("ReplicaSet"), func_name),
            behavior: func.spec.behavior.copy(),
            min_replicas: 0,
            max_replicas: func.spec.max_replicas,
            metrics: func.spec.metrics.copy(),
        };
        HorizontalPodAutoscaler { metadata, spec, status: None }
    }
}

} // verus!
