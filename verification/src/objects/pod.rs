//! Pods: groups of containers scheduled together on one node.

use vstd::prelude::*;
use super::{metrics, Metadata};
use crate::net::Ipv4Addr;
use crate::text::{ends_with, str_ends_with};

verus! {

/// A pod: containers that share a network namespace and volumes.
#[derive(Clone, Debug, PartialEq)]
pub struct Pod {
    pub metadata: Metadata,
    pub spec: PodSpec,
    pub status: Option<PodStatus>,
}

/// `r` is the first of `statuses` named `name`, or None when none is.
pub open spec fn first_named(statuses: Seq<ContainerStatus>, name: Seq<char>, r: Option<&ContainerStatus>) -> bool {
    match r {
        Some(s) => exists|j: int|
            0 <= j < statuses.len() && statuses[j] == *s && s.name@ == name && forall|k: int|
                0 <= k < j ==> statuses[k].name@ != name,
        None => forall|j: int| 0 <= j < statuses.len() ==> statuses[j].name@ != name,
    }
}

/// `r` is the status of the container named `name` in a pod with `status`:
/// the first one of that name, or None.
pub open spec fn status_for(status: Option<PodStatus>, name: Seq<char>, r: Option<&ContainerStatus>) -> bool {
    match status {
        Some(st) => first_named(st.container_statuses@, name, r),
        None => r is None,
    }
}

/// The first status named `name`.
pub fn find_status<'a>(statuses: &'a Vec<ContainerStatus>, name: &String) -> (r: Option<&'a ContainerStatus>)
    ensures
        first_named(statuses@, name@, r),
{
    let mut j: usize = 0;
    while j < statuses.len()
        invariant
            j <= statuses@.len(),
            forall|k: int| 0 <= k < j ==> statuses@[k].name@ != name@,
        decreases statuses.len() - j,
    {
        if statuses[j].name == *name {
            return Some(&statuses[j]);
        }
        j = j + 1;
    }
    None
}

/// Whether the pod's Ready condition holds.
pub open spec fn pod_ready(pod: Pod) -> bool {
    match pod.status {
        Some(status) => match status.conditions.condition_of(PodConditionType::Ready) {
            Some(c) => c.status,
            None => false,
        },
        None => false,
    }
}

/// Whether the pod is pending or running.
pub open spec fn pod_active(pod: Pod) -> bool {
    match pod.status {
        Some(status) => status.phase == PodPhase::Pending || status.phase == PodPhase::Running,
        None => false,
    }
}

/// Whether the pod has succeeded.
pub open spec fn pod_succeeded(pod: Pod) -> bool {
    match pod.status {
        Some(status) => status.phase == PodPhase::Succeeded,
        None => false,
    }
}

/// The requests of `resource` summed over the containers.
pub open spec fn total_requests(cs: Seq<Container>, resource: metrics::Resource) -> int
    decreases cs.len(),
{
    if cs.len() == 0 {
        0
    } else {
        total_requests(cs.drop_last(), resource) + cs.last().requests_of(resource)
    }
}

/// Every partial sum of the requests fits in an `i64`.
pub open spec fn requests_fit(cs: Seq<Container>, resource: metrics::Resource) -> bool {
    forall|k: int|
        0 <= k <= cs.len() ==> i64::MIN <= #[trigger] total_requests(cs.take(k), resource)
            <= i64::MAX
}

impl Pod {
    /// Whether the pod's Ready condition holds.
    pub fn is_ready(&self) -> (r: bool)
        ensures
            r == pod_ready(*self),
    {
        match &self.status {
            Some(status) => match status.conditions.get(PodConditionType::Ready) {
                Some(c) => c.status,
                None => false,
            },
            None => false,
        }
    }

    /// Whether the pod is pending or running.
    pub fn is_active(&self) -> (r: bool)
        ensures
            r == pod_active(*self),
    {
        if let Some(status) = &self.status {
            match status.phase {
                PodPhase::Pending | PodPhase::Running => true,
                _ => false,
            }
        } else {
            false
        }
    }

    /// Whether the pod has succeeded.
    pub fn is_succeeded(&self) -> (r: bool)
        ensures
            r == pod_succeeded(*self),
    {
        if let Some(status) = &self.status {
            match status.phase {
                PodPhase::Succeeded => true,
                _ => false,
            }
        } else {
            false
        }
    }

    /// Total requests of `resource` over all containers.
    pub fn requests(&self, resource: &metrics::Resource) -> (r: i64)
        requires
            requests_fit(self.spec.containers@, *resource),
        ensures
            r == total_requests(self.spec.containers@, *resource),
    {
        let cs = &self.spec.containers;
        let mut sum: i64 = 0;
        let mut i: usize = 0;
        assert(cs@.take(0) =~= Seq::<Container>::empty());
        while i < cs.len()
            invariant
                i <= cs.len(),
                requests_fit(cs@, *resource),
                sum == total_requests(cs@.take(i as int), *resource),
            decreases cs.len() - i,
        {
            assert(cs@.take(i + 1).drop_last() =~= cs@.take(i as int));
            assert(cs@.take(i + 1).last() == cs@[i as int]);
            assert(i64::MIN <= total_requests(cs@.take(i + 1), *resource) <= i64::MAX);
            sum = sum + cs[i].requests(resource);
            i = i + 1;
        }
        assert(cs@.take(cs.len() as int) =~= cs@);
        sum
    }

    /// Each container paired with the first status of the same name, if any.
    pub fn container_pairs(&self) -> (pairs: Vec<ContainerPair<'_>>)
        ensures
            pairs@.len() == self.spec.containers@.len(),
            forall|i: int|
                0 <= i < pairs@.len() ==> *(#[trigger] pairs@[i]).0 == self.spec.containers@[i]
                    && status_for(self.status, self.spec.containers@[i].name@, pairs@[i].1),
    {
        let mut pairs: Vec<ContainerPair<'_>> = Vec::new();
        let mut i: usize = 0;
        while i < self.spec.containers.len()
            invariant
                i <= self.spec.containers@.len(),
                pairs@.len() == i,
                forall|m: int|
                    0 <= m < i ==> *(#[trigger] pairs@[m]).0 == self.spec.containers@[m]
                        && status_for(self.status, self.spec.containers@[m].name@, pairs@[m].1),
            decreases self.spec.containers.len() - i,
        {
            let container = &self.spec.containers[i];
            let found = match &self.status {
                Some(status) => find_status(&status.container_statuses, &container.name),
                None => None,
            };
            pairs.push(ContainerPair(container, found));
            i = i + 1;
        }
        pairs
    }

    /// The pod's IP address, once one is allocated.
    pub fn get_ip(&self) -> (r: Option<Ipv4Addr>)
        ensures
            r == match self.status {
                Some(s) => s.pod_ip,
                None => None,
            },
    {
        if let Some(status) = &self.status {
            if let Some(ip) = &status.pod_ip {
                return Some(*ip);
            }
        }
        None
    }
}

/// The desired state of a pod.
#[derive(Clone, Debug, PartialEq)]
pub struct PodSpec {
    /// List of containers belonging to the pod.
    pub containers: Vec<Container>,
    /// List of volumes that can be mounted by containers belonging to the pod.
    pub volumes: Vec<Volume>,
    /// Restart policy for all containers within the pod. Defaults to Always.
    pub restart_policy: RestartPolicy,
    /// Host networking requested for this pod. Defaults to false.
    pub host_network: bool,
    /// A request to schedule this pod onto a specific node.
    pub node_name: Option<String>,
}

impl PodSpec {
    /// `host` when host networking is requested, `bridge` otherwise.
    pub fn network_mode(&self) -> (r: String)
        ensures
            self.host_network ==> r@ == seq!['h', 'o', 's', 't'],
            !self.host_network ==> r@ == seq!['b', 'r', 'i', 'd', 'g', 'e'],
    {
        proof {
            reveal_strlit("host");
            reveal_strlit("bridge");
        }
        if self.host_network {
            crate::text::to_owned_string("host")
        } else {
            crate::text::to_owned_string("bridge")
        }
    }
}

/// A container in a pod.
#[derive(Clone, Debug, PartialEq)]
pub struct Container {
    /// Name of the container; unique within the pod.
    pub name: String,
    /// Docker image name.
    pub image: String,
    /// Image pull policy; see [`Container::image_pull_policy`].
    pub image_pull_policy: Option<ImagePullPolicy>,
    /// Entrypoint array. Not executed within a shell.
    pub command: Vec<String>,
    /// List of ports to expose from the container.
    pub ports: Vec<ContainerPort>,
    /// Pod volumes to mount into the container's filesystem.
    pub volume_mounts: Vec<VolumeMount>,
    /// Compute resources required by this container.
    pub resources: ResourceRequirements,
}

/// The policy a container takes when its image pull policy is left unset.
pub open spec fn effective_pull_policy(c: Container) -> ImagePullPolicy {
    match c.image_pull_policy {
        Some(p) => p,
        None => if ends_with(c.image@, seq![':', 'l', 'a', 't', 'e', 's', 't']) {
            ImagePullPolicy::Always
        } else {
            ImagePullPolicy::IfNotPresent
        },
    }
}

impl Container {
    /// The requests of `resource`.
    pub open spec fn requests_of(self, resource: metrics::Resource) -> int {
        match resource {
            metrics::Resource::CPU => self.resources.requests.cpu as int,
            metrics::Resource::Memory => self.resources.requests.memory as int,
        }
    }

    /// The requests of `resource`.
    pub fn requests(&self, resource: &metrics::Resource) -> (r: i64)
        ensures
            r == self.requests_of(*resource),
    {
        match resource {
            metrics::Resource::CPU => self.resources.requests.cpu,
            metrics::Resource::Memory => self.resources.requests.memory,
        }
    }

    /// The image pull policy: the one specified, or, when unset, Always for an
    /// image with the `:latest` tag and IfNotPresent otherwise.
    pub fn image_pull_policy(&self) -> (r: ImagePullPolicy)
        ensures
            r == effective_pull_policy(*self),
    {
        match &self.image_pull_policy {
            Some(policy) => *policy,
            None => {
                proof {
                    reveal_strlit(":latest");
                }
                let latest = str_ends_with(self.image.as_str(), ":latest");
                assert(":latest"@ == seq![':', 'l', 'a', 't', 'e', 's', 't']);
                if latest {
                    ImagePullPolicy::Always
                } else {
                    ImagePullPolicy::IfNotPresent
                }
            },
        }
    }
}

/// When to pull a container image.
#[derive(Clone, Copy, Debug, PartialEq, Eq, Structural)]
pub enum ImagePullPolicy {
    Always,
    Never,
    IfNotPresent,
}

/// A port exposed by a container.
#[derive(Clone, Copy, Debug, PartialEq, Eq, Structural)]
pub struct ContainerPort {
    /// Number of port to expose on the pod's IP address, 0 < x < 65536.
    pub container_port: u16,
}

/// A volume mounted into a container.
#[derive(Clone, Debug, PartialEq)]
pub struct VolumeMount {
    /// Path within the container at which the volume should be mounted.
    pub mount_path: String,
    /// This must match the Name of a Volume.
    pub name: String,
}

/// Resources a container requests and may not exceed.
#[derive(Clone, Copy, Debug, PartialEq, Eq, Default, Structural)]
pub struct ResourceRequirements {
    /// Limits describes the maximum amount of compute resources allowed.
    pub limits: Resource,
    /// Requests describes the minimum amount of compute resources required.
    pub requests: Resource,
}

/// CPU shares for a number of milli CPUs: at least 2, and 1024 per CPU.
pub open spec fn shares_of(milli_cpu: int) -> int {
    if milli_cpu <= 0 {
        2
    } else if milli_cpu * 1024 / 1000 < 2 {
        2
    } else {
        milli_cpu * 1024 / 1000
    }
}

impl ResourceRequirements {
    /// The milli CPUs from which the shares are computed: the request, which
    /// defaults to the limit when it is omitted (0) and a limit is set.
    pub open spec fn shares_basis(self) -> int {
        if self.requests.cpu == 0 && self.limits.cpu != 0 {
            self.limits.cpu as int
        } else {
            self.requests.cpu as int
        }
    }

    /// CPU shares for the container.
    pub fn cpu_shares(&self) -> (r: i64)
        requires
            i64::MIN <= self.shares_basis() * 1024 <= i64::MAX,
        ensures
            r == shares_of(self.shares_basis()),
    {
        ResourceRequirements::milli_cpu_to_shares(
            if self.requests.cpu == 0 && self.limits.cpu != 0 {
                self.limits.cpu
            } else {
                self.requests.cpu
            },
        )
    }

    /// Converts milli CPUs to CPU shares, with a minimum of 2.
    pub fn milli_cpu_to_shares(milli_cpu: i64) -> (r: i64)
        requires
            i64::MIN <= milli_cpu * 1024 <= i64::MAX,
        ensures
            r == shares_of(milli_cpu as int),
    {
        let min_shares: i64 = 2;
        let shares_per_cpu: i64 = 1024;
        let milli_cpu_to_cpu: i64 = 1000;
        if milli_cpu <= 0 {
            return min_shares;
        }
        let shares = milli_cpu * shares_per_cpu / milli_cpu_to_cpu;
        if shares < min_shares {
            min_shares
        } else {
            shares
        }
    }
}

/// Amounts of compute resources.
#[derive(Clone, Copy, Debug, PartialEq, Eq, Default, Structural)]
pub struct Resource {
    /// CPU unit in milli CPU.
    pub cpu: i64,
    /// Memory in bytes. Defaults to 0.
    pub memory: i64,
}

/// A volume of a pod.
#[derive(Clone, Debug, PartialEq)]
pub struct Volume {
    /// Volume's name; unique within the pod.
    pub name: String,
    pub config: VolumeConfig,
}

/// Where the data of a volume lives.
#[derive(Clone, Debug, PartialEq)]
pub enum VolumeConfig {
    /// A pre-existing file or directory on the host machine.
    HostPath(String),
    /// A temporary directory that shares a pod's lifetime.
    EmptyDir,
}

/// When to restart the containers of a pod.
#[derive(Clone, Copy, Debug, PartialEq, Eq, Structural)]
pub enum RestartPolicy {
    Always,
    OnFailure,
    Never,
}

impl RestartPolicy {
    /// The default restart policy, Always.
    pub fn default() -> (r: RestartPolicy)
        ensures
            r == RestartPolicy::Always,
    {
        RestartPolicy::Always
    }
}

/// The observed state of a pod.
#[derive(Clone, Debug, PartialEq)]
pub struct PodStatus {
    /// IP address of the host to which the pod is assigned.
    pub host_ip: Option<String>,
    /// When the kubelet acknowledged the pod, in milliseconds since the Unix epoch.
    pub start_time: i64,
    /// The phase of the pod in its lifecycle.
    pub phase: PodPhase,
    /// IP address allocated to the pod.
    pub pod_ip: Option<Ipv4Addr>,
    /// Current service state of pod.
    pub conditions: PodConditions,
    /// One entry per container of the pod.
    pub container_statuses: Vec<ContainerStatus>,
}

impl PodStatus {
    /// A pending status started now, with every condition present and false.
    pub fn default() -> (r: PodStatus)
        ensures
            r.host_ip is None,
            r.phase == PodPhase::Pending,
            r.pod_ip is None,
            r.conditions == PodConditions::all_false(),
            r.container_statuses@.len() == 0,
    {
        PodStatus {
            host_ip: None,
            start_time: crate::clock::now_millis(),
            phase: PodPhase::Pending,
            pod_ip: None,
            conditions: PodConditions::new_all_false(),
            container_statuses: Vec::new(),
        }
    }
}

/// The lifecycle phase of a pod.
#[derive(Clone, Copy, Debug, PartialEq, Eq, Hash, Structural)]
pub enum PodPhase {
    /// All containers have terminated, at least one in failure.
    Failed,
    /// Accepted, but not all containers have been created.
    Pending,
    /// Bound to a node; at least one container is running.
    Running,
    /// All containers terminated in success and will not be restarted.
    Succeeded,
}

impl PodPhase {
    /// The name of the phase.
    pub fn to_string(&self) -> (s: String)
        ensures
            s@ == phase_name(*self),
    {
        proof {
            reveal_strlit("Failed");
            reveal_strlit("Pending");
            reveal_strlit("Running");
            reveal_strlit("Succeeded");
        }
        match self {
            PodPhase::Failed => crate::text::to_owned_string("Failed"),
            PodPhase::Pending => crate::text::to_owned_string("Pending"),
            PodPhase::Running => crate::text::to_owned_string("Running"),
            PodPhase::Succeeded => crate::text::to_owned_string("Succeeded"),
        }
    }
}

/// The name of a phase.
pub open spec fn phase_name(p: PodPhase) -> Seq<char> {
    match p {
        PodPhase::Failed => seq!['F', 'a', 'i', 'l', 'e', 'd'],
        PodPhase::Pending => seq!['P', 'e', 'n', 'd', 'i', 'n', 'g'],
        PodPhase::Running => seq!['R', 'u', 'n', 'n', 'i', 'n', 'g'],
        PodPhase::Succeeded => seq!['S', 'u', 'c', 'c', 'e', 'e', 'd', 'e', 'd'],
    }
}

/// The kinds of pod conditions.
#[derive(Clone, Copy, Debug, PartialEq, Eq, Hash, Structural)]
pub enum PodConditionType {
    /// All containers in the pod are ready.
    ContainersReady,
    /// All init containers have completed successfully.
    Initialized,
    /// The pod has been scheduled to a node.
    PodScheduled,
    /// The pod is able to serve requests.
    Ready,
}

/// A pod condition.
#[derive(Clone, Copy, Debug, PartialEq, Eq, Default, Structural)]
pub struct PodCondition {
    /// Whether the condition holds.
    pub status: bool,
}

/// The conditions of a pod, at most one of each type.
#[derive(Clone, Copy, Debug, PartialEq, Eq, Structural)]
pub struct PodConditions {
    pub containers_ready: Option<PodCondition>,
    pub initialized: Option<PodCondition>,
    pub pod_scheduled: Option<PodCondition>,
    pub ready: Option<PodCondition>,
}

impl PodConditions {
    /// The condition of type `t`, if present.
    pub open spec fn condition_of(self, t: PodConditionType) -> Option<PodCondition> {
        match t {
            PodConditionType::ContainersReady => self.containers_ready,
            PodConditionType::Initialized => self.initialized,
            PodConditionType::PodScheduled => self.pod_scheduled,
            PodConditionType::Ready => self.ready,
        }
    }

    /// Every condition present and false.
    pub open spec fn all_false() -> PodConditions {
        PodConditions {
            containers_ready: Some(PodCondition { status: false }),
            initialized: Some(PodCondition { status: false }),
            pod_scheduled: Some(PodCondition { status: false }),
            ready: Some(PodCondition { status: false }),
        }
    }

    /// No condition present.
    pub fn new() -> (r: PodConditions)
        ensures
            forall|t: PodConditionType| r.condition_of(t) is None,
    {
        PodConditions { containers_ready: None, initialized: None, pod_scheduled: None, ready: None }
    }

    /// Every condition present and false.
    pub fn new_all_false() -> (r: PodConditions)
        ensures
            r == PodConditions::all_false(),
    {
        PodConditions {
            containers_ready: Some(PodCondition { status: false }),
            initialized: Some(PodCondition { status: false }),
            pod_scheduled: Some(PodCondition { status: false }),
            ready: Some(PodCondition { status: false }),
        }
    }

    /// The condition of type `t`, if present.
    pub fn get(&self, t: PodConditionType) -> (r: Option<PodCondition>)
        ensures
            r == self.condition_of(t),
    {
        match t {
            PodConditionType::ContainersReady => self.containers_ready,
            PodConditionType::Initialized => self.initialized,
            PodConditionType::PodScheduled => self.pod_scheduled,
            PodConditionType::Ready => self.ready,
        }
    }

    /// Sets the condition of type `t`.
    pub fn insert(&mut self, t: PodConditionType, c: PodCondition)
        ensures
            final(self).condition_of(t) == Some(c),
            forall|u: PodConditionType|
                u != t ==> final(self).condition_of(u) == old(self).condition_of(u),
    {
        match t {
            PodConditionType::ContainersReady => self.containers_ready = Some(c),
            PodConditionType::Initialized => self.initialized = Some(c),
            PodConditionType::PodScheduled => self.pod_scheduled = Some(c),
            PodConditionType::Ready => self.ready = Some(c),
        }
    }
}

/// The state of a container.
#[derive(Clone, Copy, Debug, PartialEq, Eq, Structural)]
pub enum ContainerState {
    Running,
    Terminated { exit_code: i64 },
    Waiting,
}

/// The observed state of one container.
#[derive(Clone, Debug, PartialEq)]
pub struct ContainerStatus {
    /// The container's name; unique within the pod.
    pub name: String,
    /// The image the container is running.
    pub image: String,
    /// Container's ID
    pub container_id: String,
    /// State is the current state of the container.
    pub state: ContainerState,
    /// The number of times the container has been restarted.
    pub restart_count: u32,
}

/// A pod template: the metadata and spec of pods to create.
#[derive(Clone, Debug, PartialEq)]
pub struct PodTemplateSpec {
    /// Standard object's metadata.
    pub metadata: Metadata,
    /// Specification of the desired behavior of the pod.
    pub spec: PodSpec,
}

/// A container with its status, if one is known.
#[derive(Debug)]
pub struct ContainerPair<'a>(pub &'a Container, pub Option<&'a ContainerStatus>);

/// The status of a container as the container engine reports it.
#[derive(Clone, Copy, Debug, PartialEq, Eq, Structural)]
pub enum DockerStatus {
    Empty,
    Created,
    Running,
    Paused,
    Restarting,
    Removing,
    Exited,
    Dead,
}

/// The state of a container as the container engine reports it.
#[derive(Clone, Copy, Debug, PartialEq, Eq, Structural)]
pub struct DockerState {
    pub status: Option<DockerStatus>,
    pub exit_code: Option<i64>,
}

/// The state of a container from the engine's report: running; terminated
/// with its exit code (0 when unknown) once exited or dead; waiting
/// otherwise or without a report.
pub open spec fn state_from_docker(state: Option<DockerState>) -> ContainerState {
    match state {
        Some(s) => match s.status {
            Some(DockerStatus::Running) => ContainerState::Running,
            Some(DockerStatus::Exited) | Some(DockerStatus::Dead) => ContainerState::Terminated {
                exit_code: match s.exit_code {
                    Some(c) => c,
                    None => 0,
                },
            },
            _ => ContainerState::Waiting,
        },
        None => ContainerState::Waiting,
    }
}

impl ContainerState {
    /// The state from the engine's report (see [`state_from_docker`]).
    pub fn from_docker(state: Option<DockerState>) -> (r: ContainerState)
        ensures
            r == state_from_docker(state),
    {
        match state {
            Some(s) => match s.status {
                Some(DockerStatus::Running) => ContainerState::Running,
                Some(DockerStatus::Exited) | Some(DockerStatus::Dead) => ContainerState::Terminated {
                    exit_code: match s.exit_code {
                        Some(c) => c,
                        None => 0,
                    },
                },
                _ => ContainerState::Waiting,
            },
            None => ContainerState::Waiting,
        }
    }
}

/// A restart count truncated to 32 bits, 0 when unknown.
pub open spec fn restart_count_of(c: Option<i64>) -> u32 {
    match c {
        Some(c) => c as u32,
        None => 0,
    }
}

impl ContainerStatus {
    /// The status of a container from the engine's inspection: its name is
    /// the `minik8s.container.name` label (empty without one), the restart
    /// count is truncated to 32 bits (0 when unknown). The image and the
    /// id must be known.
    pub fn from_docker(
        labels: &crate::keyed::KeyedMap<String>,
        image: Option<String>,
        id: Option<String>,
        state: Option<DockerState>,
        restart_count: Option<i64>,
    ) -> (r: ContainerStatus)
        requires
            image is Some,
            id is Some,
    ensures
            labels.map_view().contains_key("minik8s.container.name"@) ==> r.name == labels.map_view()["minik8s.container.name"@],
            !labels.map_view().contains_key("minik8s.container.name"@) ==> r.name@.len() == 0,
            r.image == image->0,
            r.container_id == id->0,
            r.state == state_from_docker(state),
            r.restart_count == restart_count_of(restart_count),
    {
        let name = match labels.get("minik8s.container.name") {
            Some(n) => n.clone(),
            None => String::new(),
        };
        let count: i64 = match restart_count {
            Some(c) => c,
            None => 0,
        };
        ContainerStatus {
            name,
            image: match image {
                Some(i) => i,
                None => String::new(),
            },
            container_id: match id {
                Some(i) => i,
                None => String::new(),
            },
            state: ContainerState::from_docker(state),
            restart_count: count as u32,
        }
    }
}

/// The restart policies of the container engine.
#[derive(Clone, Copy, Debug, PartialEq, Eq, Structural)]
pub enum DockerRestartPolicy {
    Always,
    OnFailure,
    No,
}

impl RestartPolicy {
    /// The engine's policy for this one: always, on failure, or no.
    pub fn to_docker(&self) -> (r: DockerRestartPolicy)
        ensures
            *self == RestartPolicy::Always ==> r == DockerRestartPolicy::Always,
            *self == RestartPolicy::OnFailure ==> r == DockerRestartPolicy::OnFailure,
            *self == RestartPolicy::Never ==> r == DockerRestartPolicy::No,
    {
        match self {
            RestartPolicy::Always => DockerRestartPolicy::Always,
            RestartPolicy::OnFailure => DockerRestartPolicy::OnFailure,
            RestartPolicy::Never => DockerRestartPolicy::No,
        }
    }
}

impl PodTemplateSpec {
    /// The pod template of a function whose image is built: the function's
    /// name and labels, and one container of that name running the image,
    /// pulled if not present, on port 80, with nothing else set.
    pub fn from_function(func: &crate::objects::function::Function) -> (r: PodTemplateSpec)
        requires
            func.status is Some,
            func.status->0.image is Some,
        ensures
            r.metadata.name == func.metadata.name,
            r.metadata.uid is None,
            r.metadata.labels@ == func.metadata.labels@,
            r.metadata.labels.pairs() == func.metadata.labels.pairs(),
            r.metadata.owner_references@.len() == 0,
            r.spec.containers@.len() == 1,
            r.spec.containers@[0].name == func.metadata.name,
            r.spec.containers@[0].image == func.status->0.image->0,
            r.spec.containers@[0].image_pull_policy == Some(ImagePullPolicy::IfNotPresent),
            r.spec.containers@[0].command@.len() == 0,
            r.spec.containers@[0].ports@ == seq![ContainerPort { container_port: 80 }],
            r.spec.containers@[0].volume_mounts@.len() == 0,
            r.spec.containers@[0].resources == (ResourceRequirements {
                limits: Resource { cpu: 0, memory: 0 },
                requests: Resource { cpu: 0, memory: 0 },
            }),
            r.spec.volumes@.len() == 0,
            r.spec.restart_policy == RestartPolicy::Always,
            !r.spec.host_network,
            r.spec.node_name is None,
    {
        let image = match &func.status {
            Some(st) => match &st.image {
                Some(i) => i.clone(),
                None => String::new(),
            },
            None => String::new(),
        };
        let mut ports = Vec::new();
        ports.push(ContainerPort { container_port: 80 });
        let container = Container {
            name: func.metadata.name.clone(),
            image,
            image_pull_policy: Some(ImagePullPolicy::IfNotPresent),
            command: Vec::new(),
            ports,
            volume_mounts: Vec::new(),
            resources: ResourceRequirements {
                limits: Resource { cpu: 0, memory: 0 },
                requests: Resource { cpu: 0, memory: 0 },
            },
        };
        let mut containers = Vec::new();
        containers.push(container);
        let metadata = super::Metadata {
            name: func.metadata.name.clone(),
            uid: None,
            labels: func.metadata.labels.copy(),
            owner_references: Vec::new(),
        };
        PodTemplateSpec {
            metadata,
            spec: PodSpec {
                containers,
                volumes: Vec::new(),
                restart_policy: RestartPolicy::Always,
                host_network: false,
                node_name: None,
            },
        }
    }
}

} // verus!
