use minik8s::keyed::KeyedMap;
use minik8s::net::Ipv4Addr;
use minik8s::objects::function::{Function, FunctionSpec, FunctionStatus};
use minik8s::objects::hpa::{default_metrics, HorizontalPodAutoscaler, HorizontalPodAutoscalerBehavior};
use minik8s::objects::node::{Capacity, Node, NodeInfo, NodeStatus};
use minik8s::objects::pod::{
    Container, ContainerPair, ContainerPort, ContainerState, ContainerStatus, DockerRestartPolicy, DockerState,
    DockerStatus, ImagePullPolicy, Pod, PodCondition, PodConditions, PodPhase, PodSpec, PodStatus, PodTemplateSpec,
    Resource, ResourceRequirements, RestartPolicy, Volume, VolumeConfig, VolumeMount,
};
use minik8s::objects::replica_set::{ReplicaSet, ReplicaSetSpec, ReplicaSetStatus};
use minik8s::objects::service::{Service, ServicePort};
use minik8s::objects::{Labels, Metadata};

fn labels(pairs: &[(&str, &str)]) -> Labels {
    let mut l = Labels::new();
    for (k, v) in pairs {
        l.insert(k, v);
    }
    l
}

fn metadata(name: &str, l: Labels) -> Metadata {
    Metadata { name: name.to_string(), uid: None, labels: l, owner_references: Vec::new() }
}

fn requirements() -> ResourceRequirements {
    ResourceRequirements { limits: Resource { cpu: 1000, memory: 2048 }, requests: Resource { cpu: 500, memory: 1024 } }
}

#[test]
fn resources_are_listed_in_columns() {
    assert_eq!(Resource { cpu: 500, memory: 1024 }.describe(), "CPU:     500\nMemory:  1024\n");
    assert_eq!(
        requirements().describe(),
        "  Requests:\n    CPU:     500\n    Memory:  1024\n  Limits:\n    CPU:     1000\n    Memory:  2048\n"
    );
}

#[test]
fn mounts_and_volumes_name_their_parts() {
    let m = VolumeMount { mount_path: "/data".to_string(), name: "cache".to_string() };
    assert_eq!(m.to_string(), "/data from cache");
    let v = Volume { name: "cache".to_string(), config: VolumeConfig::EmptyDir };
    assert_eq!(v.describe(), "cache           : EmptyDir\n");
    let h = Volume { name: "logs".to_string(), config: VolumeConfig::HostPath("/var/log".to_string()) };
    assert_eq!(h.describe(), "logs            : HostPath\n");
}

fn container() -> Container {
    Container {
        name: "web".to_string(),
        image: "nginx:latest".to_string(),
        image_pull_policy: None,
        command: Vec::new(),
        ports: vec![ContainerPort { container_port: 80 }, ContainerPort { container_port: 443 }],
        volume_mounts: vec![VolumeMount { mount_path: "/data".to_string(), name: "cache".to_string() }],
        resources: requirements(),
    }
}

const RESOURCES: &str =
    "Resources:\n  Requests:\n    CPU:     500\n    Memory:  1024\n  Limits:\n    CPU:     1000\n    Memory:  2048\n";

#[test]
fn a_container_is_described_with_its_status() {
    let c = container();
    let st = ContainerStatus {
        name: "web".to_string(),
        image: "nginx:latest".to_string(),
        container_id: "abc123".to_string(),
        state: ContainerState::Running,
        restart_count: 2,
    };
    let expected = format!(
        "Image:           nginx:latest\nPort:            80,443\nContainer ID:    abc123\nState:           Running\nRestart Count:   2\nMounts\n    /data from cache\n{}",
        RESOURCES
    );
    assert_eq!(ContainerPair(&c, Some(&st)).describe(), expected);
    let bare = format!("Image:           nginx:latest\nPort:            80,443\nMounts\n    /data from cache\n{}", RESOURCES);
    assert_eq!(ContainerPair(&c, None).describe(), bare);
}

#[test]
fn a_pod_without_status_shows_its_name_only() {
    let pod = Pod {
        metadata: metadata("web", Labels::new()),
        spec: PodSpec { containers: vec![container()], volumes: Vec::new(), restart_policy: RestartPolicy::Always, host_network: false, node_name: None },
        status: None,
    };
    assert_eq!(pod.describe("never"), "Name:            web\n");
}

#[test]
fn a_pod_is_described_with_containers_conditions_and_volumes() {
    let pod = Pod {
        metadata: metadata("web", labels(&[("app", "web")])),
        spec: PodSpec {
            containers: vec![container()],
            volumes: vec![Volume { name: "cache".to_string(), config: VolumeConfig::EmptyDir }],
            restart_policy: RestartPolicy::Always,
            host_network: false,
            node_name: Some("node1".to_string()),
        },
        status: Some(PodStatus {
            host_ip: None,
            start_time: 0,
            phase: PodPhase::Running,
            pod_ip: Some(Ipv4Addr::new(10, 0, 0, 7)),
            conditions: PodConditions {
                containers_ready: None,
                initialized: None,
                pod_scheduled: Some(PodCondition { status: true }),
                ready: Some(PodCondition { status: false }),
            },
            container_statuses: Vec::new(),
        }),
    };
    let mut expected = String::new();
    expected.push_str("Name:            web\n");
    expected.push_str("Node:            node1/<none>\n");
    expected.push_str("Start Time:      2023-05-01 10:00:00\n");
    expected.push_str("Labels:          app=web\n");
    expected.push_str("Phase:           Running\n");
    expected.push_str("IP:              10.0.0.7\n");
    expected.push_str("Containers:\n");
    expected.push_str("  web:\n");
    expected.push_str("    Image:           nginx:latest\n");
    expected.push_str("    Port:            80,443\n");
    expected.push_str("    Mounts\n");
    expected.push_str("        /data from cache\n");
    expected.push_str("    Resources:\n");
    expected.push_str("      Requests:\n        CPU:     500\n        Memory:  1024\n");
    expected.push_str("      Limits:\n        CPU:     1000\n        Memory:  2048\n");
    expected.push_str("Conditions:\n");
    expected.push_str("    Type             Status  \n");
    expected.push_str("    PodScheduled     true    \n");
    expected.push_str("    Ready            false   \n");
    expected.push_str("Volumes:\n");
    expected.push_str("    cache           : EmptyDir\n\n");
    assert_eq!(pod.describe("2023-05-01 10:00:00"), expected);
}

#[test]
fn a_replica_set_shows_its_counts() {
    let rs = ReplicaSet {
        metadata: metadata("rs", labels(&[("tier", "front")])),
        spec: ReplicaSetSpec {
            selector: labels(&[("app", "web"), ("env", "prod")]),
            template: PodTemplateSpec { metadata: metadata("t", Labels::new()), spec: PodSpec { containers: Vec::new(), volumes: Vec::new(), restart_policy: RestartPolicy::Always, host_network: false, node_name: None } },
            replicas: 3,
        },
        status: Some(ReplicaSetStatus { replicas: 2, ready_replicas: 1 }),
    };
    assert_eq!(
        rs.describe(),
        "Name:            rs\nSelector:        app=web,env=prod\nLabels:          tier=front\nReplicas:        1 ready / 2 current / 3 desired\n"
    );
}

#[test]
fn a_node_shows_addresses_capacity_and_system_info() {
    let mut status = NodeStatus::default();
    status.addresses.hostname = Some("node1".to_string());
    status.addresses.internal_ip = Some("192.168.1.5".to_string());
    status.capacity = Capacity { cpu: 8, memory: 16384 };
    status.allocatable = Capacity { cpu: 6, memory: 8192 };
    status.node_info = NodeInfo {
        architecture: "amd64".to_string(),
        machine_id: "m1".to_string(),
        operating_system: "linux".to_string(),
        os_image: "Ubuntu 22.04".to_string(),
    };
    assert_eq!(status.capacity.describe(), "CPU: 8\nMemory: 16384KB\n");
    let node = Node { metadata: metadata("node1", labels(&[("zone", "a")])), status };
    let expected = "Name:            node1\n\
Labels:          zone=a\n\
Last Heartbeat:  2023-05-01 10:00:00\n\
Addresses:\n    Hostname: node1\n    InternalIP: 192.168.1.5\n\
Capacity:\n    CPU: 8\n    Memory: 16384KB\n\
Allocatable:\n    CPU: 6\n    Memory: 8192KB\n\
System Info:\n    Architecture:        amd64\n    Machine ID:          m1\n    Operating System:    linux\n    OS Image:            Ubuntu 22.04\n";
    assert_eq!(node.describe("2023-05-01 10:00:00"), expected);
}

#[test]
fn engine_reports_become_container_states() {
    let state = |status, exit_code| Some(DockerState { status, exit_code });
    assert_eq!(ContainerState::from_docker(state(Some(DockerStatus::Running), None)), ContainerState::Running);
    assert_eq!(
        ContainerState::from_docker(state(Some(DockerStatus::Exited), Some(137))),
        ContainerState::Terminated { exit_code: 137 }
    );
    assert_eq!(ContainerState::from_docker(state(Some(DockerStatus::Dead), None)), ContainerState::Terminated { exit_code: 0 });
    assert_eq!(ContainerState::from_docker(state(Some(DockerStatus::Created), None)), ContainerState::Waiting);
    assert_eq!(ContainerState::from_docker(None), ContainerState::Waiting);
    let mut l = KeyedMap::new();
    l.insert("minik8s.container.name".to_string(), "web".to_string());
    let st = ContainerStatus::from_docker(&l, Some("nginx".to_string()), Some("id1".to_string()), None, Some(3));
    assert_eq!(st.name, "web");
    assert_eq!(st.restart_count, 3);
    assert_eq!(st.state, ContainerState::Waiting);
    let unnamed = ContainerStatus::from_docker(&KeyedMap::new(), Some("i".to_string()), Some("x".to_string()), None, None);
    assert_eq!(unnamed.name, "");
    assert_eq!(unnamed.restart_count, 0);
    assert_eq!(RestartPolicy::Always.to_docker(), DockerRestartPolicy::Always);
    assert_eq!(RestartPolicy::OnFailure.to_docker(), DockerRestartPolicy::OnFailure);
    assert_eq!(RestartPolicy::Never.to_docker(), DockerRestartPolicy::No);
}

#[test]
fn a_function_gets_a_template_an_autoscaler_and_a_service() {
    let func = Function {
        metadata: metadata("hello", labels(&[("function", "hello")])),
        spec: FunctionSpec { max_replicas: 5, behavior: HorizontalPodAutoscalerBehavior::default(), metrics: default_metrics() },
        status: Some(FunctionStatus {
            service_ref: "/api/v1/services/func-hello-abcde".to_string(),
            filename: "f.zip".to_string(),
            host: "hello.func.minik8s.com".to_string(),
            image: Some("minik8s.xyz/hello".to_string()),
        }),
    };
    let t = PodTemplateSpec::from_function(&func);
    assert_eq!(t.metadata.name, "hello");
    assert_eq!(t.spec.containers.len(), 1);
    assert_eq!(t.spec.containers[0].image, "minik8s.xyz/hello");
    assert_eq!(t.spec.containers[0].image_pull_policy, Some(ImagePullPolicy::IfNotPresent));
    let hpa = HorizontalPodAutoscaler::from_function(&func);
    assert_eq!(hpa.spec.max_replicas, 5);
    assert_eq!(hpa.spec.min_replicas, 0);
    assert_eq!(hpa.spec.scale_target_ref.kind, "ReplicaSet");
    assert_eq!(hpa.metadata.owner_references[0].kind, "function");
    let svc = Service::from_function("func-hello-abcde", "hello", Ipv4Addr::new(172, 16, 0, 2));
    assert_eq!(svc.spec.ports, vec![ServicePort { port: 80, target_port: 80 }]);
    assert_eq!(svc.spec.selector.get("func"), Some("hello".to_string()));
    assert_eq!(svc.spec.cluster_ip, Some(Ipv4Addr::new(172, 16, 0, 2)));
}

#[test]
fn an_omitted_cpu_request_defaults_to_the_limit() {
    let r = ResourceRequirements { limits: Resource { cpu: 500, memory: 0 }, requests: Resource { cpu: 0, memory: 0 } };
    assert_eq!(r.cpu_shares(), 512);
    let r = ResourceRequirements { limits: Resource { cpu: 0, memory: 0 }, requests: Resource { cpu: 0, memory: 0 } };
    assert_eq!(r.cpu_shares(), 2);
    assert_eq!(requirements().cpu_shares(), 512);
    assert_eq!(ResourceRequirements::milli_cpu_to_shares(1), 2);
}
