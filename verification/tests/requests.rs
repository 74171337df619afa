use minik8s::api_server::metrics::{cpu_query, function_query, memory_query};
use minik8s::api_server::requests::{
    create_gpu_job, create_hpa, create_ingress, create_pod, create_replica_set, create_service, deletion_result,
    done_message, job_log_pod, kind_error, kubelet_url, pod_node_key, patch_gpu_job, patch_hpa, reload_result, require_kind,
    scale_target_uri, target_request, update_node,
};
use minik8s::net::Ipv4Addr;
use minik8s::objects::gpu_job::{GpuConfig, GpuJob, GpuJobSpec, GpuJobStatus, SlurmConfig};
use minik8s::objects::hpa::{
    default_metrics, HorizontalPodAutoscaler, HorizontalPodAutoscalerBehavior, HorizontalPodAutoscalerSpec,
    HorizontalPodAutoscalerStatus,
};
use minik8s::objects::ingress::{Ingress, IngressPath, IngressRule, IngressService, IngressSpec};
use minik8s::objects::node::{Node, NodeStatus};
use minik8s::objects::object_reference::ObjectReference;
use minik8s::objects::pod::{Pod, PodConditions, PodPhase, PodSpec, PodStatus, RestartPolicy};
use minik8s::objects::replica_set::{ReplicaSet, ReplicaSetSpec, ReplicaSetStatus};
use minik8s::objects::service::{Service, ServiceSpec};
use minik8s::objects::pod::PodTemplateSpec;
use minik8s::objects::{KubeObject, KubeResource, Labels, Metadata};

fn metadata(name: &str) -> Metadata {
    Metadata { name: name.to_string(), uid: None, labels: Labels::new(), owner_references: Vec::new() }
}

fn pod_spec() -> PodSpec {
    PodSpec {
        containers: Vec::new(),
        volumes: Vec::new(),
        restart_policy: RestartPolicy::Always,
        host_network: false,
        node_name: None,
    }
}

fn pod(name: &str, phase: PodPhase, owners: Vec<ObjectReference>) -> KubeObject {
    let mut md = metadata(name);
    md.owner_references = owners;
    let status = PodStatus {
        host_ip: None,
        start_time: 7,
        phase,
        pod_ip: None,
        conditions: PodConditions { containers_ready: None, initialized: None, pod_scheduled: None, ready: None },
        container_statuses: Vec::new(),
    };
    KubeObject { metadata: metadata(name), resource: KubeResource::Pod(Pod { metadata: md, spec: pod_spec(), status: Some(status) }) }
}

fn node_object(name: &str) -> KubeObject {
    KubeObject {
        metadata: metadata(name),
        resource: KubeResource::Node(Node { metadata: metadata(name), status: NodeStatus::default() }),
    }
}

fn replica_set(name: &str, status: Option<ReplicaSetStatus>) -> KubeObject {
    KubeObject {
        metadata: metadata(name),
        resource: KubeResource::ReplicaSet(ReplicaSet {
            metadata: metadata(name),
            spec: ReplicaSetSpec {
                selector: Labels::new(),
                template: PodTemplateSpec { metadata: metadata("t"), spec: pod_spec() },
                replicas: 3,
            },
            status,
        }),
    }
}

fn hpa(name: &str, target: &str, min: u32) -> KubeObject {
    KubeObject {
        metadata: metadata(name),
        resource: KubeResource::HorizontalPodAutoscaler(HorizontalPodAutoscaler {
            metadata: metadata(name),
            spec: HorizontalPodAutoscalerSpec {
                max_replicas: 10,
                min_replicas: min,
                scale_target_ref: ObjectReference::new("ReplicaSet".to_string(), target.to_string()),
                behavior: HorizontalPodAutoscalerBehavior::default(),
                metrics: default_metrics(),
            },
            status: None,
        }),
    }
}

fn gpu_job(name: &str, completions: u32) -> KubeObject {
    KubeObject {
        metadata: metadata(name),
        resource: KubeResource::GpuJob(GpuJob {
            metadata: metadata(name),
            spec: GpuJobSpec {
                template: None,
                filename: None,
                gpu_config: GpuConfig {
                    slurm_config: SlurmConfig {
                        job_name: name.to_string(),
                        partition: "dgx2".to_string(),
                        total_core_number: 1,
                        ntasks_per_node: 1,
                        cpus_per_task: 1,
                        gres: "gpu:1".to_string(),
                        scripts: None,
                    },
                    compile_scripts: Vec::new(),
                },
                completions,
                parallelism: 1,
                back_off_limit: 6,
            },
            status: None,
        }),
    }
}

fn service(name: &str, ip: Option<Ipv4Addr>) -> KubeObject {
    KubeObject {
        metadata: metadata(name),
        resource: KubeResource::Service(Service {
            metadata: metadata(name),
            spec: ServiceSpec { selector: Labels::new(), ports: Vec::new(), endpoints: Vec::new(), cluster_ip: ip },
        }),
    }
}

#[test]
fn replies_name_the_kind_and_the_object() {
    let r = done_message("pod", "web", "created");
    assert_eq!(r.msg, Some("pod/web created".to_string()));
    assert_eq!(r.data, None);
    let e = kind_error("Error creating pod", "pod kind", "node");
    assert_eq!(e.msg, "Error creating pod");
    assert_eq!(e.cause, Some("Expecting pod kind, got node".to_string()));
    assert_eq!(e.status, 500);
    assert_eq!(require_kind(&pod("a", PodPhase::Running, Vec::new()), "pod", "m", "pod kind"), Ok(()));
    let e = require_kind(&node_object("n"), "pod", "Error replacing pod", "pod kind").unwrap_err();
    assert_eq!(e.cause, Some("Expecting pod kind, got node".to_string()));
}

#[test]
fn a_created_pod_is_pending_under_a_unique_name() {
    let o = create_pod(pod("web", PodPhase::Running, Vec::new())).unwrap();
    assert!(o.metadata.name.starts_with("web-"));
    assert_eq!(o.metadata.name.len(), 9);
    assert!(o.metadata.uid.is_some());
    match o.resource {
        KubeResource::Pod(p) => {
            assert_eq!(p.metadata.name, o.metadata.name);
            assert_eq!(p.metadata.uid, o.metadata.uid);
            let s = p.status.unwrap();
            assert_eq!(s.phase, PodPhase::Pending);
            assert_eq!(s.start_time, 7);
        },
        _ => panic!("expected a pod"),
    }
    let e = create_pod(node_object("n")).unwrap_err();
    assert_eq!(e.msg, "Error creating pod");
}

#[test]
fn a_created_replica_set_starts_empty_unless_it_exists() {
    let o = create_replica_set(replica_set("rs", Some(ReplicaSetStatus { replicas: 2, ready_replicas: 1 })), false).unwrap();
    assert!(o.metadata.uid.is_some());
    match o.resource {
        KubeResource::ReplicaSet(rs) => assert_eq!(rs.status, Some(ReplicaSetStatus { replicas: 0, ready_replicas: 0 })),
        _ => panic!("expected a replica set"),
    }
    let e = create_replica_set(replica_set("rs", None), true).unwrap_err();
    assert_eq!(e.msg, "Error creating replica set");
    assert_eq!(e.cause, Some("Replica set rs already exists".to_string()));
    let e = create_replica_set(node_object("rs"), false).unwrap_err();
    assert_eq!(e.cause, Some("Expecting replicaset kind, got node".to_string()));
}

#[test]
fn a_created_autoscaler_starts_from_its_target() {
    let target = replica_set("web", Some(ReplicaSetStatus { replicas: 4, ready_replicas: 4 }));
    let o = create_hpa(hpa("h", "web", 1), false, Some(target)).unwrap();
    assert!(o.metadata.uid.is_some());
    match o.resource {
        KubeResource::HorizontalPodAutoscaler(h) => assert_eq!(
            h.status,
            Some(HorizontalPodAutoscalerStatus { current_replicas: 4, desired_replicas: 4, last_scale_time: None })
        ),
        _ => panic!("expected an autoscaler"),
    }
    let e = create_hpa(hpa("h", "web", 1), true, None).unwrap_err();
    assert_eq!(e.cause, Some("Horizontal pod autoscaler h already exists".to_string()));
    let e = create_hpa(hpa("h", "web", 1), false, None).unwrap_err();
    assert_eq!(e.cause, Some("Scale target web not found".to_string()));
    let e = create_hpa(hpa("h", "web", 1), false, Some(node_object("web"))).unwrap_err();
    assert_eq!(e.cause, Some("Target web is not scalable".to_string()));
    let e = create_hpa(node_object("h"), false, None).unwrap_err();
    assert_eq!(e.msg, "Error creating horizontalpodautoscaler");
    let reference = ObjectReference::new("ReplicaSet".to_string(), "web".to_string());
    assert_eq!(scale_target_uri(&reference), "/api/v1/replicasets/web");
}

#[test]
fn a_created_gpu_job_keeps_its_code_file() {
    let o = create_gpu_job(Some(gpu_job("train", 1)), Some("code.zip".to_string()), false).unwrap();
    match o.resource {
        KubeResource::GpuJob(j) => {
            assert_eq!(j.spec.filename, Some("code.zip".to_string()));
            assert_eq!(j.status, Some(GpuJobStatus { active: 0, failed: 0, succeeded: 0 }));
        },
        _ => panic!("expected a job"),
    }
    let e = create_gpu_job(None, Some("code.zip".to_string()), false).unwrap_err();
    assert_eq!((e.msg.as_str(), e.status), ("Job field is not presented", 400));
    let e = create_gpu_job(Some(gpu_job("train", 1)), None, false).unwrap_err();
    assert_eq!((e.msg.as_str(), e.status), ("Code field is not presented", 400));
    let e = create_gpu_job(Some(gpu_job("train", 1)), Some("c.zip".to_string()), true).unwrap_err();
    assert_eq!(e.cause, Some("Gpu job train already exists".to_string()));
    let e = create_gpu_job(Some(node_object("n")), Some("c.zip".to_string()), false).unwrap_err();
    assert_eq!(e.cause, Some("Expecting gpujob kind, got node".to_string()));
}

#[test]
fn a_created_service_gets_a_free_address() {
    let taken = Ipv4Addr::new(172, 16, 0, 1);
    let fresh = Ipv4Addr::new(172, 17, 3, 4);
    let pool = vec![taken];
    let o = create_service(service("s", None), &pool, Some(fresh)).unwrap();
    match o.resource {
        KubeResource::Service(s) => assert_eq!(s.spec.cluster_ip, Some(fresh)),
        _ => panic!("expected a service"),
    }
    let own = Ipv4Addr::new(172, 20, 0, 9);
    let o = create_service(service("s", Some(own)), &pool, None).unwrap();
    match o.resource {
        KubeResource::Service(s) => assert_eq!(s.spec.cluster_ip, Some(own)),
        _ => panic!("expected a service"),
    }
    let e = create_service(service("s", Some(taken)), &pool, None).unwrap_err();
    assert_eq!(e.msg, "ClusterIp exists, try assign a new ClusterIP");
    let e = create_service(node_object("s"), &pool, None).unwrap_err();
    assert_eq!(e.cause, Some("Expecting service, got node".to_string()));
}

#[test]
fn a_created_ingress_names_a_host_for_each_rule() {
    let path = IngressPath { path: "/".to_string(), service: IngressService { name: "web".to_string(), port: 80 } };
    let ingress = Ingress {
        metadata: metadata("i"),
        spec: IngressSpec {
            rules: vec![
                IngressRule { host: Some("a.minik8s.com".to_string()), paths: vec![path.clone()] },
                IngressRule { host: None, paths: vec![path.clone()] },
            ],
        },
    };
    let o = create_ingress(KubeObject { metadata: metadata("i"), resource: KubeResource::Ingress(ingress) }).unwrap();
    match o.resource {
        KubeResource::Ingress(i) => {
            assert_eq!(i.spec.rules[0].host, Some("a.minik8s.com".to_string()));
            let generated = i.spec.rules[1].host.clone().unwrap();
            assert!(generated.ends_with(".minik8s.com"));
            assert_eq!(generated.len(), 17);
            assert_eq!(i.spec.rules[1].paths, vec![path]);
        },
        _ => panic!("expected an ingress"),
    }
    assert_eq!(create_ingress(node_object("n")).unwrap_err().msg, "Error creating ingress");
}

#[test]
fn an_updated_node_keeps_its_stored_metadata() {
    let mut stored = node_object("n1");
    stored.metadata.uid = Some(42);
    let o = update_node(node_object("n1"), Some(stored)).unwrap();
    assert_eq!(o.metadata.uid, Some(42));
    let o = update_node(node_object("n1"), None).unwrap();
    assert!(o.metadata.uid.is_some());
    let e = update_node(pod("p", PodPhase::Running, Vec::new()), None).unwrap_err();
    assert_eq!(e.cause, Some("Expecting node kind, got pod".to_string()));
}

#[test]
fn a_patch_replaces_the_specification_only() {
    let mut stored = hpa("h", "web", 1);
    if let KubeResource::HorizontalPodAutoscaler(h) = &mut stored.resource {
        h.status = Some(HorizontalPodAutoscalerStatus { current_replicas: 2, desired_replicas: 3, last_scale_time: Some(5) });
    }
    let o = patch_hpa(hpa("h", "web", 2), stored).unwrap();
    match o.resource {
        KubeResource::HorizontalPodAutoscaler(h) => {
            assert_eq!(h.spec.min_replicas, 2);
            assert_eq!(h.status.unwrap().desired_replicas, 3);
        },
        _ => panic!("expected an autoscaler"),
    }
    let e = patch_hpa(node_object("h"), hpa("h", "web", 1)).unwrap_err();
    assert_eq!(e.msg, "Error patching horizontal pod autoscaler");
    let o = patch_gpu_job(gpu_job("j", 4), gpu_job("j", 1)).unwrap();
    match o.resource {
        KubeResource::GpuJob(j) => assert_eq!(j.spec.completions, 4),
        _ => panic!("expected a job"),
    }
    assert_eq!(patch_gpu_job(gpu_job("j", 4), node_object("j")).unwrap_err().msg, "Error patching gpujob");
}

#[test]
fn deleting_nothing_is_not_found() {
    assert_eq!(deletion_result(1, "/api/v1/pods/a"), Ok(()));
    let e = deletion_result(0, "/api/v1/pods/a").unwrap_err();
    assert_eq!((e.msg.as_str(), e.status), ("/api/v1/pods/a not found", 404));
}

#[test]
fn requests_are_proxied_to_the_kubelet_of_the_node() {
    let mut status = NodeStatus::default();
    status.addresses.internal_ip = Some("192.168.1.5".to_string());
    status.kubelet_port = 10350;
    let node = Node { metadata: metadata("n"), status };
    assert_eq!(kubelet_url(&Some(node), 10250, "/api/v1/pods/a/logs"), "http://192.168.1.5:10350/api/v1/pods/a/logs");
    assert_eq!(kubelet_url(&None, 10250, "/x?y=1"), "http://127.0.0.1:10250/x?y=1");
}

#[test]
fn job_logs_come_from_its_first_finished_pod() {
    let owner = ObjectReference::new("GpuJob".to_string(), "train".to_string());
    let objects = vec![
        pod("running", PodPhase::Running, vec![owner.clone()]),
        pod("other", PodPhase::Succeeded, vec![ObjectReference::new("GpuJob".to_string(), "x".to_string())]),
        pod("done", PodPhase::Succeeded, vec![owner.clone()]),
        pod("later", PodPhase::Succeeded, vec![owner]),
    ];
    assert_eq!(job_log_pod(&objects, "train"), Ok("done".to_string()));
    let e = job_log_pod(&objects[..2].to_vec(), "train").unwrap_err();
    assert_eq!(e.msg, "Job train is not completed");
}

#[test]
fn scrape_target_requests_need_both_fields() {
    assert_eq!(
        target_request(Some("pods".to_string()), Some("10.0.0.1:9100".to_string()), true),
        Ok(("pods".to_string(), "10.0.0.1:9100".to_string()))
    );
    let e = target_request(Some("pods".to_string()), None, true).unwrap_err();
    assert_eq!(e.msg, "Failed to add target");
    assert_eq!(e.cause, Some("Missing job or target".to_string()));
    assert_eq!(target_request(None, None, false).unwrap_err().msg, "Failed to remove target");
    assert_eq!(reload_result(Some(String::new())), Ok(()));
    assert_eq!(reload_result(None), Ok(()));
    let e = reload_result(Some("bad config".to_string())).unwrap_err();
    assert_eq!(e.cause, Some("bad config".to_string()));
}

#[test]
fn metrics_queries_narrow_by_the_selector() {
    let sel = "container_label_app=\"web\",";
    assert_eq!(
        cpu_query(sel),
        "sum(rate(container_cpu_usage_seconds_total{container_label_app=\"web\",container_label_minik8s_container_type=\"container\"}[1m])) by(container_label_minik8s_container_name, container_label_minik8s_pod_name)"
    );
    assert_eq!(
        memory_query(""),
        "container_memory_working_set_bytes{container_label_minik8s_container_type=\"container\"}"
    );
    assert_eq!(function_query("hello"), "idelta(function_requests_total{function=\"hello\"}[1m])");
}

#[test]
fn a_scheduled_pod_names_its_node() {
    let mut p = match pod("a", PodPhase::Running, Vec::new()).resource {
        KubeResource::Pod(p) => p,
        _ => unreachable!(),
    };
    assert_eq!(pod_node_key(&p), None);
    p.spec.node_name = Some("n1".to_string());
    assert_eq!(pod_node_key(&p), Some("/api/v1/nodes/n1".to_string()));
}
