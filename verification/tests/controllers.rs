use minik8s::controllers::replica_set::{unwrap_pod, unwrap_rs, unwrap_rs_mut};
use minik8s::objects::{KubeObject, KubeResource};
use minik8s::controllers::endpoints::{
    add_endpoint, add_enpoints, del_endpoint, handle_notification, resync_endpoints, resync_services, Notification,
    PodNtf, ServiceNtf,
};
use minik8s::controllers::gpu_job;
use minik8s::controllers::pods::{get_pod_to_delete, single_owner};
use minik8s::controllers::replica_set::{self, ControllerError, ScaleAction};
use minik8s::informer::{ReflectorNotification, Store};
use minik8s::net::Ipv4Addr;
use minik8s::objects::gpu_job::{GpuConfig, GpuJob, GpuJobSpec, GpuJobStatus, SlurmConfig};
use minik8s::objects::object_reference::ObjectReference;
use minik8s::objects::pod::{
    Pod, PodCondition, PodConditions, PodPhase, PodSpec, PodStatus, PodTemplateSpec, RestartPolicy,
};
use minik8s::objects::replica_set::{ReplicaSet, ReplicaSetSpec, ReplicaSetStatus};
use minik8s::objects::service::{Service, ServiceSpec};
use minik8s::objects::{Labels, Metadata};

fn metadata(name: &str, labels: &[(&str, &str)]) -> Metadata {
    let mut l = Labels::new();
    for (k, v) in labels {
        l.insert(k, v);
    }
    Metadata { name: name.to_string(), uid: None, labels: l, owner_references: Vec::new() }
}

fn spec() -> PodSpec {
    PodSpec {
        containers: Vec::new(),
        volumes: Vec::new(),
        restart_policy: RestartPolicy::Always,
        host_network: false,
        node_name: None,
    }
}

fn pod(name: &str, phase: PodPhase, ready: bool, start: i64, ip: Option<Ipv4Addr>, labels: &[(&str, &str)]) -> Pod {
    Pod {
        metadata: metadata(name, labels),
        spec: spec(),
        status: Some(PodStatus {
            host_ip: None,
            start_time: start,
            phase,
            pod_ip: ip,
            conditions: PodConditions {
                containers_ready: None,
                initialized: None,
                pod_scheduled: None,
                ready: Some(PodCondition { status: ready }),
            },
            container_statuses: Vec::new(),
        }),
    }
}

fn replica_set(name: &str, desired: u32, status: Option<ReplicaSetStatus>) -> ReplicaSet {
    ReplicaSet {
        metadata: metadata(name, &[]),
        spec: ReplicaSetSpec {
            selector: Labels::new(),
            template: PodTemplateSpec { metadata: metadata("web", &[("app", "web")]), spec: spec() },
            replicas: desired,
        },
        status,
    }
}

#[test]
fn single_owner_needs_exactly_one_owner_of_the_kind() {
    let mut refs = vec![
        ObjectReference::new("Function".to_string(), "f".to_string()),
        ObjectReference::new("ReplicaSet".to_string(), "rs".to_string()),
    ];
    assert_eq!(single_owner(&refs, "ReplicaSet"), Some("rs".to_string()));
    refs.push(ObjectReference::new("ReplicaSet".to_string(), "other".to_string()));
    assert_eq!(single_owner(&refs, "ReplicaSet"), None);
    assert_eq!(single_owner(&Vec::new(), "ReplicaSet"), None);
}

#[test]
fn pod_to_delete_prefers_failed_then_unready_then_earliest() {
    let pods = vec![
        pod("running-ready", PodPhase::Running, true, 1, None, &[]),
        pod("pending", PodPhase::Pending, false, 5, None, &[]),
        pod("failed", PodPhase::Failed, false, 9, None, &[]),
    ];
    assert_eq!(get_pod_to_delete(&pods), "failed");
    let pods = vec![
        pod("ready", PodPhase::Running, true, 1, None, &[]),
        pod("unready", PodPhase::Running, false, 5, None, &[]),
    ];
    assert_eq!(get_pod_to_delete(&pods), "unready");
    let pods = vec![
        pod("late", PodPhase::Running, true, 9, None, &[]),
        pod("early", PodPhase::Running, true, 2, None, &[]),
        pod("early-too", PodPhase::Running, true, 2, None, &[]),
    ];
    assert_eq!(get_pod_to_delete(&pods), "early");
    let single = vec![Pod { status: None, ..pod("only", PodPhase::Running, true, 0, None, &[]) }];
    assert_eq!(get_pod_to_delete(&single), "only");
}

#[test]
fn replica_set_status_counts_pods_and_ready_pods() {
    let pods = vec![
        pod("a", PodPhase::Running, true, 0, None, &[]),
        pod("b", PodPhase::Running, false, 0, None, &[]),
        pod("c", PodPhase::Pending, true, 0, None, &[]),
    ];
    let status = replica_set::calculate_status(&pods);
    assert_eq!(status, ReplicaSetStatus { replicas: 3, ready_replicas: 2 });
}

#[test]
fn replica_set_update_posts_only_a_changed_status() {
    let pods = vec![pod("a", PodPhase::Running, true, 0, None, &[])];
    let rs = replica_set("rs", 1, Some(ReplicaSetStatus { replicas: 1, ready_replicas: 1 }));
    assert_eq!(replica_set::update_replicaset(rs, &pods), Ok(None));
    let rs = replica_set("rs", 1, Some(ReplicaSetStatus { replicas: 0, ready_replicas: 0 }));
    let updated = replica_set::update_replicaset(rs, &pods).unwrap().unwrap();
    assert_eq!(updated.status, Some(ReplicaSetStatus { replicas: 1, ready_replicas: 1 }));
    let rs = replica_set("rs", 1, None);
    assert_eq!(replica_set::update_replicaset(rs, &pods), Err(ControllerError::MissingStatus));
}

#[test]
fn replica_set_reconcile_creates_deletes_or_waits() {
    let status = |n| Some(ReplicaSetStatus { replicas: n, ready_replicas: n });
    assert_eq!(replica_set::reconcile(&replica_set("rs", 3, status(1))), Ok(ScaleAction::CreatePod));
    assert_eq!(replica_set::reconcile(&replica_set("rs", 1, status(3))), Ok(ScaleAction::DeletePod));
    assert_eq!(replica_set::reconcile(&replica_set("rs", 2, status(2))), Ok(ScaleAction::Nothing));
    assert_eq!(replica_set::reconcile(&replica_set("rs", 2, None)), Err(ControllerError::MissingStatus));
}

#[test]
fn a_deleted_replica_set_wants_no_replicas() {
    let rs = replica_set("rs", 4, None);
    let to_reconcile = replica_set::replicaset_to_reconcile(ReflectorNotification::Delete(rs));
    assert_eq!(to_reconcile.spec.replicas, 0);
    let rs = replica_set("rs", 4, None);
    let to_reconcile = replica_set::replicaset_to_reconcile(ReflectorNotification::Add(rs));
    assert_eq!(to_reconcile.spec.replicas, 4);
}

#[test]
fn replica_set_pods_are_owned_by_it() {
    let rs = replica_set("rs", 1, None);
    let pod = replica_set::create_pod("rs".to_string(), rs.spec.template.clone());
    assert_eq!(pod.metadata.name, "web");
    assert_eq!(pod.metadata.owner_references, vec![ObjectReference::new("ReplicaSet".to_string(), "rs".to_string())]);
    assert_eq!(pod.status, None);
}

#[test]
fn owners_resolve_through_the_store() {
    let mut store: Store<ReplicaSet> = Store::new();
    store.insert("/api/v1/replicasets/rs".to_string(), replica_set("rs", 1, None));
    let refs = vec![ObjectReference::new("ReplicaSet".to_string(), "rs".to_string())];
    assert_eq!(replica_set::resolve_rs_owner(&refs, &store).map(|r| r.metadata.name.clone()), Some("rs".to_string()));
    let refs = vec![ObjectReference::new("ReplicaSet".to_string(), "missing".to_string())];
    assert!(replica_set::resolve_rs_owner(&refs, &store).is_none());
}

fn gpu_job(status: Option<GpuJobStatus>, completions: u32, parallelism: u32) -> GpuJob {
    GpuJob {
        metadata: metadata("train", &[]),
        spec: GpuJobSpec {
            template: Some(PodTemplateSpec { metadata: metadata("train-pod", &[]), spec: spec() }),
            filename: Some("code.zip".to_string()),
            gpu_config: GpuConfig {
                slurm_config: SlurmConfig {
                    job_name: "train".to_string(),
                    partition: "dgx2".to_string(),
                    total_core_number: 1,
                    ntasks_per_node: 1,
                    cpus_per_task: 6,
                    gres: "gpu:1".to_string(),
                    scripts: Some(vec!["ulimit -s unlimited".to_string(), "./run".to_string()]),
                },
                compile_scripts: vec!["make".to_string()],
            },
            completions,
            parallelism,
            back_off_limit: 6,
        },
        status,
    }
}

#[test]
fn gpu_job_status_counts_phases() {
    let pods = vec![
        pod("a", PodPhase::Running, true, 0, None, &[]),
        pod("b", PodPhase::Pending, false, 0, None, &[]),
        pod("c", PodPhase::Failed, false, 0, None, &[]),
        pod("d", PodPhase::Succeeded, false, 0, None, &[]),
        Pod { status: None, ..pod("e", PodPhase::Running, true, 0, None, &[]) },
    ];
    let job = gpu_job(Some(GpuJobStatus::default()), 1, 1);
    assert_eq!(gpu_job::calculate_status(&job, &pods), GpuJobStatus { active: 2, failed: 1, succeeded: 1 });
}

#[test]
fn gpu_job_wants_the_remaining_completions_up_to_its_parallelism() {
    let st = |active, succeeded| Some(GpuJobStatus { active, failed: 0, succeeded });
    assert_eq!(gpu_job::reconcile(&gpu_job(st(0, 0), 3, 2)), Ok(ScaleAction::CreatePod));
    assert_eq!(gpu_job::reconcile(&gpu_job(st(2, 2), 3, 2)), Ok(ScaleAction::DeletePod));
    assert_eq!(gpu_job::reconcile(&gpu_job(st(1, 2), 3, 2)), Ok(ScaleAction::Nothing));
    assert_eq!(gpu_job::reconcile(&gpu_job(None, 3, 2)), Err(ControllerError::MissingStatus));
}

#[test]
fn gpu_job_pods_come_from_its_template() {
    let pod = gpu_job::create_pod(gpu_job(Some(GpuJobStatus::default()), 1, 1)).unwrap();
    assert_eq!(pod.metadata.name, "train-pod");
    assert_eq!(pod.metadata.owner_references, vec![ObjectReference::new("GpuJob".to_string(), "train".to_string())]);
    let mut job = gpu_job(Some(GpuJobStatus::default()), 1, 1);
    job.spec.template = None;
    assert_eq!(gpu_job::create_pod(job), Err(ControllerError::MissingTemplate));
    assert_eq!(gpu_job::create_pod(gpu_job(None, 1, 1)), Err(ControllerError::MissingStatus));
}

#[test]
fn gpu_job_owned_and_active_pods() {
    let mut owned = pod("owned", PodPhase::Running, true, 0, None, &[]);
    owned.metadata.owner_references.push(ObjectReference::new("GpuJob".to_string(), "train".to_string()));
    let mut done = pod("done", PodPhase::Succeeded, true, 0, None, &[]);
    done.metadata.owner_references.push(ObjectReference::new("GpuJob".to_string(), "train".to_string()));
    let stranger = pod("stranger", PodPhase::Running, true, 0, None, &[]);
    let job = gpu_job(None, 1, 1);
    let mine = gpu_job::owned_pods(vec![owned, stranger, done], &job);
    assert_eq!(mine.len(), 2);
    let active = gpu_job::active_pods(mine);
    assert_eq!(active.len(), 1);
    assert_eq!(active[0].metadata.name, "owned");
}

#[test]
fn slurm_script_lists_the_settings_then_the_script() {
    let job = gpu_job(None, 1, 1);
    let expected = "#!/bin/bash\n\n#SBATCH --job-name=train\n#SBATCH --partition=dgx2\n#SBATCH --output=%j.out\n#SBATCH --error=%j.err\n#SBATCH -N 1\n#SBATCH --ntasks-per-node=1\n#SBATCH --cpus-per-task=6\n#SBATCH --gres=gpu:1\nulimit -s unlimited\n./run\n";
    assert_eq!(gpu_job::slurm_script(&job), expected);
    assert_eq!(gpu_job::job_filename(&job), Ok("code.zip".to_string()));
}

#[test]
fn dockerfile_names_image_code_and_settings() {
    let text = gpu_job::dockerfile("base:latest", "u", "p", "train", "code.zip", "make");
    assert_eq!(
        text,
        "FROM base:latest\nCOPY . /code/\nENV USERNAME=u PASSWORD=p JOB_NAME=train\nENV CODE_FILE_NAME=code.zip COMPILE_SCRIPT=make\n"
    );
}

fn service(selector: &[(&str, &str)], endpoints: Vec<Ipv4Addr>) -> Service {
    let mut l = Labels::new();
    for (k, v) in selector {
        l.insert(k, v);
    }
    Service {
        metadata: metadata("svc", &[]),
        spec: ServiceSpec { selector: l, ports: Vec::new(), endpoints, cluster_ip: None },
    }
}

fn pod_store(pods: Vec<Pod>) -> Store<Pod> {
    let mut store = Store::new();
    for p in pods {
        store.insert(format!("/api/v1/pods/{}", p.metadata.name), p);
    }
    store
}

fn service_store(services: Vec<Service>) -> Store<Service> {
    let mut store = Store::new();
    for (i, s) in services.into_iter().enumerate() {
        store.insert(format!("/api/v1/services/s{}", i), s);
    }
    store
}

#[test]
fn endpoints_follow_pods_the_service_selects() {
    let ip = Ipv4Addr::new(10, 0, 0, 1);
    let p = pod("p", PodPhase::Running, true, 0, Some(ip), &[("app", "web")]);
    let mut svc = service(&[("app", "web")], Vec::new());
    assert!(add_endpoint(&mut svc, &p));
    assert_eq!(svc.spec.endpoints, vec![ip]);
    assert!(!add_endpoint(&mut svc, &p));
    assert_eq!(svc.spec.endpoints, vec![ip]);
    assert!(del_endpoint(&mut svc, &p));
    assert_eq!(svc.spec.endpoints, Vec::<Ipv4Addr>::new());
    assert!(!del_endpoint(&mut svc, &p));
    let no_ip = pod("q", PodPhase::Pending, false, 0, None, &[("app", "web")]);
    assert!(!add_endpoint(&mut svc, &no_ip));
    let other = pod("r", PodPhase::Running, true, 0, Some(ip), &[("app", "db")]);
    assert!(!add_endpoint(&mut svc, &other));
}

#[test]
fn resync_sets_the_endpoints_to_the_selected_addresses() {
    let a = Ipv4Addr::new(10, 0, 0, 1);
    let b = Ipv4Addr::new(10, 0, 0, 2);
    let pods = pod_store(vec![
        pod("a", PodPhase::Running, true, 0, Some(a), &[("app", "web")]),
        pod("b", PodPhase::Running, true, 0, Some(b), &[("app", "web")]),
        pod("c", PodPhase::Running, true, 0, Some(a), &[("app", "web")]),
    ]);
    let mut svc = service(&[("app", "web")], vec![Ipv4Addr::new(10, 0, 0, 9)]);
    assert!(resync_endpoints(&mut svc, &pods));
    assert_eq!(svc.spec.endpoints, vec![a, b]);
    let mut same = service(&[("app", "web")], vec![b, a]);
    assert!(!resync_endpoints(&mut same, &pods));
    assert_eq!(same.spec.endpoints, vec![b, a]);
}

#[test]
fn add_endpoints_appends_every_selected_address() {
    let a = Ipv4Addr::new(10, 0, 0, 1);
    let pods = pod_store(vec![
        pod("a", PodPhase::Running, true, 0, Some(a), &[("app", "web")]),
        pod("b", PodPhase::Running, true, 0, Some(a), &[("app", "web")]),
    ]);
    let mut svc = service(&[("app", "web")], vec![a]);
    assert!(add_enpoints(&mut svc, &pods));
    assert_eq!(svc.spec.endpoints, vec![a, a, a]);
    let mut none = service(&[("app", "db")], Vec::new());
    assert!(!add_enpoints(&mut none, &pods));
}

#[test]
fn resync_services_reports_the_services_that_changed() {
    let a = Ipv4Addr::new(10, 0, 0, 1);
    let pods = pod_store(vec![pod("a", PodPhase::Running, true, 0, Some(a), &[("app", "web")])]);
    let mut services = service_store(vec![
        service(&[("app", "web")], vec![a]),
        service(&[("app", "web")], Vec::new()),
        service(&[("app", "db")], vec![a]),
    ]);
    assert_eq!(resync_services(&mut services, &pods), vec![1, 2]);
    assert_eq!(services.value_at(1).spec.endpoints, vec![a]);
    assert_eq!(services.value_at(2).spec.endpoints, Vec::<Ipv4Addr>::new());
}

#[test]
fn notifications_move_pod_addresses_between_services() {
    let a = Ipv4Addr::new(10, 0, 0, 1);
    let b = Ipv4Addr::new(10, 0, 0, 2);
    let pods = pod_store(Vec::new());
    let mut services = service_store(vec![
        service(&[("app", "web")], Vec::new()),
        service(&[("app", "db")], Vec::new()),
    ]);
    let web_a = pod("p", PodPhase::Running, true, 0, Some(a), &[("app", "web")]);
    let (changed, added) = handle_notification(&pods, &mut services, Notification::Pod(PodNtf::Add(web_a.clone())));
    assert_eq!(changed, vec![0]);
    assert!(added.is_none());
    assert_eq!(services.value_at(0).spec.endpoints, vec![a]);
    let same = pod("p", PodPhase::Succeeded, true, 0, Some(a), &[("app", "web")]);
    let (changed, _) =
        handle_notification(&pods, &mut services, Notification::Pod(PodNtf::Update(web_a.clone(), same)));
    assert!(changed.is_empty());
    let web_b = pod("p", PodPhase::Running, true, 0, Some(b), &[("app", "web")]);
    let (changed, _) =
        handle_notification(&pods, &mut services, Notification::Pod(PodNtf::Update(web_a, web_b.clone())));
    assert_eq!(changed, vec![0, 0]);
    assert_eq!(services.value_at(0).spec.endpoints, vec![b]);
    let (changed, _) = handle_notification(&pods, &mut services, Notification::Pod(PodNtf::Delete(web_b)));
    assert_eq!(changed, vec![0]);
    assert_eq!(services.value_at(0).spec.endpoints, Vec::<Ipv4Addr>::new());
}

#[test]
fn a_new_service_gets_the_addresses_of_its_pods() {
    let a = Ipv4Addr::new(10, 0, 0, 1);
    let pods = pod_store(vec![
        pod("a", PodPhase::Running, true, 0, Some(a), &[("app", "web")]),
        pod("b", PodPhase::Pending, false, 0, None, &[("app", "web")]),
    ]);
    let mut services = service_store(Vec::new());
    let (changed, added) = handle_notification(
        &pods,
        &mut services,
        Notification::Service(ServiceNtf::Add(service(&[("app", "web")], Vec::new()))),
    );
    assert!(changed.is_empty());
    assert_eq!(added.unwrap().spec.endpoints, vec![a]);
    let (_, none) = handle_notification(
        &pods,
        &mut services,
        Notification::Service(ServiceNtf::Add(service(&[("app", "db")], Vec::new()))),
    );
    assert!(none.is_none());
}

#[test]
fn unwrapping_objects_gives_their_resource() {
    let mut object = KubeObject { metadata: metadata("rs", &[]), resource: KubeResource::ReplicaSet(replica_set("rs", 2, None)) };
    assert_eq!(unwrap_rs(&object).spec.replicas, 2);
    unwrap_rs_mut(&mut object).spec.replicas = 5;
    assert_eq!(unwrap_rs(&object).spec.replicas, 5);
    let pod_object = KubeObject {
        metadata: metadata("p", &[]),
        resource: KubeResource::Pod(pod("p", PodPhase::Running, true, 0, None, &[])),
    };
    assert_eq!(unwrap_pod(&pod_object).metadata.name, "p");
}
