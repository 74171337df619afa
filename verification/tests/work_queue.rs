use minik8s::controllers::function::{code_url, function_to_build, image_tag, with_image};
use minik8s::controllers::podautoscaler::queue::{enqueue_hpa, handle_resync, take_work_item, InQueue, WorkAction};
use minik8s::controllers::replica_set::{get_pods, ControllerError};
use minik8s::informer::ReflectorNotification;
use minik8s::objects::function::{Function, FunctionSpec, FunctionStatus};
use minik8s::objects::hpa::{default_metrics, HorizontalPodAutoscalerBehavior};
use minik8s::objects::pod::{Pod, PodSpec, PodTemplateSpec, RestartPolicy};
use minik8s::objects::replica_set::{ReplicaSet, ReplicaSetSpec};
use minik8s::objects::{Labels, Metadata};

fn names(v: &[&str]) -> Vec<String> {
    v.iter().map(|s| s.to_string()).collect()
}

#[test]
fn resync_schedules_each_waiting_autoscaler_once() {
    let mut queue = InQueue::new();
    queue.insert("a");
    assert!(queue.contains("a"));
    assert!(!enqueue_hpa(&queue, "a"));
    assert!(enqueue_hpa(&queue, "b"));
    let scheduled = handle_resync(&mut queue, &names(&["a", "b", "c", "b"]));
    assert_eq!(scheduled, names(&["b", "c"]));
    assert!(queue.contains("b") && queue.contains("c"));
    assert!(handle_resync(&mut queue, &names(&["a", "b"])).is_empty());
    queue.remove("b");
    assert!(!queue.contains("b"));
    assert!(queue.contains("a"));
    assert_eq!(handle_resync(&mut queue, &names(&["b"])), names(&["b"]));
}

fn labels(pairs: &[(&str, &str)]) -> Labels {
    let mut l = Labels::new();
    for (k, v) in pairs {
        l.insert(k, v);
    }
    l
}

fn metadata(name: &str, l: Labels) -> Metadata {
    Metadata { name: name.to_string(), uid: None, labels: l, owner_references: Vec::new() }
}

fn spec() -> PodSpec {
    PodSpec { containers: Vec::new(), volumes: Vec::new(), restart_policy: RestartPolicy::Always, host_network: false, node_name: None }
}

#[test]
fn a_replica_set_selects_pods_by_their_labels() {
    let rs = ReplicaSet {
        metadata: metadata("rs", Labels::new()),
        spec: ReplicaSetSpec {
            selector: labels(&[("app", "web")]),
            template: PodTemplateSpec { metadata: metadata("t", Labels::new()), spec: spec() },
            replicas: 1,
        },
        status: None,
    };
    let pods = vec![
        Pod { metadata: metadata("a", labels(&[("app", "web"), ("tier", "1")])), spec: spec(), status: None },
        Pod { metadata: metadata("b", labels(&[("app", "db")])), spec: spec(), status: None },
        Pod { metadata: metadata("c", labels(&[("app", "web")])), spec: spec(), status: None },
    ];
    let selected: Vec<String> = get_pods(pods, &rs).into_iter().map(|p| p.metadata.name).collect();
    assert_eq!(selected, names(&["a", "c"]));
}

fn function(status: Option<FunctionStatus>) -> Function {
    Function {
        metadata: metadata("hello", Labels::new()),
        spec: FunctionSpec { max_replicas: 10, behavior: HorizontalPodAutoscalerBehavior::default(), metrics: default_metrics() },
        status,
    }
}

#[test]
fn new_functions_get_an_image_in_the_registry() {
    assert!(function_to_build(ReflectorNotification::Add(function(None))).is_some());
    assert!(function_to_build(ReflectorNotification::Delete(function(None))).is_none());
    assert_eq!(code_url("http://localhost:8080", "f.zip"), "http://localhost:8080/api/v1/tmp/f.zip");
    let tag = image_tag("hello");
    assert_eq!(tag, "minik8s.xyz/hello");
    let status = FunctionStatus {
        service_ref: "/api/v1/services/func-hello-abcde".to_string(),
        filename: "f.zip".to_string(),
        host: "hello.func.minik8s.com".to_string(),
        image: None,
    };
    let built = with_image(function(Some(status)), tag).unwrap();
    assert_eq!(built.status.unwrap().image, Some("minik8s.xyz/hello".to_string()));
    assert_eq!(with_image(function(None), "x".to_string()), Err(ControllerError::MissingStatus));
}

#[test]
fn work_items_are_reconciled_or_forgotten() {
    let mut queue = InQueue::new();
    queue.insert("a");
    queue.insert("b");
    assert_eq!(take_work_item(&mut queue, "a", true), WorkAction::Reconcile);
    assert!(!queue.contains("a"));
    assert!(enqueue_hpa(&queue, "a"));
    assert_eq!(take_work_item(&mut queue, "b", false), WorkAction::Forget);
    assert!(!queue.contains("b"));
}
