use minik8s::api_server::handlers::{
    bind_pod, check_object_kind, claim_service_ip, classify_field, eq_ignore_ascii_case, gen_rand_host,
    get_value_str, kv_to_str, objects_of_kind, poll_step, prepare_function, unique_name, validate_workflow,
    BindError, EtcdError, FieldKind, PollAction, WorkflowError,
};
use minik8s::api_server::handlers::{bind, bind_keys, code_file_name, function_dependents, image_timeout, watch_event, StoreEventType};
use minik8s::config::ClusterConfig;
use minik8s::models::etcd::{DeleteEvent, PutEvent, WatchEvent};
use minik8s::api_server::metrics::{
    add_scrape_target, gather_pod_metrics, get_names, get_selector_str, query_selector, remove_scrape_target,
    ListQuery, PromConfig, PromGlobalConfig, PromScrapeConfig, PromStaticConfig, Sample, SampleError,
};
use minik8s::keyed::KeyedMap;
use minik8s::models::ErrResponse;
use minik8s::net::Ipv4Addr;
use minik8s::objects::binding::Binding;
use minik8s::objects::function::{Function, FunctionSpec, FunctionStatus};
use minik8s::objects::hpa::{default_metrics, HorizontalPodAutoscalerBehavior};
use minik8s::objects::metrics::{ContainerMetrics, ResourceUsage};
use minik8s::objects::node::{Node, NodeStatus};
use minik8s::objects::object_reference::ObjectReference;
use minik8s::objects::pod::{Pod, PodConditionType, PodConditions, PodPhase, PodSpec, PodStatus, RestartPolicy};
use minik8s::objects::workflow::{Choice, ChoiceRule, Comparison, State, Task, Workflow, WorkflowSpec};
use minik8s::objects::{KubeObject, KubeResource, Labels, Metadata};

fn metadata(name: &str) -> Metadata {
    Metadata { name: name.to_string(), uid: None, labels: Labels::new(), owner_references: Vec::new() }
}

fn config() -> PromConfig {
    PromConfig {
        global: PromGlobalConfig { scrape_interval: Some("15s".to_string()), external_labels: KeyedMap::new() },
        scrape_configs: vec![PromScrapeConfig {
            job_name: "pods".to_string(),
            scrape_interval: None,
            static_configs: vec![PromStaticConfig { targets: vec!["10.0.0.1:9100".to_string()] }],
        }],
    }
}

#[test]
fn adding_a_target_to_a_job_keeps_it_once() {
    let mut c = config();
    add_scrape_target(&mut c, "pods", "10.0.0.2:9100".to_string());
    assert_eq!(c.scrape_configs[0].static_configs[0].targets, vec!["10.0.0.1:9100", "10.0.0.2:9100"]);
    add_scrape_target(&mut c, "pods", "10.0.0.2:9100".to_string());
    assert_eq!(c.scrape_configs[0].static_configs[0].targets.len(), 2);
}

#[test]
fn adding_a_target_to_a_new_job_creates_it() {
    let mut c = config();
    add_scrape_target(&mut c, "functions", "10.0.0.3:80".to_string());
    assert_eq!(c.scrape_configs.len(), 2);
    assert_eq!(c.scrape_configs[1].job_name, "functions");
    assert_eq!(c.scrape_configs[1].scrape_interval, Some("15s".to_string()));
    assert_eq!(c.scrape_configs[1].static_configs[0].targets, vec!["10.0.0.3:80"]);
}

#[test]
fn removing_a_target_undoes_adding_it() {
    let mut c = config();
    let before = config();
    add_scrape_target(&mut c, "pods", "10.0.0.2:9100".to_string());
    remove_scrape_target(&mut c, "pods", "10.0.0.2:9100");
    assert_eq!(c, before);
    remove_scrape_target(&mut c, "pods", "absent");
    assert_eq!(c, before);
    remove_scrape_target(&mut c, "nojob", "10.0.0.1:9100");
    assert_eq!(c, before);
}

#[test]
fn selector_query_text() {
    let mut selector = Labels::new();
    assert_eq!(get_selector_str(&selector), "");
    selector.insert("app", "web").insert("env", "prod");
    assert_eq!(
        get_selector_str(&selector),
        "container_label_app=\"web\",container_label_env=\"prod\","
    );
}

#[test]
fn query_selector_parses_or_fails() {
    let q = ListQuery { selector: Some("app=web".to_string()) };
    assert_eq!(query_selector(&q).unwrap().get("app"), Some("web".to_string()));
    assert_eq!(query_selector(&ListQuery { selector: None }).unwrap().len(), 0);
    let err = query_selector(&ListQuery { selector: Some("app".to_string()) }).unwrap_err();
    assert_eq!(err.msg, "Failed to get metrics");
    assert_eq!(err.cause, Some("Failed to parse selector".to_string()));
}

fn sample(container: &str, pod: &str, value: Option<i64>) -> Sample {
    let mut labels = KeyedMap::new();
    labels.insert("container_label_minik8s_container_name".to_string(), container.to_string());
    labels.insert("container_label_minik8s_pod_name".to_string(), pod.to_string());
    Sample { labels, value }
}

#[test]
fn samples_gather_by_pod_and_container() {
    let mut unnamed = KeyedMap::new();
    unnamed.insert("other".to_string(), "x".to_string());
    let cpu = vec![
        sample("c1", "p1", Some(250)),
        sample("c2", "p1", Some(100)),
        Sample { labels: unnamed, value: None },
        sample("c1", "p2", Some(5)),
    ];
    let memory = vec![sample("c1", "p1", Some(1024)), sample("c9", "p3", Some(7))];
    let metrics = gather_pod_metrics(&cpu, &memory, 42).unwrap();
    assert_eq!(metrics.len(), 3);
    assert_eq!(metrics[0].name, "p1");
    assert_eq!(metrics[0].timestamp, 42);
    assert_eq!(metrics[0].window, 60);
    assert_eq!(
        metrics[0].containers,
        vec![
            ContainerMetrics { name: "c1".to_string(), usage: ResourceUsage { cpu: Some(250), memory: Some(1024) } },
            ContainerMetrics { name: "c2".to_string(), usage: ResourceUsage { cpu: Some(100), memory: None } },
        ]
    );
    assert_eq!(metrics[2].containers[0].usage, ResourceUsage { cpu: None, memory: Some(7) });
    let bad = vec![sample("c1", "p1", None)];
    assert_eq!(gather_pod_metrics(&bad, &Vec::new(), 0), Err(SampleError::BadValue));
    assert_eq!(get_names(&sample("c", "p", None).labels), Some(("c".to_string(), "p".to_string())));
}

#[test]
fn ascii_case_is_ignored_when_comparing_kinds() {
    assert!(eq_ignore_ascii_case("ReplicaSet", "replicaset"));
    assert!(!eq_ignore_ascii_case("pod", "pods"));
    assert!(!eq_ignore_ascii_case("pod", "nod"));
}

fn pod_object(name: &str) -> KubeObject {
    let pod = Pod {
        metadata: metadata(name),
        spec: PodSpec {
            containers: Vec::new(),
            volumes: Vec::new(),
            restart_policy: RestartPolicy::Always,
            host_network: false,
            node_name: None,
        },
        status: Some(PodStatus {
            host_ip: None,
            start_time: 0,
            phase: PodPhase::Pending,
            pod_ip: None,
            conditions: PodConditions { containers_ready: None, initialized: None, pod_scheduled: None, ready: None },
            container_statuses: Vec::new(),
        }),
    };
    KubeObject { metadata: metadata(name), resource: KubeResource::Pod(pod) }
}

#[test]
fn object_kinds_are_checked() {
    let pod = pod_object("a");
    assert_eq!(check_object_kind(&pod, Some("Pod")), Ok(()));
    assert_eq!(check_object_kind(&pod, None), Ok(()));
    assert_eq!(check_object_kind(&pod, Some("node")).unwrap_err().msg, "get object type error");
    let listed = objects_of_kind(vec![pod_object("a"), pod_object("b")], Some("pod")).unwrap();
    assert_eq!(listed.len(), 2);
    assert_eq!(objects_of_kind(vec![pod_object("a")], None).unwrap().len(), 0);
    let err = objects_of_kind(vec![pod_object("a")], Some("node")).unwrap_err();
    assert_eq!(err.msg, "There are some errors with the kind of objects");
    assert_eq!(err.cause, Some("expected: node, found: pod".to_string()));
}

#[test]
fn store_values_decode_or_fail() {
    assert_eq!(kv_to_str(&b"k".to_vec(), &b"v".to_vec()), Ok(("k".to_string(), "v".to_string())));
    let err = kv_to_str(&vec![0xff], &b"v".to_vec()).unwrap_err();
    assert_eq!(err.msg, "Failed to convert key to String");
    assert!(err.cause.is_some());
    let err = kv_to_str(&b"k".to_vec(), &vec![0xc3]).unwrap_err();
    assert_eq!(err.msg, "Failed to convert value to String");
    assert_eq!(get_value_str(&vec![(b"k".to_vec(), b"{}".to_vec())]), Ok("{}".to_string()));
    let missing = get_value_str(&Vec::new()).unwrap_err();
    assert_eq!(missing.status, 404);
    assert_eq!(missing.msg, "value doesn't exist");
    let bad = get_value_str(&vec![(vec![0xff], Vec::new())]).unwrap_err();
    assert_eq!(bad.msg, "Etcd Error");
    assert_eq!(bad.cause, None);
    let converted: ErrResponse = EtcdError::new("x".to_string(), Some("y".to_string())).into();
    assert_eq!(converted.msg, "Etcd Error");
    assert_eq!(converted.cause, None);
}

#[test]
fn generated_names_have_a_random_suffix() {
    let name = unique_name("func-hello");
    assert!(name.starts_with("func-hello-"));
    assert_eq!(name.len(), "func-hello".len() + 6);
    assert!(name[11..].chars().all(|c| c.is_ascii_lowercase() || c.is_ascii_digit()));
    let host = gen_rand_host();
    assert!(host.ends_with(".minik8s.com"));
    assert_eq!(host.len(), 17);
}

#[test]
fn service_addresses_are_taken_once() {
    let mut pool = Vec::new();
    let ip = Ipv4Addr::new(172, 16, 0, 1);
    assert!(claim_service_ip(&mut pool, ip));
    assert!(!claim_service_ip(&mut pool, ip));
    assert_eq!(pool, vec![ip]);
}

#[test]
fn binding_schedules_the_pod_on_the_node() {
    let binding = Binding { metadata: metadata("a"), target: ObjectReference::new("Node".to_string(), "n1".to_string()) };
    let mut status = NodeStatus::default();
    status.addresses.internal_ip = Some("192.168.1.5".to_string());
    let node = KubeObject { metadata: metadata("n1"), resource: KubeResource::Node(Node { metadata: metadata("n1"), status }) };
    let bound = bind_pod(&binding, &node, pod_object("a")).unwrap();
    match bound.resource {
        KubeResource::Pod(pod) => {
            assert_eq!(pod.spec.node_name, Some("n1".to_string()));
            let st = pod.status.unwrap();
            assert_eq!(st.host_ip, Some("192.168.1.5".to_string()));
            assert_eq!(st.conditions.get(PodConditionType::PodScheduled).map(|c| c.status), Some(true));
        },
        _ => panic!("expected a pod"),
    }
    assert_eq!(bind_pod(&binding, &pod_object("x"), pod_object("a")), Err(BindError::NotNode));
    assert_eq!(bind_pod(&binding, &node, node.clone()), Err(BindError::NotPod));
}

fn workflow(states: Vec<(&str, State)>) -> Workflow {
    let mut map = KeyedMap::new();
    for (k, s) in states {
        map.insert(k.to_string(), s);
    }
    Workflow {
        metadata: metadata("wf"),
        spec: WorkflowSpec { start_at: "a".to_string(), states: map },
        status: None,
    }
}

#[test]
fn workflows_need_their_functions_and_states() {
    let task = |f: &str, next: Option<&str>| State::Task(Task { resource: f.to_string(), next: next.map(|s| s.to_string()) });
    let functions = vec!["f1".to_string(), "f2".to_string()];
    let ok = workflow(vec![("a", task("f1", Some("b"))), ("b", task("f2", None))]);
    assert_eq!(validate_workflow(&ok, &functions), Ok(()));
    let no_fn = workflow(vec![("a", task("f3", None))]);
    assert_eq!(validate_workflow(&no_fn, &functions), Err(WorkflowError::MissingFunction("f3".to_string())));
    let no_state = workflow(vec![("a", task("f1", Some("z")))]);
    assert_eq!(validate_workflow(&no_state, &functions), Err(WorkflowError::MissingState("z".to_string())));
    let choice = State::Choice(Choice { rules: Vec::new(), default: "nowhere".to_string() });
    assert_eq!(validate_workflow(&workflow(vec![("a", choice)]), &functions), Ok(()));
}

#[test]
fn choice_rules_compare_json_fields() {
    let equals = ChoiceRule {
        comparison: Comparison::FieldEquals { field: "kind".to_string(), content: "cat".to_string() },
        next: "n".to_string(),
    };
    assert!(equals.match_with(r#"{"kind": "cat"}"#));
    assert!(!equals.match_with(r#"{"kind": "dog"}"#));
    assert!(!equals.match_with(r#"{"kind": 3}"#));
    assert!(!equals.match_with(r#"{}"#));
    let num = ChoiceRule {
        comparison: Comparison::FieldNumEquals { field: "n".to_string(), content: 3 },
        next: "n".to_string(),
    };
    assert!(num.match_with(r#"{"n": 3}"#));
    assert!(!num.match_with(r#"{"n": 3.5}"#));
    assert!(!num.match_with(r#"{"n": "3"}"#));
    assert_eq!(num.try_match_with("not json"), None);
    assert_eq!(num.try_match_with("[1]"), None);
}

#[test]
fn function_fields_and_polls() {
    assert_eq!(classify_field("function"), FieldKind::Function);
    assert_eq!(classify_field("code"), FieldKind::Code);
    assert_eq!(classify_field("other"), FieldKind::Other);
    let pending = KubeObject {
        metadata: metadata("f"),
        resource: KubeResource::Function(Function {
            metadata: metadata("f"),
            spec: FunctionSpec { max_replicas: 1, behavior: HorizontalPodAutoscalerBehavior::default(), metrics: default_metrics() },
            status: Some(FunctionStatus { service_ref: String::new(), filename: String::new(), host: String::new(), image: None }),
        }),
    };
    assert_eq!(poll_step(0, &pending), PollAction::Wait);
    assert_eq!(poll_step(60, &pending), PollAction::TimedOut);
    let mut ready = pending.clone();
    if let KubeResource::Function(f) = &mut ready.resource {
        f.status.as_mut().unwrap().image = Some("img".to_string());
    }
    assert_eq!(poll_step(60, &ready), PollAction::Done);
}

#[test]
fn new_functions_get_a_service_and_a_status() {
    let function = KubeObject {
        metadata: metadata("hello"),
        resource: KubeResource::Function(Function {
            metadata: metadata("hello"),
            spec: FunctionSpec { max_replicas: 1, behavior: HorizontalPodAutoscalerBehavior::default(), metrics: default_metrics() },
            status: None,
        }),
    };
    let ip = Ipv4Addr::new(172, 20, 1, 2);
    let (svc, f) = prepare_function(Some(function.clone()), Some("code.zip".to_string()), ip).unwrap();
    match (&svc.resource, &f.resource) {
        (KubeResource::Service(s), KubeResource::Function(func)) => {
            assert!(s.metadata.name.starts_with("func-hello-"));
            assert_eq!(s.spec.cluster_ip, Some(ip));
            let status = func.status.as_ref().unwrap();
            assert_eq!(status.filename, "code.zip");
            assert_eq!(status.service_ref, format!("/api/v1/services/{}", s.metadata.name));
            assert_eq!(status.host, "hello.func.minik8s.com");
        },
        _ => panic!("expected a service and a function"),
    }
    assert_eq!(prepare_function(None, None, ip).unwrap_err().status, 400);
    assert_eq!(prepare_function(Some(function), None, ip).unwrap_err().msg, "Code field is not presented");
    let err = prepare_function(Some(pod_object("p")), Some("c.zip".to_string()), ip).unwrap_err();
    assert_eq!(err.cause, Some("Expecting function kind, got pod".to_string()));
}

#[test]
fn store_changes_become_watch_events() {
    assert_eq!(
        watch_event::<u32>(StoreEventType::Delete, &b"/api/v1/pods/a".to_vec(), None),
        Ok(WatchEvent::Delete(DeleteEvent { key: "/api/v1/pods/a".to_string() }))
    );
    assert_eq!(
        watch_event(StoreEventType::Put, &b"/api/v1/pods/a".to_vec(), Some(7u32)),
        Ok(WatchEvent::Put(PutEvent { key: "/api/v1/pods/a".to_string(), object: 7 }))
    );
    let err = watch_event::<u32>(StoreEventType::Delete, &vec![0xff], None).unwrap_err();
    assert_eq!(err.msg, "Failed to convert key to String");
}

#[test]
fn objects_are_listed_and_watched_under_the_api() {
    let c = ClusterConfig::default();
    assert_eq!(c.list_url("pods"), "http://localhost:8080/api/v1/pods");
    assert_eq!(c.watch_url("pods"), "ws://localhost:8080/api/v1/watch/pods");
}

#[test]
fn deleting_a_function_deletes_what_it_made() {
    let func = Function {
        metadata: metadata("hello"),
        spec: FunctionSpec { max_replicas: 10, behavior: HorizontalPodAutoscalerBehavior::default(), metrics: default_metrics() },
        status: Some(FunctionStatus {
            service_ref: "/api/v1/services/func-hello-abcde".to_string(),
            filename: "f.zip".to_string(),
            host: "hello.func.minik8s.com".to_string(),
            image: None,
        }),
    };
    let object = KubeObject { metadata: metadata("hello"), resource: KubeResource::Function(func) };
    assert_eq!(
        function_dependents(&object, "hello"),
        vec![
            "/api/v1/services/func-hello-abcde".to_string(),
            "/api/v1/replicasets/hello".to_string(),
            "/api/v1/horizontalpodautoscalers/hello".to_string(),
        ]
    );
    assert!(function_dependents(&pod_object("hello"), "hello").is_empty());
    let e = image_timeout("hello");
    assert_eq!(e.msg, "Image creation for function hello timed out");
}

#[test]
fn only_zip_archives_are_accepted_as_code() {
    assert_eq!(code_file_name(Some("code.zip".to_string())), Ok("code.zip".to_string()));
    let e = code_file_name(Some("code.tar".to_string())).unwrap_err();
    assert_eq!((e.msg.as_str(), e.status), ("Please upload a zip file", 400));
    assert!(code_file_name(None).is_err());
}

#[test]
fn binding_replies_name_the_kind_at_fault() {
    let binding = Binding { metadata: metadata("a"), target: ObjectReference::new("Node".to_string(), "n1".to_string()) };
    let payload = KubeObject { metadata: metadata("a"), resource: KubeResource::Binding(binding.clone()) };
    assert_eq!(bind_keys(&binding), ("/api/v1/nodes/n1".to_string(), "/api/v1/pods/a".to_string()));
    let mut status = NodeStatus::default();
    status.addresses.internal_ip = Some("192.168.1.5".to_string());
    let node = KubeObject { metadata: metadata("n1"), resource: KubeResource::Node(Node { metadata: metadata("n1"), status }) };
    let (pod, reply) = bind(&payload, &node, pod_object("a")).unwrap();
    assert_eq!(reply.msg, Some("bind successfully".to_string()));
    match pod.resource {
        KubeResource::Pod(p) => assert_eq!(p.spec.node_name, Some("n1".to_string())),
        _ => panic!("expected a pod"),
    }
    let e = bind(&pod_object("x"), &node, pod_object("a")).unwrap_err();
    assert_eq!(e.msg, "bind error");
    assert_eq!(e.cause, Some("the kind of payload: pod, which is not binding".to_string()));
    let e = bind(&payload, &pod_object("x"), pod_object("a")).unwrap_err();
    assert_eq!(e.cause, Some("Expecting bind target to be node kind, got pod".to_string()));
    let e = bind(&payload, &node, node.clone()).unwrap_err();
    assert_eq!(e.cause, Some("the kind of object: node, which is not pod".to_string()));
}
