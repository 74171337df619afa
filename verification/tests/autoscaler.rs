use minik8s::controllers::podautoscaler::horizontal::{
    PodAutoscaler, ReconcileOutcome, ReconcilePlan, ScaleEvent, HpaError,
};
use minik8s::controllers::podautoscaler::replica_calculator::{
    calc_function_replicas, calc_replicas_by_utilization, calc_replicas_by_value, get_resource_metric_value,
    select_pods, CalcError,
};
use minik8s::keyed::KeyedMap;
use minik8s::objects::hpa::{
    default_metrics, default_scale_up_behavior, HorizontalPodAutoscaler, HorizontalPodAutoscalerBehavior,
    HorizontalPodAutoscalerSpec, HorizontalPodAutoscalerStatus,
};
use minik8s::objects::metrics::{ContainerMetrics, PodMetric, PodMetrics, Resource, ResourceUsage};
use minik8s::objects::object_reference::ObjectReference;
use minik8s::objects::pod::{
    Container, Pod, PodCondition, PodConditions, PodPhase, PodSpec, PodStatus, ResourceRequirements,
    RestartPolicy,
};
use minik8s::objects::pod;
use minik8s::objects::{Labels, Metadata};

fn pod_with(name: &str, cpu_request: i64, status: Option<(PodPhase, bool)>, labels: &[(&str, &str)]) -> Pod {
    let mut l = Labels::new();
    for (k, v) in labels {
        l.insert(k, v);
    }
    let container = Container {
        name: "c".to_string(),
        image: "nginx".to_string(),
        image_pull_policy: None,
        command: Vec::new(),
        ports: Vec::new(),
        volume_mounts: Vec::new(),
        resources: ResourceRequirements {
            limits: pod::Resource { cpu: 0, memory: 0 },
            requests: pod::Resource { cpu: cpu_request, memory: 0 },
        },
    };
    Pod {
        metadata: Metadata { name: name.to_string(), uid: None, labels: l, owner_references: Vec::new() },
        spec: PodSpec {
            containers: vec![container],
            volumes: Vec::new(),
            restart_policy: RestartPolicy::Always,
            host_network: false,
            node_name: None,
        },
        status: status.map(|(phase, ready)| PodStatus {
            host_ip: None,
            start_time: 0,
            phase,
            pod_ip: None,
            conditions: PodConditions {
                containers_ready: None,
                initialized: None,
                pod_scheduled: None,
                ready: Some(PodCondition { status: ready }),
            },
            container_statuses: Vec::new(),
        }),
    }
}

fn metrics(values: &[(&str, i64)]) -> KeyedMap<PodMetric> {
    let mut m = KeyedMap::new();
    for (name, v) in values {
        m.insert(name.to_string(), PodMetric { timestamp: 0, window: 60, value: *v });
    }
    m
}

#[test]
fn utilization_above_target_scales_up_in_proportion() {
    let pods = vec![
        pod_with("a", 100, Some((PodPhase::Running, true)), &[]),
        pod_with("b", 100, Some((PodPhase::Running, true)), &[]),
    ];
    let m = metrics(&[("a", 100), ("b", 100)]);
    assert_eq!(calc_replicas_by_utilization(2, 50, &Resource::CPU, m, &pods, 0), Ok(4));
}

#[test]
fn rounding_up_is_exact() {
    let pods = vec![
        pod_with("a", 100, Some((PodPhase::Running, true)), &[]),
        pod_with("b", 100, Some((PodPhase::Running, true)), &[]),
    ];
    // 110% of a 100% target over 2 pods: 2.2 replicas, rounded up to 3.
    let m = metrics(&[("a", 110), ("b", 110)]);
    assert_eq!(calc_replicas_by_utilization(2, 100, &Resource::CPU, m, &pods, 0), Ok(3));
}

#[test]
fn unmeasured_pods_count_as_idle_when_scaling_up() {
    let pods = vec![
        pod_with("a", 100, Some((PodPhase::Running, true)), &[]),
        pod_with("b", 100, Some((PodPhase::Running, true)), &[]),
    ];
    let m = metrics(&[("a", 100)]);
    assert_eq!(calc_replicas_by_utilization(2, 50, &Resource::CPU, m, &pods, 0), Ok(2));
}

#[test]
fn utilization_errors() {
    let m = metrics(&[("a", 100)]);
    assert_eq!(calc_replicas_by_utilization(2, 50, &Resource::CPU, m, &Vec::new(), 0), Err(CalcError::NoPods));
    let pods = vec![pod_with("a", 100, None, &[])];
    let m = metrics(&[("a", 100)]);
    assert_eq!(
        calc_replicas_by_utilization(2, 50, &Resource::CPU, m, &pods, 0),
        Err(CalcError::MissingStatus("a".to_string()))
    );
}

#[test]
fn value_target_scales_with_the_average() {
    let pods = vec![
        pod_with("a", 100, Some((PodPhase::Running, true)), &[]),
        pod_with("b", 100, Some((PodPhase::Running, true)), &[]),
    ];
    let m = metrics(&[("a", 100), ("b", 100)]);
    assert_eq!(calc_replicas_by_value(2, 50, m, &pods, 0), Ok(4));
    let unready = vec![pod_with("a", 100, Some((PodPhase::Running, false)), &[])];
    let m = metrics(&[("a", 100)]);
    assert_eq!(calc_replicas_by_value(1, 50, m, &unready, 0), Err(CalcError::NoMetrics));
}

#[test]
fn function_replicas_follow_the_request_rate() {
    assert_eq!(calc_function_replicas(2, 10, 50), 5);
    assert_eq!(calc_function_replicas(2, 10, 0), 0);
    assert_eq!(calc_function_replicas(2, 0, 50), u32::MAX);
}

#[test]
fn pod_metrics_sum_the_measured_containers() {
    let usage = |cpu: Option<i64>| ResourceUsage { cpu, memory: None };
    let reported = vec![
        PodMetrics {
            name: "a".to_string(),
            timestamp: 5,
            window: 60,
            containers: vec![
                ContainerMetrics { name: "x".to_string(), usage: usage(Some(10)) },
                ContainerMetrics { name: "y".to_string(), usage: usage(Some(20)) },
            ],
        },
        PodMetrics {
            name: "b".to_string(),
            timestamp: 5,
            window: 60,
            containers: vec![
                ContainerMetrics { name: "x".to_string(), usage: usage(Some(7)) },
                ContainerMetrics { name: "y".to_string(), usage: usage(None) },
                ContainerMetrics { name: "z".to_string(), usage: usage(Some(100)) },
            ],
        },
        PodMetrics { name: "c".to_string(), timestamp: 5, window: 60, containers: Vec::new() },
    ];
    let info = get_resource_metric_value(&Resource::CPU, reported).unwrap();
    assert_eq!(info.len(), 2);
    assert_eq!(info.get("a"), Some(&PodMetric { timestamp: 5, window: 60, value: 30 }));
    assert_eq!(info.get("b"), Some(&PodMetric { timestamp: 5, window: 60, value: 7 }));
    assert!(info.get("c").is_none());
    assert_eq!(get_resource_metric_value(&Resource::CPU, Vec::new()).err(), Some(CalcError::NoMetrics));
}

#[test]
fn selected_pods_carry_the_selector_labels() {
    let pods = vec![
        pod_with("a", 1, None, &[("app", "web"), ("env", "prod")]),
        pod_with("b", 1, None, &[("app", "db")]),
    ];
    let mut selector = Labels::new();
    selector.insert("app", "web");
    let selected = select_pods(pods, &selector);
    assert_eq!(selected.len(), 1);
    assert_eq!(selected[0].metadata.name, "a");
}

fn hpa(min: u32, max: u32, status: Option<HorizontalPodAutoscalerStatus>) -> HorizontalPodAutoscaler {
    HorizontalPodAutoscaler {
        metadata: Metadata { name: "h".to_string(), uid: None, labels: Labels::new(), owner_references: Vec::new() },
        spec: HorizontalPodAutoscalerSpec {
            max_replicas: max,
            min_replicas: min,
            scale_target_ref: ObjectReference::new("ReplicaSet".to_string(), "rs".to_string()),
            behavior: HorizontalPodAutoscalerBehavior::default(),
            metrics: default_metrics(),
        },
        status,
    }
}

#[test]
fn observe_plans_by_the_bounds() {
    let status = Some(HorizontalPodAutoscalerStatus { desired_replicas: 2, current_replicas: 2, last_scale_time: None });
    let mut autoscaler = PodAutoscaler::new();
    assert_eq!(autoscaler.observe(&hpa(1, 10, status), 0, 0), Ok(ReconcilePlan::Fixed(0)));
    assert_eq!(autoscaler.observe(&hpa(1, 10, status), 12, 0), Ok(ReconcilePlan::Fixed(10)));
    assert_eq!(autoscaler.observe(&hpa(3, 10, status), 2, 0), Ok(ReconcilePlan::Fixed(3)));
    assert_eq!(autoscaler.observe(&hpa(1, 10, status), 2, 0), Ok(ReconcilePlan::FromMetrics));
    assert_eq!(autoscaler.observe(&hpa(1, 10, None), 2, 0), Err(HpaError::MissingStatus));
}

#[test]
fn conclude_scales_to_a_fixed_count_and_records_the_status() {
    let status = HorizontalPodAutoscalerStatus { desired_replicas: 12, current_replicas: 12, last_scale_time: None };
    let h = hpa(1, 10, Some(status));
    let mut autoscaler = PodAutoscaler::new();
    let plan = autoscaler.observe(&h, 12, 1000).unwrap();
    let outcome = autoscaler.conclude(&h, 12, plan, 0, 1000);
    assert_eq!(
        outcome,
        ReconcileOutcome {
            scale_to: Some(10),
            new_status: Some(HorizontalPodAutoscalerStatus {
                desired_replicas: 10,
                current_replicas: 12,
                last_scale_time: Some(1000),
            }),
        }
    );
    autoscaler.record_scale_event("h", &h.spec.behavior, 12, 10, 1000);
    let quiet = HorizontalPodAutoscalerStatus { desired_replicas: 0, current_replicas: 0, last_scale_time: None };
    let h = hpa(1, 10, Some(quiet));
    let plan = autoscaler.observe(&h, 0, 2000).unwrap();
    assert_eq!(autoscaler.conclude(&h, 0, plan, 0, 2000), ReconcileOutcome { scale_to: None, new_status: None });
}

#[test]
fn scale_up_limit_takes_the_larger_policy() {
    let autoscaler = PodAutoscaler::new();
    let rules = default_scale_up_behavior();
    assert_eq!(autoscaler.calc_scale_up_limit(3, None, &rules, 0), 7);
    let events = vec![ScaleEvent { change: 2, time: 0 }];
    assert_eq!(autoscaler.calc_scale_up_limit(3, Some(&events), &rules, 1000), 5);
    assert_eq!(autoscaler.get_replicas_change_in_period(60, Some(&events), 1000), 2);
    assert_eq!(autoscaler.get_replicas_change_in_period(60, Some(&events), 61_000), 0);
}
