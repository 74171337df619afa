//! The decisions of the API server's create, update and patch requests:
//! which object is stored, and what the client is answered.

use vstd::prelude::*;
use crate::api_server::handlers::unique_name;
use crate::ids::{is_lower_alnum, new_uid};
use crate::models::{ErrResponse, Response, INTERNAL_SERVER_ERROR};
use crate::objects::{KubeObject, KubeResource, Metadata, resource_kind};
use crate::objects::pod::{Pod, PodConditions, PodPhase, PodStatus};
use crate::objects::replica_set::{ReplicaSet, ReplicaSetStatus};
use crate::objects::hpa::{HorizontalPodAutoscaler, HorizontalPodAutoscalerStatus};
use crate::objects::gpu_job::{GpuJob, GpuJobSpec, GpuJobStatus};
use crate::objects::object_reference::ObjectReference;
use crate::objects::object_uri;
use crate::objects::service::{Service, ServiceSpec};
use crate::objects::ingress::{Ingress, IngressRule, IngressSpec};
use crate::objects::node::Node;
use crate::net::Ipv4Addr;
use crate::api_server::handlers::gen_rand_host;
use crate::objects::pod::pod_succeeded;
use crate::text::{decimal, lowercase, push_decimal, push_str};

verus! {

/// The answer to a request that was carried out: `kind/name verb`.
pub open spec fn done_text(kind: Seq<char>, name: Seq<char>, verb: Seq<char>) -> Seq<char> {
    kind + "/"@ + name + " "@ + verb
}

/// The reply to a request that was carried out: `kind/name verb` as its
/// message, and no data.
pub fn done_message(kind: &str, name: &str, verb: &str) -> (r: Response<()>)
    ensures
        r.msg matches Some(m) && m@ == done_text(kind@, name@, verb@),
        r.data is None,
{
    let mut m = crate::text::to_owned_string(kind);
    push_str(&mut m, "/");
    push_str(&mut m, name);
    push_str(&mut m, " ");
    push_str(&mut m, verb);
    Response::new(Some(m), None)
}

/// The cause given when a payload is of the wrong kind.
pub open spec fn expecting_text(what: Seq<char>, got: Seq<char>) -> Seq<char> {
    "Expecting "@ + what + ", got "@ + got
}

/// Whether `e` is the error `msg` for a payload of kind `got` where `what`
/// was expected.
pub open spec fn is_kind_error(e: ErrResponse, msg: Seq<char>, what: Seq<char>, got: Seq<char>) -> bool {
    &&& e.msg@ == msg
    &&& e.cause matches Some(c) && c@ == expecting_text(what, got)
    &&& e.status == INTERNAL_SERVER_ERROR
}

/// The error `msg` for a payload of kind `got` where `what` was expected.
pub fn kind_error(msg: &str, what: &str, got: &str) -> (e: ErrResponse)
    ensures
        is_kind_error(e, msg@, what@, got@),
{
    let mut cause = crate::text::to_owned_string("Expecting ");
    push_str(&mut cause, what);
    push_str(&mut cause, ", got ");
    push_str(&mut cause, got);
    ErrResponse::new(crate::text::to_owned_string(msg), Some(cause))
}

/// Checks that the payload of an update is of the kind `kind`; otherwise
/// the error `msg` that expected `what`.
pub fn require_kind(payload: &KubeObject, kind: &str, msg: &str, what: &str) -> (r: Result<(), ErrResponse>)
    ensures
        r is Ok <==> resource_kind(payload.resource) == kind@,
        r matches Err(e) ==> is_kind_error(e, msg@, what@, resource_kind(payload.resource)),
{
    let got = payload.kind();
    if crate::text::str_eq(got.as_str(), kind) {
        Ok(())
    } else {
        Err(kind_error(msg, what, got.as_str()))
    }
}

/// Whether `r` is `name` made unique: a hyphen and five lowercase letters or
/// digits appended.
pub open spec fn unique_name_of(r: Seq<char>, name: Seq<char>) -> bool {
    &&& r.len() == name.len() + 6
    &&& r.subrange(0, name.len() as int) == name
    &&& r[name.len() as int] == '-'
    &&& forall|i: int| name.len() + 1 <= i < r.len() ==> is_lower_alnum(#[trigger] r[i])
}

/// Whether `s` is the status of a newly created pod whose status was `old`:
/// the old status made pending, or a fresh pending one.
pub open spec fn created_pod_status(old: Option<PodStatus>, s: PodStatus) -> bool {
    match old {
        Some(o) => s == PodStatus { phase: PodPhase::Pending, ..o },
        None => {
            &&& s.host_ip is None
            &&& s.phase == PodPhase::Pending
            &&& s.pod_ip is None
            &&& s.conditions == PodConditions::all_false()
            &&& s.container_statuses@.len() == 0
        },
    }
}

/// The pod to store for a create request: given a fresh identifier and its
/// name made unique (in the object's metadata and in the pod's own), and
/// made pending. Fails when the payload is not a pod.
pub fn create_pod(payload: KubeObject) -> (r: Result<KubeObject, ErrResponse>)
    ensures
        !(payload.resource is Pod) ==> (r matches Err(e) && is_kind_error(
            e,
            "Error creating pod"@,
            "pod kind"@,
            resource_kind(payload.resource),
        )),
        payload.resource matches KubeResource::Pod(pod) ==> (r matches Ok(o) && {
            let name = o.metadata.name;
            let uid = o.metadata.uid;
            &&& uid is Some
            &&& unique_name_of(name@, payload.metadata.name@)
            &&& o.metadata == Metadata { name, uid, ..payload.metadata }
            &&& o.resource matches KubeResource::Pod(p) && p.metadata == Metadata { name, uid, ..pod.metadata }
                && p.spec == pod.spec && (p.status matches Some(s) && created_pod_status(pod.status, s))
        }),
{
    let got = payload.kind();
    let KubeObject { mut metadata, resource } = payload;
    match resource {
        KubeResource::Pod(pod) => {
            let Pod { metadata: mut pod_metadata, spec, status } = pod;
            let uid = new_uid();
            let name = unique_name(metadata.name.as_str());
            metadata.uid = Some(uid);
            pod_metadata.uid = Some(uid);
            pod_metadata.name = name.clone();
            metadata.name = name;
            let status = match status {
                Some(mut s) => {
                    s.phase = PodPhase::Pending;
                    s
                },
                None => PodStatus::default(),
            };
            Ok(KubeObject { metadata, resource: KubeResource::Pod(Pod { metadata: pod_metadata, spec, status: Some(status) }) })
        },
        _ => Err(kind_error("Error creating pod", "pod kind", got.as_str())),
    }
}

/// The replica set to store for a create request: given a fresh identifier
/// and an empty status. Fails when the payload is not a replica set, and
/// when a replica set of that name `exists`.
pub fn create_replica_set(payload: KubeObject, exists: bool) -> (r: Result<KubeObject, ErrResponse>)
    ensures
        !(payload.resource is ReplicaSet) ==> (r matches Err(e) && is_kind_error(
            e,
            "Error creating replicaset"@,
            "replicaset kind"@,
            resource_kind(payload.resource),
        )),
        payload.resource is ReplicaSet && exists ==> (r matches Err(e) && e.msg@ == "Error creating replica set"@
            && (e.cause matches Some(c) && c@ == "Replica set "@ + payload.metadata.name@ + " already exists"@)
            && e.status == INTERNAL_SERVER_ERROR),
        payload.resource matches KubeResource::ReplicaSet(rs) ==> (!exists ==> (r matches Ok(o) && {
            &&& o.metadata.uid is Some
            &&& o.metadata == Metadata { uid: o.metadata.uid, ..payload.metadata }
            &&& o.resource == KubeResource::ReplicaSet(
                ReplicaSet { status: Some(ReplicaSetStatus { replicas: 0, ready_replicas: 0 }), ..rs },
            )
        })),
{
    let got = payload.kind();
    let KubeObject { mut metadata, resource } = payload;
    match resource {
        KubeResource::ReplicaSet(mut rs) => {
            if exists {
                let mut cause = crate::text::to_owned_string("Replica set ");
                push_str(&mut cause, metadata.name.as_str());
                push_str(&mut cause, " already exists");
                return Err(ErrResponse::new(crate::text::to_owned_string("Error creating replica set"), Some(cause)));
            }
            metadata.uid = Some(new_uid());
            rs.status = Some(ReplicaSetStatus { replicas: 0, ready_replicas: 0 });
            Ok(KubeObject { metadata, resource: KubeResource::ReplicaSet(rs) })
        },
        _ => Err(kind_error("Error creating replicaset", "replicaset kind", got.as_str())),
    }
}

/// The path of an autoscaler's scale target: its kind lowercased with an
/// `s`, and its name.
pub fn scale_target_uri(target: &ObjectReference) -> (r: String)
    ensures
        r@ == object_uri(lowercase(target.kind@) + "s"@, target.name@),
{
    let mut plural = crate::text::to_lowercase(target.kind.as_str());
    push_str(&mut plural, "s");
    crate::objects::build_uri(plural.as_str(), target.name.as_str())
}

/// The cause given when an object of that name is already stored.
pub open spec fn exists_text(what: Seq<char>, name: Seq<char>) -> Seq<char> {
    what + " "@ + name + " already exists"@
}

/// The autoscaler to store for a create request: given a fresh identifier
/// and a status whose current and desired replicas are those of its target,
/// a replica set that `target` holds as read from the store (None when it
/// could not be read). Fails when the payload is not an autoscaler, when one
/// of that name `exists`, when the target was not found, and when it is not
/// a replica set. The target replica set must have a status.
pub fn create_hpa(payload: KubeObject, exists: bool, target: Option<KubeObject>) -> (r: Result<KubeObject, ErrResponse>)
    requires
        (payload.resource is HorizontalPodAutoscaler && !exists) ==> (target matches Some(t) ==> (
        t.resource matches KubeResource::ReplicaSet(rs) ==> rs.status is Some)),
    ensures
        !(payload.resource is HorizontalPodAutoscaler) ==> (r matches Err(e) && is_kind_error(
            e,
            "Error creating horizontalpodautoscaler"@,
            "horizontal pod autoscaler kind"@,
            resource_kind(payload.resource),
        )),
        payload.resource matches KubeResource::HorizontalPodAutoscaler(hpa) ==> {
            let target_name = hpa.spec.scale_target_ref.name@;
            &&& exists ==> (r matches Err(e) && e.msg@ == "Error creating horizontal pod autoscaler"@ && (e.cause matches Some(
                c,
            ) && c@ == exists_text("Horizontal pod autoscaler"@, payload.metadata.name@))
                && e.status == INTERNAL_SERVER_ERROR)
            &&& (!exists && target is None) ==> (r matches Err(e) && e.msg@
                == "Error creating horizontal pod autoscaler"@ && (e.cause matches Some(c) && c@ == "Scale target "@
                + target_name + " not found"@) && e.status == INTERNAL_SERVER_ERROR)
            &&& !exists ==> (target matches Some(t) ==> (!(t.resource is ReplicaSet) ==> (r matches Err(e) && e.msg@
                == "Error creating horizontal pod autoscaler"@ && (e.cause matches Some(c) && c@ == "Target "@
                + target_name + " is not scalable"@) && e.status == INTERNAL_SERVER_ERROR)))
            &&& !exists ==> (target matches Some(t) ==> (t.resource matches KubeResource::ReplicaSet(rs) ==> (r matches Ok(
                o,
            ) && {
                let replicas = rs.status->0.replicas;
                &&& o.metadata.uid is Some
                &&& o.metadata == Metadata { uid: o.metadata.uid, ..payload.metadata }
                &&& o.resource == KubeResource::HorizontalPodAutoscaler(
                    HorizontalPodAutoscaler {
                        status: Some(
                            HorizontalPodAutoscalerStatus {
                                current_replicas: replicas,
                                desired_replicas: replicas,
                                last_scale_time: None,
                            },
                        ),
                        ..hpa
                    },
                )
            })))
        },
{
    let got = payload.kind();
    let KubeObject { mut metadata, resource } = payload;
    let mut hpa = match resource {
        KubeResource::HorizontalPodAutoscaler(hpa) => hpa,
        _ => {
            return Err(kind_error("Error creating horizontalpodautoscaler", "horizontal pod autoscaler kind", got.as_str()));
        },
    };
    let msg = "Error creating horizontal pod autoscaler";
    if exists {
        let mut cause = crate::text::to_owned_string("Horizontal pod autoscaler");
        push_str(&mut cause, " ");
        push_str(&mut cause, metadata.name.as_str());
        push_str(&mut cause, " already exists");
        return Err(ErrResponse::new(crate::text::to_owned_string(msg), Some(cause)));
    }
    let target = match target {
        Some(t) => t,
        None => {
            let mut cause = crate::text::to_owned_string("Scale target ");
            push_str(&mut cause, hpa.spec.scale_target_ref.name.as_str());
            push_str(&mut cause, " not found");
            return Err(ErrResponse::new(crate::text::to_owned_string(msg), Some(cause)));
        },
    };
    match target.resource {
        KubeResource::ReplicaSet(rs) => {
            let replicas = match rs.status {
                Some(s) => s.replicas,
                None => 0,
            };
            metadata.uid = Some(new_uid());
            hpa.status = Some(
                HorizontalPodAutoscalerStatus {
                    current_replicas: replicas,
                    desired_replicas: replicas,
                    last_scale_time: None,
                },
            );
            Ok(KubeObject { metadata, resource: KubeResource::HorizontalPodAutoscaler(hpa) })
        },
        _ => {
            let mut cause = crate::text::to_owned_string("Target ");
            push_str(&mut cause, hpa.spec.scale_target_ref.name.as_str());
            push_str(&mut cause, " is not scalable");
            Err(ErrResponse::new(crate::text::to_owned_string(msg), Some(cause)))
        },
    }
}

/// The GPU job to store for a create request with the multipart fields
/// `job` and `filename` (the stored code file): given a fresh identifier,
/// the code file, and an empty status. Fails as a bad request when a field
/// is missing; fails when the job field is not a GPU job, and when a job of
/// that name `exists`.
pub fn create_gpu_job(job: Option<KubeObject>, filename: Option<String>, exists: bool) -> (r: Result<KubeObject, ErrResponse>)
    ensures
        job is None ==> (r matches Err(e) && e.msg@ == "Job field is not presented"@ && e.cause is None
            && e.status == 400),
        job is Some && filename is None ==> (r matches Err(e) && e.msg@ == "Code field is not presented"@
            && e.cause is None && e.status == 400),
        job matches Some(j) ==> (filename matches Some(f) ==> {
            &&& !(j.resource is GpuJob) ==> (r matches Err(e) && is_kind_error(
                e,
                "Error creating gpujob"@,
                "gpujob kind"@,
                resource_kind(j.resource),
            ))
            &&& (j.resource is GpuJob && exists) ==> (r matches Err(e) && e.msg@ == "Error creating gpu job"@ && (
            e.cause matches Some(c) && c@ == exists_text("Gpu job"@, j.metadata.name@))
                && e.status == INTERNAL_SERVER_ERROR)
            &&& j.resource matches KubeResource::GpuJob(g) ==> (!exists ==> (r matches Ok(o) && {
                &&& o.metadata.uid is Some
                &&& o.metadata == Metadata { uid: o.metadata.uid, ..j.metadata }
                &&& o.resource == KubeResource::GpuJob(
                    GpuJob {
                        spec: GpuJobSpec { filename: Some(f), ..g.spec },
                        status: Some(GpuJobStatus { active: 0, failed: 0, succeeded: 0 }),
                        ..g
                    },
                )
            }))
        }),
{
    let job = match job {
        Some(j) => j,
        None => {
            return Err(ErrResponse::bad_request(crate::text::to_owned_string("Job field is not presented"), None));
        },
    };
    let filename = match filename {
        Some(f) => f,
        None => {
            return Err(ErrResponse::bad_request(crate::text::to_owned_string("Code field is not presented"), None));
        },
    };
    let got = job.kind();
    let KubeObject { mut metadata, resource } = job;
    let mut g = match resource {
        KubeResource::GpuJob(g) => g,
        _ => {
            return Err(kind_error("Error creating gpujob", "gpujob kind", got.as_str()));
        },
    };
    if exists {
        let mut cause = crate::text::to_owned_string("Gpu job");
        push_str(&mut cause, " ");
        push_str(&mut cause, metadata.name.as_str());
        push_str(&mut cause, " already exists");
        return Err(ErrResponse::new(crate::text::to_owned_string("Error creating gpu job"), Some(cause)));
    }
    metadata.uid = Some(new_uid());
    g.spec.filename = Some(filename);
    g.status = Some(GpuJobStatus { active: 0, failed: 0, succeeded: 0 });
    Ok(KubeObject { metadata, resource: KubeResource::GpuJob(g) })
}

/// The service to store for a create request: given a fresh identifier, and
/// the cluster address `fresh` when it asks for none. Fails when the payload
/// is not a service, and when the address it asks for is in the `pool` of
/// addresses given out. `fresh` is needed only for a service without an
/// address.
pub fn create_service(payload: KubeObject, pool: &Vec<Ipv4Addr>, fresh: Option<Ipv4Addr>) -> (r: Result<KubeObject, ErrResponse>)
    requires
        payload.resource matches KubeResource::Service(s) ==> (s.spec.cluster_ip is None ==> fresh is Some),
    ensures
        !(payload.resource is Service) ==> (r matches Err(e) && is_kind_error(
            e,
            "Error creating service"@,
            "service"@,
            resource_kind(payload.resource),
        )),
        payload.resource matches KubeResource::Service(svc) ==> {
            &&& (svc.spec.cluster_ip matches Some(ip) && pool@.contains(ip)) ==> (r matches Err(e) && e.msg@
                == "ClusterIp exists, try assign a new ClusterIP"@ && e.cause is None && e.status
                == INTERNAL_SERVER_ERROR)
            &&& !(svc.spec.cluster_ip matches Some(ip) && pool@.contains(ip)) ==> (r matches Ok(o) && {
                let ip = match svc.spec.cluster_ip {
                    Some(ip) => ip,
                    None => fresh->0,
                };
                &&& o.metadata.uid is Some
                &&& o.metadata == Metadata { uid: o.metadata.uid, ..payload.metadata }
                &&& o.resource == KubeResource::Service(
                    Service { spec: ServiceSpec { cluster_ip: Some(ip), ..svc.spec }, ..svc },
                )
            })
        },
{
    let got = payload.kind();
    let KubeObject { mut metadata, resource } = payload;
    let mut svc = match resource {
        KubeResource::Service(svc) => svc,
        _ => {
            return Err(kind_error("Error creating service", "service", got.as_str()));
        },
    };
    metadata.uid = Some(new_uid());
    match svc.spec.cluster_ip {
        Some(ip) => {
            if crate::controllers::endpoints::contains_ip(pool, ip) {
                return Err(
                    ErrResponse::new(crate::text::to_owned_string("ClusterIp exists, try assign a new ClusterIP"), None),
                );
            }
        },
        None => {
            svc.spec.cluster_ip = fresh;
        },
    }
    Ok(KubeObject { metadata, resource: KubeResource::Service(svc) })
}

/// Whether `h` is a generated host: five lowercase letters or digits, then
/// `.minik8s.com`.
pub open spec fn is_generated_host(h: Seq<char>) -> bool {
    &&& h.len() == 17
    &&& h.subrange(5, 17) == ".minik8s.com"@
    &&& forall|i: int| 0 <= i < 5 ==> is_lower_alnum(#[trigger] h[i])
}

/// Whether `new` is the rule `old` with a host: its own, or a generated one
/// when it names none.
pub open spec fn hosted_rule(old: IngressRule, new: IngressRule) -> bool {
    &&& new.paths == old.paths
    &&& match old.host {
        Some(h) => new.host == Some(h),
        None => new.host matches Some(h) && is_generated_host(h@),
    }
}

/// The ingress to store for a create request: given a fresh identifier, and
/// a generated host for each rule that names none. Fails when the payload is
/// not an ingress.
pub fn create_ingress(payload: KubeObject) -> (r: Result<KubeObject, ErrResponse>)
    ensures
        !(payload.resource is Ingress) ==> (r matches Err(e) && is_kind_error(
            e,
            "Error creating ingress"@,
            "ingress"@,
            resource_kind(payload.resource),
        )),
        payload.resource matches KubeResource::Ingress(ing) ==> (r matches Ok(o) && {
            &&& o.metadata.uid is Some
            &&& o.metadata == Metadata { uid: o.metadata.uid, ..payload.metadata }
            &&& o.resource matches KubeResource::Ingress(i2) && i2.metadata == ing.metadata
                && i2.spec.rules@.len() == ing.spec.rules@.len()
                && forall|k: int| 0 <= k < ing.spec.rules@.len() ==> hosted_rule(
                #[trigger] ing.spec.rules@[k],
                i2.spec.rules@[k],
            )
        }),
{
    let got = payload.kind();
    let KubeObject { mut metadata, resource } = payload;
    let ing = match resource {
        KubeResource::Ingress(ing) => ing,
        _ => {
            return Err(kind_error("Error creating ingress", "ingress", got.as_str()));
        },
    };
    let Ingress { metadata: ing_metadata, spec } = ing;
    let mut rest = spec.rules;
    let ghost all = rest@;
    let mut rules: Vec<IngressRule> = Vec::new();
    let ghost mut i: int = 0;
    while rest.len() > 0
        invariant
            0 <= i <= all.len(),
            rest@ == all.skip(i),
            rules@.len() == i,
            forall|k: int| 0 <= k < i ==> hosted_rule(#[trigger] all[k], rules@[k]),
        decreases rest.len(),
    {
        let mut rule = rest.remove(0);
        proof {
            assert(rule == all[i]);
            assert(rest@ =~= all.skip(i + 1));
        }
        if rule.host.is_none() {
            rule.host = Some(gen_rand_host());
        }
        rules.push(rule);
        proof {
            i = i + 1;
        }
    }
    metadata.uid = Some(new_uid());
    Ok(KubeObject { metadata, resource: KubeResource::Ingress(Ingress { metadata: ing_metadata, spec: IngressSpec { rules } }) })
}

/// The node to store for an update request, given the node stored under
/// that name (None when there is none): with the stored node's metadata,
/// both the object's and the node's own, when there is one; otherwise with
/// a fresh identifier. Fails when the payload is not a node.
pub fn update_node(payload: KubeObject, stored: Option<KubeObject>) -> (r: Result<KubeObject, ErrResponse>)
    ensures
        !(payload.resource is Node) ==> (r matches Err(e) && is_kind_error(
            e,
            "Error updating node"@,
            "node kind"@,
            resource_kind(payload.resource),
        )),
        payload.resource matches KubeResource::Node(node) ==> (r matches Ok(o) && (o.resource matches KubeResource::Node(
            n2,
        ) && n2.status == node.status && match stored {
            Some(s) => match s.resource {
                KubeResource::Node(old) => o.metadata == s.metadata && n2.metadata == old.metadata,
                _ => o.metadata.uid is Some && o.metadata == Metadata { uid: o.metadata.uid, ..payload.metadata }
                    && n2.metadata == Metadata { uid: o.metadata.uid, ..node.metadata },
            },
            None => o.metadata.uid is Some && o.metadata == Metadata { uid: o.metadata.uid, ..payload.metadata }
                && n2.metadata == Metadata { uid: o.metadata.uid, ..node.metadata },
        })),
{
    let got = payload.kind();
    let KubeObject { mut metadata, resource } = payload;
    let mut node = match resource {
        KubeResource::Node(node) => node,
        _ => {
            return Err(kind_error("Error updating node", "node kind", got.as_str()));
        },
    };
    let fresh = match stored {
        Some(s) => {
            let KubeObject { metadata: stored_metadata, resource: stored_resource } = s;
            match stored_resource {
                KubeResource::Node(old) => {
                    metadata = stored_metadata;
                    node.metadata = old.metadata;
                    false
                },
                _ => true,
            }
        },
        None => true,
    };
    if fresh {
        let uid = new_uid();
        metadata.uid = Some(uid);
        node.metadata.uid = Some(uid);
    }
    Ok(KubeObject { metadata, resource: KubeResource::Node(node) })
}

/// The stored autoscaler `object` with the specification of the payload, for
/// a patch request. Fails when either is not an autoscaler.
pub fn patch_hpa(payload: KubeObject, object: KubeObject) -> (r: Result<KubeObject, ErrResponse>)
    ensures
        match (payload.resource, object.resource) {
            (KubeResource::HorizontalPodAutoscaler(p), KubeResource::HorizontalPodAutoscaler(h)) => r == Ok::<
                KubeObject,
                ErrResponse,
            >(
                KubeObject {
                    resource: KubeResource::HorizontalPodAutoscaler(HorizontalPodAutoscaler { spec: p.spec, ..h }),
                    ..object
                },
            ),
            _ => r matches Err(e) && is_kind_error(
                e,
                "Error patching horizontal pod autoscaler"@,
                "horizontal pod autoscaler kind"@,
                resource_kind(payload.resource),
            ),
        },
{
    let got = payload.kind();
    let KubeObject { metadata, resource } = object;
    match (payload.resource, resource) {
        (KubeResource::HorizontalPodAutoscaler(p), KubeResource::HorizontalPodAutoscaler(mut h)) => {
            h.spec = p.spec;
            Ok(KubeObject { metadata, resource: KubeResource::HorizontalPodAutoscaler(h) })
        },
        _ => Err(
            kind_error("Error patching horizontal pod autoscaler", "horizontal pod autoscaler kind", got.as_str()),
        ),
    }
}

/// The stored GPU job `object` with the specification of the payload, for a
/// patch request. Fails when either is not a GPU job.
pub fn patch_gpu_job(payload: KubeObject, object: KubeObject) -> (r: Result<KubeObject, ErrResponse>)
    ensures
        match (payload.resource, object.resource) {
            (KubeResource::GpuJob(p), KubeResource::GpuJob(g)) => r == Ok::<KubeObject, ErrResponse>(
                KubeObject { resource: KubeResource::GpuJob(GpuJob { spec: p.spec, ..g }), ..object },
            ),
            _ => r matches Err(e) && is_kind_error(
                e,
                "Error patching gpujob"@,
                "gpujob kind"@,
                resource_kind(payload.resource),
            ),
        },
{
    let got = payload.kind();
    let KubeObject { metadata, resource } = object;
    match (payload.resource, resource) {
        (KubeResource::GpuJob(p), KubeResource::GpuJob(mut g)) => {
            g.spec = p.spec;
            Ok(KubeObject { metadata, resource: KubeResource::GpuJob(g) })
        },
        _ => Err(kind_error("Error patching gpujob", "gpujob kind", got.as_str())),
    }
}

/// The outcome of deleting `key`, given how many entries the store deleted:
/// done when it deleted any, otherwise `key not found`.
pub fn deletion_result(deleted: i64, key: &str) -> (r: Result<(), ErrResponse>)
    ensures
        deleted > 0 ==> r is Ok,
        deleted <= 0 ==> (r matches Err(e) && e.msg@ == key@ + " not found"@ && e.cause is None && e.status == 404),
{
    if deleted > 0 {
        Ok(())
    } else {
        let mut msg = crate::text::to_owned_string(key);
        push_str(&mut msg, " not found");
        Err(ErrResponse::not_found(msg, None))
    }
}

/// The host of a pod's node as the kubelet proxy reaches it: its internal
/// address, or `127.0.0.1` when the node or its address is unknown.
pub open spec fn kubelet_host(node: Option<Node>) -> Seq<char> {
    match node {
        Some(n) => match n.status.addresses.internal_ip {
            Some(ip) => ip@,
            None => "127.0.0.1"@,
        },
        None => "127.0.0.1"@,
    }
}

/// The kubelet port of a pod's node, or `default_port` when the node is
/// unknown.
pub open spec fn kubelet_port(node: Option<Node>, default_port: u16) -> u16 {
    match node {
        Some(n) => n.status.kubelet_port,
        None => default_port,
    }
}

/// The key under which the node of a scheduled pod is stored; None while
/// the pod has no node.
pub fn pod_node_key(pod: &Pod) -> (r: Option<String>)
    ensures
        match pod.spec.node_name {
            Some(n) => r matches Some(k) && k@ == object_uri("nodes"@, n@),
            None => r is None,
        },
{
    match &pod.spec.node_name {
        Some(n) => Some(crate::objects::build_uri("nodes", n.as_str())),
        None => None,
    }
}

/// The URL to which a request about a pod is proxied: the kubelet of the
/// pod's node, then the request's path and query.
pub fn kubelet_url(node: &Option<Node>, default_port: u16, path_query: &str) -> (r: String)
    ensures
        r@ == "http://"@ + kubelet_host(*node) + ":"@ + decimal(kubelet_port(*node, default_port) as nat)
            + path_query@,
{
    let mut r = crate::text::to_owned_string("http://");
    let port = match node {
        Some(n) => {
            match &n.status.addresses.internal_ip {
                Some(ip) => push_str(&mut r, ip.as_str()),
                None => push_str(&mut r, "127.0.0.1"),
            }
            n.status.kubelet_port
        },
        None => {
            push_str(&mut r, "127.0.0.1");
            default_port
        },
    };
    push_str(&mut r, ":");
    push_decimal(&mut r, port as u64);
    push_str(&mut r, path_query);
    r
}

/// Whether the stored object is a pod of the job `job` that succeeded, one
/// whose logs are the job's.
pub open spec fn finished_job_pod(o: KubeObject, job: Seq<char>) -> bool {
    o.resource matches KubeResource::Pod(p) && pod_succeeded(p) && exists|i: int|
        0 <= i < p.metadata.owner_references@.len() && (#[trigger] p.metadata.owner_references@[i]).kind@
            == "GpuJob"@ && p.metadata.owner_references@[i].name@ == job
}

/// Whether the references name the owner `kind`/`name`.
fn has_owner(refs: &Vec<ObjectReference>, kind: &str, name: &str) -> (r: bool)
    ensures
        r == exists|i: int| 0 <= i < refs@.len() && (#[trigger] refs@[i]).kind@ == kind@ && refs@[i].name@ == name@,
{
    let mut i: usize = 0;
    while i < refs.len()
        invariant
            i <= refs@.len(),
            forall|j: int| 0 <= j < i ==> !((#[trigger] refs@[j]).kind@ == kind@ && refs@[j].name@ == name@),
        decreases refs.len() - i,
    {
        if crate::text::str_eq(refs[i].kind.as_str(), kind) && crate::text::str_eq(refs[i].name.as_str(), name) {
            return true;
        }
        i = i + 1;
    }
    false
}

/// The pod whose logs are a GPU job's: the name of the first stored pod of
/// the job that succeeded. Fails with `Job <job> is not completed` when
/// there is none.
pub fn job_log_pod(objects: &Vec<KubeObject>, job: &str) -> (r: Result<String, ErrResponse>)
    ensures
        match r {
            Ok(name) => exists|i: int| {
                &&& 0 <= i < objects@.len()
                &&& finished_job_pod(#[trigger] objects@[i], job@)
                &&& forall|j: int| 0 <= j < i ==> !finished_job_pod(#[trigger] objects@[j], job@)
                &&& objects@[i].resource matches KubeResource::Pod(p) && p.metadata.name == name
            },
            Err(e) => {
                &&& forall|i: int| 0 <= i < objects@.len() ==> !finished_job_pod(#[trigger] objects@[i], job@)
                &&& e.msg@ == "Job "@ + job@ + " is not completed"@
                &&& e.cause is None
                &&& e.status == INTERNAL_SERVER_ERROR
            },
        },
{
    let mut i: usize = 0;
    while i < objects.len()
        invariant
            i <= objects@.len(),
            forall|j: int| 0 <= j < i ==> !finished_job_pod(#[trigger] objects@[j], job@),
        decreases objects.len() - i,
    {
        if let KubeResource::Pod(p) = &objects[i].resource {
            if p.is_succeeded() && has_owner(&p.metadata.owner_references, "GpuJob", job) {
                assert(finished_job_pod(objects@[i as int], job@));
                return Ok(p.metadata.name.clone());
            }
        }
        i = i + 1;
    }
    let mut msg = crate::text::to_owned_string("Job ");
    push_str(&mut msg, job);
    push_str(&mut msg, " is not completed");
    Err(ErrResponse::new(msg, None))
}

/// The job and target of a request to add (or remove) a scrape target.
/// Fails when either is missing.
pub fn target_request(job: Option<String>, target: Option<String>, adding: bool) -> (r: Result<(String, String), ErrResponse>)
    ensures
        match (job, target) {
            (Some(j), Some(t)) => r == Ok::<(String, String), ErrResponse>((j, t)),
            _ => r matches Err(e) && e.msg@ == (if adding {
                "Failed to add target"@
            } else {
                "Failed to remove target"@
            }) && (e.cause matches Some(c) && c@ == "Missing job or target"@) && e.status == INTERNAL_SERVER_ERROR,
        },
{
    match (job, target) {
        (Some(j), Some(t)) => Ok((j, t)),
        _ => {
            let msg = if adding {
                crate::text::to_owned_string("Failed to add target")
            } else {
                crate::text::to_owned_string("Failed to remove target")
            };
            Err(ErrResponse::new(msg, Some(crate::text::to_owned_string("Missing job or target"))))
        },
    }
}

/// The outcome of asking the metrics server to reload its configuration,
/// given the text of its reply (None when it could not be read): a reply
/// with text is an error, whose cause is the text.
pub fn reload_result(reply: Option<String>) -> (r: Result<(), ErrResponse>)
    ensures
        match reply {
            Some(t) => if t@.len() == 0 {
                r is Ok
            } else {
                r matches Err(e) && e.msg@ == "Failed to reload metrics server config"@ && e.cause == Some(t)
                    && e.status == INTERNAL_SERVER_ERROR
            },
            None => r is Ok,
        },
{
    match reply {
        Some(t) => {
            if t.unicode_len() == 0 {
                Ok(())
            } else {
                Err(ErrResponse::new(crate::text::to_owned_string("Failed to reload metrics server config"), Some(t)))
            }
        },
        None => Ok(()),
    }
}

} // verus!
