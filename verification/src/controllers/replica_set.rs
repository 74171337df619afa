//! The decisions of the replica set controller: the status a replica set
//! reports, and whether a pod is to be created or deleted.

use vstd::prelude::*;
use crate::informer::{ReflectorNotification, Store};
use crate::objects::object_reference::ObjectReference;
use crate::objects::pod::{Pod, pod_ready};
use crate::objects::labels_match;
use crate::objects::{KubeObject, KubeResource};
use crate::objects::replica_set::{ReplicaSet, ReplicaSetStatus};
use super::pods::{new_owned_pod, owner_in, resolve_owner};

verus! {

/// What a controller does to bring the number of pods toward the desired one.
#[derive(Clone, Copy, Debug, PartialEq, Eq, Structural)]
pub enum ScaleAction {
    /// Create one pod; more are created on later rounds.
    CreatePod,
    /// Delete one pod.
    DeletePod,
    /// Nothing to do.
    Nothing,
}

/// A request to bring every object up to date.
#[derive(Clone, Copy, Debug, PartialEq, Eq, Structural)]
pub struct ResyncNotification;

/// Why a controller could not act on an object.
#[derive(Clone, Copy, Debug, PartialEq, Eq, Structural)]
pub enum ControllerError {
    /// The object has no status yet.
    MissingStatus,
    /// The object has no pod template.
    MissingTemplate,
    /// The job names no code file.
    MissingFilename,
}

/// The pods that the replica set selects (their labels match its selector),
/// in order.
pub fn get_pods(pods: Vec<Pod>, rs: &ReplicaSet) -> (r: Vec<Pod>)
    ensures
        r@ == pods@.filter(|p: Pod| labels_match(p.metadata.labels, rs.spec.selector)),
{
    let ghost f = |p: Pod| labels_match(p.metadata.labels, rs.spec.selector);
    let mut r: Vec<Pod> = Vec::new();
    let mut rest = pods;
    let ghost all = rest@;
    let ghost mut i: int = 0;
    proof {
        reveal(Seq::filter);
    }
    assert(all.take(0).filter(f) =~= Seq::<Pod>::empty());
    assert(all.skip(0) =~= all);
    while rest.len() > 0
        invariant
            0 <= i <= all.len(),
            rest@ == all.skip(i),
            r@ == all.take(i).filter(f),
            f == (|p: Pod| labels_match(p.metadata.labels, rs.spec.selector)),
        decreases rest.len(),
    {
        let p = rest.remove(0);
        let keep = p.metadata.labels.matches(&rs.spec.selector);
        proof {
            reveal(Seq::filter);
            let s = all.take(i + 1);
            assert(p == all[i]);
            assert(s.drop_last() =~= all.take(i));
            assert(s.last() == all[i]);
            assert(s.len() == i + 1);
            assert(rest@ =~= all.skip(i + 1));
        }
        if keep {
            r.push(p);
        }
        proof {
            i = i + 1;
        }
    }
    assert(all.take(i) =~= all);
    r
}

/// The replica set that the object holds; the object must hold one.
pub fn unwrap_rs(object: &KubeObject) -> (rs: &ReplicaSet)
    requires
        object.resource is ReplicaSet,
    ensures
        object.resource == KubeResource::ReplicaSet(*rs),
{
    match &object.resource {
        KubeResource::ReplicaSet(rs) => rs,
        _ => vstd::pervasive::unreached(),
    }
}

/// The replica set that the object holds, to change in place; the object
/// must hold one.
pub fn unwrap_rs_mut(object: &mut KubeObject) -> (rs: &mut ReplicaSet)
    requires
        old(object).resource is ReplicaSet,
    ensures
        old(object).resource == KubeResource::ReplicaSet(*rs),
        *final(object) == (KubeObject { resource: KubeResource::ReplicaSet(*final(rs)), ..*old(object) }),
{
    match &mut object.resource {
        KubeResource::ReplicaSet(rs) => rs,
        _ => vstd::pervasive::unreached(),
    }
}

/// The pod that the object holds; the object must hold one.
pub fn unwrap_pod(object: &KubeObject) -> (pod: &Pod)
    requires
        object.resource is Pod,
    ensures
        object.resource == KubeResource::Pod(*pod),
{
    match &object.resource {
        KubeResource::Pod(pod) => pod,
        _ => vstd::pervasive::unreached(),
    }
}

/// The number of ready pods.
pub open spec fn ready_count(pods: Seq<Pod>) -> nat
    decreases pods.len(),
{
    if pods.len() == 0 {
        0
    } else {
        ready_count(pods.drop_last()) + if pod_ready(pods.last()) { 1nat } else { 0nat }
    }
}

/// The ready pods are at most all of them.
proof fn lemma_ready_count(pods: Seq<Pod>)
    ensures
        ready_count(pods) <= pods.len(),
    decreases pods.len(),
{
    if pods.len() > 0 {
        lemma_ready_count(pods.drop_last());
    }
}

/// The status that the selected pods give: how many there are, and how
/// many of them are ready.
pub fn calculate_status(pods: &Vec<Pod>) -> (r: ReplicaSetStatus)
    requires
        pods@.len() <= u32::MAX,
    ensures
        r.replicas == pods@.len(),
        r.ready_replicas == ready_count(pods@),
{
    let mut ready: u32 = 0;
    let mut i: usize = 0;
    assert(pods@.take(0) =~= Seq::<Pod>::empty());
    while i < pods.len()
        invariant
            i <= pods@.len(),
            pods@.len() <= u32::MAX,
            ready == ready_count(pods@.take(i as int)),
        decreases pods.len() - i,
    {
        assert(pods@.take(i + 1).drop_last() =~= pods@.take(i as int));
        assert(pods@.take(i + 1).last() == pods@[i as int]);
        proof {
            lemma_ready_count(pods@.take(i as int));
        }
        if pods[i].is_ready() {
            ready = ready + 1;
        }
        i = i + 1;
    }
    assert(pods@.take(i as int) =~= pods@);
    ReplicaSetStatus { replicas: pods.len() as u32, ready_replicas: ready }
}

/// The replica set with its status brought up to date from its selected
/// pods, when that changes the status; None when the status stays.
pub fn update_replicaset(rs: ReplicaSet, pods: &Vec<Pod>) -> (r: Result<Option<ReplicaSet>, ControllerError>)
    requires
        pods@.len() <= u32::MAX,
    ensures
        rs.status is None ==> r == Err::<Option<ReplicaSet>, ControllerError>(ControllerError::MissingStatus),
        rs.status is Some ==> {
            let new_status = ReplicaSetStatus { replicas: pods@.len() as u32, ready_replicas: ready_count(pods@) as u32 };
            &&& r is Ok
            &&& new_status == rs.status->0 ==> r->Ok_0 is None
            &&& new_status != rs.status->0 ==> r->Ok_0 == Some(ReplicaSet { status: Some(new_status), ..rs })
        },
{
    let new_status = calculate_status(pods);
    let status = match rs.status {
        Some(s) => s,
        None => return Err(ControllerError::MissingStatus),
    };
    if new_status.replicas == status.replicas && new_status.ready_replicas == status.ready_replicas {
        Ok(None)
    } else {
        let mut rs = rs;
        rs.status = Some(new_status);
        Ok(Some(rs))
    }
}

/// What to do for a replica set: create a pod when it has fewer than it
/// wants, delete one when it has more, nothing otherwise.
pub fn reconcile(rs: &ReplicaSet) -> (r: Result<ScaleAction, ControllerError>)
    ensures
        match rs.status {
            None => r == Err::<ScaleAction, ControllerError>(ControllerError::MissingStatus),
            Some(s) => r == Ok::<ScaleAction, ControllerError>(
                if s.replicas < rs.spec.replicas {
                    ScaleAction::CreatePod
                } else if s.replicas > rs.spec.replicas {
                    ScaleAction::DeletePod
                } else {
                    ScaleAction::Nothing
                },
            ),
        },
{
    let status = match &rs.status {
        Some(s) => s,
        None => return Err(ControllerError::MissingStatus),
    };
    let current = status.replicas;
    let desired = rs.spec.replicas;
    if current < desired {
        Ok(ScaleAction::CreatePod)
    } else if current > desired {
        Ok(ScaleAction::DeletePod)
    } else {
        Ok(ScaleAction::Nothing)
    }
}

/// The replica set to reconcile after a change: the new one when added or
/// updated; when deleted, the old one wanting no replicas.
pub fn replicaset_to_reconcile(n: ReflectorNotification<ReplicaSet>) -> (rs: ReplicaSet)
    ensures
        match n {
            ReflectorNotification::Add(new) => rs == new,
            ReflectorNotification::Update(_, new) => rs == new,
            ReflectorNotification::Delete(old) => rs == ReplicaSet {
                spec: crate::objects::replica_set::ReplicaSetSpec { replicas: 0, ..old.spec },
                ..old
            },
        },
{
    match n {
        ReflectorNotification::Add(new) => new,
        ReflectorNotification::Update(_, new) => new,
        ReflectorNotification::Delete(old) => {
            let mut rs = old;
            rs.spec.replicas = 0;
            rs
        },
    }
}

/// The kind name of replica sets, `ReplicaSet`.
pub open spec fn replica_set_kind() -> Seq<char> {
    seq!['R', 'e', 'p', 'l', 'i', 'c', 'a', 'S', 'e', 't']
}

/// The plural of replica sets in paths, `replicasets`.
pub open spec fn replica_sets_plural() -> Seq<char> {
    seq!['r', 'e', 'p', 'l', 'i', 'c', 'a', 's', 'e', 't', 's']
}

/// The replica set that owns a pod with owner references `refs`: the only
/// owner of kind `ReplicaSet`, looked up in the store.
pub fn resolve_rs_owner<'a>(refs: &Vec<ObjectReference>, store: &'a Store<ReplicaSet>) -> (r: Option<&'a ReplicaSet>)
    ensures
        match owner_in(refs@, replica_set_kind(), replica_sets_plural(), store@) {
            Some(o) => r is Some && *r->0 == o,
            None => r is None,
        },
{
    proof {
        reveal_strlit("ReplicaSet");
        reveal_strlit("replicasets");
    }
    let r = resolve_owner(refs, "ReplicaSet", "replicasets", store);
    assert("ReplicaSet"@ =~= replica_set_kind());
    assert("replicasets"@ =~= replica_sets_plural());
    r
}

/// A new pod for the replica set named `rs_name`, made from its template.
pub fn create_pod(rs_name: String, template: crate::objects::pod::PodTemplateSpec) -> (pod: Pod)
    ensures
        pod.metadata.name == template.metadata.name,
        pod.metadata.labels == template.metadata.labels,
        pod.metadata.owner_references@ == template.metadata.owner_references@.push(
            ObjectReference { kind: pod.metadata.owner_references@.last().kind, name: rs_name },
        ),
        pod.metadata.owner_references@.last().kind@ == replica_set_kind(),
        pod.spec == template.spec,
        pod.status is None,
{
    proof {
        reveal_strlit("ReplicaSet");
    }
    let kind = crate::text::to_owned_string("ReplicaSet");
    assert(kind@ =~= replica_set_kind());
    new_owned_pod(template, ObjectReference::new(kind, rs_name))
}

} // verus!
