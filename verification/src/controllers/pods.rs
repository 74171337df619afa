//! Decisions shared by the controllers that own pods: which object owns a
//! pod, which pod to delete first, and the pods made from a template.

use vstd::prelude::*;
use crate::informer::Store;
use crate::objects::object_reference::ObjectReference;
use crate::objects::pod::{Pod, PodPhase, PodTemplateSpec, pod_ready};
use crate::objects::{Object, build_uri, object_uri};

verus! {

/// The references of `refs` to objects of kind `kind`, in order.
pub open spec fn refs_of_kind(refs: Seq<ObjectReference>, kind: Seq<char>) -> Seq<ObjectReference> {
    refs.filter(|r: ObjectReference| r.kind@ == kind)
}

/// The name of the only owner of kind `kind`, if there is exactly one.
pub fn single_owner(refs: &Vec<ObjectReference>, kind: &str) -> (r: Option<String>)
    ensures
        r is Some <==> refs_of_kind(refs@, kind@).len() == 1,
        r is Some ==> r->0 == refs_of_kind(refs@, kind@)[0].name,
{
    let ghost f = |r: ObjectReference| r.kind@ == kind@;
    let mut count: usize = 0;
    let mut first: Option<usize> = None;
    let mut i: usize = 0;
    proof {
        reveal(Seq::filter);
    }
    assert(refs@.take(0).filter(f) =~= Seq::<ObjectReference>::empty());
    while i < refs.len()
        invariant
            i <= refs@.len(),
            f == (|r: ObjectReference| r.kind@ == kind@),
            count == refs@.take(i as int).filter(f).len(),
            count <= i,
            first is None <==> count == 0,
            first is Some ==> first->0 < i && refs@[first->0 as int] == refs@.take(i as int).filter(f)[0],
        decreases refs.len() - i,
    {
        proof {
            reveal(Seq::filter);
            let s = refs@.take(i + 1);
            assert(s.drop_last() =~= refs@.take(i as int));
            assert(s.last() == refs@[i as int]);
            assert(s.len() == i + 1);
            refs@.take(i as int).filter(f).lemma_filter_len(f);
        }
        if crate::text::str_eq(refs[i].kind.as_str(), kind) {
            if first.is_none() {
                first = Some(i);
            }
            count = count + 1;
        }
        proof {
            let s = refs@.take(i + 1);
            if f(refs@[i as int]) {
                assert(s.filter(f) == refs@.take(i as int).filter(f).push(refs@[i as int]));
            } else {
                assert(s.filter(f) == refs@.take(i as int).filter(f));
            }
        }
        i = i + 1;
    }
    assert(refs@.take(i as int) =~= refs@);
    if count == 1 {
        match first {
            Some(j) => Some(refs[j].name.clone()),
            None => None,
        }
    } else {
        None
    }
}

/// The object of kind `kind` that owns a pod with owner references
/// `refs`, looked up under `/api/v1/<plural>/<name>` in `m`: None unless the
/// pod has exactly one owner of that kind and it is found.
pub open spec fn owner_in<T>(refs: Seq<ObjectReference>, kind: Seq<char>, plural: Seq<char>, m: Map<Seq<char>, T>) -> Option<T> {
    let owners = refs_of_kind(refs, kind);
    if owners.len() == 1 && m.contains_key(object_uri(plural, owners[0].name@)) {
        Some(m[object_uri(plural, owners[0].name@)])
    } else {
        None
    }
}

/// The owner of kind `kind` of a pod with owner references `refs`, found in
/// the store under `/api/v1/<plural>/<name>`.
pub fn resolve_owner<'a, T>(
    refs: &Vec<ObjectReference>,
    kind: &str,
    plural: &str,
    store: &'a Store<T>,
) -> (r: Option<&'a T>)
    ensures
        match owner_in(refs@, kind@, plural@, store@) {
            Some(o) => r is Some && *r->0 == o,
            None => r is None,
        },
{
    match single_owner(refs, kind) {
        Some(name) => {
            let uri = build_uri(plural, name.as_str());
            store.get(uri.as_str())
        },
        None => None,
    }
}

/// The owners found for the pods, each owner once (by name), in the order
/// in which the pods name them.
pub open spec fn resync_owners<T: Object>(
    pods: Seq<Pod>,
    kind: Seq<char>,
    plural: Seq<char>,
    m: Map<Seq<char>, T>,
) -> Seq<T>
    decreases pods.len(),
{
    if pods.len() == 0 {
        Seq::empty()
    } else {
        let prev = resync_owners(pods.drop_last(), kind, plural, m);
        match owner_in(pods.last().metadata.owner_references@, kind, plural, m) {
            Some(o) => if exists|k: int| 0 <= k < prev.len() && (#[trigger] prev[k]).name_view() == o.name_view() {
                prev
            } else {
                prev.push(o)
            },
            None => prev,
        }
    }
}

/// The owners of kind `kind` of the pods, each once, in the order in which
/// the pods name them: the objects to bring up to date after a resync.
pub fn owners_to_resync<'a, T: Object>(
    pods: &Vec<Pod>,
    kind: &str,
    plural: &str,
    store: &'a Store<T>,
) -> (r: Vec<&'a T>)
    ensures
        r@.len() == resync_owners(pods@, kind@, plural@, store@).len(),
        forall|i: int| 0 <= i < r@.len() ==> *(#[trigger] r@[i]) == resync_owners(pods@, kind@, plural@, store@)[i],
{
    let mut owners: Vec<&'a T> = Vec::new();
    let mut names: Vec<String> = Vec::new();
    let mut i: usize = 0;
    assert(pods@.take(0) =~= Seq::<Pod>::empty());
    while i < pods.len()
        invariant
            i <= pods@.len(),
            owners@.len() == names@.len(),
            owners@.len() == resync_owners(pods@.take(i as int), kind@, plural@, store@).len(),
            forall|k: int| 0 <= k < owners@.len() ==> *(#[trigger] owners@[k]) == resync_owners(
                pods@.take(i as int),
                kind@,
                plural@,
                store@,
            )[k] && names@[k]@ == (*owners@[k]).name_view(),
        decreases pods.len() - i,
    {
        assert(pods@.take(i + 1).drop_last() =~= pods@.take(i as int));
        assert(pods@.take(i + 1).last() == pods@[i as int]);
        let ghost prev = resync_owners(pods@.take(i as int), kind@, plural@, store@);
        match resolve_owner(&pods[i].metadata.owner_references, kind, plural, store) {
            Some(owner) => {
                let name = owner.name();
                let mut seen = false;
                let mut k: usize = 0;
                while k < names.len()
                    invariant
                        k <= names@.len(),
                        owners@.len() == names@.len(),
                        owners@.len() == prev.len(),
                        forall|m: int| 0 <= m < owners@.len() ==> *(#[trigger] owners@[m]) == prev[m]
                            && names@[m]@ == (*owners@[m]).name_view(),
                        seen <==> exists|m: int| 0 <= m < k && (#[trigger] prev[m]).name_view() == name@,
                    decreases names.len() - k,
                {
                    if crate::text::str_eq(names[k].as_str(), name.as_str()) {
                        seen = true;
                    }
                    proof {
                        assert(*owners@[k as int] == prev[k as int] && names@[k as int]@ == (*owners@[
                            k as int]).name_view());
                    }
                    k = k + 1;
                }
                if !seen {
                    owners.push(owner);
                    names.push(name);
                }
            },
            None => {},
        }
        i = i + 1;
    }
    assert(pods@.take(i as int) =~= pods@);
    owners
}

/// The position of a phase in the order in which pods are deleted.
pub open spec fn phase_rank(p: PodPhase) -> int {
    match p {
        PodPhase::Failed => 0,
        PodPhase::Pending => 1,
        PodPhase::Running => 2,
        PodPhase::Succeeded => 3,
    }
}

/// Whether pod `a` is deleted before pod `b`: failed before pending before
/// running before succeeded, then not ready before ready, then the earlier
/// started first.
pub open spec fn deleted_before(a: Pod, b: Pod) -> bool {
    let sa = a.status->0;
    let sb = b.status->0;
    if sa.phase != sb.phase {
        phase_rank(sa.phase) < phase_rank(sb.phase)
    } else if pod_ready(a) != pod_ready(b) {
        !pod_ready(a)
    } else {
        sa.start_time < sb.start_time
    }
}

/// Whether `i` is the position of the pod to delete first: no pod goes
/// before it, and it goes before every pod ahead of it in the list.
pub open spec fn first_to_delete(pods: Seq<Pod>, i: int) -> bool {
    &&& 0 <= i < pods.len()
    &&& forall|j: int| 0 <= j < pods.len() ==> !deleted_before(#[trigger] pods[j], pods[i])
    &&& forall|j: int| 0 <= j < i ==> deleted_before(pods[i], #[trigger] pods[j])
}

/// The order of deletion is a strict weak order.
proof fn lemma_deleted_before(a: Pod, b: Pod, c: Pod)
    requires
        a.status is Some,
        b.status is Some,
        c.status is Some,
    ensures
        !deleted_before(a, a),
        deleted_before(a, b) && deleted_before(b, c) ==> deleted_before(a, c),
        deleted_before(a, b) && !deleted_before(c, b) ==> deleted_before(a, c),
{
}

/// The name of the pod to delete first: the first of the pods in the order
/// of [`deleted_before`]; with a single pod, that pod.
pub fn get_pod_to_delete(pods: &Vec<Pod>) -> (r: String)
    requires
        pods@.len() > 0,
        pods@.len() > 1 ==> forall|i: int| 0 <= i < pods@.len() ==> (#[trigger] pods@[i]).status is Some,
    ensures
        pods@.len() == 1 ==> r == pods@[0].metadata.name,
        pods@.len() > 1 ==> exists|i: int| first_to_delete(pods@, i) && r == pods@[i].metadata.name,
{
    if pods.len() == 1 {
        return pods[0].metadata.name.clone();
    }
    let mut best: usize = 0;
    let mut j: usize = 1;
    while j < pods.len()
        invariant
            pods@.len() > 1,
            forall|i: int| 0 <= i < pods@.len() ==> (#[trigger] pods@[i]).status is Some,
            1 <= j <= pods@.len(),
            best < j,
            forall|k: int| 0 <= k < j ==> !deleted_before(#[trigger] pods@[k], pods@[best as int]),
            forall|k: int| 0 <= k < best ==> deleted_before(pods@[best as int], #[trigger] pods@[k]),
        decreases pods.len() - j,
    {
        let before = goes_before(&pods[j], &pods[best]);
        if before {
            proof {
                assert forall|k: int| 0 <= k < j + 1 implies !deleted_before(#[trigger] pods@[k], pods@[j as int]) by {
                    lemma_deleted_before(pods@[k], pods@[j as int], pods@[best as int]);
                    lemma_deleted_before(pods@[k], pods@[k], pods@[k]);
                }
                assert forall|k: int| 0 <= k < j implies deleted_before(pods@[j as int], #[trigger] pods@[k]) by {
                    lemma_deleted_before(pods@[j as int], pods@[best as int], pods@[k]);
                }
            }
            best = j;
        } else {
            proof {
                assert(!deleted_before(pods@[j as int], pods@[best as int]));
            }
        }
        j = j + 1;
    }
    proof {
        assert(first_to_delete(pods@, best as int));
    }
    pods[best].metadata.name.clone()
}

/// Whether pod `a` is deleted before pod `b`.
fn goes_before(a: &Pod, b: &Pod) -> (r: bool)
    requires
        a.status is Some,
        b.status is Some,
    ensures
        r == deleted_before(*a, *b),
{
    let (sa, sb) = match (&a.status, &b.status) {
        (Some(sa), Some(sb)) => (sa, sb),
        _ => return false,
    };
    if sa.phase != sb.phase {
        rank(sa.phase) < rank(sb.phase)
    } else if a.is_ready() != b.is_ready() {
        !a.is_ready()
    } else {
        sa.start_time < sb.start_time
    }
}

/// The position of a phase in the order of deletion.
fn rank(p: PodPhase) -> (r: u8)
    ensures
        r == phase_rank(p),
{
    match p {
        PodPhase::Failed => 0,
        PodPhase::Pending => 1,
        PodPhase::Running => 2,
        PodPhase::Succeeded => 3,
    }
}

/// A pod made from a template and owned by `owner`: the template's metadata
/// with the owner appended to its owner references, the template's spec,
/// and no status.
pub fn new_owned_pod(template: PodTemplateSpec, owner: ObjectReference) -> (pod: Pod)
    ensures
        pod.metadata.name == template.metadata.name,
        pod.metadata.uid == template.metadata.uid,
        pod.metadata.labels == template.metadata.labels,
        pod.metadata.owner_references@ == template.metadata.owner_references@.push(owner),
        pod.spec == template.spec,
        pod.status is None,
{
    let mut metadata = template.metadata;
    metadata.owner_references.push(owner);
    Pod { metadata, spec: template.spec, status: None }
}

/// Law: the pod chosen for deletion is in the earliest phase among the
/// pods, in the order failed, pending, running, succeeded: when some pod
/// has failed, a failed pod is chosen; otherwise, when some pod is pending,
/// a pending pod is chosen; otherwise, when some pod is running, a running
/// pod is chosen.
pub proof fn lemma_delete_earliest_phase(pods: Seq<Pod>, i: int, j: int)
    requires
        first_to_delete(pods, i),
        0 <= j < pods.len(),
        forall|k: int| 0 <= k < pods.len() ==> (#[trigger] pods[k]).status is Some,
    ensures
        pods[j].status->0.phase == PodPhase::Failed ==> pods[i].status->0.phase == PodPhase::Failed,
        pods[j].status->0.phase == PodPhase::Pending ==> (pods[i].status->0.phase == PodPhase::Failed
            || pods[i].status->0.phase == PodPhase::Pending),
        pods[j].status->0.phase == PodPhase::Running ==> pods[i].status->0.phase != PodPhase::Succeeded,
{
    assert(!deleted_before(pods[j], pods[i]));
}

/// Law: among pods of the same phase, a pod that is not ready is deleted
/// before a ready one.
pub proof fn lemma_delete_unready_first(pods: Seq<Pod>, i: int, j: int)
    requires
        first_to_delete(pods, i),
        0 <= j < pods.len(),
        forall|k: int| 0 <= k < pods.len() ==> (#[trigger] pods[k]).status is Some,
        pods[j].status->0.phase == pods[i].status->0.phase,
        !pod_ready(pods[j]),
    ensures
        !pod_ready(pods[i]),
{
    assert(!deleted_before(pods[j], pods[i]));
}

} // verus!
