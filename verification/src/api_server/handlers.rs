//! The decisions of the API server's handlers: kinds of stored objects,
//! bindings of pods to nodes, generated names and addresses, validation of
//! workflows, and the creation of functions.

use vstd::prelude::*;
use crate::ids::{is_lower_alnum, random_in_range, random_suffix, random_u8};
use crate::keyed::has_key;
use crate::models::{ErrResponse, Response, INTERNAL_SERVER_ERROR, NOT_FOUND};
use crate::models::etcd::WatchEvent;
use crate::net::Ipv4Addr;
use crate::objects::binding::Binding;
use crate::objects::pod::{PodCondition, PodConditionType};
use crate::objects::service::Service;
use crate::objects::workflow::{State, Workflow};
use crate::objects::{KubeObject, KubeResource, Object, resource_kind};
use crate::text::{ascii_lower, lower_char, push_str};

verus! {

/// An error of the key-value store, with its cause.
#[derive(Clone, Debug, PartialEq)]
pub struct EtcdError {
    pub msg: String,
    pub cause: Option<String>,
}

impl EtcdError {
    /// An error with a message and an optional cause.
    pub fn new(msg: String, cause: Option<String>) -> (r: Self)
        ensures
            r.msg == msg,
            r.cause == cause,
    {
        EtcdError { msg, cause }
    }
}

impl From<EtcdError> for ErrResponse {
    /// A store error as a reply: the message `Etcd Error` and no cause, which
    /// is not forwarded to clients.
    fn from(err: EtcdError) -> (r: ErrResponse)
        ensures
            r.msg@ == "Etcd Error"@,
            r.cause is None,
            r.status == INTERNAL_SERVER_ERROR,
    {
        ErrResponse { msg: crate::text::to_owned_string("Etcd Error"), cause: None, status: INTERNAL_SERVER_ERROR }
    }
}

/// `from_spec` names no reply: a `String` is known only by its view, so no
/// spec value can be the exact message; the `From` impl's own `ensures`
/// states the reply for every error.
impl vstd::std_specs::convert::FromSpecImpl<EtcdError> for ErrResponse {
    open spec fn obeys_from_spec() -> bool {
        false
    }

    open spec fn from_spec(v: EtcdError) -> ErrResponse {
        arbitrary()
    }
}

/// A store error as a reply (see the `From` impl): the message
/// `Etcd Error`, no cause, an internal server error.
pub fn etcd_err_response(err: EtcdError) -> (r: ErrResponse)
    ensures
        r.msg@ == "Etcd Error"@,
        r.cause is None,
        r.status == INTERNAL_SERVER_ERROR,
{
    ErrResponse::from(err)
}

/// What decoding bytes as UTF-8 gives: the text, or the text of the error.
pub uninterp spec fn utf8_decode(bytes: Seq<u8>) -> Result<Seq<char>, Seq<char>>;

/// Decodes bytes as UTF-8 (`std::str::from_utf8`), giving the text or the
/// `Display` text of the error. The contract names the result.
#[verifier::external_body]
fn decode_utf8(bytes: &Vec<u8>) -> (r: Result<String, String>)
    ensures
        match r {
            Ok(s) => utf8_decode(bytes@) == Ok::<Seq<char>, Seq<char>>(s@),
            Err(e) => utf8_decode(bytes@) == Err::<Seq<char>, Seq<char>>(e@),
        },
{
    match std::str::from_utf8(bytes.as_slice()) {
        Ok(s) => Ok(s.to_string()),
        Err(e) => Err(e.to_string()),
    }
}

/// The key and value of a stored pair as text. Fails, key first, when one
/// is not UTF-8, with the decoder's error as the cause.
pub fn kv_to_str(key: &Vec<u8>, value: &Vec<u8>) -> (r: Result<(String, String), EtcdError>)
    ensures
        match (utf8_decode(key@), utf8_decode(value@)) {
            (Ok(k), Ok(v)) => (r matches Ok((ks, vs)) && ks@ == k && vs@ == v),
            (Err(e), _) => (r matches Err(err) && err.msg@ == "Failed to convert key to String"@
                && (err.cause matches Some(c) && c@ == e)),
            (Ok(_), Err(e)) => (r matches Err(err) && err.msg@ == "Failed to convert value to String"@
                && (err.cause matches Some(c) && c@ == e)),
        },
{
    let k = match decode_utf8(key) {
        Ok(k) => k,
        Err(e) => {
            return Err(EtcdError::new(crate::text::to_owned_string("Failed to convert key to String"), Some(e)));
        },
    };
    let v = match decode_utf8(value) {
        Ok(v) => v,
        Err(e) => {
            return Err(EtcdError::new(crate::text::to_owned_string("Failed to convert value to String"), Some(e)));
        },
    };
    Ok((k, v))
}

/// The kind of a change that the store reports to a watch.
#[derive(Clone, Copy, Debug, PartialEq, Eq, Structural)]
pub enum StoreEventType {
    Put,
    Delete,
}

/// The event sent to a watching client for a change of the store at `key`:
/// the deletion of the key, or the put of `object` (the stored value,
/// decoded by the caller) under it. Fails when the key is not UTF-8.
pub fn watch_event<T>(kind: StoreEventType, key: &Vec<u8>, object: Option<T>) -> (r: Result<WatchEvent<T>, EtcdError>)
    requires
        kind == StoreEventType::Put ==> object is Some,
    ensures
        match utf8_decode(key@) {
            Err(e) => r matches Err(err) && err.msg@ == "Failed to convert key to String"@ && (err.cause matches Some(c)
                && c@ == e),
            Ok(k) => match kind {
                StoreEventType::Delete => r matches Ok(WatchEvent::Delete(d)) && d.key@ == k,
                StoreEventType::Put => r matches Ok(WatchEvent::Put(p)) && p.key@ == k && Some(p.object) == object,
            },
        },
{
    let k = match decode_utf8(key) {
        Ok(k) => k,
        Err(e) => {
            return Err(EtcdError::new(crate::text::to_owned_string("Failed to convert key to String"), Some(e)));
        },
    };
    match kind {
        StoreEventType::Delete => Ok(WatchEvent::new_delete(k)),
        StoreEventType::Put => match object {
            Some(o) => Ok(WatchEvent::new_put(k, o)),
            None => Ok(WatchEvent::new_delete(k)),
        },
    }
}

/// The value of the first of the pairs a read gave, as text. Fails as not
/// found when there is none, and as a store error when it is not UTF-8.
pub fn get_value_str(kvs: &Vec<(Vec<u8>, Vec<u8>)>) -> (r: Result<String, ErrResponse>)
    ensures
        kvs@.len() == 0 ==> (r matches Err(e) && e.status == NOT_FOUND && e.msg@ == "value doesn't exist"@
            && e.cause is None),
        kvs@.len() > 0 ==> match (utf8_decode(kvs@[0].0@), utf8_decode(kvs@[0].1@)) {
            (Ok(_), Ok(v)) => (r matches Ok(s) && s@ == v),
            _ => (r matches Err(e) && e.status == INTERNAL_SERVER_ERROR && e.msg@ == "Etcd Error"@),
        },
{
    if kvs.len() == 0 {
        return Err(ErrResponse::not_found(crate::text::to_owned_string("value doesn't exist"), None));
    }
    match kv_to_str(&kvs[0].0, &kvs[0].1) {
        Ok((_, v)) => Ok(v),
        Err(e) => Err(etcd_err_response(e)),
    }
}

/// Whether two texts are equal when ASCII letters are compared without
/// case (`str::eq_ignore_ascii_case`).
pub open spec fn eq_ignore_case(a: Seq<char>, b: Seq<char>) -> bool {
    a.len() == b.len() && forall|i: int| 0 <= i < a.len() ==> ascii_lower(#[trigger] a[i]) == ascii_lower(b[i])
}

/// Whether two texts are equal when ASCII letters are compared without case.
pub fn eq_ignore_ascii_case(a: &str, b: &str) -> (r: bool)
    ensures
        r == eq_ignore_case(a@, b@),
{
    let av = crate::text::chars_of(a);
    let bv = crate::text::chars_of(b);
    if av.len() != bv.len() {
        return false;
    }
    let mut i: usize = 0;
    while i < av.len()
        invariant
            i <= av@.len(),
            av@ == a@,
            bv@ == b@,
            av@.len() == bv@.len(),
            forall|j: int| 0 <= j < i ==> ascii_lower(#[trigger] av@[j]) == ascii_lower(bv@[j]),
        decreases av.len() - i,
    {
        if lower_char(av[i]) != lower_char(bv[i]) {
            return false;
        }
        i = i + 1;
    }
    true
}

/// Checks that a stored object is of the expected kind, if one is expected.
pub fn check_object_kind(object: &KubeObject, kind: Option<&str>) -> (r: Result<(), ErrResponse>)
    ensures
        match kind {
            None => r is Ok,
            Some(k) => (r is Ok <==> eq_ignore_case(resource_kind(object.resource), k@)) && (r matches Err(e)
                ==> e.msg@ == "get object type error"@ && e.cause is None && e.status == INTERNAL_SERVER_ERROR),
        },
{
    match kind {
        None => Ok(()),
        Some(k) => {
            let object_kind = object.kind();
            if eq_ignore_ascii_case(object_kind.as_str(), k) {
                Ok(())
            } else {
                Err(ErrResponse::new(crate::text::to_owned_string("get object type error"), None))
            }
        },
    }
}

/// The listed objects, checked against the expected kind: with a kind, all
/// of them, failing at the first of another kind; with no kind, none.
pub fn objects_of_kind(objects: Vec<KubeObject>, kind: Option<&str>) -> (r: Result<Vec<KubeObject>, ErrResponse>)
    ensures
        kind is None ==> (r matches Ok(v) && v@.len() == 0),
        kind matches Some(k) ==> {
            &&& (r is Ok <==> forall|i: int| 0 <= i < objects@.len() ==> eq_ignore_case(
                resource_kind((#[trigger] objects@[i]).resource),
                k@,
            ))
            &&& r matches Ok(v) ==> v@ == objects@
            &&& r matches Err(e) ==> (e.msg@ == "There are some errors with the kind of objects"@
                && e.status == INTERNAL_SERVER_ERROR)
        },
{
    let k = match kind {
        None => return Ok(Vec::new()),
        Some(k) => k,
    };
    let mut result: Vec<KubeObject> = Vec::new();
    let mut rest = objects;
    let ghost all = rest@;
    let ghost mut i: int = 0;
    assert(all.skip(0) =~= all);
    assert(all.take(0) =~= Seq::<KubeObject>::empty());
    while rest.len() > 0
        invariant
            0 <= i <= all.len(),
            all == objects@,
            kind == Some(k),
            rest@ == all.skip(i),
            result@ == all.take(i),
            forall|j: int| 0 <= j < i ==> eq_ignore_case(resource_kind((#[trigger] all[j]).resource), k@),
        decreases rest.len(),
    {
        let object = rest.remove(0);
        proof {
            assert(object == all[i]);
            assert(rest@ =~= all.skip(i + 1));
        }
        let object_kind = object.kind();
        if !eq_ignore_ascii_case(object_kind.as_str(), k) {
            assert(!eq_ignore_case(resource_kind(all[i].resource), k@));
            let mut cause = crate::text::to_owned_string("expected: ");
            push_str(&mut cause, k);
            push_str(&mut cause, ", found: ");
            push_str(&mut cause, object_kind.as_str());
            return Err(
                ErrResponse::new(
                    crate::text::to_owned_string("There are some errors with the kind of objects"),
                    Some(cause),
                ),
            );
        }
        result.push(object);
        proof {
            assert(result@ =~= all.take(i + 1));
            i = i + 1;
        }
    }
    assert(all.take(i) =~= all);
    Ok(result)
}

/// `name`, a hyphen, and five random lowercase letters or digits.
pub fn unique_name(name: &str) -> (r: String)
    ensures
        r@.len() == name@.len() + 6,
        r@.subrange(0, name@.len() as int) == name@,
        r@[name@.len() as int] == '-',
        forall|i: int| name@.len() + 1 <= i < r@.len() ==> is_lower_alnum(#[trigger] r@[i]),
{
    let suffix = random_suffix();
    let mut r = crate::text::to_owned_string(name);
    crate::text::push_char(&mut r, '-');
    push_str(&mut r, suffix.as_str());
    proof {
        assert forall|i: int| name@.len() + 1 <= i < r@.len() implies is_lower_alnum(#[trigger] r@[i]) by {
            assert(r@[i] == suffix@[i - name@.len() - 1]);
        }
        assert(r@.subrange(0, name@.len() as int) =~= name@);
    }
    r
}

/// Five random lowercase letters or digits, then `.minik8s.com`.
pub fn gen_rand_host() -> (r: String)
    ensures
        r@.len() == 17,
        r@.subrange(5, 17) == ".minik8s.com"@,
        forall|i: int| 0 <= i < 5 ==> is_lower_alnum(#[trigger] r@[i]),
{
    let mut r = random_suffix();
    let ghost prefix = r@;
    proof {
        reveal_strlit(".minik8s.com");
    }
    push_str(&mut r, ".minik8s.com");
    assert(r@.subrange(5, 17) =~= ".minik8s.com"@);
    assert forall|i: int| 0 <= i < 5 implies is_lower_alnum(#[trigger] r@[i]) by {
        assert(r@[i] == prefix[i]);
    }
    r
}

/// A random address for a service: 172, then 16 to 31, then two random
/// octets.
pub fn candidate_service_ip() -> (ip: Ipv4Addr)
    ensures
        ip.a == 172,
        16 <= ip.b < 32,
{
    let b = random_in_range(16, 32);
    let c = random_u8();
    let d = random_u8();
    Ipv4Addr::new(172, b, c, d)
}

/// Takes an address for a service when no service has it yet; tells
/// whether it was taken.
pub fn claim_service_ip(pool: &mut Vec<Ipv4Addr>, ip: Ipv4Addr) -> (taken: bool)
    ensures
        taken == !old(pool)@.contains(ip),
        taken ==> final(pool)@ == old(pool)@.push(ip),
        !taken ==> final(pool)@ == old(pool)@,
{
    let mut i: usize = 0;
    while i < pool.len()
        invariant
            i <= pool@.len(),
            forall|j: int| 0 <= j < i ==> pool@[j] != ip,
        decreases pool.len() - i,
    {
        if pool[i] == ip {
            assert(pool@[i as int] == ip);
            return false;
        }
        i = i + 1;
    }
    pool.push(ip);
    true
}

/// Why a binding could not be applied.
#[derive(Clone, Copy, Debug, PartialEq, Eq, Structural)]
pub enum BindError {
    /// The payload is not a binding.
    NotBinding,
    /// The bind target is not a node.
    NotNode,
    /// The bound object is not a pod.
    NotPod,
}

/// Whether `o` is the pod object `pod_object` bound by `binding` to `node`:
/// scheduled, with the node's internal address as its host address and the
/// binding's target as its node, all else kept.
pub open spec fn pod_bound(binding: Binding, node: crate::objects::node::Node, pod_object: KubeObject, o: KubeObject) -> bool {
    pod_object.resource matches KubeResource::Pod(pod) && o.metadata == pod_object.metadata && (
    o.resource matches KubeResource::Pod(p2) && {
        let s = pod.status->0;
        let s2 = p2.status->0;
        &&& p2.metadata == pod.metadata
        &&& p2.spec == crate::objects::pod::PodSpec { node_name: Some(binding.target.name), ..pod.spec }
        &&& p2.status is Some
        &&& s2.conditions.condition_of(PodConditionType::PodScheduled) == Some(PodCondition { status: true })
        &&& forall|t: PodConditionType| t != PodConditionType::PodScheduled ==> s2.conditions.condition_of(t)
            == s.conditions.condition_of(t)
        &&& s2.host_ip == node.status.addresses.internal_ip
        &&& s2.phase == s.phase && s2.start_time == s.start_time && s2.pod_ip == s.pod_ip
        &&& s2.container_statuses == s.container_statuses
    })
}

/// The pod of `pod_object` bound to the node of `node_object` (see
/// [`pod_bound`]). The pod must have a status.
pub fn bind_pod(binding: &Binding, node_object: &KubeObject, pod_object: KubeObject) -> (r: Result<KubeObject, BindError>)
    requires
        pod_object.resource matches KubeResource::Pod(p) ==> p.status is Some,
    ensures
        !(node_object.resource is Node) ==> r == Err::<KubeObject, BindError>(BindError::NotNode),
        node_object.resource is Node && !(pod_object.resource is Pod) ==> r == Err::<KubeObject, BindError>(
            BindError::NotPod,
        ),
        node_object.resource matches KubeResource::Node(node) ==> (pod_object.resource is Pod ==> (r matches Ok(o)
            && pod_bound(*binding, node, pod_object, o))),
{
    let node = match &node_object.resource {
        KubeResource::Node(node) => node,
        _ => return Err(BindError::NotNode),
    };
    let metadata = pod_object.metadata;
    let mut pod = match pod_object.resource {
        KubeResource::Pod(pod) => pod,
        _ => return Err(BindError::NotPod),
    };
    let mut status = match pod.status {
        Some(s) => s,
        None => return Err(BindError::NotPod),
    };
    status.conditions.insert(PodConditionType::PodScheduled, PodCondition { status: true });
    status.host_ip = node.internal_ip();
    pod.status = Some(status);
    pod.spec.node_name = Some(binding.target.name.clone());
    Ok(KubeObject { metadata, resource: KubeResource::Pod(pod) })
}

/// Where the target node and the bound pod of a binding are stored: the
/// node named by its target, and the pod of the binding's own name.
pub fn bind_keys(binding: &Binding) -> (r: (String, String))
    ensures
        r.0@ == crate::objects::object_uri("nodes"@, binding.target.name@),
        r.1@ == crate::objects::object_uri("pods"@, binding.metadata.name@),
{
    (
        crate::objects::build_uri("nodes", binding.target.name.as_str()),
        crate::objects::build_uri("pods", binding.metadata.name.as_str()),
    )
}

/// Whether `e` is the error `bind error` with the given cause.
pub open spec fn is_bind_error(e: ErrResponse, cause: Seq<char>) -> bool {
    &&& e.msg@ == "bind error"@
    &&& e.cause matches Some(c) && c@ == cause
    &&& e.status == INTERNAL_SERVER_ERROR
}

/// A binding request: given the payload, the object stored as its target
/// node and the object stored as its pod, the pod to store back (bound, see
/// [`pod_bound`]) and the reply `bind successfully`. Fails with `bind
/// error`, naming the kind at fault, when the payload is not a binding, the
/// target is not a node, or the bound object is not a pod. The pod must
/// have a status.
pub fn bind(payload: &KubeObject, node_object: &KubeObject, pod_object: KubeObject) -> (r: Result<
    (KubeObject, Response<()>),
    ErrResponse,
>)
    requires
        pod_object.resource matches KubeResource::Pod(p) ==> p.status is Some,
    ensures
        !(payload.resource is Binding) ==> (r matches Err(e) && is_bind_error(
            e,
            "the kind of payload: "@ + resource_kind(payload.resource) + ", which is not binding"@,
        )),
        (payload.resource is Binding && !(node_object.resource is Node)) ==> (r matches Err(e) && is_bind_error(
            e,
            "Expecting bind target to be node kind, got "@ + resource_kind(node_object.resource),
        )),
        (payload.resource is Binding && node_object.resource is Node && !(pod_object.resource is Pod)) ==> (
        r matches Err(e) && is_bind_error(
            e,
            "the kind of object: "@ + resource_kind(pod_object.resource) + ", which is not pod"@,
        )),
        payload.resource matches KubeResource::Binding(b) ==> (node_object.resource matches KubeResource::Node(n) ==> (
        pod_object.resource is Pod ==> (r matches Ok((o, reply)) && pod_bound(b, n, pod_object, o) && (
        reply.msg matches Some(m) && m@ == "bind successfully"@) && reply.data is None))),
{
    let binding = match as_binding(payload) {
        Ok(b) => b,
        Err(_) => {
            let kind = payload.kind();
            let mut cause = crate::text::to_owned_string("the kind of payload: ");
            push_str(&mut cause, kind.as_str());
            push_str(&mut cause, ", which is not binding");
            return Err(ErrResponse::new(crate::text::to_owned_string("bind error"), Some(cause)));
        },
    };
    let node_kind = node_object.kind();
    let pod_kind = pod_object.kind();
    match bind_pod(binding, node_object, pod_object) {
        Ok(o) => Ok((o, Response::new(Some(crate::text::to_owned_string("bind successfully")), None))),
        Err(BindError::NotNode) => {
            let mut cause = crate::text::to_owned_string("Expecting bind target to be node kind, got ");
            push_str(&mut cause, node_kind.as_str());
            Err(ErrResponse::new(crate::text::to_owned_string("bind error"), Some(cause)))
        },
        Err(_) => {
            let mut cause = crate::text::to_owned_string("the kind of object: ");
            push_str(&mut cause, pod_kind.as_str());
            push_str(&mut cause, ", which is not pod");
            Err(ErrResponse::new(crate::text::to_owned_string("bind error"), Some(cause)))
        },
    }
}

/// The binding in a payload.
pub fn as_binding(payload: &KubeObject) -> (r: Result<&Binding, BindError>)
    ensures
        match payload.resource {
            KubeResource::Binding(b) => r == Ok::<&Binding, BindError>(&b),
            _ => r == Err::<&Binding, BindError>(BindError::NotBinding),
        },
{
    match &payload.resource {
        KubeResource::Binding(b) => Ok(b),
        _ => Err(BindError::NotBinding),
    }
}

/// Why a workflow is not valid.
#[derive(Clone, Debug, PartialEq)]
pub enum WorkflowError {
    /// A task runs a function that does not exist.
    MissingFunction(String),
    /// A task goes on to a state that does not exist.
    MissingState(String),
}

/// Whether `name` is among the names.
pub open spec fn named_in(names: Seq<String>, name: Seq<char>) -> bool {
    exists|i: int| 0 <= i < names.len() && names[i]@ == name
}

/// The first problem of the states, in order: a task whose function is not
/// among `functions`, or a task whose next state is not a state.
pub open spec fn workflow_problem(
    states: Seq<(String, State)>,
    all: Seq<(String, State)>,
    functions: Seq<String>,
) -> Option<WorkflowError>
    decreases states.len(),
{
    if states.len() == 0 {
        None
    } else {
        match workflow_problem(states.drop_last(), all, functions) {
            Some(e) => Some(e),
            None => match states.last().1 {
                State::Task(task) => if !named_in(functions, task.resource@) {
                    Some(WorkflowError::MissingFunction(task.resource))
                } else {
                    match task.next {
                        Some(next) => if !has_key(all, next@) {
                            Some(WorkflowError::MissingState(next))
                        } else {
                            None
                        },
                        None => None,
                    }
                },
                State::Choice(_) => None,
            },
        }
    }
}

/// Whether `name` is among the names.
fn contains_name(names: &Vec<String>, name: &str) -> (r: bool)
    ensures
        r == named_in(names@, name@),
{
    let mut i: usize = 0;
    while i < names.len()
        invariant
            i <= names@.len(),
            forall|j: int| 0 <= j < i ==> names@[j]@ != name@,
        decreases names.len() - i,
    {
        if crate::text::str_eq(names[i].as_str(), name) {
            return true;
        }
        i = i + 1;
    }
    false
}

/// Checks the states of a workflow in order: each task must run one of the
/// `functions` that exist, and go on, if anywhere, to a state of the
/// workflow. Fails at the first problem (see [`workflow_problem`]).
pub fn validate_workflow(workflow: &Workflow, functions: &Vec<String>) -> (r: Result<(), WorkflowError>)
    ensures
        match workflow_problem(
            workflow.spec.states.entries_view(),
            workflow.spec.states.entries_view(),
            functions@,
        ) {
            None => r is Ok,
            Some(e) => r == Err::<(), WorkflowError>(e),
        },
{
    let states = &workflow.spec.states;
    let ghost all = states.entries_view();
    let mut i: usize = 0;
    assert(all.take(0) =~= Seq::<(String, State)>::empty());
    while i < states.len()
        invariant
            i <= all.len(),
            all == states.entries_view(),
            all == workflow.spec.states.entries_view(),
            workflow_problem(all.take(i as int), all, functions@) is None,
        decreases all.len() - i,
    {
        assert(all.take(i + 1).drop_last() =~= all.take(i as int));
        assert(all.take(i + 1).last() == all[i as int]);
        match states.value_at(i) {
            State::Task(task) => {
                if !contains_name(functions, task.resource.as_str()) {
                    proof {
                        lemma_problem_prefix(all, functions@, (i + 1) as int);
                    }
                    return Err(WorkflowError::MissingFunction(task.resource.clone()));
                }
                match &task.next {
                    Some(next) => {
                        if !states.contains_key(next.as_str()) {
                            proof {
                                lemma_problem_prefix(all, functions@, (i + 1) as int);
                            }
                            return Err(WorkflowError::MissingState(next.clone()));
                        }
                    },
                    None => {},
                }
            },
            State::Choice(_) => {},
        }
        i = i + 1;
    }
    assert(all.take(i as int) =~= all);
    Ok(())
}

/// Once a prefix of the states has a problem, the states have the same one.
proof fn lemma_problem_prefix(all: Seq<(String, State)>, functions: Seq<String>, k: int)
    requires
        0 < k <= all.len(),
        workflow_problem(all.take(k), all, functions) is Some,
    ensures
        workflow_problem(all, all, functions) == workflow_problem(all.take(k), all, functions),
    decreases all.len() - k,
{
    if k < all.len() {
        assert(all.take(k + 1).drop_last() =~= all.take(k));
        lemma_problem_prefix(all, functions, k + 1);
    } else {
        assert(all.take(k) =~= all);
    }
}

/// The part a field of a function creation request plays.
#[derive(Clone, Copy, Debug, PartialEq, Eq, Structural)]
pub enum FieldKind {
    /// The function object, as JSON.
    Function,
    /// The code archive.
    Code,
    /// Anything else, ignored.
    Other,
}

/// The part a field plays, by its name: `function`, `code`, or other.
pub fn classify_field(name: &str) -> (k: FieldKind)
    ensures
        name@ == "function"@ ==> k == FieldKind::Function,
        name@ == "code"@ ==> k == FieldKind::Code,
        name@ != "function"@ && name@ != "code"@ ==> k == FieldKind::Other,
{
    proof {
        reveal_strlit("function");
        reveal_strlit("code");
        assert("code"@.len() != "function"@.len());
    }
    if crate::text::str_eq(name, "function") {
        FieldKind::Function
    } else if crate::text::str_eq(name, "code") {
        FieldKind::Code
    } else {
        FieldKind::Other
    }
}

/// Whether a code file name is that of a zip archive.
pub fn is_zip_name(name: &str) -> (r: bool)
    ensures
        r == crate::text::ends_with(name@, ".zip"@),
{
    crate::text::str_ends_with(name, ".zip")
}

/// The name of an uploaded code file (empty when the upload names none),
/// accepted only for a zip archive; otherwise the bad request `Please
/// upload a zip file`.
pub fn code_file_name(file_name: Option<String>) -> (r: Result<String, ErrResponse>)
    ensures
        ({
            let name = match file_name {
                Some(n) => n@,
                None => Seq::<char>::empty(),
            };
            &&& crate::text::ends_with(name, ".zip"@) ==> (r matches Ok(n) && n@ == name)
            &&& !crate::text::ends_with(name, ".zip"@) ==> (r matches Err(e) && e.msg@ == "Please upload a zip file"@
                && e.cause is None && e.status == 400)
        }),
{
    let name = match file_name {
        Some(n) => n,
        None => String::new(),
    };
    if is_zip_name(name.as_str()) {
        Ok(name)
    } else {
        Err(ErrResponse::bad_request(crate::text::to_owned_string("Please upload a zip file"), None))
    }
}

/// The objects to store for a new function: its service, named after the
/// function with a random suffix and placed at `svc_ip`, and the function
/// itself, initialized to use that service and the code file. Fails as a
/// bad request when a field is missing, and when the payload is not a
/// function.
pub fn prepare_function(
    payload: Option<KubeObject>,
    filename: Option<String>,
    svc_ip: Ipv4Addr,
) -> (r: Result<(KubeObject, KubeObject), ErrResponse>)
    ensures
        payload is None ==> (r matches Err(e) && e.status == 400 && e.msg@ == "Function field is not presented"@),
        payload is Some && filename is None ==> (r matches Err(e) && e.status == 400 && e.msg@
            == "Code field is not presented"@),
        payload matches Some(p) ==> (filename is Some && !(p.resource is Function) ==> (r matches Err(e)
            && e.status == INTERNAL_SERVER_ERROR && e.msg@ == "Error creating function"@)),
        payload matches Some(p) ==> (filename matches Some(f) ==> (p.resource matches KubeResource::Function(func)
            ==> (r matches Ok((svc, fobj)) && {
            let name = func.metadata.name@;
            &&& (svc.resource matches KubeResource::Service(s) && s.metadata.name@.len() == name.len() + 11
                && s.metadata.name@.subrange(0, name.len() as int + 5) == "func-"@ + name
                && s.spec.cluster_ip == Some(svc_ip)
                && s.spec.selector@ == map![seq!['f', 'u', 'n', 'c'] => name]
                && svc.metadata.name == s.metadata.name)
            &&& fobj.metadata == p.metadata
            &&& (fobj.resource matches KubeResource::Function(f2) && f2.metadata.name == func.metadata.name
                && f2.metadata.uid is Some && f2.metadata.labels@ == map![
                seq!['f', 'u', 'n', 'c', 't', 'i', 'o', 'n'] => name
            ] && f2.metadata.owner_references == func.metadata.owner_references && f2.spec == func.spec && (
            f2.status matches Some(st) && st.filename == f && st.image is None && st.service_ref@ == svc.uri_view()
                && st.host@ == crate::objects::function::function_host(name)))
        }))),
{
    let payload = match payload {
        Some(p) => p,
        None => {
            return Err(ErrResponse::bad_request(crate::text::to_owned_string("Function field is not presented"), None));
        },
    };
    let filename = match filename {
        Some(f) => f,
        None => {
            return Err(ErrResponse::bad_request(crate::text::to_owned_string("Code field is not presented"), None));
        },
    };
    let metadata = payload.metadata;
    let mut function = match payload.resource {
        KubeResource::Function(f) => f,
        other => {
            let object = KubeObject { metadata, resource: other };
            let mut cause = crate::text::to_owned_string("Expecting function kind, got ");
            let kind = object.kind();
            push_str(&mut cause, kind.as_str());
            return Err(ErrResponse::new(crate::text::to_owned_string("Error creating function"), Some(cause)));
        },
    };
    let name = function.metadata.name.clone();
    let mut base = crate::text::to_owned_string("func-");
    push_str(&mut base, name.as_str());
    let svc_name = unique_name(base.as_str());
    let service = Service::from_function(svc_name.as_str(), name.as_str(), svc_ip);
    let svc_metadata = crate::objects::Metadata {
        name: service.metadata.name.clone(),
        uid: service.metadata.uid,
        labels: service.metadata.labels.copy(),
        owner_references: crate::copy::copy_vec(&service.metadata.owner_references),
    };
    let svc_object = KubeObject { metadata: svc_metadata, resource: KubeResource::Service(service) };
    let uri = svc_object.uri();
    function.init(uri, filename);
    proof {
        reveal_strlit("func-");
        assert(svc_name@.subrange(0, base@.len() as int) == base@);
    }
    Ok((svc_object, KubeObject { metadata, resource: KubeResource::Function(function) }))
}

/// The error when the image of the function `name` took too long.
pub fn image_timeout(name: &str) -> (e: ErrResponse)
    ensures
        e.msg@ == "Image creation for function "@ + name@ + " timed out"@,
        e.cause is None,
        e.status == INTERNAL_SERVER_ERROR,
{
    let mut msg = crate::text::to_owned_string("Image creation for function ");
    push_str(&mut msg, name);
    push_str(&mut msg, " timed out");
    ErrResponse::new(msg, None)
}

/// The keys to delete, in order, when the function `name` is deleted, given
/// the object stored under its key: its service (when it is a function with
/// a status), the replica set and the autoscaler of its name; the function's
/// own key is deleted last, by the caller, whose failure alone is reported.
pub fn function_dependents(stored: &KubeObject, name: &str) -> (keys: Vec<String>)
    ensures
        ({
            let rs = crate::objects::object_uri("replicasets"@, name@);
            let hpa = crate::objects::object_uri("horizontalpodautoscalers"@, name@);
            match stored.resource {
                KubeResource::Function(f) => match f.status {
                    Some(st) => keys@.map_values(|k: String| k@) == seq![st.service_ref@, rs, hpa],
                    None => keys@.map_values(|k: String| k@) == seq![rs, hpa],
                },
                _ => keys@.len() == 0,
            }
        }),
{
    let mut keys: Vec<String> = Vec::new();
    if let KubeResource::Function(f) = &stored.resource {
        if let Some(st) = &f.status {
            keys.push(st.service_ref.clone());
        }
        keys.push(crate::objects::build_uri("replicasets", name));
        keys.push(crate::objects::build_uri("horizontalpodautoscalers", name));
    }
    proof {
        let rs = crate::objects::object_uri("replicasets"@, name@);
        let hpa = crate::objects::object_uri("horizontalpodautoscalers"@, name@);
        match &stored.resource {
            KubeResource::Function(f) => match &f.status {
                Some(st) => {
                    assert(keys@.map_values(|k: String| k@) =~= seq![st.service_ref@, rs, hpa]);
                },
                None => {
                    assert(keys@.map_values(|k: String| k@) =~= seq![rs, hpa]);
                },
            },
            _ => {},
        }
    }
    keys
}

/// What to do after a poll for the image of a new function.
#[derive(Clone, Copy, Debug, PartialEq, Eq, Structural)]
pub enum PollAction {
    /// The image exists: the function is created.
    Done,
    /// Wait three seconds and poll again.
    Wait,
    /// Give up: the image took too long.
    TimedOut,
}

/// The polls after which creation gives up.
pub const MAX_POLLS: u32 = 60;

/// What to do after poll number `attempt` (from 0) fetched `object`: done
/// when it is a function with an image; otherwise give up after poll 60, and
/// wait before the next poll until then.
pub fn poll_step(attempt: u32, object: &KubeObject) -> (a: PollAction)
    requires
        object.resource matches KubeResource::Function(f) ==> f.status is Some,
    ensures
        (object.resource matches KubeResource::Function(f) && f.status->0.image is Some) ==> a == PollAction::Done,
        !(object.resource matches KubeResource::Function(f) && f.status->0.image is Some) ==> a == (if attempt
            == MAX_POLLS {
            PollAction::TimedOut
        } else {
            PollAction::Wait
        }),
{
    if let KubeResource::Function(f) = &object.resource {
        if let Some(status) = &f.status {
            if status.image.is_some() {
                return PollAction::Done;
            }
        }
    }
    if attempt == MAX_POLLS {
        PollAction::TimedOut
    } else {
        PollAction::Wait
    }
}

} // verus!
