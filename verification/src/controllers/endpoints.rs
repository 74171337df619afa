//! The decisions of the endpoints controller: which pod addresses each
//! service routes to, as pods come, change and go.

use vstd::prelude::*;
use crate::informer::Store;
use crate::net::Ipv4Addr;
use crate::objects::labels_match;
use crate::objects::pod::Pod;
use crate::objects::service::Service;

verus! {

/// What the endpoints controller is told to bring up to date.
#[derive(Clone, Copy, Debug, PartialEq, Eq, Structural)]
pub enum ResyncNtf {
    /// The pods were listed again.
    Pod,
    /// The services were listed again.
    Svc,
}

/// The address of a pod, once it has one.
pub open spec fn pod_ip(pod: Pod) -> Option<Ipv4Addr> {
    match pod.status {
        Some(s) => s.pod_ip,
        None => None,
    }
}

/// Whether the service routes to the pod: the pod has an address and the
/// service's selector matches the pod's labels.
pub open spec fn routes_to(svc: Service, pod: Pod) -> bool {
    pod_ip(pod) is Some && labels_match(svc.spec.selector, pod.metadata.labels)
}

/// The endpoints with `ip` added, unless it is there already.
pub open spec fn with_endpoint(eps: Seq<Ipv4Addr>, ip: Ipv4Addr) -> Seq<Ipv4Addr> {
    if eps.contains(ip) {
        eps
    } else {
        eps.push(ip)
    }
}

/// The endpoints without `ip`.
pub open spec fn without_endpoint(eps: Seq<Ipv4Addr>, ip: Ipv4Addr) -> Seq<Ipv4Addr> {
    eps.filter(|x: Ipv4Addr| x != ip)
}

/// The service with the given endpoints.
pub open spec fn with_endpoints(svc: Service, eps: Seq<Ipv4Addr>, v: Vec<Ipv4Addr>) -> Service
    recommends
        v@ == eps,
{
    Service { spec: crate::objects::service::ServiceSpec { endpoints: v, ..svc.spec }, ..svc }
}

/// Whether `ip` is in the vector.
pub fn contains_ip(eps: &Vec<Ipv4Addr>, ip: Ipv4Addr) -> (r: bool)
    ensures
        r == eps@.contains(ip),
{
    let mut i: usize = 0;
    while i < eps.len()
        invariant
            i <= eps@.len(),
            forall|j: int| 0 <= j < i ==> eps@[j] != ip,
        decreases eps.len() - i,
    {
        if eps[i] == ip {
            assert(eps@[i as int] == ip);
            return true;
        }
        i = i + 1;
    }
    false
}

/// Adds the pod's address to the service's endpoints, when the service
/// routes to the pod and the address is not there yet; tells whether the
/// service changed.
pub fn add_endpoint(svc: &mut Service, pod: &Pod) -> (changed: bool)
    ensures
        final(svc).metadata == old(svc).metadata,
        final(svc).spec.selector == old(svc).spec.selector,
        final(svc).spec.ports == old(svc).spec.ports,
        final(svc).spec.cluster_ip == old(svc).spec.cluster_ip,
        routes_to(*old(svc), *pod) ==> final(svc).spec.endpoints@ == with_endpoint(
            old(svc).spec.endpoints@,
            pod_ip(*pod)->0,
        ),
        !routes_to(*old(svc), *pod) ==> final(svc).spec.endpoints@ == old(svc).spec.endpoints@,
        changed == (routes_to(*old(svc), *pod) && !old(svc).spec.endpoints@.contains(pod_ip(*pod)->0)),
{
    let ip = match pod.get_ip() {
        Some(ip) => ip,
        None => return false,
    };
    if svc.spec.selector.matches(&pod.metadata.labels) && !contains_ip(&svc.spec.endpoints, ip) {
        svc.spec.endpoints.push(ip);
        true
    } else {
        false
    }
}

/// Removes the pod's address from the service's endpoints, when the
/// service routes to the pod and has the address; tells whether the service
/// changed.
pub fn del_endpoint(svc: &mut Service, pod: &Pod) -> (changed: bool)
    ensures
        final(svc).metadata == old(svc).metadata,
        final(svc).spec.selector == old(svc).spec.selector,
        final(svc).spec.ports == old(svc).spec.ports,
        final(svc).spec.cluster_ip == old(svc).spec.cluster_ip,
        changed == (routes_to(*old(svc), *pod) && old(svc).spec.endpoints@.contains(pod_ip(*pod)->0)),
        changed ==> final(svc).spec.endpoints@ == without_endpoint(old(svc).spec.endpoints@, pod_ip(*pod)->0),
        !changed ==> final(svc).spec.endpoints@ == old(svc).spec.endpoints@,
{
    let ip = match pod.get_ip() {
        Some(ip) => ip,
        None => return false,
    };
    if svc.spec.selector.matches(&pod.metadata.labels) && contains_ip(&svc.spec.endpoints, ip) {
        let ghost old_eps = svc.spec.endpoints@;
        let ghost f = |x: Ipv4Addr| x != ip;
        let mut kept: Vec<Ipv4Addr> = Vec::new();
        let mut i: usize = 0;
        proof {
            reveal(Seq::filter);
        }
        assert(old_eps.take(0).filter(f) =~= Seq::<Ipv4Addr>::empty());
        while i < svc.spec.endpoints.len()
            invariant
                i <= old_eps.len(),
                old_eps == svc.spec.endpoints@,
                f == (|x: Ipv4Addr| x != ip),
                kept@ == old_eps.take(i as int).filter(f),
            decreases old_eps.len() - i,
        {
            let x = svc.spec.endpoints[i];
            proof {
                reveal(Seq::filter);
                let s = old_eps.take(i + 1);
                assert(s.drop_last() =~= old_eps.take(i as int));
                assert(s.last() == x);
                assert(s.len() == i + 1);
            }
            if x != ip {
                kept.push(x);
            }
            i = i + 1;
        }
        assert(old_eps.take(i as int) =~= old_eps);
        proof {
            assert(ip == pod_ip(*pod)->0);
            assert(f =~= (|x: Ipv4Addr| x != pod_ip(*pod)->0));
        }
        svc.spec.endpoints = kept;
        true
    } else {
        false
    }
}

/// The addresses of the pods that the service routes to, each once, in the
/// order of the pods.
pub open spec fn routed_ips(svc: Service, pods: Seq<Pod>) -> Seq<Ipv4Addr>
    decreases pods.len(),
{
    if pods.len() == 0 {
        Seq::empty()
    } else {
        let prev = routed_ips(svc, pods.drop_last());
        if routes_to(svc, pods.last()) {
            with_endpoint(prev, pod_ip(pods.last())->0)
        } else {
            prev
        }
    }
}

/// The addresses of the pods that the service routes to, in the order of the
/// pods, repeated when pods share one.
pub open spec fn all_routed_ips(svc: Service, pods: Seq<Pod>) -> Seq<Ipv4Addr>
    decreases pods.len(),
{
    if pods.len() == 0 {
        Seq::empty()
    } else {
        let prev = all_routed_ips(svc, pods.drop_last());
        if routes_to(svc, pods.last()) {
            prev.push(pod_ip(pods.last())->0)
        } else {
            prev
        }
    }
}

/// Whether two lists of endpoints hold the same addresses.
pub open spec fn same_endpoints(a: Seq<Ipv4Addr>, b: Seq<Ipv4Addr>) -> bool {
    a.to_set() == b.to_set()
}

/// Sets the service's endpoints to the addresses of the pods it routes to,
/// when they are not already the same addresses; tells whether the service
/// changed.
pub fn resync_endpoints(svc: &mut Service, pods: &Store<Pod>) -> (changed: bool)
    ensures
        final(svc).metadata == old(svc).metadata,
        final(svc).spec.selector == old(svc).spec.selector,
        final(svc).spec.ports == old(svc).spec.ports,
        final(svc).spec.cluster_ip == old(svc).spec.cluster_ip,
        changed == !same_endpoints(old(svc).spec.endpoints@, routed_ips(*old(svc), pods.values())),
        changed ==> final(svc).spec.endpoints@ == routed_ips(*old(svc), pods.values()),
        !changed ==> final(svc).spec.endpoints@ == old(svc).spec.endpoints@,
{
    let ghost pv = pods.values();
    let mut new_eps: Vec<Ipv4Addr> = Vec::new();
    let mut i: usize = 0;
    assert(pv.take(0) =~= Seq::<Pod>::empty());
    while i < pods.len()
        invariant
            i <= pv.len(),
            pv == pods.values(),
            new_eps@ == routed_ips(*svc, pv.take(i as int)),
        decreases pv.len() - i,
    {
        assert(pv.take(i + 1).drop_last() =~= pv.take(i as int));
        assert(pv.take(i + 1).last() == pv[i as int]);
        let pod = pods.value_at(i);
        if let Some(ip) = pod.get_ip() {
            if svc.spec.selector.matches(&pod.metadata.labels) && !contains_ip(&new_eps, ip) {
                new_eps.push(ip);
            }
        }
        i = i + 1;
    }
    assert(pv.take(i as int) =~= pv);
    let same = same_addresses(&svc.spec.endpoints, &new_eps);
    if !same {
        svc.spec.endpoints = new_eps;
        true
    } else {
        false
    }
}

/// Whether two lists of addresses hold the same addresses.
fn same_addresses(a: &Vec<Ipv4Addr>, b: &Vec<Ipv4Addr>) -> (r: bool)
    ensures
        r == same_endpoints(a@, b@),
{
    let mut i: usize = 0;
    while i < a.len()
        invariant
            i <= a@.len(),
            forall|j: int| 0 <= j < i ==> b@.contains(#[trigger] a@[j]),
        decreases a.len() - i,
    {
        if !contains_ip(b, a[i]) {
            proof {
                assert(a@.to_set().contains(a@[i as int]));
                assert(!b@.to_set().contains(a@[i as int]));
            }
            return false;
        }
        i = i + 1;
    }
    let mut k: usize = 0;
    while k < b.len()
        invariant
            k <= b@.len(),
            forall|j: int| 0 <= j < a@.len() ==> b@.contains(#[trigger] a@[j]),
            forall|j: int| 0 <= j < k ==> a@.contains(#[trigger] b@[j]),
        decreases b.len() - k,
    {
        if !contains_ip(a, b[k]) {
            proof {
                assert(b@.to_set().contains(b@[k as int]));
                assert(!a@.to_set().contains(b@[k as int]));
            }
            return false;
        }
        k = k + 1;
    }
    proof {
        assert forall|x: Ipv4Addr| a@.to_set().contains(x) == b@.to_set().contains(x) by {
            if a@.contains(x) {
                let j = choose|j: int| 0 <= j < a@.len() && a@[j] == x;
                assert(b@.contains(a@[j]));
            }
            if b@.contains(x) {
                let j = choose|j: int| 0 <= j < b@.len() && b@[j] == x;
                assert(a@.contains(b@[j]));
            }
        }
        assert(a@.to_set() =~= b@.to_set());
    }
    true
}

/// Appends the address of every pod that the service routes to, in order
/// (a pod's address is appended even when the service has it); tells
/// whether any was appended.
pub fn add_enpoints(svc: &mut Service, pods: &Store<Pod>) -> (changed: bool)
    ensures
        final(svc).metadata == old(svc).metadata,
        final(svc).spec.selector == old(svc).spec.selector,
        final(svc).spec.ports == old(svc).spec.ports,
        final(svc).spec.cluster_ip == old(svc).spec.cluster_ip,
        final(svc).spec.endpoints@ == old(svc).spec.endpoints@ + all_routed_ips(*old(svc), pods.values()),
        changed == (all_routed_ips(*old(svc), pods.values()).len() > 0),
{
    let ghost pv = pods.values();
    let ghost start = svc.spec.endpoints@;
    let ghost s0 = *svc;
    let start_len = svc.spec.endpoints.len();
    let mut i: usize = 0;
    assert(pv.take(0) =~= Seq::<Pod>::empty());
    assert(start + all_routed_ips(s0, pv.take(0)) =~= start);
    while i < pods.len()
        invariant
            i <= pv.len(),
            pv == pods.values(),
            svc.metadata == s0.metadata,
            svc.spec.selector == s0.spec.selector,
            svc.spec.ports == s0.spec.ports,
            svc.spec.cluster_ip == s0.spec.cluster_ip,
            start == s0.spec.endpoints@,
            svc.spec.endpoints@ == start + all_routed_ips(s0, pv.take(i as int)),
        decreases pv.len() - i,
    {
        assert(pv.take(i + 1).drop_last() =~= pv.take(i as int));
        assert(pv.take(i + 1).last() == pv[i as int]);
        let pod = pods.value_at(i);
        if let Some(ip) = pod.get_ip() {
            if svc.spec.selector.matches(&pod.metadata.labels) {
                svc.spec.endpoints.push(ip);
            }
        }
        assert(svc.spec.endpoints@ =~= start + all_routed_ips(s0, pv.take(i + 1)));
        i = i + 1;
    }
    assert(pv.take(i as int) =~= pv);
    svc.spec.endpoints.len() > start_len
}

/// A stand-in service, held in a store's place while the real one is
/// being changed.
fn placeholder() -> (s: Service)
    ensures
        s.metadata.name@.len() == 0,
        s.metadata.uid is None,
        s.metadata.labels@ == Map::<Seq<char>, Seq<char>>::empty(),
        s.metadata.owner_references@.len() == 0,
        s.spec.selector@ == Map::<Seq<char>, Seq<char>>::empty(),
        s.spec.ports@.len() == 0,
        s.spec.endpoints@.len() == 0,
        s.spec.cluster_ip is None,
{
    Service {
        metadata: crate::objects::Metadata::default(),
        spec: crate::objects::service::ServiceSpec {
            selector: crate::objects::Labels::new(),
            ports: Vec::new(),
            endpoints: Vec::new(),
            cluster_ip: None,
        },
    }
}

/// Whether the services `after` are the services `before` with the pod's
/// address added to each that routes to it and lacks it, in place; and
/// `changed` holds the positions of those services.
pub open spec fn endpoint_added(
    before: Seq<(String, Service)>,
    after: Seq<(String, Service)>,
    pod: Pod,
    changed: Seq<usize>,
) -> bool {
    &&& after.len() == before.len()
    &&& forall|k: int| 0 <= k < before.len() ==> {
        let (key, s) = #[trigger] before[k];
        &&& after[k].0 == key
        &&& after[k].1.metadata == s.metadata
        &&& after[k].1.spec.selector == s.spec.selector
        &&& routes_to(s, pod) ==> after[k].1.spec.endpoints@ == with_endpoint(s.spec.endpoints@, pod_ip(pod)->0)
        &&& !routes_to(s, pod) ==> after[k].1.spec.endpoints@ == s.spec.endpoints@
        &&& changed.contains(k as usize) == (routes_to(s, pod) && !s.spec.endpoints@.contains(pod_ip(pod)->0))
    }
    &&& forall|j: int| 0 <= j < changed.len() ==> changed[j] < before.len()
}

/// Whether the services `after` are the services `before` with the pod's
/// address removed from each that routes to it and has it, in place; and
/// `changed` holds the positions of those services.
pub open spec fn endpoint_removed(
    before: Seq<(String, Service)>,
    after: Seq<(String, Service)>,
    pod: Pod,
    changed: Seq<usize>,
) -> bool {
    &&& after.len() == before.len()
    &&& forall|k: int| 0 <= k < before.len() ==> {
        let (key, s) = #[trigger] before[k];
        let removes = routes_to(s, pod) && s.spec.endpoints@.contains(pod_ip(pod)->0);
        &&& after[k].0 == key
        &&& after[k].1.metadata == s.metadata
        &&& after[k].1.spec.selector == s.spec.selector
        &&& removes ==> after[k].1.spec.endpoints@ == without_endpoint(s.spec.endpoints@, pod_ip(pod)->0)
        &&& !removes ==> after[k].1.spec.endpoints@ == s.spec.endpoints@
        &&& changed.contains(k as usize) == removes
    }
    &&& forall|j: int| 0 <= j < changed.len() ==> changed[j] < before.len()
}

/// Adds the pod's address to every service of the store that routes to it
/// and lacks it (see [`add_endpoint`]); gives the positions of the services
/// that changed, in order.
pub fn add_svc_endpoint(store: &mut Store<Service>, pod: &Pod) -> (changed: Vec<usize>)
    ensures
        old(store).wf() ==> final(store).wf(),
        endpoint_added(old(store).entries(), final(store).entries(), *pod, changed@),
{
    let ghost e0 = store.entries();
    let mut changed: Vec<usize> = Vec::new();
    let mut i: usize = 0;
    while i < store.len()
        invariant
            i <= e0.len(),
            store.entries().len() == e0.len(),
            e0 == old(store).entries(),
            old(store).wf() ==> store.wf(),
            forall|k: int| i <= k < e0.len() ==> store.entries()[k] == e0[k],
            forall|j: int| 0 <= j < changed@.len() ==> changed@[j] < i,
            forall|k: int| 0 <= k < i ==> {
                let (key, s) = #[trigger] e0[k];
                &&& store.entries()[k].0 == key
                &&& store.entries()[k].1.metadata == s.metadata
                &&& store.entries()[k].1.spec.selector == s.spec.selector
                &&& routes_to(s, *pod) ==> store.entries()[k].1.spec.endpoints@ == with_endpoint(
                    s.spec.endpoints@,
                    pod_ip(*pod)->0,
                )
                &&& !routes_to(s, *pod) ==> store.entries()[k].1.spec.endpoints@ == s.spec.endpoints@
                &&& changed@.contains(k as usize) == (routes_to(s, *pod) && !s.spec.endpoints@.contains(
                    pod_ip(*pod)->0,
                ))
            },
        decreases e0.len() - i,
    {
        let mut svc = store.replace_at(i, placeholder());
        let did = add_endpoint(&mut svc, pod);
        store.replace_at(i, svc);
        let ghost before = changed@;
        if did {
            changed.push(i);
        }
        proof {
            assert forall|k: int| 0 <= k < i + 1 implies #[trigger] changed@.contains(k as usize) == (before.contains(k as usize)
                || (k == i && did)) by {
                if changed@.contains(k as usize) {
                    let j = choose|j: int| 0 <= j < changed@.len() && changed@[j] == k as usize;
                    if j < before.len() {
                        assert(before[j] == changed@[j]);
                    }
                }
                if before.contains(k as usize) {
                    let j = choose|j: int| 0 <= j < before.len() && before[j] == k as usize;
                    assert(changed@[j] == before[j]);
                }
                if k == i && did {
                    assert(changed@[changed@.len() - 1] == i);
                }
            }
            assert(!before.contains(i as usize)) by {
                if before.contains(i as usize) {
                    let j = choose|j: int| 0 <= j < before.len() && before[j] == i as usize;
                }
            }
        }
        i = i + 1;
    }
    changed
}

/// Removes the pod's address from every service of the store that routes to
/// it and has it (see [`del_endpoint`]); gives the positions of the services
/// that changed, in order.
pub fn del_svc_endpoint(store: &mut Store<Service>, pod: &Pod) -> (changed: Vec<usize>)
    ensures
        old(store).wf() ==> final(store).wf(),
        endpoint_removed(old(store).entries(), final(store).entries(), *pod, changed@),
{
    let ghost e0 = store.entries();
    let mut changed: Vec<usize> = Vec::new();
    let mut i: usize = 0;
    while i < store.len()
        invariant
            i <= e0.len(),
            store.entries().len() == e0.len(),
            e0 == old(store).entries(),
            old(store).wf() ==> store.wf(),
            forall|k: int| i <= k < e0.len() ==> store.entries()[k] == e0[k],
            forall|j: int| 0 <= j < changed@.len() ==> changed@[j] < i,
            forall|k: int| 0 <= k < i ==> {
                let (key, s) = #[trigger] e0[k];
                let removes = routes_to(s, *pod) && s.spec.endpoints@.contains(pod_ip(*pod)->0);
                &&& store.entries()[k].0 == key
                &&& store.entries()[k].1.metadata == s.metadata
                &&& store.entries()[k].1.spec.selector == s.spec.selector
                &&& removes ==> store.entries()[k].1.spec.endpoints@ == without_endpoint(
                    s.spec.endpoints@,
                    pod_ip(*pod)->0,
                )
                &&& !removes ==> store.entries()[k].1.spec.endpoints@ == s.spec.endpoints@
                &&& changed@.contains(k as usize) == removes
            },
        decreases e0.len() - i,
    {
        let mut svc = store.replace_at(i, placeholder());
        let did = del_endpoint(&mut svc, pod);
        store.replace_at(i, svc);
        let ghost before = changed@;
        if did {
            changed.push(i);
        }
        proof {
            assert forall|k: int| 0 <= k < i + 1 implies #[trigger] changed@.contains(k as usize) == (before.contains(k as usize)
                || (k == i && did)) by {
                if changed@.contains(k as usize) {
                    let j = choose|j: int| 0 <= j < changed@.len() && changed@[j] == k as usize;
                    if j < before.len() {
                        assert(before[j] == changed@[j]);
                    }
                }
                if before.contains(k as usize) {
                    let j = choose|j: int| 0 <= j < before.len() && before[j] == k as usize;
                    assert(changed@[j] == before[j]);
                }
                if k == i && did {
                    assert(changed@[changed@.len() - 1] == i);
                }
            }
            assert(!before.contains(i as usize)) by {
                if before.contains(i as usize) {
                    let j = choose|j: int| 0 <= j < before.len() && before[j] == i as usize;
                }
            }
        }
        i = i + 1;
    }
    changed
}

/// Brings every stored service's endpoints up to date with the stored pods
/// (see [`resync_endpoints`]); gives the positions of the services that
/// changed, in order.
pub fn resync_services(services: &mut Store<Service>, pods: &Store<Pod>) -> (changed: Vec<usize>)
    ensures
        old(services).wf() ==> final(services).wf(),
        final(services).entries().len() == old(services).entries().len(),
        forall|k: int| 0 <= k < old(services).entries().len() ==> {
            let (key, s) = #[trigger] old(services).entries()[k];
            let fresh = routed_ips(s, pods.values());
            let differs = !same_endpoints(s.spec.endpoints@, fresh);
            &&& final(services).entries()[k].0 == key
            &&& final(services).entries()[k].1.metadata == s.metadata
            &&& final(services).entries()[k].1.spec.selector == s.spec.selector
            &&& differs ==> final(services).entries()[k].1.spec.endpoints@ == fresh
            &&& !differs ==> final(services).entries()[k].1.spec.endpoints@ == s.spec.endpoints@
            &&& changed@.contains(k as usize) == differs
        },
{
    let ghost e0 = services.entries();
    let mut changed: Vec<usize> = Vec::new();
    let mut i: usize = 0;
    while i < services.len()
        invariant
            i <= e0.len(),
            services.entries().len() == e0.len(),
            e0 == old(services).entries(),
            old(services).wf() ==> services.wf(),
            forall|k: int| i <= k < e0.len() ==> services.entries()[k] == e0[k],
            forall|j: int| 0 <= j < changed@.len() ==> changed@[j] < i,
            forall|k: int| 0 <= k < i ==> {
                let (key, s) = #[trigger] e0[k];
                let fresh = routed_ips(s, pods.values());
                let differs = !same_endpoints(s.spec.endpoints@, fresh);
                &&& services.entries()[k].0 == key
                &&& services.entries()[k].1.metadata == s.metadata
                &&& services.entries()[k].1.spec.selector == s.spec.selector
                &&& differs ==> services.entries()[k].1.spec.endpoints@ == fresh
                &&& !differs ==> services.entries()[k].1.spec.endpoints@ == s.spec.endpoints@
                &&& changed@.contains(k as usize) == differs
            },
        decreases e0.len() - i,
    {
        let mut svc = services.replace_at(i, placeholder());
        let did = resync_endpoints(&mut svc, pods);
        services.replace_at(i, svc);
        let ghost before = changed@;
        if did {
            changed.push(i);
        }
        proof {
            assert forall|k: int| 0 <= k < i + 1 implies #[trigger] changed@.contains(k as usize) == (before.contains(k as usize)
                || (k == i && did)) by {
                if changed@.contains(k as usize) {
                    let j = choose|j: int| 0 <= j < changed@.len() && changed@[j] == k as usize;
                    if j < before.len() {
                        assert(before[j] == changed@[j]);
                    }
                }
                if before.contains(k as usize) {
                    let j = choose|j: int| 0 <= j < before.len() && before[j] == k as usize;
                    assert(changed@[j] == before[j]);
                }
                if k == i && did {
                    assert(changed@[changed@.len() - 1] == i);
                }
            }
            assert(!before.contains(i as usize)) by {
                if before.contains(i as usize) {
                    let j = choose|j: int| 0 <= j < before.len() && before[j] == i as usize;
                }
            }
        }
        i = i + 1;
    }
    changed
}

/// A change of a pod, as the endpoints controller is told of it.
#[derive(Clone, Debug, PartialEq)]
pub enum PodNtf {
    Add(Pod),
    /// The old pod and the new one.
    Update(Pod, Pod),
    Delete(Pod),
}

/// A change of a service, as the endpoints controller is told of it.
#[derive(Clone, Debug, PartialEq)]
pub enum ServiceNtf {
    Add(Service),
}

/// What the endpoints controller is told.
#[derive(Clone, Debug, PartialEq)]
pub enum Notification {
    Pod(PodNtf),
    Service(ServiceNtf),
}

/// Whether two pods have the same address (or both none).
fn same_ip(a: &Pod, b: &Pod) -> (r: bool)
    ensures
        r == (pod_ip(*a) == pod_ip(*b)),
{
    match (a.get_ip(), b.get_ip()) {
        (Some(x), Some(y)) => x == y,
        (None, None) => true,
        _ => false,
    }
}

/// Brings the endpoints up to date after a notification: a new pod's address
/// is added to the stored services that route to it; a deleted pod's address
/// is removed from them; a pod whose address changed has its old address
/// removed, then its new one added; a new service gets the addresses of the
/// stored pods that it routes to. Gives the positions of the stored services
/// that changed, once per change (removals first), and the new service when
/// it changed.
pub fn handle_notification(pods: &Store<Pod>, services: &mut Store<Service>, n: Notification) -> (r: (
    Vec<usize>,
    Option<Service>,
))
    ensures
        old(services).wf() ==> final(services).wf(),
        match n {
            Notification::Pod(PodNtf::Add(p)) => endpoint_added(
                old(services).entries(),
                final(services).entries(),
                p,
                r.0@,
            ) && r.1 is None,
            Notification::Pod(PodNtf::Delete(p)) => endpoint_removed(
                old(services).entries(),
                final(services).entries(),
                p,
                r.0@,
            ) && r.1 is None,
            Notification::Pod(PodNtf::Update(o, p)) => r.1 is None && if pod_ip(o) != pod_ip(p) {
                exists|mid: Seq<(String, Service)>, c1: Seq<usize>, c2: Seq<usize>|
                    #![trigger endpoint_removed(old(services).entries(), mid, o, c1), endpoint_added(mid, final(services).entries(), p, c2)]
                    endpoint_removed(old(services).entries(), mid, o, c1) && endpoint_added(
                        mid,
                        final(services).entries(),
                        p,
                        c2,
                    ) && r.0@ == c1 + c2
            } else {
                final(services).entries() == old(services).entries() && r.0@.len() == 0
            },
            Notification::Service(ServiceNtf::Add(s)) => {
                let added = all_routed_ips(s, pods.values());
                &&& final(services).entries() == old(services).entries()
                &&& r.0@.len() == 0
                &&& (r.1 is Some <==> added.len() > 0)
                &&& r.1 matches Some(s2) ==> s2.metadata == s.metadata && s2.spec.selector == s.spec.selector
                    && s2.spec.ports == s.spec.ports && s2.spec.cluster_ip == s.spec.cluster_ip
                    && s2.spec.endpoints@ == s.spec.endpoints@ + added
            },
        },
{
    match n {
        Notification::Pod(PodNtf::Add(p)) => (add_svc_endpoint(services, &p), None),
        Notification::Pod(PodNtf::Delete(p)) => (del_svc_endpoint(services, &p), None),
        Notification::Pod(PodNtf::Update(o, p)) => {
            if same_ip(&o, &p) {
                (Vec::new(), None)
            } else {
                let ghost e0 = services.entries();
                let mut c1 = del_svc_endpoint(services, &o);
                let ghost mid = services.entries();
                let ghost s1 = c1@;
                let mut c2 = add_svc_endpoint(services, &p);
                let ghost s2 = c2@;
                c1.append(&mut c2);
                assert(endpoint_removed(e0, mid, o, s1) && endpoint_added(mid, services.entries(), p, s2));
                (c1, None)
            }
        },
        Notification::Service(ServiceNtf::Add(mut s)) => {
            if add_enpoints(&mut s, pods) {
                (Vec::new(), Some(s))
            } else {
                (Vec::new(), None)
            }
        },
    }
}

/// Law: adding an address that a service lacks and then removing it gives
/// the endpoints back.
pub proof fn lemma_del_undoes_add(eps: Seq<Ipv4Addr>, ip: Ipv4Addr)
    requires
        !eps.contains(ip),
    ensures
        without_endpoint(with_endpoint(eps, ip), ip) == eps,
{
    reveal(Seq::filter);
    let p = eps.push(ip);
    assert(p.drop_last() =~= eps);
    assert(p.last() == ip);
    assert(without_endpoint(p, ip) == without_endpoint(eps, ip));
    lemma_filter_unchanged(eps, ip);
}

/// Without `ip`, removing `ip` changes nothing.
proof fn lemma_filter_unchanged(eps: Seq<Ipv4Addr>, ip: Ipv4Addr)
    requires
        !eps.contains(ip),
    ensures
        without_endpoint(eps, ip) == eps,
    decreases eps.len(),
{
    reveal(Seq::filter);
    if eps.len() > 0 {
        let d = eps.drop_last();
        assert(!d.contains(ip)) by {
            if d.contains(ip) {
                let j = choose|j: int| 0 <= j < d.len() && d[j] == ip;
                assert(eps[j] == ip);
            }
        }
        lemma_filter_unchanged(d, ip);
        assert(eps.last() != ip) by {
            assert(eps[eps.len() - 1] == eps.last());
        }
        assert(without_endpoint(eps, ip) == without_endpoint(d, ip).push(eps.last()));
        assert(d.push(eps.last()) =~= eps);
    } else {
        assert(without_endpoint(eps, ip) == eps);
    }
}

/// Law: adding an address twice is adding it once.
pub proof fn lemma_add_endpoint_idempotent(eps: Seq<Ipv4Addr>, ip: Ipv4Addr)
    ensures
        with_endpoint(with_endpoint(eps, ip), ip) == with_endpoint(eps, ip),
{
    if !eps.contains(ip) {
        assert(eps.push(ip)[eps.len() as int] == ip);
    }
}

/// Law: adding an address keeps endpoints free of repetitions.
pub proof fn lemma_add_endpoint_distinct(eps: Seq<Ipv4Addr>, ip: Ipv4Addr)
    requires
        eps.no_duplicates(),
    ensures
        with_endpoint(eps, ip).no_duplicates(),
        with_endpoint(eps, ip).contains(ip),
{
    if !eps.contains(ip) {
        let r = eps.push(ip);
        assert(r[eps.len() as int] == ip);
        assert forall|i: int, j: int| 0 <= i < r.len() && 0 <= j < r.len() && i != j implies r[i] != r[j] by {
            if i < eps.len() && j < eps.len() {
                assert(r[i] == eps[i] && r[j] == eps[j]);
            } else if i < eps.len() {
                assert(r[i] == eps[i]);
            } else if j < eps.len() {
                assert(r[j] == eps[j]);
            }
        }
    }
}

/// Law: after a resync, a service routes exactly to the addresses of the
/// pods it selects, each once.
pub proof fn lemma_resync_exact(svc: Service, pods: Seq<Pod>, ip: Ipv4Addr)
    ensures
        routed_ips(svc, pods).contains(ip) <==> exists|k: int|
            0 <= k < pods.len() && routes_to(svc, #[trigger] pods[k]) && pod_ip(pods[k]) == Some(ip),
        routed_ips(svc, pods).no_duplicates(),
    decreases pods.len(),
{
    if pods.len() > 0 {
        let d = pods.drop_last();
        lemma_resync_exact(svc, d, ip);
        let prev = routed_ips(svc, d);
        if routes_to(svc, pods.last()) {
            lemma_add_endpoint_distinct(prev, pod_ip(pods.last())->0);
        }
        if routed_ips(svc, pods).contains(ip) {
            if prev.contains(ip) {
                let k = choose|k: int| 0 <= k < d.len() && routes_to(svc, #[trigger] d[k]) && pod_ip(d[k]) == Some(ip);
                assert(pods[k] == d[k]);
            } else {
                assert(pods[pods.len() - 1] == pods.last());
            }
        }
        if exists|k: int| 0 <= k < pods.len() && routes_to(svc, #[trigger] pods[k]) && pod_ip(pods[k]) == Some(ip) {
            let k = choose|k: int| 0 <= k < pods.len() && routes_to(svc, #[trigger] pods[k]) && pod_ip(pods[k]) == Some(ip);
            if k < d.len() {
                assert(d[k] == pods[k]);
                assert(prev.contains(ip));
                if routes_to(svc, pods.last()) && !prev.contains(pod_ip(pods.last())->0) {
                    let j = choose|j: int| 0 <= j < prev.len() && prev[j] == ip;
                    assert(prev.push(pod_ip(pods.last())->0)[j] == ip);
                }
            } else {
                assert(pods[k] == pods.last());
                if !prev.contains(ip) {
                    assert(prev.push(ip)[prev.len() as int] == ip);
                }
            }
        }
    }
}

} // verus!
