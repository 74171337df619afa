//! Replica counts from pod metrics: the ratio of measured to target usage,
//! with conservative assumptions for pods that have no metrics yet.
//!
//! Ratios are exact: a ratio is a pair of integers rather than a float, so
//! comparisons with 1 and the rounding up of `ratio * pods` are exact.

use vstd::prelude::*;
use crate::keyed::{KeyedMap, entries_insert, entries_remove, has_key};
use crate::objects::metrics::{ContainerMetrics, PodMetric, PodMetrics, PodMetricsInfo, Resource};
use crate::objects::pod::{Pod, PodPhase, pod_ready, requests_fit, total_requests};
use crate::objects::{Labels, labels_match};
use crate::objects::hpa::{MetricTarget, ResourceMetricSource};
use super::horizontal::{ceil_div, sat32};

verus! {

/// Why a replica count could not be calculated.
#[derive(Clone, Debug, PartialEq)]
pub enum CalcError {
    /// No metrics were reported for the selected pods.
    NoMetrics,
    /// No pod matches the selector.
    NoPods,
    /// The pod of this name has no status.
    MissingStatus(String),
    /// An intermediate product does not fit in 128 bits.
    Overflow,
}

/// An exact ratio `num / den` with `den >= 0`. A zero `den` stands for an
/// infinite ratio with the sign of `num`, or for no number when `num` is 0.
#[derive(Clone, Copy, Debug, PartialEq, Eq, Structural)]
pub struct ScaleRatio {
    pub num: i128,
    pub den: i128,
}

/// Whether `x` fits in an `i128`.
pub open spec fn fits128(x: int) -> bool {
    i128::MIN <= x <= i128::MAX
}

/// Whether the ratio `num / den` is below 1.
pub open spec fn below_one(num: int, den: int) -> bool {
    if den > 0 {
        num < den
    } else {
        num < 0
    }
}

/// Whether the ratio `num / den` is above 1.
pub open spec fn above_one(num: int, den: int) -> bool {
    if den > 0 {
        num > den
    } else {
        num > 0
    }
}

/// `ratio * n` rounded up and brought into the range of `u32` (an infinite
/// ratio gives the largest count, no number gives 0).
pub open spec fn scaled_count(num: int, den: int, n: int) -> u32 {
    if den > 0 {
        sat32(ceil_div(num * n, den))
    } else if num > 0 && n > 0 {
        u32::MAX
    } else {
        0
    }
}

/// The replica count to go to: the new count, unless the assumptions made
/// for pods without metrics turned the direction of scaling around, or the
/// new count goes against the direction of the new ratio.
pub open spec fn decided_replicas(current: u32, old_ratio: (int, int), new_ratio: (int, int), new_replicas: u32) -> u32 {
    if (above_one(new_ratio.0, new_ratio.1) && (below_one(old_ratio.0, old_ratio.1) || new_replicas < current))
        || (below_one(new_ratio.0, new_ratio.1) && (above_one(old_ratio.0, old_ratio.1) || new_replicas > current)) {
        current
    } else {
        new_replicas
    }
}

/// The sum of the metric values of the entries.
pub open spec fn metrics_total(e: Seq<(String, PodMetric)>) -> int
    decreases e.len(),
{
    if e.len() == 0 {
        0
    } else {
        metrics_total(e.drop_last()) + e.last().1.value
    }
}

/// The requests of `res` summed over the pods that have an entry.
pub open spec fn requests_total(e: Seq<(String, PodMetric)>, pods: Seq<Pod>, res: Resource) -> int
    decreases pods.len(),
{
    if pods.len() == 0 {
        0
    } else {
        requests_total(e, pods.drop_last(), res) + if has_key(e, pods.last().metadata.name@) {
            total_requests(pods.last().spec.containers@, res)
        } else {
            0
        }
    }
}

/// The ratio of the measured utilization (in percent of the requests) to
/// the target utilization; 1 when the pods request nothing; None when the
/// ratio's terms do not fit in 128 bits.
pub open spec fn utilization_ratio(e: Seq<(String, PodMetric)>, pods: Seq<Pod>, target: u32, res: Resource) -> Option<(int, int)> {
    let req = requests_total(e, pods, res);
    if req == 0 {
        Some((1, 1))
    } else {
        let num = metrics_total(e) * (if req < 0 { -100int } else { 100int });
        let den = (if req < 0 { -req } else { req }) * target;
        if fits128(num) && fits128(den) {
            Some((num, den))
        } else {
            None
        }
    }
}

/// `a / b` rounded toward zero, for `b > 0`.
pub open spec fn trunc_div(a: int, b: int) -> int {
    if a >= 0 {
        a / b
    } else {
        -((-a) / b)
    }
}

/// The ratio of the average metric value (rounded toward zero) to the
/// target value; 1 for a target of 0.
pub open spec fn value_ratio(e: Seq<(String, PodMetric)>, target: u64) -> (int, int) {
    if target == 0 {
        (1, 1)
    } else {
        (trunc_div(metrics_total(e), e.len() as int), target as int)
    }
}

/// The entries without those of failed or unready pods, and the positions
/// of the pods that have no entry; `Err` holds the position of the first pod
/// without a status, where the pods stop being looked at.
pub open spec fn filter_pods_spec(e: Seq<(String, PodMetric)>, pods: Seq<Pod>) -> Result<(Seq<(String, PodMetric)>, Seq<int>), int>
    decreases pods.len(),
{
    if pods.len() == 0 {
        Ok((e, Seq::empty()))
    } else {
        match filter_pods_spec(e, pods.drop_last()) {
            Err(i) => Err(i),
            Ok(r) => {
                let p = pods.last();
                let i = pods.len() - 1;
                if p.status is None {
                    Err(i)
                } else if !has_key(r.0, p.metadata.name@) {
                    Ok((r.0, r.1.push(i)))
                } else if p.status->0.phase == PodPhase::Failed || !pod_ready(p) {
                    Ok((entries_remove(r.0, p.metadata.name@), r.1))
                } else {
                    Ok(r)
                }
            },
        }
    }
}

/// What a pod without metrics is assumed to use: when scaling down, its
/// full use, which is its requests of `res` (`target` None) or the target
/// value (`target` Some); when scaling up, nothing.
pub open spec fn assumed_usage(p: Pod, down: bool, res: Resource, target: Option<u64>) -> i64 {
    if !down {
        0
    } else {
        match target {
            None => total_requests(p.spec.containers@, res) as i64,
            Some(t) => t as i64,
        }
    }
}

/// The entries with the assumed metric (see [`assumed_usage`]) stored for
/// each pod at the given positions, in order.
pub open spec fn fill_missing(
    e: Seq<(String, PodMetric)>,
    pods: Seq<Pod>,
    missing: Seq<int>,
    down: bool,
    res: Resource,
    target: Option<u64>,
    now: i64,
) -> Seq<(String, PodMetric)>
    decreases missing.len(),
{
    if missing.len() == 0 {
        e
    } else {
        let p = pods[missing.last()];
        entries_insert(
            fill_missing(e, pods, missing.drop_last(), down, res, target, now),
            p.metadata.name,
            PodMetric { timestamp: now, window: 60, value: assumed_usage(p, down, res, target) },
        )
    }
}

/// The replica count for a target utilization, from the metrics `e` of the
/// selected pods, as [`calc_replicas_by_utilization`] computes it.
pub open spec fn replicas_by_utilization(
    current: u32,
    target: u32,
    res: Resource,
    e: Seq<(String, PodMetric)>,
    pods: Seq<Pod>,
    now: i64,
) -> Result<u32, CalcError> {
    if pods.len() == 0 {
        Err(CalcError::NoPods)
    } else {
        match filter_pods_spec(e, pods) {
            Err(i) => Err(CalcError::MissingStatus(pods[i].metadata.name)),
            Ok(f) => match utilization_ratio(f.0, pods, target, res) {
                None => Err(CalcError::Overflow),
                Some(r1) => {
                    let e2 = fill_missing(f.0, pods, f.1, below_one(r1.0, r1.1), res, None, now);
                    match utilization_ratio(e2, pods, target, res) {
                        None => Err(CalcError::Overflow),
                        Some(r2) => if fits128(r2.0 * e2.len()) {
                            Ok(decided_replicas(current, r1, r2, scaled_count(r2.0, r2.1, e2.len() as int)))
                        } else {
                            Err(CalcError::Overflow)
                        },
                    }
                },
            },
        }
    }
}

/// The replica count for a target average value, from the metrics `e` of
/// the selected pods, as [`calc_replicas_by_value`] computes it.
pub open spec fn replicas_by_value(
    current: u32,
    target: u64,
    e: Seq<(String, PodMetric)>,
    pods: Seq<Pod>,
    now: i64,
) -> Result<u32, CalcError> {
    if pods.len() == 0 {
        Err(CalcError::NoPods)
    } else {
        match filter_pods_spec(e, pods) {
            Err(i) => Err(CalcError::MissingStatus(pods[i].metadata.name)),
            Ok(f) => if f.0.len() == 0 {
                Err(CalcError::NoMetrics)
            } else {
                let r1 = value_ratio(f.0, target);
                let e2 = fill_missing(f.0, pods, f.1, below_one(r1.0, r1.1), Resource::CPU, Some(target), now);
                let r2 = value_ratio(e2, target);
                if fits128(r2.0 * e2.len()) {
                    Ok(decided_replicas(current, r1, r2, scaled_count(r2.0, r2.1, e2.len() as int)))
                } else {
                    Err(CalcError::Overflow)
                }
            },
        }
    }
}

/// The replica count for a target rate of requests per replica, from the
/// total rate `value` measured over `current` replicas.
pub open spec fn function_replicas(current: u32, target: u64, value: i64) -> u32 {
    let per_replica = trunc_div(value as int, current as int);
    if target == 0 {
        if per_replica > 0 { u32::MAX } else { 0 }
    } else {
        sat32(ceil_div(current * per_replica, target as int))
    }
}

/// The usage of `res` summed over the containers, up to the first container
/// where it was not measured.
pub open spec fn usage_sum(cs: Seq<ContainerMetrics>, res: Resource) -> int
    decreases cs.len(),
{
    if cs.len() == 0 {
        0
    } else {
        match cs[0].usage.usage_of(res) {
            Some(u) => u + usage_sum(cs.drop_first(), res),
            None => 0,
        }
    }
}

/// Every partial sum that [`usage_sum`] adds up fits in an `i64`.
pub open spec fn usage_fits(cs: Seq<ContainerMetrics>, res: Resource) -> bool {
    forall|i: int|
        0 <= i <= cs.len() && (forall|j: int| 0 <= j < i ==> (#[trigger] cs[j]).usage.usage_of(res) is Some)
            ==> i64::MIN <= usage_sum(cs, res) - #[trigger] usage_sum(cs.skip(i), res) <= i64::MAX
}

/// The entries that the metrics of `pods` give, in order: one per pod with
/// measured containers, a later pod of the same name replacing an earlier.
pub open spec fn aggregated(e: Seq<(String, PodMetric)>, pods: Seq<PodMetrics>, res: Resource) -> Seq<(String, PodMetric)>
    decreases pods.len(),
{
    if pods.len() == 0 {
        e
    } else {
        let rest = aggregated(e, pods.drop_last(), res);
        let p = pods.last();
        if p.containers@.len() == 0 {
            rest
        } else {
            entries_insert(
                rest,
                p.name,
                PodMetric { timestamp: p.timestamp, window: p.window, value: usage_sum(p.containers@, res) as i64 },
            )
        }
    }
}

/// The summed usage of `res` of the containers of a pod, up to the first
/// container where it was not measured.
fn container_usage(cs: &Vec<ContainerMetrics>, res: Resource) -> (r: i64)
    requires
        usage_fits(cs@, res),
    ensures
        r == usage_sum(cs@, res),
{
    let mut sum: i64 = 0;
    let mut i: usize = 0;
    assert(cs@.skip(0) =~= cs@);
    while i < cs.len()
        invariant
            i <= cs@.len(),
            usage_fits(cs@, res),
            forall|j: int| 0 <= j < i ==> (#[trigger] cs@[j]).usage.usage_of(res) is Some,
            sum + usage_sum(cs@.skip(i as int), res) == usage_sum(cs@, res),
        decreases cs.len() - i,
    {
        assert(cs@.skip(i as int)[0] == cs@[i as int]);
        assert(cs@.skip(i as int).drop_first() =~= cs@.skip(i + 1));
        match cs[i].usage.get(res) {
            Some(u) => {
                assert(i64::MIN <= usage_sum(cs@, res) - usage_sum(cs@.skip(i + 1), res) <= i64::MAX);
                sum = sum + u;
            },
            None => {
                return sum;
            },
        }
        i = i + 1;
    }
    assert(cs@.skip(i as int) =~= Seq::<ContainerMetrics>::empty());
    sum
}

/// The metric of each pod: the usage of `res` summed over its containers,
/// up to the first container where it was not measured; pods without
/// containers are left out. Fails when no pod was reported.
pub fn get_resource_metric_value(resource: &Resource, metrics: Vec<PodMetrics>) -> (r: Result<PodMetricsInfo, CalcError>)
    requires
        forall|i: int| 0 <= i < metrics@.len() ==> usage_fits((#[trigger] metrics@[i]).containers@, *resource),
    ensures
        metrics@.len() == 0 ==> r == Err::<PodMetricsInfo, CalcError>(CalcError::NoMetrics),
        metrics@.len() > 0 ==> r is Ok && r->Ok_0.wf() && r->Ok_0.entries_view() == aggregated(
            Seq::empty(),
            metrics@,
            *resource,
        ),
{
    if metrics.len() == 0 {
        return Err(CalcError::NoMetrics);
    }
    let mut info: PodMetricsInfo = KeyedMap::new();
    let mut i: usize = 0;
    assert(metrics@.take(0) =~= Seq::<PodMetrics>::empty());
    while i < metrics.len()
        invariant
            i <= metrics@.len(),
            forall|j: int| 0 <= j < metrics@.len() ==> usage_fits((#[trigger] metrics@[j]).containers@, *resource),
            info.wf(),
            info.entries_view() == aggregated(Seq::empty(), metrics@.take(i as int), *resource),
        decreases metrics.len() - i,
    {
        let pod = &metrics[i];
        assert(metrics@.take(i + 1).drop_last() =~= metrics@.take(i as int));
        assert(metrics@.take(i + 1).last() == metrics@[i as int]);
        if pod.containers.len() > 0 {
            let value = container_usage(&pod.containers, *resource);
            info.insert(
                pod.name.clone(),
                PodMetric { timestamp: pod.timestamp, window: pod.window, value },
            );
        }
        i = i + 1;
    }
    assert(metrics@.take(i as int) =~= metrics@);
    Ok(info)
}

/// The pods whose labels match the selector, in order.
pub fn select_pods(pods: Vec<Pod>, selector: &Labels) -> (r: Vec<Pod>)
    ensures
        r@ == pods@.filter(|p: Pod| labels_match(p.metadata.labels, *selector)),
{
    let ghost f = |p: Pod| labels_match(p.metadata.labels, *selector);
    let mut r: Vec<Pod> = Vec::new();
    let mut rest = pods;
    let ghost all = rest@;
    let ghost mut i: int = 0;
    proof {
        reveal(Seq::filter);
    }
    assert(all.take(0).filter(f) =~= Seq::<Pod>::empty());
    assert(all.skip(0) =~= all);
    while rest.len() > 0
        invariant
            0 <= i <= all.len(),
            rest@ == all.skip(i),
            r@ == all.take(i).filter(f),
            f == (|p: Pod| labels_match(p.metadata.labels, *selector)),
        decreases rest.len(),
    {
        let p = rest.remove(0);
        proof {
            assert(p == all[i]);
            assert(all.take(i + 1).drop_last() =~= all.take(i));
            assert(all.take(i + 1).last() == all[i]);
            assert(rest@ =~= all.skip(i + 1));
        }
        let keep = p.metadata.labels.matches(selector);
        proof {
            let s = all.take(i + 1);
            reveal(Seq::filter);
            assert(s.len() == i + 1);
            assert(s.filter(f) == if f(s.last()) {
                s.drop_last().filter(f).push(s.last())
            } else {
                s.drop_last().filter(f)
            });
            assert(f(p) == keep);
        }
        if keep {
            r.push(p);
        }
        proof {
            i = i + 1;
        }
    }
    assert(all.take(i) =~= all);
    r
}

/// The sum of the metric values, exactly.
fn sum_metrics(metrics: &PodMetricsInfo) -> (r: i128)
    ensures
        r == metrics_total(metrics.entries_view()),
        -0x7fff_ffff_ffff_ffff_8000_0000_0000_0000 <= r <= 0x7fff_ffff_ffff_ffff_8000_0000_0000_0000,
{
    let ghost e = metrics.entries_view();
    let mut sum: i128 = 0;
    let mut i: usize = 0;
    assert(e.take(0) =~= Seq::<(String, PodMetric)>::empty());
    while i < metrics.len()
        invariant
            i <= e.len(),
            e == metrics.entries_view(),
            sum == metrics_total(e.take(i as int)),
            -(i as int) * 0x8000_0000_0000_0000 <= sum <= i as int * 0x8000_0000_0000_0000,
        decreases e.len() - i,
    {
        assert(e.take(i + 1).drop_last() =~= e.take(i as int));
        let v = metrics.value_at(i).value;
        proof {
            let k = i as int;
            assert(k <= usize::MAX);
            assert(-(k + 1) * 0x8000_0000_0000_0000 == -k * 0x8000_0000_0000_0000 - 0x8000_0000_0000_0000);
            assert((k + 1) * 0x8000_0000_0000_0000 == k * 0x8000_0000_0000_0000 + 0x8000_0000_0000_0000);
            assert(k * 0x8000_0000_0000_0000 <= 0xffff_ffff_ffff_fffe * 0x8000_0000_0000_0000) by (nonlinear_arith)
                requires k < 0xffff_ffff_ffff_ffff;
        }
        sum = sum + v as i128;
        i = i + 1;
    }
    assert(e.take(i as int) =~= e);
    proof {
        let k = i as int;
        assert(k * 0x8000_0000_0000_0000 <= 0x7fff_ffff_ffff_ffff_8000_0000_0000_0000) by (nonlinear_arith)
            requires 0 <= k <= 0xffff_ffff_ffff_ffff;
    }
    sum
}

/// The requests of `res` summed over the pods that have metrics, exactly.
fn sum_requests(metrics: &PodMetricsInfo, pods: &Vec<Pod>, res: Resource) -> (r: i128)
    requires
        forall|i: int| 0 <= i < pods@.len() ==> requests_fit((#[trigger] pods@[i]).spec.containers@, res),
    ensures
        r == requests_total(metrics.entries_view(), pods@, res),
        -0x7fff_ffff_ffff_ffff_8000_0000_0000_0000 <= r <= 0x7fff_ffff_ffff_ffff_8000_0000_0000_0000,
{
    let ghost e = metrics.entries_view();
    let mut sum: i128 = 0;
    let mut i: usize = 0;
    assert(pods@.take(0) =~= Seq::<Pod>::empty());
    while i < pods.len()
        invariant
            i <= pods@.len(),
            e == metrics.entries_view(),
            forall|j: int| 0 <= j < pods@.len() ==> requests_fit((#[trigger] pods@[j]).spec.containers@, res),
            sum == requests_total(e, pods@.take(i as int), res),
            -(i as int) * 0x8000_0000_0000_0000 <= sum <= i as int * 0x8000_0000_0000_0000,
        decreases pods@.len() - i,
    {
        assert(pods@.take(i + 1).drop_last() =~= pods@.take(i as int));
        assert(pods@.take(i + 1).last() == pods@[i as int]);
        let pod = &pods[i];
        let add: i64 = if metrics.contains_key(pod.metadata.name.as_str()) {
            pod.requests(&res)
        } else {
            0
        };
        proof {
            let k = i as int;
            assert(-(k + 1) * 0x8000_0000_0000_0000 == -k * 0x8000_0000_0000_0000 - 0x8000_0000_0000_0000);
            assert((k + 1) * 0x8000_0000_0000_0000 == k * 0x8000_0000_0000_0000 + 0x8000_0000_0000_0000);
            assert(k * 0x8000_0000_0000_0000 <= 0xffff_ffff_ffff_fffe * 0x8000_0000_0000_0000) by (nonlinear_arith)
                requires k < 0xffff_ffff_ffff_ffff;
        }
        sum = sum + add as i128;
        i = i + 1;
    }
    assert(pods@.take(i as int) =~= pods@);
    proof {
        let k = i as int;
        assert(k * 0x8000_0000_0000_0000 <= 0x7fff_ffff_ffff_ffff_8000_0000_0000_0000) by (nonlinear_arith)
            requires 0 <= k <= 0xffff_ffff_ffff_ffff;
    }
    sum
}

/// Whether the ratio is below 1.
pub fn is_below_one(r: ScaleRatio) -> (b: bool)
    ensures
        b == below_one(r.num as int, r.den as int),
{
    if r.den > 0 {
        r.num < r.den
    } else {
        r.num < 0
    }
}

/// Whether the ratio is above 1.
pub fn is_above_one(r: ScaleRatio) -> (b: bool)
    ensures
        b == above_one(r.num as int, r.den as int),
{
    if r.den > 0 {
        r.num > r.den
    } else {
        r.num > 0
    }
}

/// `ratio * n` rounded up into the range of `u32`; None when `num * n` does
/// not fit in 128 bits.
pub fn scale_count(r: ScaleRatio, n: usize) -> (c: Option<u32>)
    requires
        r.den >= 0,
    ensures
        c is Some <==> fits128(r.num * n),
        c is Some ==> c->0 == scaled_count(r.num as int, r.den as int, n as int),
{
    let p = match r.num.checked_mul(n as i128) {
        Some(p) => p,
        None => return None,
    };
    if r.den > 0 {
        if p <= 0 {
            proof {
                assert((p + r.den - 1) / (r.den as int) <= 0) by (nonlinear_arith)
                    requires p <= 0, r.den > 0;
            }
            Some(0)
        } else {
            let q = p / r.den;
            let m = p % r.den;
            proof {
                let d = r.den as int;
                let pi = p as int;
                assert(pi == d * q + m) by (nonlinear_arith)
                    requires q == pi / d, m == pi % d, d > 0;
                assert(0 <= m < d);
                assert(m > 0 ==> q < 0x7fff_ffff_ffff_ffff_ffff_ffff_ffff_ffff) by (nonlinear_arith)
                    requires pi == d * q + m, 0 <= m < d, pi <= 0x7fff_ffff_ffff_ffff_ffff_ffff_ffff_ffff, pi > 0;
            }
            let c = if m > 0 { q + 1 } else { q };
            proof {
                let d = r.den as int;
                let pi = p as int;
                if m > 0 {
                    assert((p + d - 1) / d == q + 1) by (nonlinear_arith)
                        requires p == d * q + m, 0 < m < d, d > 0;
                } else {
                    assert((p + d - 1) / d == q) by (nonlinear_arith)
                        requires p == d * q, d > 0;
                }
            }
            if c > 0xffff_ffffi128 {
                Some(0xffff_ffffu32)
            } else {
                Some(c as u32)
            }
        }
    } else if r.num > 0 && n > 0 {
        Some(0xffff_ffffu32)
    } else {
        Some(0)
    }
}

/// The utilization ratio of the pods that have metrics; None when its terms
/// do not fit in 128 bits.
pub fn calc_scale_ratio_by_utilization(
    metrics: &PodMetricsInfo,
    pods: &Vec<Pod>,
    target_utilization: u32,
    resource: &Resource,
) -> (r: Option<ScaleRatio>)
    requires
        forall|i: int| 0 <= i < pods@.len() ==> requests_fit((#[trigger] pods@[i]).spec.containers@, *resource),
    ensures
        match r {
            Some(x) => utilization_ratio(metrics.entries_view(), pods@, target_utilization, *resource)
                == Some((x.num as int, x.den as int)) && x.den >= 0,
            None => utilization_ratio(metrics.entries_view(), pods@, target_utilization, *resource) is None,
        },
{
    let metrics_total = sum_metrics(metrics);
    let requests_total = sum_requests(metrics, pods, *resource);
    if requests_total == 0 {
        return Some(ScaleRatio { num: 1, den: 1 });
    }
    let factor: i128 = if requests_total < 0 { -100 } else { 100 };
    let magnitude: i128 = if requests_total < 0 { -requests_total } else { requests_total };
    let num = match metrics_total.checked_mul(factor) {
        Some(x) => x,
        None => return None,
    };
    let den = match magnitude.checked_mul(target_utilization as i128) {
        Some(x) => x,
        None => return None,
    };
    proof {
        assert(den >= 0) by (nonlinear_arith)
            requires den == magnitude * (target_utilization as int), magnitude >= 0, target_utilization >= 0;
    }
    Some(ScaleRatio { num, den })
}

/// The ratio of the average metric value (rounded toward zero) to the
/// target value; 1 for a target of 0.
pub fn calc_scale_ratio_by_value(metrics: &PodMetricsInfo, target_value: u64) -> (r: ScaleRatio)
    requires
        metrics.entries_view().len() > 0,
    ensures
        (r.num as int, r.den as int) == value_ratio(metrics.entries_view(), target_value),
        r.den >= 0,
{
    let total = sum_metrics(metrics);
    let n = metrics.len() as i128;
    let current_value: i128 = if total >= 0 {
        total / n
    } else {
        -((-total) / n)
    };
    if target_value == 0 {
        return ScaleRatio { num: 1, den: 1 };
    }
    ScaleRatio { num: current_value, den: target_value as i128 }
}

/// Leaves out of the metrics the pods that failed or are not ready, and
/// gives the positions of the pods that have no metrics. Fails at the first
/// pod without a status, with the metrics changed as far as it got.
pub fn filter_pods(metrics: &mut PodMetricsInfo, pods: &Vec<Pod>) -> (r: Result<Vec<usize>, String>)
    ensures
        match filter_pods_spec(old(metrics).entries_view(), pods@) {
            Ok(f) => r is Ok && final(metrics).entries_view() == f.0 && r->Ok_0@.map_values(
                |i: usize| i as int,
            ) == f.1,
            Err(i) => r is Err && r->Err_0 == pods@[i].metadata.name,
        },
        old(metrics).wf() ==> final(metrics).wf(),
{
    let ghost e0 = metrics.entries_view();
    let mut missing: Vec<usize> = Vec::new();
    let mut i: usize = 0;
    assert(pods@.take(0) =~= Seq::<Pod>::empty());
    assert(missing@.map_values(|j: usize| j as int) =~= Seq::<int>::empty());
    while i < pods.len()
        invariant
            i <= pods@.len(),
            e0 == old(metrics).entries_view(),
            old(metrics).wf() ==> metrics.wf(),
            filter_pods_spec(e0, pods@.take(i as int)) == Ok::<(Seq<(String, PodMetric)>, Seq<int>), int>(
                (metrics.entries_view(), missing@.map_values(|j: usize| j as int)),
            ),
        decreases pods@.len() - i,
    {
        assert(pods@.take(i + 1).drop_last() =~= pods@.take(i as int));
        assert(pods@.take(i + 1).last() == pods@[i as int]);
        let pod = &pods[i];
        let status = match &pod.status {
            Some(s) => s,
            None => {
                proof {
                    lemma_filter_err_prefix(e0, pods@, (i + 1) as int, i as int);
                }
                return Err(pod.metadata.name.clone());
            },
        };
        let ghost before = missing@;
        if !metrics.contains_key(pod.metadata.name.as_str()) {
            missing.push(i);
            assert(missing@.map_values(|j: usize| j as int) =~= before.map_values(|j: usize| j as int).push(
                i as int,
            ));
        } else {
            let failed = match status.phase {
                PodPhase::Failed => true,
                _ => false,
            };
            if failed || !pod.is_ready() {
                metrics.remove(pod.metadata.name.as_str());
            }
        }
        i = i + 1;
    }
    assert(pods@.take(i as int) =~= pods@);
    Ok(missing)
}

/// Once a prefix of the pods stops at a pod without status, so do all the
/// pods.
proof fn lemma_filter_err_prefix(e: Seq<(String, PodMetric)>, pods: Seq<Pod>, k: int, i: int)
    requires
        0 < k <= pods.len(),
        filter_pods_spec(e, pods.take(k)) == Err::<(Seq<(String, PodMetric)>, Seq<int>), int>(i),
    ensures
        filter_pods_spec(e, pods) == Err::<(Seq<(String, PodMetric)>, Seq<int>), int>(i),
    decreases pods.len() - k,
{
    if k < pods.len() {
        assert(pods.take(k + 1).drop_last() =~= pods.take(k));
        lemma_filter_err_prefix(e, pods, k + 1, i);
    } else {
        assert(pods.take(k) =~= pods);
    }
}

/// The positions of the pods without metrics are positions of pods.
proof fn lemma_filter_missing_bounds(e: Seq<(String, PodMetric)>, pods: Seq<Pod>)
    ensures
        filter_pods_spec(e, pods) is Ok ==> forall|j: int|
            0 <= j < filter_pods_spec(e, pods)->Ok_0.1.len() ==> 0 <= #[trigger] filter_pods_spec(
                e,
                pods,
            )->Ok_0.1[j] < pods.len(),
    decreases pods.len(),
{
    if pods.len() > 0 {
        lemma_filter_missing_bounds(e, pods.drop_last());
    }
}

/// Stores the assumed metric of each pod without metrics.
fn fill_missing_pods(
    metrics: &mut PodMetricsInfo,
    pods: &Vec<Pod>,
    missing: &Vec<usize>,
    down: bool,
    resource: &Resource,
    target: Option<u64>,
    now: i64,
)
    requires
        forall|i: int| 0 <= i < pods@.len() ==> requests_fit((#[trigger] pods@[i]).spec.containers@, *resource),
        forall|j: int| 0 <= j < missing@.len() ==> #[trigger] missing@[j] < pods@.len(),
    ensures
        final(metrics).entries_view() == fill_missing(
            old(metrics).entries_view(),
            pods@,
            missing@.map_values(|j: usize| j as int),
            down,
            *resource,
            target,
            now,
        ),
        old(metrics).wf() ==> final(metrics).wf(),
{
    let ghost e0 = metrics.entries_view();
    let ghost ms = missing@.map_values(|j: usize| j as int);
    let mut k: usize = 0;
    assert(ms.take(0) =~= Seq::<int>::empty());
    while k < missing.len()
        invariant
            k <= missing@.len(),
            ms == missing@.map_values(|j: usize| j as int),
            e0 == old(metrics).entries_view(),
            old(metrics).wf() ==> metrics.wf(),
            forall|i: int| 0 <= i < pods@.len() ==> requests_fit((#[trigger] pods@[i]).spec.containers@, *resource),
            forall|j: int| 0 <= j < missing@.len() ==> #[trigger] missing@[j] < pods@.len(),
            metrics.entries_view() == fill_missing(e0, pods@, ms.take(k as int), down, *resource, target, now),
        decreases missing@.len() - k,
    {
        assert(ms.take(k + 1).drop_last() =~= ms.take(k as int));
        assert(ms.take(k + 1).last() == missing@[k as int] as int);
        let pod = &pods[missing[k]];
        let value: i64 = if !down {
            0
        } else {
            match target {
                None => {
                    assert(requests_fit(pod.spec.containers@, *resource));
                    pod.requests(resource)
                },
                Some(t) => t as i64,
            }
        };
        metrics.insert(pod.metadata.name.clone(), PodMetric { timestamp: now, window: 60, value });
        k = k + 1;
    }
    assert(ms.take(k as int) =~= ms);
}

/// The replica count that brings the average utilization of `resource` over
/// the selected pods to `target_utilization` percent of their requests,
/// from the metrics of those pods at `now`. Failed or unready pods are left
/// out; pods without metrics count as using nothing when scaling up and all
/// their requests when scaling down; when that assumption turns the
/// direction of scaling around, or the new count goes against the new
/// ratio, the count stays `current_replicas`.
pub fn calc_replicas_by_utilization(
    current_replicas: u32,
    target_utilization: u32,
    resource: &Resource,
    metrics: PodMetricsInfo,
    pods: &Vec<Pod>,
    now: i64,
) -> (r: Result<u32, CalcError>)
    requires
        forall|i: int| 0 <= i < pods@.len() ==> requests_fit((#[trigger] pods@[i]).spec.containers@, *resource),
    ensures
        r == replicas_by_utilization(current_replicas, target_utilization, *resource, metrics.entries_view(), pods@, now),
{
    let ghost e0 = metrics.entries_view();
    let mut metrics = metrics;
    if pods.len() == 0 {
        return Err(CalcError::NoPods);
    }
    let missing = match filter_pods(&mut metrics, pods) {
        Ok(m) => m,
        Err(name) => return Err(CalcError::MissingStatus(name)),
    };
    proof {
        lemma_filter_missing_bounds(e0, pods@);
        let ms = missing@.map_values(|j: usize| j as int);
        assert forall|j: int| 0 <= j < missing@.len() implies #[trigger] missing@[j] < pods@.len() by {
            assert(ms[j] == missing@[j] as int);
        }
    }
    let ratio = match calc_scale_ratio_by_utilization(&metrics, pods, target_utilization, resource) {
        Some(x) => x,
        None => return Err(CalcError::Overflow),
    };
    let down = is_below_one(ratio);
    fill_missing_pods(&mut metrics, pods, &missing, down, resource, None, now);
    let new_ratio = match calc_scale_ratio_by_utilization(&metrics, pods, target_utilization, resource) {
        Some(x) => x,
        None => return Err(CalcError::Overflow),
    };
    let new_replicas = match scale_count(new_ratio, metrics.len()) {
        Some(c) => c,
        None => return Err(CalcError::Overflow),
    };
    if (is_above_one(new_ratio) && (is_below_one(ratio) || new_replicas < current_replicas))
        || (is_below_one(new_ratio) && (is_above_one(ratio) || new_replicas > current_replicas)) {
        Ok(current_replicas)
    } else {
        Ok(new_replicas)
    }
}

/// The replica count that brings the average value of `resource` over the
/// selected pods to `target_value`, from the metrics of those pods at
/// `now`, with the same treatment of failed, unready and unmeasured pods as
/// [`calc_replicas_by_utilization`] (an unmeasured pod counts as the target
/// value when scaling down). Fails when no measured pod is left to average.
pub fn calc_replicas_by_value(
    current_replicas: u32,
    target_value: u64,
    metrics: PodMetricsInfo,
    pods: &Vec<Pod>,
    now: i64,
) -> (r: Result<u32, CalcError>)
    ensures
        r == replicas_by_value(current_replicas, target_value, metrics.entries_view(), pods@, now),
{
    let ghost e0 = metrics.entries_view();
    let mut metrics = metrics;
    if pods.len() == 0 {
        return Err(CalcError::NoPods);
    }
    let missing = match filter_pods(&mut metrics, pods) {
        Ok(m) => m,
        Err(name) => return Err(CalcError::MissingStatus(name)),
    };
    if metrics.len() == 0 {
        return Err(CalcError::NoMetrics);
    }
    proof {
        lemma_filter_missing_bounds(e0, pods@);
        let ms = missing@.map_values(|j: usize| j as int);
        assert forall|j: int| 0 <= j < missing@.len() implies #[trigger] missing@[j] < pods@.len() by {
            assert(ms[j] == missing@[j] as int);
        }
    }
    let ratio = calc_scale_ratio_by_value(&metrics, target_value);
    let down = is_below_one(ratio);
    let ghost before = metrics.entries_view();
    fill_missing_pods_by_value(&mut metrics, pods, &missing, down, target_value, now);
    proof {
        lemma_fill_len(before, pods@, missing@.map_values(|j: usize| j as int), down, Resource::CPU, Some(target_value), now);
    }
    let new_ratio = calc_scale_ratio_by_value(&metrics, target_value);
    let new_replicas = match scale_count(new_ratio, metrics.len()) {
        Some(c) => c,
        None => return Err(CalcError::Overflow),
    };
    if (is_above_one(new_ratio) && (is_below_one(ratio) || new_replicas < current_replicas))
        || (is_below_one(new_ratio) && (is_above_one(ratio) || new_replicas > current_replicas)) {
        Ok(current_replicas)
    } else {
        Ok(new_replicas)
    }
}

/// Storing metrics never shortens the entries.
proof fn lemma_fill_len(
    e: Seq<(String, PodMetric)>,
    pods: Seq<Pod>,
    missing: Seq<int>,
    down: bool,
    res: Resource,
    target: Option<u64>,
    now: i64,
)
    ensures
        fill_missing(e, pods, missing, down, res, target, now).len() >= e.len(),
    decreases missing.len(),
{
    if missing.len() > 0 {
        lemma_fill_len(e, pods, missing.drop_last(), down, res, target, now);
        let r = fill_missing(e, pods, missing.drop_last(), down, res, target, now);
        let name = pods[missing.last()].metadata.name;
        if has_key(r, name@) {
            crate::keyed::lemma_first_exists(r, name@);
        }
    }
}

/// The entries with the metric `value`, taken at `now` over 60 seconds,
/// stored for each pod at the given positions, in order.
pub open spec fn stored_for_missing(
    e: Seq<(String, PodMetric)>,
    pods: Seq<Pod>,
    missing: Seq<int>,
    value: i64,
    now: i64,
) -> Seq<(String, PodMetric)>
    decreases missing.len(),
{
    if missing.len() == 0 {
        e
    } else {
        entries_insert(
            stored_for_missing(e, pods, missing.drop_last(), value, now),
            pods[missing.last()].metadata.name,
            PodMetric { timestamp: now, window: 60, value },
        )
    }
}

/// With a target value, the assumption for a pod without metrics is the
/// target when scaling down and 0 when scaling up, whatever the pod.
proof fn lemma_fill_missing_by_value(
    e: Seq<(String, PodMetric)>,
    pods: Seq<Pod>,
    missing: Seq<int>,
    down: bool,
    target: u64,
    now: i64,
)
    ensures
        fill_missing(e, pods, missing, down, Resource::CPU, Some(target), now)
            == stored_for_missing(e, pods, missing, if down { target as i64 } else { 0 }, now),
    decreases missing.len(),
{
    if missing.len() > 0 {
        lemma_fill_missing_by_value(e, pods, missing.drop_last(), down, target, now);
    }
}

/// Law: a replica count for a target average value counts every pod
/// without metrics at the target value when the measured pods average below
/// the target (scaling down), and at 0 otherwise (scaling up); the count is
/// then the measured pods' and the assumed pods' average against the
/// target, times the number of pods, rounded up, kept at `current` where the
/// assumption turned the direction of scaling around.
pub proof fn lemma_value_missing_pods_assumed(
    current: u32,
    target: u64,
    e: Seq<(String, PodMetric)>,
    pods: Seq<Pod>,
    now: i64,
)
    requires
        pods.len() > 0,
        filter_pods_spec(e, pods) is Ok,
        filter_pods_spec(e, pods)->Ok_0.0.len() > 0,
    ensures
        ({
            let f = filter_pods_spec(e, pods)->Ok_0;
            let r1 = value_ratio(f.0, target);
            let assumed: i64 = if below_one(r1.0, r1.1) { target as i64 } else { 0 };
            let e2 = stored_for_missing(f.0, pods, f.1, assumed, now);
            let r2 = value_ratio(e2, target);
            replicas_by_value(current, target, e, pods, now) == if fits128(r2.0 * e2.len()) {
                Ok::<u32, CalcError>(decided_replicas(current, r1, r2, scaled_count(r2.0, r2.1, e2.len() as int)))
            } else {
                Err::<u32, CalcError>(CalcError::Overflow)
            }
        }),
{
    let f = filter_pods_spec(e, pods)->Ok_0;
    let r1 = value_ratio(f.0, target);
    lemma_fill_missing_by_value(f.0, pods, f.1, below_one(r1.0, r1.1), target, now);
}

/// Stores the target value (scaling down) or 0 (scaling up) for each pod
/// without metrics.
fn fill_missing_pods_by_value(
    metrics: &mut PodMetricsInfo,
    pods: &Vec<Pod>,
    missing: &Vec<usize>,
    down: bool,
    target_value: u64,
    now: i64,
)
    requires
        forall|j: int| 0 <= j < missing@.len() ==> #[trigger] missing@[j] < pods@.len(),
    ensures
        final(metrics).entries_view() == fill_missing(
            old(metrics).entries_view(),
            pods@,
            missing@.map_values(|j: usize| j as int),
            down,
            Resource::CPU,
            Some(target_value),
            now,
        ),
{
    let ghost e0 = metrics.entries_view();
    let ghost ms = missing@.map_values(|j: usize| j as int);
    let mut k: usize = 0;
    assert(ms.take(0) =~= Seq::<int>::empty());
    while k < missing.len()
        invariant
            k <= missing@.len(),
            ms == missing@.map_values(|j: usize| j as int),
            e0 == old(metrics).entries_view(),
            forall|j: int| 0 <= j < missing@.len() ==> #[trigger] missing@[j] < pods@.len(),
            metrics.entries_view() == fill_missing(e0, pods@, ms.take(k as int), down, Resource::CPU, Some(target_value), now),
        decreases missing@.len() - k,
    {
        assert(ms.take(k + 1).drop_last() =~= ms.take(k as int));
        assert(ms.take(k + 1).last() == missing@[k as int] as int);
        let pod = &pods[missing[k]];
        let value: i64 = if down { target_value as i64 } else { 0 };
        metrics.insert(pod.metadata.name.clone(), PodMetric { timestamp: now, window: 60, value });
        k = k + 1;
    }
    assert(ms.take(k as int) =~= ms);
}

/// The replica count that brings the request rate per replica of a function
/// to `target_value`, from the total rate `metric.value` over the
/// `current_replicas` replicas.
pub fn calc_function_replicas(current_replicas: u32, target_value: u64, value: i64) -> (r: u32)
    requires
        current_replicas > 0,
    ensures
        r == function_replicas(current_replicas, target_value, value),
{
    let c = current_replicas as i128;
    let v = value as i128;
    proof {
        if v >= 0 {
            assert(v / c <= v) by (nonlinear_arith)
                requires v >= 0, c >= 1;
            assert(v / c >= 0) by (nonlinear_arith)
                requires v >= 0, c >= 1;
        } else {
            let w: int = -v;
            let ci: int = c as int;
            assert(w / ci <= w) by (nonlinear_arith)
                requires w >= 0, ci >= 1;
            assert(w / ci >= 0) by (nonlinear_arith)
                requires w >= 0, ci >= 1;
        }
    }
    let per_replica: i128 = if v >= 0 { v / c } else { -((-v) / c) };
    if target_value == 0 {
        return if per_replica > 0 { 0xffff_ffffu32 } else { 0 };
    }
    proof {
        assert(-0x8000_0000_0000_0000 <= per_replica <= 0x7fff_ffff_ffff_ffff);
        assert(-0x8000_0000_0000_0000 * 0x1_0000_0000 <= c * per_replica <= 0x1_0000_0000 * 0x7fff_ffff_ffff_ffff) by (nonlinear_arith)
            requires -0x8000_0000_0000_0000 <= per_replica <= 0x7fff_ffff_ffff_ffff, 1 <= c <= 0xffff_ffff;
    }
    let p = c * per_replica;
    let count = scale_count(ScaleRatio { num: p, den: target_value as i128 }, 1);
    proof {
        assert(p * 1 == p);
    }
    match count {
        Some(x) => x,
        None => 0,
    }
}

/// The replica count for a resource metric source: by utilization or by
/// average value, as its target says.
pub fn compute_resource_replicas(
    source: &ResourceMetricSource,
    current_replicas: u32,
    metrics: PodMetricsInfo,
    pods: &Vec<Pod>,
    now: i64,
) -> (r: Result<u32, CalcError>)
    requires
        forall|i: int| 0 <= i < pods@.len() ==> requests_fit((#[trigger] pods@[i]).spec.containers@, source.name),
    ensures
        r == match source.target {
            MetricTarget::AverageUtilization(t) => replicas_by_utilization(
                current_replicas,
                t,
                source.name,
                metrics.entries_view(),
                pods@,
                now,
            ),
            MetricTarget::AverageValue(t) => replicas_by_value(current_replicas, t, metrics.entries_view(), pods@, now),
        },
{
    match source.target {
        MetricTarget::AverageUtilization(t) => calc_replicas_by_utilization(
            current_replicas,
            t,
            &source.name,
            metrics,
            pods,
            now,
        ),
        MetricTarget::AverageValue(t) => calc_replicas_by_value(current_replicas, t, metrics, pods, now),
    }
}

} // verus!
