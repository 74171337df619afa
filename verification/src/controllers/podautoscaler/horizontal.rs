//! Scaling decisions of the horizontal pod autoscaler: stabilization of
//! recommendations and rate limits on scaling, over a history of past
//! recommendations and scale events kept per autoscaler.

use vstd::prelude::*;
use crate::keyed::KeyedMap;
use crate::objects::hpa::{
    HPAScalingPolicy, HPAScalingRules, HorizontalPodAutoscaler, HorizontalPodAutoscalerBehavior,
    HorizontalPodAutoscalerStatus, PolicySelection, ScalingPolicyType, longest_period_of,
};

verus! {

/// A desired replica count recommended at some time (milliseconds since the
/// Unix epoch).
#[derive(Clone, Copy, Debug, PartialEq, Eq, Structural)]
pub struct Recommendation {
    pub replicas: u32,
    pub time: i64,
}

/// A change of the replica count made at some time (milliseconds since the
/// Unix epoch).
#[derive(Clone, Copy, Debug, PartialEq, Eq, Structural)]
pub struct ScaleEvent {
    pub change: u32,
    pub time: i64,
}

/// The start of a window of `seconds` ending at `now` (milliseconds).
pub open spec fn cutoff(now: int, seconds: u32) -> int {
    now - seconds * 1000
}

/// The recommendations left once those older than both cutoffs are dropped
/// from the front.
pub open spec fn drop_outdated(recs: Seq<Recommendation>, up: int, down: int) -> Seq<Recommendation>
    decreases recs.len(),
{
    if recs.len() > 0 && recs[0].time < up && recs[0].time < down {
        drop_outdated(recs.drop_first(), up, down)
    } else {
        recs
    }
}

/// The smallest of `init` and the replicas recommended at or after `cut`.
pub open spec fn min_since(recs: Seq<Recommendation>, cut: int, init: u32) -> u32
    decreases recs.len(),
{
    if recs.len() == 0 {
        init
    } else {
        let m = min_since(recs.drop_last(), cut, init);
        if recs.last().time >= cut && recs.last().replicas < m {
            recs.last().replicas
        } else {
            m
        }
    }
}

/// The largest of `init` and the replicas recommended at or after `cut`.
pub open spec fn max_since(recs: Seq<Recommendation>, cut: int, init: u32) -> u32
    decreases recs.len(),
{
    if recs.len() == 0 {
        init
    } else {
        let m = max_since(recs.drop_last(), cut, init);
        if recs.last().time >= cut && recs.last().replicas > m {
            recs.last().replicas
        } else {
            m
        }
    }
}

/// The stabilized recommendation: `current` raised to the lowest
/// recommendation of the scale-up window and lowered to the highest of the
/// scale-down window, the new recommendation `desired` included in both.
pub open spec fn stabilized(current: u32, desired: u32, recs: Seq<Recommendation>, up: int, down: int) -> u32 {
    let lo = min_since(recs, up, desired);
    let hi = max_since(recs, down, desired);
    let raised = if current > lo { current } else { lo };
    if raised < hi { raised } else { hi }
}

/// The replicas changed by the events at or after `cut`.
pub open spec fn change_since(events: Seq<ScaleEvent>, cut: int) -> int
    decreases events.len(),
{
    if events.len() == 0 {
        0
    } else {
        change_since(events.drop_last(), cut) + if events.last().time >= cut {
            events.last().change as int
        } else {
            0
        }
    }
}

/// The events left once those before `cut` are dropped from the front.
pub open spec fn drop_before(events: Seq<ScaleEvent>, cut: int) -> Seq<ScaleEvent>
    decreases events.len(),
{
    if events.len() > 0 && events[0].time < cut {
        drop_before(events.drop_first(), cut)
    } else {
        events
    }
}

/// `x` capped at `u32::MAX` (for `x >= 0`).
pub open spec fn sat32(x: int) -> u32 {
    if x > u32::MAX {
        u32::MAX
    } else if x < 0 {
        0
    } else {
        x as u32
    }
}

/// The smallest integer not below `a / b`, for `a >= 0` and `b > 0`.
pub open spec fn ceil_div(a: int, b: int) -> int {
    (a + b - 1) / b
}

/// The replicas changed within a policy's period, as counted by
/// [`PodAutoscaler::get_replicas_change_in_period`].
pub open spec fn change_in_period(events: Option<Seq<ScaleEvent>>, period: u32, now: int) -> u32 {
    match events {
        Some(e) => sat32(change_since(e, cutoff(now, period))),
        None => 0,
    }
}

/// The most replicas that one policy allows when scaling up from `current`,
/// after `added` replicas were added in its period: the count at the start
/// of the period plus the policy's number of pods or percentage.
pub open spec fn up_policy_limit(p: HPAScalingPolicy, current: u32, added: u32) -> u32 {
    let start: int = if added > current { 0 } else { current - added };
    match p.type_ {
        ScalingPolicyType::Pods => sat32(start + p.value),
        ScalingPolicyType::Percent => sat32(ceil_div(start * (100 + p.value), 100)),
    }
}

/// The fewest replicas that one policy allows when scaling down from
/// `current`, after `deleted` replicas were removed in its period.
pub open spec fn down_policy_limit(p: HPAScalingPolicy, current: u32, deleted: u32) -> u32 {
    let start: int = current + deleted;
    match p.type_ {
        ScalingPolicyType::Pods => if start >= p.value {
            sat32(start - p.value)
        } else {
            0
        },
        ScalingPolicyType::Percent => if p.value >= 100 {
            0
        } else {
            sat32(ceil_div(start * (100 - p.value), 100))
        },
    }
}

/// The scale-up limit of the policies: the least of their limits under
/// `Min`, the greatest under `Max`.
pub open spec fn fold_up_limits(
    ps: Seq<HPAScalingPolicy>,
    sel: PolicySelection,
    current: u32,
    events: Option<Seq<ScaleEvent>>,
    now: int,
) -> u32
    decreases ps.len(),
{
    if ps.len() == 0 {
        if sel == PolicySelection::Min {
            u32::MAX
        } else {
            0
        }
    } else {
        let acc = fold_up_limits(ps.drop_last(), sel, current, events, now);
        let l = up_policy_limit(
            ps.last(),
            current,
            change_in_period(events, ps.last().period_seconds, now),
        );
        if sel == PolicySelection::Min {
            if l < acc { l } else { acc }
        } else {
            if l > acc { l } else { acc }
        }
    }
}

/// The scale-down limit of the policies: under `Min` (the least change) the
/// greatest of their limits, under `Max` the least.
pub open spec fn fold_down_limits(
    ps: Seq<HPAScalingPolicy>,
    sel: PolicySelection,
    current: u32,
    events: Option<Seq<ScaleEvent>>,
    now: int,
) -> u32
    decreases ps.len(),
{
    if ps.len() == 0 {
        if sel == PolicySelection::Min {
            0
        } else {
            u32::MAX
        }
    } else {
        let acc = fold_down_limits(ps.drop_last(), sel, current, events, now);
        let l = down_policy_limit(
            ps.last(),
            current,
            change_in_period(events, ps.last().period_seconds, now),
        );
        if sel == PolicySelection::Min {
            if l > acc { l } else { acc }
        } else {
            if l < acc { l } else { acc }
        }
    }
}

/// The most replicas the scale-up rules allow.
pub open spec fn scale_up_limit(current: u32, events: Option<Seq<ScaleEvent>>, rules: HPAScalingRules, now: int) -> u32 {
    if rules.select_policy == PolicySelection::Disabled {
        current
    } else {
        fold_up_limits(rules.policies@, rules.select_policy, current, events, now)
    }
}

/// The fewest replicas the scale-down rules allow.
pub open spec fn scale_down_limit(current: u32, events: Option<Seq<ScaleEvent>>, rules: HPAScalingRules, now: int) -> u32 {
    if rules.select_policy == PolicySelection::Disabled {
        current
    } else {
        fold_down_limits(rules.policies@, rules.select_policy, current, events, now)
    }
}

/// The desired replicas brought within the rate the behavior allows:
/// scaling up is capped by the scale-up limit (never below `current`) and
/// `max_replicas`; scaling down is floored by the scale-down limit (never
/// above `current`) and `min_replicas`.
pub open spec fn conformed(
    current: u32,
    desired: u32,
    up_events: Option<Seq<ScaleEvent>>,
    down_events: Option<Seq<ScaleEvent>>,
    behavior: HorizontalPodAutoscalerBehavior,
    min_replicas: u32,
    max_replicas: u32,
    now: int,
) -> u32 {
    if desired > current {
        let l0 = scale_up_limit(current, up_events, behavior.scale_up, now);
        let limit = if l0 > current { l0 } else { current };
        let cap = if max_replicas > limit { limit } else { max_replicas };
        if desired < cap { desired } else { cap }
    } else if desired < current {
        let l0 = scale_down_limit(current, down_events, behavior.scale_down, now);
        let limit = if l0 < current { l0 } else { current };
        let floor = if min_replicas < limit { limit } else { min_replicas };
        if desired > floor { desired } else { floor }
    } else {
        desired
    }
}

/// The scale events of `name` after a change from `prev` to `new` at `now`:
/// events older than the longest period of the rules are discarded, and the
/// change is appended.
pub open spec fn recorded_events(
    old_events: Option<Seq<ScaleEvent>>,
    longest: u32,
    change: u32,
    now: i64,
) -> Seq<ScaleEvent> {
    match old_events {
        Some(e) => drop_before(e, cutoff(now as int, longest)).push(ScaleEvent { change, time: now }),
        None => seq![ScaleEvent { change, time: now }],
    }
}

/// The view of optional borrowed events.
pub open spec fn events_view(events: Option<&Vec<ScaleEvent>>) -> Option<Seq<ScaleEvent>> {
    match events {
        Some(v) => Some(v@),
        None => None,
    }
}

proof fn lemma_drop_outdated_prefix(recs: Seq<Recommendation>, k: int, up: int, down: int)
    requires
        0 <= k <= recs.len(),
        forall|j: int| 0 <= j < k ==> recs[j].time < up && recs[j].time < down,
    ensures
        drop_outdated(recs, up, down) == drop_outdated(recs.subrange(k, recs.len() as int), up, down),
    decreases k,
{
    if k == 0 {
        assert(recs.subrange(0, recs.len() as int) =~= recs);
    } else {
        let d = recs.drop_first();
        assert forall|j: int| 0 <= j < k - 1 implies d[j].time < up && d[j].time < down by {
            assert(d[j] == recs[j + 1]);
        }
        lemma_drop_outdated_prefix(d, k - 1, up, down);
        assert(d.subrange(k - 1, d.len() as int) =~= recs.subrange(k, recs.len() as int));
    }
}

proof fn lemma_drop_before_prefix(events: Seq<ScaleEvent>, k: int, cut: int)
    requires
        0 <= k <= events.len(),
        forall|j: int| 0 <= j < k ==> events[j].time < cut,
    ensures
        drop_before(events, cut) == drop_before(events.subrange(k, events.len() as int), cut),
    decreases k,
{
    if k == 0 {
        assert(events.subrange(0, events.len() as int) =~= events);
    } else {
        let d = events.drop_first();
        assert forall|j: int| 0 <= j < k - 1 implies d[j].time < cut by {
            assert(d[j] == events[j + 1]);
        }
        lemma_drop_before_prefix(d, k - 1, cut);
        assert(d.subrange(k - 1, d.len() as int) =~= events.subrange(k, events.len() as int));
    }
}

proof fn lemma_change_since_nonneg(events: Seq<ScaleEvent>, cut: int)
    ensures
        change_since(events, cut) >= 0,
    decreases events.len(),
{
    if events.len() > 0 {
        lemma_change_since_nonneg(events.drop_last(), cut);
    }
}

/// The replicas changed since `cut` counted over the events left after
/// dropping those before an earlier `c`: dropped events are older than any
/// window that starts at `c` or later.
pub proof fn lemma_change_since_drop_before(events: Seq<ScaleEvent>, c: int, cut: int)
    requires
        c <= cut,
    ensures
        change_since(drop_before(events, c), cut) == change_since(events, cut),
    decreases events.len(),
{
    if events.len() > 0 && events[0].time < c {
        lemma_change_since_drop_before(events.drop_first(), c, cut);
        lemma_change_since_drop_first(events, cut);
    }
}

/// Dropping a first event older than `cut` leaves the change since `cut` as it is.
proof fn lemma_change_since_drop_first(events: Seq<ScaleEvent>, cut: int)
    requires
        events.len() > 0,
        events[0].time < cut,
    ensures
        change_since(events.drop_first(), cut) == change_since(events, cut),
    decreases events.len(),
{
    if events.len() > 1 {
        let d = events.drop_last();
        assert(d[0] == events[0]);
        lemma_change_since_drop_first(d, cut);
        let f = events.drop_first();
        assert(f.drop_last() =~= d.drop_first());
        assert(f.last() == events.last());
        assert(change_since(f, cut) == change_since(f.drop_last(), cut) + if f.last().time >= cut {
            f.last().change as int
        } else {
            0
        });
    } else {
        assert(events.drop_first().len() == 0);
        assert(events.drop_last().len() == 0);
        assert(change_since(events.drop_last(), cut) == 0);
        assert(change_since(events.drop_first(), cut) == 0);
    }
}

/// The minimum only looks at recommendations at or after the cutoff, so
/// dropping older ones from the front changes nothing.
proof fn lemma_since_drop_outdated(recs: Seq<Recommendation>, up: int, down: int, init: u32)
    ensures
        min_since(drop_outdated(recs, up, down), up, init) == min_since(recs, up, init),
        max_since(drop_outdated(recs, up, down), down, init) == max_since(recs, down, init),
    decreases recs.len(),
{
    if recs.len() > 0 && recs[0].time < up && recs[0].time < down {
        lemma_since_drop_outdated(recs.drop_first(), up, down, init);
        lemma_since_drop_first(recs, up, down, init);
    }
}

proof fn lemma_since_drop_first(recs: Seq<Recommendation>, up: int, down: int, init: u32)
    requires
        recs.len() > 0,
        recs[0].time < up,
        recs[0].time < down,
    ensures
        min_since(recs.drop_first(), up, init) == min_since(recs, up, init),
        max_since(recs.drop_first(), down, init) == max_since(recs, down, init),
    decreases recs.len(),
{
    if recs.len() > 1 {
        let d = recs.drop_last();
        assert(d[0] == recs[0]);
        lemma_since_drop_first(d, up, down, init);
        let f = recs.drop_first();
        assert(f.drop_last() =~= d.drop_first());
        assert(f.last() == recs.last());
        assert(min_since(f, up, init) == {
            let m = min_since(f.drop_last(), up, init);
            if f.last().time >= up && f.last().replicas < m {
                f.last().replicas
            } else {
                m
            }
        });
        assert(max_since(f, down, init) == {
            let m = max_since(f.drop_last(), down, init);
            if f.last().time >= down && f.last().replicas > m {
                f.last().replicas
            } else {
                m
            }
        });
    } else {
        assert(recs.drop_first().len() == 0);
        assert(recs.drop_last().len() == 0);
        assert(min_since(recs.drop_last(), up, init) == init);
        assert(max_since(recs.drop_last(), down, init) == init);
        assert(min_since(recs.drop_first(), up, init) == init);
        assert(max_since(recs.drop_first(), down, init) == init);
    }
}

proof fn lemma_min_max_bounds(recs: Seq<Recommendation>, up: int, down: int, init: u32)
    ensures
        min_since(recs, up, init) <= init,
        max_since(recs, down, init) >= init,
    decreases recs.len(),
{
    if recs.len() > 0 {
        lemma_min_max_bounds(recs.drop_last(), up, down, init);
    }
}

/// Law: the stabilized recommendation lies between the current replica
/// count and the new recommendation.
pub proof fn lemma_stabilized_between(current: u32, desired: u32, recs: Seq<Recommendation>, up: int, down: int)
    ensures
        ({
            let r = stabilized(current, desired, recs, up, down);
            (current <= desired ==> current <= r <= desired) && (desired <= current ==> desired <= r
                <= current)
        }),
{
    lemma_min_max_bounds(recs, up, down, desired);
}

/// The smallest of `init` and the replicas recommended at or after `cut` is
/// a lower bound of each of them and is one of them.
proof fn lemma_min_since_is_least(recs: Seq<Recommendation>, cut: int, init: u32)
    ensures
        min_since(recs, cut, init) <= init,
        forall|k: int| 0 <= k < recs.len() && recs[k].time >= cut ==> min_since(recs, cut, init) <= #[trigger] recs[k].replicas,
        min_since(recs, cut, init) == init || exists|k: int|
            0 <= k < recs.len() && recs[k].time >= cut && #[trigger] recs[k].replicas == min_since(recs, cut, init),
    decreases recs.len(),
{
    if recs.len() > 0 {
        let d = recs.drop_last();
        lemma_min_since_is_least(d, cut, init);
        let m = min_since(d, cut, init);
        assert forall|k: int| 0 <= k < recs.len() && recs[k].time >= cut implies min_since(recs, cut, init)
            <= #[trigger] recs[k].replicas by {
            if k < recs.len() - 1 {
                assert(recs[k] == d[k]);
            }
        }
        if min_since(recs, cut, init) != init {
            if recs.last().time >= cut && recs.last().replicas < m {
                assert(recs[recs.len() - 1].replicas == min_since(recs, cut, init));
            } else {
                let k = choose|k: int| 0 <= k < d.len() && d[k].time >= cut && #[trigger] d[k].replicas == m;
                assert(recs[k] == d[k]);
            }
        }
    }
}

/// The largest of `init` and the replicas recommended at or after `cut` is
/// an upper bound of each of them and is one of them.
proof fn lemma_max_since_is_greatest(recs: Seq<Recommendation>, cut: int, init: u32)
    ensures
        max_since(recs, cut, init) >= init,
        forall|k: int| 0 <= k < recs.len() && recs[k].time >= cut ==> max_since(recs, cut, init) >= #[trigger] recs[k].replicas,
        max_since(recs, cut, init) == init || exists|k: int|
            0 <= k < recs.len() && recs[k].time >= cut && #[trigger] recs[k].replicas == max_since(recs, cut, init),
    decreases recs.len(),
{
    if recs.len() > 0 {
        let d = recs.drop_last();
        lemma_max_since_is_greatest(d, cut, init);
        let m = max_since(d, cut, init);
        assert forall|k: int| 0 <= k < recs.len() && recs[k].time >= cut implies max_since(recs, cut, init)
            >= #[trigger] recs[k].replicas by {
            if k < recs.len() - 1 {
                assert(recs[k] == d[k]);
            }
        }
        if max_since(recs, cut, init) != init {
            if recs.last().time >= cut && recs.last().replicas > m {
                assert(recs[recs.len() - 1].replicas == max_since(recs, cut, init));
            } else {
                let k = choose|k: int| 0 <= k < d.len() && d[k].time >= cut && #[trigger] d[k].replicas == m;
                assert(recs[k] == d[k]);
            }
        }
    }
}

/// Law: the stabilized recommendation is `current` raised to `lo` and then
/// lowered to `hi`, where `lo` is the lowest of the new recommendation and
/// the recommendations of the scale-up window (at or after `up`), and `hi`
/// the highest of the new recommendation and those of the scale-down window
/// (at or after `down`).
pub proof fn lemma_stabilized_clamps_current(
    current: u32,
    desired: u32,
    recs: Seq<Recommendation>,
    up: int,
    down: int,
    lo: u32,
    hi: u32,
)
    requires
        lo <= desired,
        forall|k: int| 0 <= k < recs.len() && recs[k].time >= up ==> lo <= #[trigger] recs[k].replicas,
        lo == desired || exists|k: int| 0 <= k < recs.len() && recs[k].time >= up && #[trigger] recs[k].replicas == lo,
        hi >= desired,
        forall|k: int| 0 <= k < recs.len() && recs[k].time >= down ==> hi >= #[trigger] recs[k].replicas,
        hi == desired || exists|k: int| 0 <= k < recs.len() && recs[k].time >= down && #[trigger] recs[k].replicas == hi,
    ensures
        stabilized(current, desired, recs, up, down) == (if current > lo {
            if current < hi { current } else { hi }
        } else {
            if lo < hi { lo } else { hi }
        }),
{
    lemma_min_since_is_least(recs, up, desired);
    lemma_max_since_is_greatest(recs, down, desired);
    let m = min_since(recs, up, desired);
    let x = max_since(recs, down, desired);
    if m != desired {
        let k = choose|k: int| 0 <= k < recs.len() && recs[k].time >= up && #[trigger] recs[k].replicas == m;
        assert(lo <= recs[k].replicas);
    }
    if lo != desired {
        let k = choose|k: int| 0 <= k < recs.len() && recs[k].time >= up && #[trigger] recs[k].replicas == lo;
        assert(m <= recs[k].replicas);
    }
    if x != desired {
        let k = choose|k: int| 0 <= k < recs.len() && recs[k].time >= down && #[trigger] recs[k].replicas == x;
        assert(hi >= recs[k].replicas);
    }
    if hi != desired {
        let k = choose|k: int| 0 <= k < recs.len() && recs[k].time >= down && #[trigger] recs[k].replicas == hi;
        assert(x >= recs[k].replicas);
    }
    assert(m == lo);
    assert(x == hi);
}

/// Law: scaling down is held back by the scale-down window: when the new
/// recommendation is at most `current` and some recommendation of the
/// scale-down window is at least `current`, the count stays at `current`.
pub proof fn lemma_stabilized_holds_scale_down(
    current: u32,
    desired: u32,
    recs: Seq<Recommendation>,
    up: int,
    down: int,
    k: int,
)
    requires
        desired <= current,
        0 <= k < recs.len(),
        recs[k].time >= down,
        recs[k].replicas >= current,
    ensures
        stabilized(current, desired, recs, up, down) == current,
{
    lemma_min_since_is_least(recs, up, desired);
    lemma_max_since_is_greatest(recs, down, desired);
}

/// Law: scaling up is held back by the scale-up window: when the new
/// recommendation is at least `current` and some recommendation of the
/// scale-up window is at most `current`, the count stays at `current`.
pub proof fn lemma_stabilized_holds_scale_up(
    current: u32,
    desired: u32,
    recs: Seq<Recommendation>,
    up: int,
    down: int,
    k: int,
)
    requires
        desired >= current,
        0 <= k < recs.len(),
        recs[k].time >= up,
        recs[k].replicas <= current,
    ensures
        stabilized(current, desired, recs, up, down) == current,
{
    lemma_min_since_is_least(recs, up, desired);
    lemma_max_since_is_greatest(recs, down, desired);
}

/// Law: with no recommendation in either window, the new recommendation is
/// taken as it is.
pub proof fn lemma_stabilized_empty_windows(current: u32, desired: u32, recs: Seq<Recommendation>, up: int, down: int)
    requires
        forall|k: int| 0 <= k < recs.len() ==> (#[trigger] recs[k]).time < up && recs[k].time < down,
    ensures
        stabilized(current, desired, recs, up, down) == desired,
{
    lemma_min_since_is_least(recs, up, desired);
    lemma_max_since_is_greatest(recs, down, desired);
}

/// Law: with `min_replicas <= current <= max_replicas`, conforming to the
/// behavior never reverses the direction of scaling nor overshoots the
/// desired count.
pub proof fn lemma_conformed_direction(
    current: u32,
    desired: u32,
    up_events: Option<Seq<ScaleEvent>>,
    down_events: Option<Seq<ScaleEvent>>,
    behavior: HorizontalPodAutoscalerBehavior,
    min_replicas: u32,
    max_replicas: u32,
    now: int,
)
    requires
        min_replicas <= current <= max_replicas,
    ensures
        ({
            let r = conformed(
                current,
                desired,
                up_events,
                down_events,
                behavior,
                min_replicas,
                max_replicas,
                now,
            );
            &&& (desired >= current ==> current <= r <= desired)
            &&& (desired <= current ==> desired <= r <= current)
            &&& min_replicas <= r <= max_replicas || r == desired
        }),
{
}

/// Law: under a single scale-down policy by number of pods, the fewest
/// replicas allowed is the count at the start of the policy's period
/// (`current` plus the replicas removed within the period) less the
/// policy's value, or 0 when the value is larger.
pub proof fn lemma_scale_down_limit_single_pods(
    current: u32,
    events: Option<Seq<ScaleEvent>>,
    rules: HPAScalingRules,
    now: int,
)
    requires
        rules.select_policy != PolicySelection::Disabled,
        rules.policies@.len() == 1,
        rules.policies@[0].type_ == ScalingPolicyType::Pods,
    ensures
        ({
            let p = rules.policies@[0];
            let start: int = current + change_in_period(events, p.period_seconds, now);
            scale_down_limit(current, events, rules, now) == if start < p.value {
                0
            } else if start - p.value > u32::MAX {
                u32::MAX
            } else {
                (start - p.value) as u32
            }
        }),
{
    let ps = rules.policies@;
    let sel = rules.select_policy;
    assert(ps.drop_last() =~= Seq::<HPAScalingPolicy>::empty());
    assert(ps.last() == ps[0]);
    let acc = fold_down_limits(ps.drop_last(), sel, current, events, now);
    assert(acc == if sel == PolicySelection::Min { 0 } else { u32::MAX });
    let l = down_policy_limit(ps[0], current, change_in_period(events, ps[0].period_seconds, now));
    assert(fold_down_limits(ps, sel, current, events, now) == l);
}

/// Law: under a single scale-down policy by percentage, the fewest replicas
/// allowed is the count at the start of the policy's period (`current` plus
/// the replicas removed within the period) reduced by the policy's
/// percentage, rounded up; 0 for a percentage of 100 or more.
pub proof fn lemma_scale_down_limit_single_percent(
    current: u32,
    events: Option<Seq<ScaleEvent>>,
    rules: HPAScalingRules,
    now: int,
)
    requires
        rules.select_policy != PolicySelection::Disabled,
        rules.policies@.len() == 1,
        rules.policies@[0].type_ == ScalingPolicyType::Percent,
    ensures
        ({
            let p = rules.policies@[0];
            let start: int = current + change_in_period(events, p.period_seconds, now);
            let l: int = (start * (100 - p.value) + 99) / 100;
            scale_down_limit(current, events, rules, now) == if p.value >= 100 {
                0
            } else if l > u32::MAX {
                u32::MAX
            } else {
                l as u32
            }
        }),
{
    let ps = rules.policies@;
    let sel = rules.select_policy;
    assert(ps.drop_last() =~= Seq::<HPAScalingPolicy>::empty());
    assert(ps.last() == ps[0]);
    let acc = fold_down_limits(ps.drop_last(), sel, current, events, now);
    assert(acc == if sel == PolicySelection::Min { 0 } else { u32::MAX });
    let l = down_policy_limit(ps[0], current, change_in_period(events, ps[0].period_seconds, now));
    assert(fold_down_limits(ps, sel, current, events, now) == l);
    let p = ps[0];
    let start: int = current + change_in_period(events, p.period_seconds, now);
    if p.value < 100 {
        assert(start * (100 - p.value) >= 0) by (nonlinear_arith)
            requires start >= 0, p.value < 100;
    }
}

/// The count that normalization gives: the stabilized recommendation (or
/// `current` without a history), conformed to the behavior, at least
/// `min_replicas`.
pub open spec fn normalized_value(
    recs: Map<Seq<char>, Seq<Recommendation>>,
    up_events: Map<Seq<char>, Seq<ScaleEvent>>,
    down_events: Map<Seq<char>, Seq<ScaleEvent>>,
    name: Seq<char>,
    hpa: HorizontalPodAutoscaler,
    current: u32,
    desired: u32,
    now: i64,
) -> u32 {
    let up = cutoff(now as int, hpa.spec.behavior.scale_up.stabilization_window_seconds);
    let down = cutoff(now as int, hpa.spec.behavior.scale_down.stabilization_window_seconds);
    let s = if recs.contains_key(name) {
        stabilized(current, desired, recs[name], up, down)
    } else {
        current
    };
    let c = conformed(
        current,
        s,
        history_of(up_events, name),
        history_of(down_events, name),
        hpa.spec.behavior,
        hpa.spec.min_replicas,
        hpa.spec.max_replicas,
        now as int,
    );
    if c > hpa.spec.min_replicas { c } else { hpa.spec.min_replicas }
}

/// The recommendations after normalization records `desired` at `now`.
pub open spec fn recs_after_normalize(
    recs: Map<Seq<char>, Seq<Recommendation>>,
    name: Seq<char>,
    hpa: HorizontalPodAutoscaler,
    desired: u32,
    now: i64,
) -> Map<Seq<char>, Seq<Recommendation>> {
    let up = cutoff(now as int, hpa.spec.behavior.scale_up.stabilization_window_seconds);
    let down = cutoff(now as int, hpa.spec.behavior.scale_down.stabilization_window_seconds);
    if recs.contains_key(name) {
        recs.insert(
            name,
            drop_outdated(recs[name], up, down).push(Recommendation { replicas: desired, time: now }),
        )
    } else {
        recs
    }
}

/// The recommendations after observing a target with `current` replicas: a
/// history is started with `current` if there is none, and `current` is
/// recorded again when it differs from the last desired count (the target
/// was changed by someone else).
pub open spec fn recs_after_observe(
    recs: Map<Seq<char>, Seq<Recommendation>>,
    name: Seq<char>,
    current: u32,
    last_desired: u32,
    now: i64,
) -> Map<Seq<char>, Seq<Recommendation>> {
    let r = Recommendation { replicas: current, time: now };
    let base = if recs.contains_key(name) {
        recs[name]
    } else {
        seq![r]
    };
    recs.insert(name, if current != last_desired { base.push(r) } else { base })
}

/// The replica count a reconciliation settles on.
pub open spec fn reconciled_replicas(
    recs: Map<Seq<char>, Seq<Recommendation>>,
    up_events: Map<Seq<char>, Seq<ScaleEvent>>,
    down_events: Map<Seq<char>, Seq<ScaleEvent>>,
    hpa: HorizontalPodAutoscaler,
    current: u32,
    plan: ReconcilePlan,
    metric_replicas: u32,
    now: i64,
) -> u32 {
    match plan {
        ReconcilePlan::Fixed(d) => d,
        ReconcilePlan::FromMetrics => normalized_value(
            recs,
            up_events,
            down_events,
            hpa.metadata.name@,
            hpa,
            current,
            metric_replicas,
            now,
        ),
    }
}

/// Law: after a scale event is recorded, the change counted in any policy
/// period no longer than the longest one is the change counted before plus
/// the new event: discarding old events loses nothing those periods count.
pub proof fn lemma_recorded_event_counted(
    old_events: Option<Seq<ScaleEvent>>,
    longest: u32,
    change: u32,
    now: i64,
    period: u32,
)
    requires
        period <= longest,
    ensures
        change_since(recorded_events(old_events, longest, change, now), cutoff(now as int, period))
            == match old_events {
            Some(e) => change_since(e, cutoff(now as int, period)),
            None => 0,
        } + change,
{
    let cut = cutoff(now as int, period);
    let ev = ScaleEvent { change, time: now };
    match old_events {
        Some(e) => {
            let kept = drop_before(e, cutoff(now as int, longest));
            lemma_change_since_drop_before(e, cutoff(now as int, longest), cut);
            assert(kept.push(ev).drop_last() =~= kept);
            assert(kept.push(ev).last() == ev);
            assert(ev.time >= cut);
            assert(change_since(kept.push(ev), cut) == change_since(kept, cut) + change);
        },
        None => {
            assert(seq![ev].drop_last() =~= Seq::<ScaleEvent>::empty());
            assert(seq![ev].last() == ev);
            assert(change_since(seq![ev], cut) == change_since(Seq::<ScaleEvent>::empty(), cut) + change);
        },
    }
}

/// The recommendation and scale history of every autoscaler, by name.
#[derive(Debug)]
pub struct PodAutoscaler {
    recommendations: KeyedMap<Vec<Recommendation>>,
    scale_up_events: KeyedMap<Vec<ScaleEvent>>,
    scale_down_events: KeyedMap<Vec<ScaleEvent>>,
}

/// How an autoscaler is to be reconciled after observing its target.
#[derive(Clone, Copy, Debug, PartialEq, Eq, Structural)]
pub enum ReconcilePlan {
    /// The replica count is fixed without metrics: 0 when scaling is disabled
    /// (the target has no replicas), or the bound it lies outside of.
    Fixed(u32),
    /// The replica count follows from the metrics.
    FromMetrics,
}

/// Why an autoscaler could not be reconciled.
#[derive(Clone, Copy, Debug, PartialEq, Eq, Structural)]
pub enum HpaError {
    /// The autoscaler has no status yet.
    MissingStatus,
}

/// What to do after a reconciliation.
#[derive(Clone, Copy, Debug, PartialEq, Eq, Structural)]
pub struct ReconcileOutcome {
    /// The replica count to set on the target, when it changes.
    pub scale_to: Option<u32>,
    /// The status to post, when it changes.
    pub new_status: Option<HorizontalPodAutoscalerStatus>,
}

/// The plan for a target with `current` replicas.
pub open spec fn plan_for(current: u32, min_replicas: u32, max_replicas: u32) -> ReconcilePlan {
    if current == 0 {
        ReconcilePlan::Fixed(0)
    } else if current > max_replicas {
        ReconcilePlan::Fixed(max_replicas)
    } else if current < min_replicas {
        ReconcilePlan::Fixed(min_replicas)
    } else {
        ReconcilePlan::FromMetrics
    }
}

/// The status after reconciling from `current` to `desired` at `now`.
pub open spec fn next_status(
    status: HorizontalPodAutoscalerStatus,
    current: u32,
    desired: u32,
    now: i64,
) -> HorizontalPodAutoscalerStatus {
    HorizontalPodAutoscalerStatus {
        current_replicas: if desired == 0 { 0 } else { current },
        desired_replicas: desired,
        last_scale_time: if current != desired { Some(now) } else { status.last_scale_time },
    }
}

/// The view of a history map.
pub open spec fn history_view<T>(m: Map<Seq<char>, Vec<T>>) -> Map<Seq<char>, Seq<T>> {
    m.map_values(|v: Vec<T>| v@)
}

/// The history of `name` in a history map, if any.
pub open spec fn history_of<T>(m: Map<Seq<char>, Seq<T>>, name: Seq<char>) -> Option<Seq<T>> {
    if m.contains_key(name) {
        Some(m[name])
    } else {
        None
    }
}

impl PodAutoscaler {
    /// Each history map names an autoscaler at most once.
    pub closed spec fn wf(self) -> bool {
        &&& self.recommendations.wf()
        &&& self.scale_up_events.wf()
        &&& self.scale_down_events.wf()
    }

    /// The recommendations of every autoscaler.
    pub closed spec fn recs(self) -> Map<Seq<char>, Seq<Recommendation>> {
        history_view(self.recommendations.map_view())
    }

    /// The scale-up events of every autoscaler.
    pub closed spec fn up_events(self) -> Map<Seq<char>, Seq<ScaleEvent>> {
        history_view(self.scale_up_events.map_view())
    }

    /// The scale-down events of every autoscaler.
    pub closed spec fn down_events(self) -> Map<Seq<char>, Seq<ScaleEvent>> {
        history_view(self.scale_down_events.map_view())
    }

    /// No history.
    pub fn new() -> (r: PodAutoscaler)
        ensures
            r.wf(),
            r.recs() == Map::<Seq<char>, Seq<Recommendation>>::empty(),
            r.up_events() == Map::<Seq<char>, Seq<ScaleEvent>>::empty(),
            r.down_events() == Map::<Seq<char>, Seq<ScaleEvent>>::empty(),
    {
        let r = PodAutoscaler {
            recommendations: KeyedMap::new(),
            scale_up_events: KeyedMap::new(),
            scale_down_events: KeyedMap::new(),
        };
        assert(r.recs() =~= Map::<Seq<char>, Seq<Recommendation>>::empty());
        assert(r.up_events() =~= Map::<Seq<char>, Seq<ScaleEvent>>::empty());
        assert(r.down_events() =~= Map::<Seq<char>, Seq<ScaleEvent>>::empty());
        r
    }

    /// The replicas changed within the last `period_seconds` before `now`, by
    /// the given events (0 without events), capped at `u32::MAX`.
    pub fn get_replicas_change_in_period(
        &self,
        period_seconds: u32,
        events: Option<&Vec<ScaleEvent>>,
        now: i64,
    ) -> (r: u32)
        ensures
            r == change_in_period(events_view(events), period_seconds, now as int),
    {
        match events {
            None => 0,
            Some(events) => {
                let cut: i128 = now as i128 - period_seconds as i128 * 1000;
                let mut acc: u64 = 0;
                let mut i: usize = 0;
                assert(events@.take(0) =~= Seq::<ScaleEvent>::empty());
                while i < events.len()
                    invariant
                        i <= events@.len(),
                        cut == cutoff(now as int, period_seconds),
                        acc as int == sat32(change_since(events@.take(i as int), cut as int)) as int,
                    decreases events.len() - i,
                {
                    let ghost prev = events@.take(i as int);
                    assert(events@.take(i + 1).drop_last() =~= prev);
                    assert(events@.take(i + 1).last() == events@[i as int]);
                    proof {
                        lemma_change_since_nonneg(prev, cut as int);
                    }
                    if events[i].time as i128 >= cut {
                        let sum = acc + events[i].change as u64;
                        acc = if sum > 4294967295u64 { 4294967295u64 } else { sum };
                    }
                    i = i + 1;
                }
                assert(events@.take(i as int) =~= events@);
                acc as u32
            },
        }
    }

    /// The most replicas the scale-up rules allow from `current`, given the
    /// scale-up events: `current` when scaling up is disabled, otherwise the
    /// least (`Min`) or greatest (`Max`) of the limits of the policies.
    pub fn calc_scale_up_limit(
        &self,
        current_replicas: u32,
        events: Option<&Vec<ScaleEvent>>,
        rules: &HPAScalingRules,
        now: i64,
    ) -> (r: u32)
        ensures
            r == scale_up_limit(current_replicas, events_view(events), *rules, now as int),
    {
        if rules.select_policy == PolicySelection::Disabled {
            return current_replicas;
        }
        let sel = rules.select_policy;
        let mut result: u32 = if sel == PolicySelection::Min { u32::MAX } else { 0 };
        let mut i: usize = 0;
        let ghost ps = rules.policies@;
        assert(ps.take(0) =~= Seq::<HPAScalingPolicy>::empty());
        while i < rules.policies.len()
            invariant
                i <= ps.len(),
                ps == rules.policies@,
                sel == rules.select_policy,
                sel != PolicySelection::Disabled,
                result == fold_up_limits(ps.take(i as int), sel, current_replicas, events_view(events), now as int),
            decreases ps.len() - i,
        {
            let policy = rules.policies[i];
            let added = self.get_replicas_change_in_period(policy.period_seconds, events, now);
            let start: u64 = if added > current_replicas { 0 } else { (current_replicas - added) as u64 };
            let limit: u32 = match policy.type_ {
                ScalingPolicyType::Pods => {
                    let l: u64 = start + policy.value as u64;
                    if l > 4294967295u64 { u32::MAX } else { l as u32 }
                },
                ScalingPolicyType::Percent => {
                    let factor: u128 = 100 + policy.value as u128;
                    assert(start as u128 * factor <= 0x1_0000_0000u128 * 0x1_0000_0064u128) by (nonlinear_arith)
                        requires
                            start <= 0xFFFF_FFFFu64,
                            factor <= 0x1_0000_0063u128;
                    let num: u128 = start as u128 * factor;
                    let l: u128 = (num + 99) / 100;
                    if l > 4294967295u128 { u32::MAX } else { l as u32 }
                },
            };
            assert(ps.take(i + 1).drop_last() =~= ps.take(i as int));
            assert(ps.take(i + 1).last() == ps[i as int]);
            if sel == PolicySelection::Min {
                if limit < result {
                    result = limit;
                }
            } else {
                if limit > result {
                    result = limit;
                }
            }
            i = i + 1;
        }
        assert(ps.take(i as int) =~= ps);
        result
    }

    /// The fewest replicas the scale-down rules allow from `current`, given
    /// the scale-down events: `current` when scaling down is disabled,
    /// otherwise the greatest (`Min`) or least (`Max`) of the policy limits.
    pub fn calc_scale_down_limit(
        &self,
        current_replicas: u32,
        events: Option<&Vec<ScaleEvent>>,
        rules: &HPAScalingRules,
        now: i64,
    ) -> (r: u32)
        ensures
            r == scale_down_limit(current_replicas, events_view(events), *rules, now as int),
    {
        if rules.select_policy == PolicySelection::Disabled {
            return current_replicas;
        }
        let sel = rules.select_policy;
        let mut result: u32 = if sel == PolicySelection::Min { 0 } else { u32::MAX };
        let mut i: usize = 0;
        let ghost ps = rules.policies@;
        assert(ps.take(0) =~= Seq::<HPAScalingPolicy>::empty());
        while i < rules.policies.len()
            invariant
                i <= ps.len(),
                ps == rules.policies@,
                sel == rules.select_policy,
                sel != PolicySelection::Disabled,
                result == fold_down_limits(ps.take(i as int), sel, current_replicas, events_view(events), now as int),
            decreases ps.len() - i,
        {
            let policy = rules.policies[i];
            let deleted = self.get_replicas_change_in_period(policy.period_seconds, events, now);
            let start: u64 = current_replicas as u64 + deleted as u64;
            let limit: u32 = match policy.type_ {
                ScalingPolicyType::Pods => {
                    if start >= policy.value as u64 {
                        let l: u64 = start - policy.value as u64;
                        if l > 4294967295u64 { u32::MAX } else { l as u32 }
                    } else {
                        0
                    }
                },
                ScalingPolicyType::Percent => {
                    if policy.value >= 100 {
                        0
                    } else {
                        let factor: u128 = 100 - policy.value as u128;
                        assert(start as u128 * factor <= 0x2_0000_0000u128 * 100u128) by (nonlinear_arith)
                            requires
                                start <= 0x1_FFFF_FFFEu64,
                                factor <= 100u128;
                        let num: u128 = start as u128 * factor;
                        let l: u128 = (num + 99) / 100;
                        if l > 4294967295u128 { u32::MAX } else { l as u32 }
                    }
                },
            };
            assert(ps.take(i + 1).drop_last() =~= ps.take(i as int));
            assert(ps.take(i + 1).last() == ps[i as int]);
            if sel == PolicySelection::Min {
                if limit > result {
                    result = limit;
                }
            } else {
                if limit < result {
                    result = limit;
                }
            }
            i = i + 1;
        }
        assert(ps.take(i as int) =~= ps);
        result
    }

    /// Brings `desired` within the rate that the autoscaler's behavior allows
    /// given its recorded scale events (see [`conformed`]).
    pub fn conform_with_behavior(
        &self,
        hpa_name: &str,
        hpa: &HorizontalPodAutoscaler,
        current_replicas: u32,
        desired_replicas: u32,
        now: i64,
    ) -> (r: u32)
        ensures
            r == conformed(
                current_replicas,
                desired_replicas,
                history_of(self.up_events(), hpa_name@),
                history_of(self.down_events(), hpa_name@),
                hpa.spec.behavior,
                hpa.spec.min_replicas,
                hpa.spec.max_replicas,
                now as int,
            ),
    {
        if desired_replicas > current_replicas {
            let events = self.scale_up_events.get(hpa_name);
            assert(events_view(events) == history_of(self.up_events(), hpa_name@));
            let l0 = self.calc_scale_up_limit(current_replicas, events, &hpa.spec.behavior.scale_up, now);
            let limit = if l0 > current_replicas { l0 } else { current_replicas };
            let cap = if hpa.spec.max_replicas > limit { limit } else { hpa.spec.max_replicas };
            if desired_replicas < cap { desired_replicas } else { cap }
        } else if desired_replicas < current_replicas {
            let events = self.scale_down_events.get(hpa_name);
            assert(events_view(events) == history_of(self.down_events(), hpa_name@));
            let l0 = self.calc_scale_down_limit(current_replicas, events, &hpa.spec.behavior.scale_down, now);
            let limit = if l0 < current_replicas { l0 } else { current_replicas };
            let floor = if hpa.spec.min_replicas < limit { limit } else { hpa.spec.min_replicas };
            if desired_replicas > floor { desired_replicas } else { floor }
        } else {
            desired_replicas
        }
    }

    /// Stabilizes a recommendation over the autoscaler's stabilization
    /// windows and records the unstabilized recommendation. Recommendations
    /// older than both windows are dropped. Without a history for the
    /// autoscaler, `current` is returned and nothing is recorded.
    pub fn stabilize_recommendation(
        &mut self,
        hpa_name: &str,
        current_replicas: u32,
        desired_replicas: u32,
        behavior: &HorizontalPodAutoscalerBehavior,
        now: i64,
    ) -> (r: u32)
        requires
            old(self).wf(),
        ensures
            final(self).wf(),
            ({
                let up = cutoff(now as int, behavior.scale_up.stabilization_window_seconds);
                let down = cutoff(now as int, behavior.scale_down.stabilization_window_seconds);
                if old(self).recs().contains_key(hpa_name@) {
                    let kept = drop_outdated(old(self).recs()[hpa_name@], up, down);
                    &&& r == stabilized(current_replicas, desired_replicas, kept, up, down)
                    &&& r == stabilized(current_replicas, desired_replicas, old(self).recs()[hpa_name@], up, down)
                    &&& final(self).recs() == old(self).recs().insert(
                        hpa_name@,
                        kept.push(Recommendation { replicas: desired_replicas, time: now }),
                    )
                } else {
                    &&& r == current_replicas
                    &&& final(self).recs() == old(self).recs()
                }
            }),
            final(self).up_events() == old(self).up_events(),
            final(self).down_events() == old(self).down_events(),
    {
        let up: i128 = now as i128 - behavior.scale_up.stabilization_window_seconds as i128 * 1000;
        let down: i128 = now as i128 - behavior.scale_down.stabilization_window_seconds as i128 * 1000;
        let taken = self.recommendations.remove(hpa_name);
        match taken {
            None => {
                assert(self.recs() =~= old(self).recs());
                current_replicas
            },
            Some(recs) => {
                let ghost rs = recs@;
                // Skip outdated recommendations at the front.
                let mut k: usize = 0;
                while k < recs.len() && (recs[k].time as i128) < up && (recs[k].time as i128) < down
                    invariant
                        k <= rs.len(),
                        rs == recs@,
                        forall|j: int| 0 <= j < k ==> rs[j].time < up && rs[j].time < down,
                    decreases rs.len() - k,
                {
                    k = k + 1;
                }
                proof {
                    lemma_drop_outdated_prefix(rs, k as int, up as int, down as int);
                }
                let mut kept: Vec<Recommendation> = Vec::new();
                let mut j: usize = k;
                while j < recs.len()
                    invariant
                        k <= j <= rs.len(),
                        rs == recs@,
                        kept@ == rs.subrange(k as int, j as int),
                    decreases rs.len() - j,
                {
                    kept.push(recs[j]);
                    j = j + 1;
                    assert(kept@ =~= rs.subrange(k as int, j as int));
                }
                assert(kept@ == drop_outdated(rs, up as int, down as int));
                // Bounds over the windows.
                let mut lo = desired_replicas;
                let mut hi = desired_replicas;
                let mut i: usize = 0;
                let ghost ks = kept@;
                assert(ks.take(0) =~= Seq::<Recommendation>::empty());
                while i < kept.len()
                    invariant
                        i <= ks.len(),
                        ks == kept@,
                        lo == min_since(ks.take(i as int), up as int, desired_replicas),
                        hi == max_since(ks.take(i as int), down as int, desired_replicas),
                    decreases ks.len() - i,
                {
                    assert(ks.take(i + 1).drop_last() =~= ks.take(i as int));
                    assert(ks.take(i + 1).last() == ks[i as int]);
                    if kept[i].time as i128 >= up && kept[i].replicas < lo {
                        lo = kept[i].replicas;
                    }
                    if kept[i].time as i128 >= down && kept[i].replicas > hi {
                        hi = kept[i].replicas;
                    }
                    i = i + 1;
                }
                assert(ks.take(i as int) =~= ks);
                let raised = if current_replicas > lo { current_replicas } else { lo };
                let recommendation = if raised < hi { raised } else { hi };
                proof {
                    lemma_since_drop_outdated(rs, up as int, down as int, desired_replicas);
                }
                kept.push(Recommendation { replicas: desired_replicas, time: now });
                let ghost pushed = kept@;
                self.recommendations.insert(crate::text::to_owned_string(hpa_name), kept);
                assert(self.recs() =~= old(self).recs().insert(hpa_name@, pushed));
                recommendation
            },
        }
    }

    /// The desired replicas after stabilization and rate limits, at least
    /// `min_replicas`.
    pub fn normalize_desired_replicas(
        &mut self,
        hpa_name: &str,
        hpa: &HorizontalPodAutoscaler,
        current_replicas: u32,
        desired_replicas: u32,
        now: i64,
    ) -> (r: u32)
        requires
            old(self).wf(),
        ensures
            final(self).wf(),
            r == normalized_value(
                old(self).recs(),
                old(self).up_events(),
                old(self).down_events(),
                hpa_name@,
                *hpa,
                current_replicas,
                desired_replicas,
                now,
            ),
            r >= hpa.spec.min_replicas,
            final(self).recs() == recs_after_normalize(old(self).recs(), hpa_name@, *hpa, desired_replicas, now),
            final(self).up_events() == old(self).up_events(),
            final(self).down_events() == old(self).down_events(),
    {
        let stabilized = self.stabilize_recommendation(
            hpa_name,
            current_replicas,
            desired_replicas,
            &hpa.spec.behavior,
            now,
        );
        let conformed = self.conform_with_behavior(hpa_name, hpa, current_replicas, stabilized, now);
        if conformed > hpa.spec.min_replicas { conformed } else { hpa.spec.min_replicas }
    }

    /// Drops the events before `now - period` from the front.
    pub fn discard_outdated_scale_events(events: &mut Vec<ScaleEvent>, period: u32, now: i64)
        ensures
            final(events)@ == drop_before(old(events)@, cutoff(now as int, period)),
    {
        let cut: i128 = now as i128 - period as i128 * 1000;
        let ghost es = events@;
        let mut k: usize = 0;
        while k < events.len() && (events[k].time as i128) < cut
            invariant
                k <= es.len(),
                es == events@,
                forall|j: int| 0 <= j < k ==> es[j].time < cut,
            decreases es.len() - k,
        {
            k = k + 1;
        }
        proof {
            lemma_drop_before_prefix(es, k as int, cut as int);
        }
        let mut kept: Vec<ScaleEvent> = Vec::new();
        let mut j: usize = k;
        while j < events.len()
            invariant
                k <= j <= es.len(),
                es == events@,
                kept@ == es.subrange(k as int, j as int),
            decreases es.len() - j,
        {
            kept.push(events[j]);
            j = j + 1;
            assert(kept@ =~= es.subrange(k as int, j as int));
        }
        *events = kept;
    }

    /// Records a change of the replica count from `prev_replicas` to
    /// `new_replicas` at `now` as a scale-up or scale-down event, first
    /// discarding the events older than the longest policy period of that
    /// direction. Nothing is recorded when the count did not change.
    pub fn record_scale_event(
        &mut self,
        hpa_name: &str,
        behavior: &HorizontalPodAutoscalerBehavior,
        prev_replicas: u32,
        new_replicas: u32,
        now: i64,
    )
        requires
            old(self).wf(),
        ensures
            final(self).wf(),
            final(self).recs() == old(self).recs(),
            new_replicas > prev_replicas ==> final(self).up_events() == old(self).up_events().insert(
                hpa_name@,
                recorded_events(
                    history_of(old(self).up_events(), hpa_name@),
                    longest_period_of(behavior.scale_up.policies@),
                    (new_replicas - prev_replicas) as u32,
                    now,
                ),
            ) && final(self).down_events() == old(self).down_events(),
            new_replicas < prev_replicas ==> final(self).down_events() == old(self).down_events().insert(
                hpa_name@,
                recorded_events(
                    history_of(old(self).down_events(), hpa_name@),
                    longest_period_of(behavior.scale_down.policies@),
                    (prev_replicas - new_replicas) as u32,
                    now,
                ),
            ) && final(self).up_events() == old(self).up_events(),
            new_replicas == prev_replicas ==> final(self).up_events() == old(self).up_events()
                && final(self).down_events() == old(self).down_events(),
    {
        if new_replicas > prev_replicas {
            let longest_period = behavior.scale_up.longest_period();
            let mut events = match self.scale_up_events.remove(hpa_name) {
                Some(mut events) => {
                    PodAutoscaler::discard_outdated_scale_events(&mut events, longest_period, now);
                    events
                },
                None => Vec::new(),
            };
            events.push(ScaleEvent { change: new_replicas - prev_replicas, time: now });
            let ghost pushed = events@;
            assert(pushed =~= recorded_events(
                history_of(old(self).up_events(), hpa_name@),
                longest_period,
                (new_replicas - prev_replicas) as u32,
                now,
            ));
            self.scale_up_events.insert(crate::text::to_owned_string(hpa_name), events);
            assert(self.up_events() =~= old(self).up_events().insert(hpa_name@, pushed));
        } else if new_replicas < prev_replicas {
            let longest_period = behavior.scale_down.longest_period();
            let mut events = match self.scale_down_events.remove(hpa_name) {
                Some(mut events) => {
                    PodAutoscaler::discard_outdated_scale_events(&mut events, longest_period, now);
                    events
                },
                None => Vec::new(),
            };
            events.push(ScaleEvent { change: prev_replicas - new_replicas, time: now });
            let ghost pushed = events@;
            assert(pushed =~= recorded_events(
                history_of(old(self).down_events(), hpa_name@),
                longest_period,
                (prev_replicas - new_replicas) as u32,
                now,
            ));
            self.scale_down_events.insert(crate::text::to_owned_string(hpa_name), events);
            assert(self.down_events() =~= old(self).down_events().insert(hpa_name@, pushed));
        }
    }

    /// Observes the target of an autoscaler with `current_replicas`: updates
    /// the recommendations (see [`recs_after_observe`]) and decides whether
    /// the metrics are needed. Fails, changing nothing, when the autoscaler
    /// has no status.
    pub fn observe(
        &mut self,
        hpa: &HorizontalPodAutoscaler,
        current_replicas: u32,
        now: i64,
    ) -> (r: Result<ReconcilePlan, HpaError>)
        requires
            old(self).wf(),
        ensures
            final(self).wf(),
            hpa.status is None ==> r == Err::<ReconcilePlan, HpaError>(HpaError::MissingStatus)
                && final(self).recs() == old(self).recs(),
            hpa.status is Some ==> r == Ok::<ReconcilePlan, HpaError>(
                plan_for(current_replicas, hpa.spec.min_replicas, hpa.spec.max_replicas),
            ) && final(self).recs() == recs_after_observe(
                old(self).recs(),
                hpa.metadata.name@,
                current_replicas,
                hpa.status->0.desired_replicas,
                now,
            ),
            final(self).up_events() == old(self).up_events(),
            final(self).down_events() == old(self).down_events(),
    {
        let status = match &hpa.status {
            Some(status) => status,
            None => return Err(HpaError::MissingStatus),
        };
        let name = hpa.metadata.name.as_str();
        let rec = Recommendation { replicas: current_replicas, time: now };
        let mut recs = match self.recommendations.remove(name) {
            Some(recs) => recs,
            None => {
                let mut v = Vec::new();
                v.push(rec);
                v
            },
        };
        if current_replicas != status.desired_replicas {
            recs.push(rec);
        }
        let ghost rv = recs@;
        assert(rv =~= {
            let base = if old(self).recs().contains_key(name@) {
                old(self).recs()[name@]
            } else {
                seq![rec]
            };
            if current_replicas != status.desired_replicas { base.push(rec) } else { base }
        });
        self.recommendations.insert(hpa.metadata.name.clone(), recs);
        assert(self.recs() =~= old(self).recs().insert(name@, rv));
        let plan = if current_replicas == 0 {
            ReconcilePlan::Fixed(0)
        } else if current_replicas > hpa.spec.max_replicas {
            ReconcilePlan::Fixed(hpa.spec.max_replicas)
        } else if current_replicas < hpa.spec.min_replicas {
            ReconcilePlan::Fixed(hpa.spec.min_replicas)
        } else {
            ReconcilePlan::FromMetrics
        };
        Ok(plan)
    }

    /// Completes a reconciliation planned by [`PodAutoscaler::observe`]:
    /// settles on a replica count (the fixed one, or the metrics'
    /// `metric_replicas` normalized) and reports what to post. The scale
    /// event is not recorded here: once the target has been posted with its
    /// new count, the caller records it with
    /// [`PodAutoscaler::record_scale_event`].
    pub fn conclude(
        &mut self,
        hpa: &HorizontalPodAutoscaler,
        current_replicas: u32,
        plan: ReconcilePlan,
        metric_replicas: u32,
        now: i64,
    ) -> (r: ReconcileOutcome)
        requires
            old(self).wf(),
            hpa.status is Some,
        ensures
            final(self).wf(),
            ({
                let desired = reconciled_replicas(
                    old(self).recs(),
                    old(self).up_events(),
                    old(self).down_events(),
                    *hpa,
                    current_replicas,
                    plan,
                    metric_replicas,
                    now,
                );
                let status = next_status(hpa.status->0, current_replicas, desired, now);
                &&& r.scale_to == if desired != current_replicas { Some(desired) } else { None }
                &&& r.new_status == if status != hpa.status->0 { Some(status) } else { None }
                &&& final(self).recs() == if plan == ReconcilePlan::FromMetrics {
                    recs_after_normalize(old(self).recs(), hpa.metadata.name@, *hpa, metric_replicas, now)
                } else {
                    old(self).recs()
                }
                &&& final(self).up_events() == old(self).up_events()
                &&& final(self).down_events() == old(self).down_events()
            }),
    {
        let name = hpa.metadata.name.as_str();
        let desired = match plan {
            ReconcilePlan::Fixed(d) => d,
            ReconcilePlan::FromMetrics => self.normalize_desired_replicas(
                name,
                hpa,
                current_replicas,
                metric_replicas,
                now,
            ),
        };
        let status = match &hpa.status {
            Some(s) => *s,
            None => HorizontalPodAutoscalerStatus { desired_replicas: 0, current_replicas: 0, last_scale_time: None },
        };
        let scale_to = if current_replicas != desired {
            Some(desired)
        } else {
            None
        };
        let new_status = HorizontalPodAutoscalerStatus {
            current_replicas: if desired == 0 { 0 } else { current_replicas },
            desired_replicas: desired,
            last_scale_time: if current_replicas != desired { Some(now) } else { status.last_scale_time },
        };
        let changed = !(new_status.current_replicas == status.current_replicas
            && new_status.desired_replicas == status.desired_replicas
            && new_status.last_scale_time == status.last_scale_time);
        ReconcileOutcome { scale_to, new_status: if changed { Some(new_status) } else { None } }
    }

    /// Forgets the history of an autoscaler that was deleted.
    pub fn forget(&mut self, hpa_name: &str)
        requires
            old(self).wf(),
        ensures
            final(self).wf(),
            final(self).recs() == old(self).recs().remove(hpa_name@),
            final(self).up_events() == old(self).up_events().remove(hpa_name@),
            final(self).down_events() == old(self).down_events().remove(hpa_name@),
    {
        self.recommendations.remove(hpa_name);
        self.scale_up_events.remove(hpa_name);
        self.scale_down_events.remove(hpa_name);
        assert(self.recs() =~= old(self).recs().remove(hpa_name@));
        assert(self.up_events() =~= old(self).up_events().remove(hpa_name@));
        assert(self.down_events() =~= old(self).down_events().remove(hpa_name@));
    }
}

} // verus!
