//! The metrics part of the API server: the scrape targets of the metrics
//! server's configuration, and the label queries sent to it.

use vstd::prelude::*;
use crate::keyed::{KeyedMap, has_key, is_first, key_index};
use crate::objects::metrics::{ContainerMetrics, PodMetrics, Resource, ResourceUsage};
use crate::objects::Labels;
use crate::objects::labels_text;
use crate::text::{join, push_str};

verus! {

/// Settings that apply to every scrape job.
#[derive(Clone, Debug, PartialEq)]
pub struct PromGlobalConfig {
    pub scrape_interval: Option<String>,
    pub external_labels: KeyedMap<String>,
}

/// A list of targets scraped together.
#[derive(Clone, Debug, PartialEq)]
pub struct PromStaticConfig {
    pub targets: Vec<String>,
}

/// A scrape job: a name, an interval, and its targets.
#[derive(Clone, Debug, PartialEq)]
pub struct PromScrapeConfig {
    pub job_name: String,
    pub scrape_interval: Option<String>,
    pub static_configs: Vec<PromStaticConfig>,
}

/// The configuration of the metrics server.
#[derive(Clone, Debug, PartialEq)]
pub struct PromConfig {
    pub global: PromGlobalConfig,
    pub scrape_configs: Vec<PromScrapeConfig>,
}

/// The query of a request for pod metrics.
#[derive(Clone, Debug, PartialEq)]
pub struct ListQuery {
    /// A label selector, `key1=value1,key2=value2`.
    pub selector: Option<String>,
}

/// The selector of a request for pod metrics: the parsed selector, or no
/// labels when there is none. Fails when the selector does not parse.
pub fn query_selector(query: &ListQuery) -> (r: Result<Labels, crate::models::ErrResponse>)
    ensures
        query.selector is None ==> (r matches Ok(l) && l@ == Map::<Seq<char>, Seq<char>>::empty()),
        query.selector matches Some(s) ==> match crate::objects::parse_labels(s@) {
            Some(m) => (r matches Ok(l) && l@ == m),
            None => (r matches Err(e) && e.msg@ == "Failed to get metrics"@ && (e.cause matches Some(c)
                && c@ == "Failed to parse selector"@) && e.status == crate::models::INTERNAL_SERVER_ERROR),
        },
{
    match &query.selector {
        Some(s) => match Labels::try_from(s.clone()) {
            Ok(l) => Ok(l),
            Err(_) => Err(
                crate::models::ErrResponse::new(
                    crate::text::to_owned_string("Failed to get metrics"),
                    Some(crate::text::to_owned_string("Failed to parse selector")),
                ),
            ),
        },
        None => Ok(Labels::new()),
    }
}

/// A scrape job seen as its name, its interval and the targets of each of
/// its target lists.
pub type JobView = (Seq<char>, Option<Seq<char>>, Seq<Seq<Seq<char>>>);

/// The texts of a list of strings.
pub open spec fn string_views(s: Seq<String>) -> Seq<Seq<char>> {
    s.map_values(|x: String| x@)
}

/// The view of an optional string.
pub open spec fn opt_view(s: Option<String>) -> Option<Seq<char>> {
    match s {
        Some(x) => Some(x@),
        None => None,
    }
}

/// The view of a scrape job.
pub open spec fn job_view(c: PromScrapeConfig) -> JobView {
    (c.job_name@, opt_view(c.scrape_interval), c.static_configs@.map_values(|s: PromStaticConfig| string_views(s.targets@)))
}

/// The views of the scrape jobs of a configuration.
pub open spec fn jobs_view(c: PromConfig) -> Seq<JobView> {
    c.scrape_configs@.map_values(|j: PromScrapeConfig| job_view(j))
}

/// The position of the first job named `job`.
pub open spec fn job_position(jobs: Seq<JobView>, job: Seq<char>) -> Option<int>
    decreases jobs.len(),
{
    if jobs.len() == 0 {
        None
    } else {
        match job_position(jobs.drop_last(), job) {
            Some(i) => Some(i),
            None => if jobs.last().0 == job {
                Some(jobs.len() - 1)
            } else {
                None
            },
        }
    }
}

/// The position of the first occurrence of `t` in `s`.
pub open spec fn first_position(s: Seq<Seq<char>>, t: Seq<char>) -> Option<int>
    decreases s.len(),
{
    if s.len() == 0 {
        None
    } else {
        match first_position(s.drop_last(), t) {
            Some(i) => Some(i),
            None => if s.last() == t {
                Some(s.len() - 1)
            } else {
                None
            },
        }
    }
}

/// Whether the first job named `job` has target lists.
pub open spec fn job_has_lists(jobs: Seq<JobView>, job: Seq<char>) -> bool {
    match job_position(jobs, job) {
        Some(i) => jobs[i].2.len() > 0,
        None => true,
    }
}

/// Whether the first job named `job` has a target list (or there is no
/// such job): what adding and removing a target ask for.
pub fn has_target_list(config: &PromConfig, job: &str) -> (r: bool)
    ensures
        r == job_has_lists(jobs_view(*config), job@),
{
    let ghost v = jobs_view(*config);
    proof {
        lemma_job_position(v, job@);
    }
    match find_job(&config.scrape_configs, job) {
        Some(i) => {
            assert(v[i as int] == job_view(config.scrape_configs@[i as int]));
            config.scrape_configs[i].static_configs.len() > 0
        },
        None => true,
    }
}

/// Whether the first target list of the first job named `job` holds `t`.
pub open spec fn has_target(jobs: Seq<JobView>, job: Seq<char>, t: Seq<char>) -> bool {
    match job_position(jobs, job) {
        Some(i) => jobs[i].2.len() > 0 && jobs[i].2[0].contains(t),
        None => false,
    }
}

/// The jobs after adding target `t` to job `job`: to the first target list
/// of the first job of that name, unless it is there already; or as a new
/// job scraped every 15 seconds, when no job has that name.
pub open spec fn with_target_added(jobs: Seq<JobView>, job: Seq<char>, t: Seq<char>) -> Seq<JobView> {
    match job_position(jobs, job) {
        Some(i) => {
            let targets = jobs[i].2[0];
            if targets.contains(t) {
                jobs
            } else {
                jobs.update(i, (jobs[i].0, jobs[i].1, jobs[i].2.update(0, targets.push(t))))
            }
        },
        None => jobs.push((job, Some(seq!['1', '5', 's']), seq![seq![t]])),
    }
}

/// The jobs after removing the first occurrence of target `t` from the first
/// target list of the first job named `job`, if there is one.
pub open spec fn with_target_removed(jobs: Seq<JobView>, job: Seq<char>, t: Seq<char>) -> Seq<JobView> {
    match job_position(jobs, job) {
        Some(i) => {
            let targets = jobs[i].2[0];
            match first_position(targets, t) {
                Some(k) => jobs.update(i, (jobs[i].0, jobs[i].1, jobs[i].2.update(0, targets.remove(k)))),
                None => jobs,
            }
        },
        None => jobs,
    }
}

/// The position found for a job is that of a job with that name, and no
/// earlier job has it.
proof fn lemma_job_position(jobs: Seq<JobView>, job: Seq<char>)
    ensures
        match job_position(jobs, job) {
            Some(i) => 0 <= i < jobs.len() && jobs[i].0 == job && forall|j: int| 0 <= j < i ==> jobs[j].0 != job,
            None => forall|j: int| 0 <= j < jobs.len() ==> jobs[j].0 != job,
        },
    decreases jobs.len(),
{
    if jobs.len() > 0 {
        let d = jobs.drop_last();
        lemma_job_position(d, job);
        assert forall|j: int| 0 <= j < d.len() implies d[j] == jobs[j] by {}
    }
}

/// The position found for a target is that of an equal target, and no
/// earlier target equals it.
proof fn lemma_first_position(s: Seq<Seq<char>>, t: Seq<char>)
    ensures
        match first_position(s, t) {
            Some(i) => 0 <= i < s.len() && s[i] == t && forall|j: int| 0 <= j < i ==> s[j] != t,
            None => !s.contains(t),
        },
    decreases s.len(),
{
    if s.len() > 0 {
        let d = s.drop_last();
        lemma_first_position(d, t);
        assert forall|j: int| 0 <= j < d.len() implies d[j] == s[j] by {}
        if first_position(d, t) is None && s.last() != t {
            assert forall|j: int| 0 <= j < s.len() implies s[j] != t by {
                if j < d.len() {
                    assert(d[j] == s[j]);
                    assert(!d.contains(t));
                }
            }
        }
    }
}

/// The position of the first job named `job`, computed.
fn find_job(jobs: &Vec<PromScrapeConfig>, job: &str) -> (r: Option<usize>)
    ensures
        match r {
            Some(i) => job_position(jobs@.map_values(|j: PromScrapeConfig| job_view(j)), job@) == Some(i as int),
            None => job_position(jobs@.map_values(|j: PromScrapeConfig| job_view(j)), job@) is None,
        },
{
    let ghost v = jobs@.map_values(|j: PromScrapeConfig| job_view(j));
    proof {
        lemma_job_position(v, job@);
    }
    let mut i: usize = 0;
    while i < jobs.len()
        invariant
            i <= jobs@.len(),
            v == jobs@.map_values(|j: PromScrapeConfig| job_view(j)),
            forall|j: int| 0 <= j < i ==> v[j].0 != job@,
        decreases jobs.len() - i,
    {
        if crate::text::str_eq(jobs[i].job_name.as_str(), job) {
            proof {
                lemma_job_position(v, job@);
                match job_position(v, job@) {
                    Some(k) => {
                        if k < i {
                            assert(v[k].0 != job@);
                        } else if k > i {
                            assert(v[i as int].0 == job@);
                        }
                    },
                    None => {
                        assert(v[i as int].0 == job@);
                    },
                }
            }
            return Some(i);
        }
        i = i + 1;
    }
    proof {
        match job_position(v, job@) {
            Some(k) => {
                assert(v[k].0 != job@);
            },
            None => {},
        }
    }
    None
}

/// The position of the first target equal to `t`, computed.
fn find_target(targets: &Vec<String>, t: &str) -> (r: Option<usize>)
    ensures
        match r {
            Some(i) => first_position(string_views(targets@), t@) == Some(i as int),
            None => first_position(string_views(targets@), t@) is None,
        },
{
    let ghost v = string_views(targets@);
    let mut i: usize = 0;
    while i < targets.len()
        invariant
            i <= targets@.len(),
            v == string_views(targets@),
            forall|j: int| 0 <= j < i ==> v[j] != t@,
        decreases targets.len() - i,
    {
        if crate::text::str_eq(targets[i].as_str(), t) {
            proof {
                lemma_first_position(v, t@);
                match first_position(v, t@) {
                    Some(k) => {
                        if k < i {
                            assert(v[k] != t@);
                        } else if k > i {
                            assert(v[i as int] == t@);
                        }
                    },
                    None => {
                        assert(v[i as int] == t@);
                    },
                }
            }
            return Some(i);
        }
        i = i + 1;
    }
    proof {
        lemma_first_position(v, t@);
        match first_position(v, t@) {
            Some(k) => {
                assert(v[k] != t@);
            },
            None => {},
        }
    }
    None
}

/// Adds a scrape target to a job (see [`with_target_added`]).
pub fn add_scrape_target(config: &mut PromConfig, job_name: &str, target: String)
    requires
        job_has_lists(jobs_view(*old(config)), job_name@),
    ensures
        final(config).global == old(config).global,
        jobs_view(*final(config)) == with_target_added(jobs_view(*old(config)), job_name@, target@),
{
    let ghost v = jobs_view(*config);
    let ghost old_sc = config.scrape_configs@;
    match find_job(&config.scrape_configs, job_name) {
        Some(i) => {
            proof {
                lemma_job_position(v, job_name@);
                assert(v[i as int] == job_view(old_sc[i as int]));
            }
            let mut job = config.scrape_configs.remove(i);
            let ghost old_job = job;
            let mut list = job.static_configs.remove(0);
            let ghost old_list = list;
            assert(v[i as int].2[0] == string_views(old_list.targets@));
            let found = find_target(&list.targets, target.as_str());
            proof {
                lemma_first_position(string_views(list.targets@), target@);
            }
            if found.is_none() {
                list.targets.push(target);
                assert(string_views(list.targets@) =~= v[i as int].2[0].push(target@));
            } else {
                assert(v[i as int].2[0].contains(target@));
            }
            let ghost new_targets = string_views(list.targets@);
            job.static_configs.insert(0, list);
            assert(job.static_configs@ =~= old_job.static_configs@.update(0, list));
            assert(job_view(job).2 =~= v[i as int].2.update(0, new_targets));
            config.scrape_configs.insert(i, job);
            assert(config.scrape_configs@ =~= old_sc.update(i as int, job));
            assert(jobs_view(*config) =~= v.update(i as int, job_view(job)));
            proof {
                if found.is_some() {
                    assert(v[i as int].2.update(0, new_targets) =~= v[i as int].2);
                    assert(v.update(i as int, job_view(job)) =~= v);
                }
            }
            assert(jobs_view(*config) =~= with_target_added(v, job_name@, target@));
        },
        None => {
            proof {
                reveal_strlit("15s");
            }
            let ghost tv = target@;
            let mut targets: Vec<String> = Vec::new();
            targets.push(target);
            assert(string_views(targets@) =~= seq![tv]);
            let mut lists: Vec<PromStaticConfig> = Vec::new();
            lists.push(PromStaticConfig { targets });
            assert(lists@.map_values(|s: PromStaticConfig| string_views(s.targets@)) =~= seq![seq![tv]]);
            let new_job = PromScrapeConfig {
                job_name: crate::text::to_owned_string(job_name),
                scrape_interval: Some(crate::text::to_owned_string("15s")),
                static_configs: lists,
            };
            assert("15s"@ =~= seq!['1', '5', 's']);
            config.scrape_configs.push(new_job);
            assert(config.scrape_configs@ =~= old_sc.push(new_job));
            assert(jobs_view(*config) =~= with_target_added(v, job_name@, target@));
        },
    }
}

/// Removes a scrape target from a job (see [`with_target_removed`]).
pub fn remove_scrape_target(config: &mut PromConfig, job_name: &str, target: &str)
    requires
        job_has_lists(jobs_view(*old(config)), job_name@),
    ensures
        final(config).global == old(config).global,
        jobs_view(*final(config)) == with_target_removed(jobs_view(*old(config)), job_name@, target@),
{
    let ghost v = jobs_view(*config);
    let ghost old_sc = config.scrape_configs@;
    match find_job(&config.scrape_configs, job_name) {
        Some(i) => {
            proof {
                lemma_job_position(v, job_name@);
                assert(v[i as int] == job_view(old_sc[i as int]));
            }
            let mut job = config.scrape_configs.remove(i);
            let ghost old_job = job;
            let mut list = job.static_configs.remove(0);
            let ghost old_list = list;
            assert(v[i as int].2[0] == string_views(old_list.targets@));
            let found = find_target(&list.targets, target);
            proof {
                lemma_first_position(string_views(list.targets@), target@);
            }
            match found {
                Some(k) => {
                    list.targets.remove(k);
                    assert(string_views(list.targets@) =~= v[i as int].2[0].remove(k as int));
                },
                None => {},
            }
            let ghost new_targets = string_views(list.targets@);
            job.static_configs.insert(0, list);
            assert(job.static_configs@ =~= old_job.static_configs@.update(0, list));
            assert(job_view(job).2 =~= v[i as int].2.update(0, new_targets));
            config.scrape_configs.insert(i, job);
            assert(config.scrape_configs@ =~= old_sc.update(i as int, job));
            assert(jobs_view(*config) =~= v.update(i as int, job_view(job)));
            proof {
                if found.is_none() {
                    assert(v[i as int].2.update(0, new_targets) =~= v[i as int].2);
                    assert(v.update(i as int, job_view(job)) =~= v);
                }
            }
            assert(jobs_view(*config) =~= with_target_removed(v, job_name@, target@));
        },
        None => {},
    }
}

/// Law: after adding a target to a job, the job has the target.
pub proof fn lemma_add_then_has(jobs: Seq<JobView>, job: Seq<char>, t: Seq<char>)
    requires
        job_has_lists(jobs, job),
    ensures
        has_target(with_target_added(jobs, job, t), job, t),
{
    lemma_job_position(jobs, job);
    let after = with_target_added(jobs, job, t);
    lemma_job_position(after, job);
    match job_position(jobs, job) {
        Some(i) => {
            match job_position(after, job) {
                Some(k) => {
                    if k < i {
                        assert(after[k] == jobs[k]);
                    } else if k > i {
                        assert(after[i].0 == job);
                    }
                    if !jobs[i].2[0].contains(t) {
                        assert(jobs[i].2[0].push(t)[jobs[i].2[0].len() as int] == t);
                    }
                },
                None => {
                    assert(after[i].0 == job);
                },
            }
        },
        None => {
            let n = jobs.len() as int;
            match job_position(after, job) {
                Some(k) => {
                    if k < n {
                        assert(after[k] == jobs[k]);
                    }
                    assert(seq![t][0] == t);
                },
                None => {
                    assert(after[n].0 == job);
                },
            }
        },
    }
}

/// Law: adding a target twice is adding it once.
pub proof fn lemma_add_idempotent(jobs: Seq<JobView>, job: Seq<char>, t: Seq<char>)
    requires
        job_has_lists(jobs, job),
    ensures
        with_target_added(with_target_added(jobs, job, t), job, t) == with_target_added(jobs, job, t),
{
    lemma_add_then_has(jobs, job, t);
}

/// Law: removing a target that a job does not have changes nothing.
pub proof fn lemma_remove_absent(jobs: Seq<JobView>, job: Seq<char>, t: Seq<char>)
    requires
        job_has_lists(jobs, job),
        !has_target(jobs, job, t),
    ensures
        with_target_removed(jobs, job, t) == jobs,
{
    match job_position(jobs, job) {
        Some(i) => {
            lemma_first_position(jobs[i].2[0], t);
        },
        None => {},
    }
}

/// Law: removing a target that was just added to an existing job that did
/// not have it gives back the jobs as they were.
pub proof fn lemma_remove_undoes_add(jobs: Seq<JobView>, job: Seq<char>, t: Seq<char>)
    requires
        job_position(jobs, job) is Some,
        job_has_lists(jobs, job),
        !has_target(jobs, job, t),
    ensures
        with_target_removed(with_target_added(jobs, job, t), job, t) == jobs,
{
    let i = job_position(jobs, job)->0;
    lemma_job_position(jobs, job);
    let targets = jobs[i].2[0];
    let after = with_target_added(jobs, job, t);
    assert(after == jobs.update(i, (jobs[i].0, jobs[i].1, jobs[i].2.update(0, targets.push(t)))));
    lemma_job_position(after, job);
    match job_position(after, job) {
        Some(k) => {
            if k < i {
                assert(after[k] == jobs[k]);
            } else if k > i {
                assert(after[i].0 == job);
            }
        },
        None => {
            assert(after[i].0 == job);
        },
    }
    assert(job_position(after, job) == Some(i));
    let pushed = targets.push(t);
    lemma_first_position(pushed, t);
    match first_position(pushed, t) {
        Some(k) => {
            if k < targets.len() {
                assert(pushed[k] == targets[k]);
                assert(targets.contains(t));
            }
            assert(k == targets.len());
            assert(pushed.remove(k) =~= targets);
        },
        None => {
            assert(pushed[targets.len() as int] == t);
        },
    }
    assert(after[i] == (jobs[i].0, jobs[i].1, jobs[i].2.update(0, pushed)));
    assert(after[i].2[0] == pushed);
    assert(jobs[i].2.update(0, pushed).update(0, targets) =~= jobs[i].2);
    assert(with_target_removed(after, job, t) == after.update(
        i,
        (jobs[i].0, jobs[i].1, jobs[i].2.update(0, pushed).update(0, targets)),
    ));
    assert(with_target_removed(after, job, t) =~= jobs);
}

/// The label query of a selector: `container_label_<key>="<value>",` for
/// each label in order, or nothing for no labels.
pub open spec fn selector_text(pairs: Seq<(Seq<char>, Seq<char>)>) -> Seq<char> {
    if pairs.len() == 0 {
        Seq::empty()
    } else {
        join(
            pairs.map_values(|p: (Seq<char>, Seq<char>)| "container_label_"@ + p.0 + "=\""@ + p.1 + "\""@),
            ","@,
        ) + ","@
    }
}

/// The label query of a selector (see [`selector_text`]).
pub fn get_selector_str(selector: &Labels) -> (s: String)
    ensures
        s@ == selector_text(selector.pairs()),
{
    let ghost parts = selector.pairs().map_values(
        |p: (Seq<char>, Seq<char>)| "container_label_"@ + p.0 + "=\""@ + p.1 + "\""@,
    );
    if selector.len() == 0 {
        return String::new();
    }
    let mut s = String::new();
    let mut i: usize = 0;
    assert(parts.take(0) =~= Seq::<Seq<char>>::empty());
    while i < selector.len()
        invariant
            i <= selector.pairs().len(),
            parts == selector.pairs().map_values(
                |p: (Seq<char>, Seq<char>)| "container_label_"@ + p.0 + "=\""@ + p.1 + "\""@,
            ),
            s@ == join(parts.take(i as int), ","@),
        decreases selector.pairs().len() - i,
    {
        let ghost before = s@;
        if i > 0 {
            push_str(&mut s, ",");
        }
        push_str(&mut s, "container_label_");
        let k = selector.key_at(i);
        push_str(&mut s, k.as_str());
        push_str(&mut s, "=\"");
        let v = selector.value_at(i);
        push_str(&mut s, v.as_str());
        push_str(&mut s, "\"");
        proof {
            let t = parts.take(i + 1);
            assert(t.drop_last() =~= parts.take(i as int));
            assert(t.last() == parts[i as int]);
            if i > 0 {
                assert(s@ =~= join(t.drop_last(), ","@) + ","@ + t.last());
            } else {
                assert(t.len() == 1);
                assert(s@ =~= t[0]);
            }
        }
        i = i + 1;
    }
    assert(parts.take(i as int) =~= parts);
    push_str(&mut s, ",");
    s
}

/// The query for the CPU usage of containers, in cores over the last minute,
/// per container and pod, narrowed by a label query (see [`selector_text`]).
pub open spec fn cpu_query_text(selector: Seq<char>) -> Seq<char> {
    "sum(rate(container_cpu_usage_seconds_total{"@ + selector
        + "container_label_minik8s_container_type=\"container\"}[1m])) by(container_label_minik8s_container_name, container_label_minik8s_pod_name)"@
}

/// The query for the CPU usage of containers (see [`cpu_query_text`]).
pub fn cpu_query(selector: &str) -> (q: String)
    ensures
        q@ == cpu_query_text(selector@),
{
    let mut q = crate::text::to_owned_string("sum(rate(container_cpu_usage_seconds_total{");
    push_str(&mut q, selector);
    push_str(
        &mut q,
        "container_label_minik8s_container_type=\"container\"}[1m])) by(container_label_minik8s_container_name, container_label_minik8s_pod_name)",
    );
    q
}

/// The query for the memory working set of containers, narrowed by a label
/// query (see [`selector_text`]).
pub open spec fn memory_query_text(selector: Seq<char>) -> Seq<char> {
    "container_memory_working_set_bytes{"@ + selector + "container_label_minik8s_container_type=\"container\"}"@
}

/// The query for the memory working set of containers (see
/// [`memory_query_text`]).
pub fn memory_query(selector: &str) -> (q: String)
    ensures
        q@ == memory_query_text(selector@),
{
    let mut q = crate::text::to_owned_string("container_memory_working_set_bytes{");
    push_str(&mut q, selector);
    push_str(&mut q, "container_label_minik8s_container_type=\"container\"}");
    q
}

/// The query for the requests a function received in the last minute.
pub open spec fn function_query_text(name: Seq<char>) -> Seq<char> {
    "idelta(function_requests_total{function=\""@ + name + "\"}[1m])"@
}

/// The query for the requests a function received (see
/// [`function_query_text`]).
pub fn function_query(name: &str) -> (q: String)
    ensures
        q@ == function_query_text(name@),
{
    let mut q = crate::text::to_owned_string("idelta(function_requests_total{function=\"");
    push_str(&mut q, name);
    push_str(&mut q, "\"}[1m])");
    q
}

/// The container and pod names of a sample's labels, when both are there.
pub fn get_names(labels: &KeyedMap<String>) -> (r: Option<(String, String)>)
    ensures
        ({
            let c = "container_label_minik8s_container_name"@;
            let p = "container_label_minik8s_pod_name"@;
            &&& r is Some <==> labels.map_view().contains_key(c) && labels.map_view().contains_key(p)
            &&& r matches Some((cn, pn)) ==> cn == labels.map_view()[c] && pn == labels.map_view()[p]
        }),
{
    let container = labels.get("container_label_minik8s_container_name");
    let pod = labels.get("container_label_minik8s_pod_name");
    match (container, pod) {
        (Some(c), Some(p)) => Some((c.clone(), p.clone())),
        _ => None,
    }
}

/// One sample of a metric series: the labels that name the series, and its
/// value, None when it could not be read as a number.
#[derive(Clone, Debug, PartialEq)]
pub struct Sample {
    pub labels: KeyedMap<String>,
    pub value: Option<i64>,
}

/// Why samples could not be gathered.
#[derive(Clone, Copy, Debug, PartialEq, Eq, Structural)]
pub enum SampleError {
    /// A sample of a named container has a value that is not a number.
    BadValue,
}

/// The container and pod names of a sample, when both are there.
pub open spec fn sample_names(s: Sample) -> Option<(Seq<char>, Seq<char>)> {
    let m = s.labels.map_view();
    let c = "container_label_minik8s_container_name"@;
    let p = "container_label_minik8s_pod_name"@;
    if m.contains_key(c) && m.contains_key(p) {
        Some((m[c]@, m[p]@))
    } else {
        None
    }
}

/// The pods seen so far, each with its containers and their usage, in the
/// order in which they were first seen.
pub type Group = (Seq<char>, Seq<(Seq<char>, ResourceUsage)>);

/// The usage with `res` set to `v`.
pub open spec fn with_usage(u: ResourceUsage, res: Resource, v: i64) -> ResourceUsage {
    match res {
        Resource::CPU => ResourceUsage { cpu: Some(v), ..u },
        Resource::Memory => ResourceUsage { memory: Some(v), ..u },
    }
}

/// The position of the first entry named `k`.
pub open spec fn name_position<A>(s: Seq<(Seq<char>, A)>, k: Seq<char>) -> Option<int>
    decreases s.len(),
{
    if s.len() == 0 {
        None
    } else {
        match name_position(s.drop_last(), k) {
            Some(i) => Some(i),
            None => if s.last().0 == k {
                Some(s.len() - 1)
            } else {
                None
            },
        }
    }
}

/// The groups after recording usage `v` of `res` for a container of a pod.
pub open spec fn record_usage(groups: Seq<Group>, pod: Seq<char>, container: Seq<char>, res: Resource, v: i64) -> Seq<Group> {
    let fresh = ResourceUsage { cpu: None, memory: None };
    match name_position(groups, pod) {
        None => groups.push((pod, seq![(container, with_usage(fresh, res, v))])),
        Some(i) => {
            let cs = groups[i].1;
            let cs2 = match name_position(cs, container) {
                None => cs.push((container, with_usage(fresh, res, v))),
                Some(j) => cs.update(j, (container, with_usage(cs[j].1, res, v))),
            };
            groups.update(i, (pod, cs2))
        },
    }
}

/// The groups after recording each sample of a named container, in order;
/// Err at the first such sample whose value is not a number.
pub open spec fn record_samples(groups: Seq<Group>, samples: Seq<Sample>, res: Resource) -> Result<Seq<Group>, SampleError>
    decreases samples.len(),
{
    if samples.len() == 0 {
        Ok(groups)
    } else {
        match record_samples(groups, samples.drop_last(), res) {
            Err(e) => Err(e),
            Ok(g) => {
                let s = samples.last();
                match sample_names(s) {
                    None => Ok(g),
                    Some(names) => match s.value {
                        None => Err(SampleError::BadValue),
                        Some(v) => Ok(record_usage(g, names.1, names.0, res, v)),
                    },
                }
            },
        }
    }
}

/// The pods' metrics that the CPU and then the memory samples give.
pub open spec fn gathered(cpu: Seq<Sample>, memory: Seq<Sample>) -> Result<Seq<Group>, SampleError> {
    match record_samples(Seq::empty(), cpu, Resource::CPU) {
        Err(e) => Err(e),
        Ok(g) => record_samples(g, memory, Resource::Memory),
    }
}

/// The view of the groups held.
pub open spec fn groups_view(m: KeyedMap<KeyedMap<ContainerMetrics>>) -> Seq<Group> {
    m.entries_view().map_values(
        |e: (String, KeyedMap<ContainerMetrics>)|
            (e.0@, e.1.entries_view().map_values(|c: (String, ContainerMetrics)| (c.0@, c.1.usage))),
    )
}

/// Each container's metrics carry the container's name.
pub open spec fn inner_agrees(m: KeyedMap<ContainerMetrics>) -> bool {
    forall|j: int| 0 <= j < m.entries_view().len() ==> (#[trigger] m.entries_view()[j]).1.name@ == m.entries_view()[j].0@
}

/// In every pod, each container's metrics carry the container's name.
pub open spec fn names_agree(m: KeyedMap<KeyedMap<ContainerMetrics>>) -> bool {
    forall|i: int| 0 <= i < m.entries_view().len() ==> inner_agrees(#[trigger] m.entries_view()[i].1)
}

/// The position found by [`name_position`] is the first with that name.
proof fn lemma_name_position<A>(s: Seq<(Seq<char>, A)>, k: Seq<char>)
    ensures
        match name_position(s, k) {
            Some(i) => 0 <= i < s.len() && s[i].0 == k && forall|j: int| 0 <= j < i ==> s[j].0 != k,
            None => forall|j: int| 0 <= j < s.len() ==> s[j].0 != k,
        },
    decreases s.len(),
{
    if s.len() > 0 {
        let d = s.drop_last();
        lemma_name_position(d, k);
        assert forall|j: int| 0 <= j < d.len() implies d[j] == s[j] by {}
    }
}

/// The first entry of a key is the first entry of its name in a view of
/// the entries.
proof fn lemma_find_position<V, A>(e: Seq<(String, V)>, view: Seq<(Seq<char>, A)>, k: Seq<char>, found: Option<usize>)
    requires
        view.len() == e.len(),
        forall|i: int| 0 <= i < e.len() ==> (#[trigger] view[i]).0 == e[i].0@,
        found is Some <==> has_key(e, k),
        found is Some ==> is_first(e, k, found->0 as int),
    ensures
        match found {
            Some(i) => name_position(view, k) == Some(i as int),
            None => name_position(view, k) is None,
        },
{
    lemma_name_position(view, k);
    match name_position(view, k) {
        Some(p) => {
            assert(e[p].0@ == k);
            match found {
                Some(i) => {
                    if (i as int) < p {
                        assert(view[i as int].0 == k);
                    } else if (i as int) > p {
                        assert(e[p].0@ == k);
                    }
                },
                None => {
                    assert(has_key(e, k));
                },
            }
        },
        None => {
            match found {
                Some(i) => {
                    assert(view[i as int].0 == k);
                },
                None => {},
            }
        },
    }
}

/// Records usage `v` of `res` for `container` of `pod`.
fn record(outer: &mut KeyedMap<KeyedMap<ContainerMetrics>>, pod: String, container: String, res: Resource, v: i64)
    requires
        names_agree(*old(outer)),
    ensures
        names_agree(*final(outer)),
        groups_view(*final(outer)) == record_usage(groups_view(*old(outer)), pod@, container@, res, v),
{
    let ghost g = groups_view(*outer);
    let ghost e = outer.entries_view();
    let found = outer.find(pod.as_str());
    proof {
        lemma_find_position(e, g, pod@, found);
    }
    match found {
        None => {
            let mut usage = ResourceUsage::new();
            usage.insert(res, v);
            let mut inner: KeyedMap<ContainerMetrics> = KeyedMap::new();
            inner.insert(container.clone(), ContainerMetrics { name: container, usage });
            assert(usage == with_usage(ResourceUsage { cpu: None, memory: None }, res, v)) by {
                match res {
                    Resource::CPU => {
                        assert(usage.usage_of(Resource::Memory) is None);
                    },
                    Resource::Memory => {
                        assert(usage.usage_of(Resource::CPU) is None);
                    },
                }
            }
            let ghost inner_v = inner;
            assert(inner_agrees(inner_v));
            outer.insert(pod, inner);
            assert(outer.entries_view() == e.push((pod, inner_v)));
            assert(names_agree(*outer)) by {
                assert forall|k: int| 0 <= k < outer.entries_view().len() implies inner_agrees(
                    #[trigger] outer.entries_view()[k].1,
                ) by {
                    if k < e.len() {
                        assert(outer.entries_view()[k] == e[k]);
                    }
                }
            }
            assert(inner_v.entries_view().map_values(|c: (String, ContainerMetrics)| (c.0@, c.1.usage))
                =~= seq![(container@, usage)]);
            assert(groups_view(*outer) =~= record_usage(g, pod@, container@, res, v));
        },
        Some(i) => {
            let mut inner = outer.replace_value_at(i, KeyedMap::new());
            let ghost ie = inner.entries_view();
            assert(inner_agrees(inner));
            let ghost cs = g[i as int].1;
            assert(cs == ie.map_values(|c: (String, ContainerMetrics)| (c.0@, c.1.usage)));
            let cfound = inner.find(container.as_str());
            proof {
                lemma_find_position(ie, cs, container@, cfound);
            }
            match cfound {
                None => {
                    let mut usage = ResourceUsage::new();
                    usage.insert(res, v);
                    assert(usage == with_usage(ResourceUsage { cpu: None, memory: None }, res, v)) by {
                match res {
                    Resource::CPU => {
                        assert(usage.usage_of(Resource::Memory) is None);
                    },
                    Resource::Memory => {
                        assert(usage.usage_of(Resource::CPU) is None);
                    },
                }
            }
                    inner.insert(container.clone(), ContainerMetrics { name: container, usage });
                    assert(inner.entries_view().map_values(|c: (String, ContainerMetrics)| (c.0@, c.1.usage))
                        =~= cs.push((container@, usage)));
                    assert(inner_agrees(inner)) by {
                        assert forall|k: int| 0 <= k < inner.entries_view().len() implies (#[trigger] inner.entries_view()[k]).1.name@
                            == inner.entries_view()[k].0@ by {
                            if k < ie.len() {
                                assert(inner.entries_view()[k] == ie[k]);
                            }
                        }
                    }
                },
                Some(j) => {
                    let placeholder = ContainerMetrics { name: String::new(), usage: ResourceUsage::new() };
                    let mut cm = inner.replace_value_at(j, placeholder);
                    let ghost old_usage = cm.usage;
                    cm.usage.insert(res, v);
                    assert(cm.usage == with_usage(old_usage, res, v)) by {
                        match res {
                            Resource::CPU => {
                                assert(cm.usage.usage_of(Resource::Memory) == old_usage.usage_of(Resource::Memory));
                            },
                            Resource::Memory => {
                                assert(cm.usage.usage_of(Resource::CPU) == old_usage.usage_of(Resource::CPU));
                            },
                        }
                    }
                    assert(cm.name@ == ie[j as int].0@);
                    inner.replace_value_at(j, cm);
                    assert(inner_agrees(inner)) by {
                        assert forall|k: int| 0 <= k < inner.entries_view().len() implies (#[trigger] inner.entries_view()[k]).1.name@
                            == inner.entries_view()[k].0@ by {
                            if k != j {
                                assert(inner.entries_view()[k] == ie[k]);
                            }
                        }
                    }
                    assert(inner.entries_view().map_values(|c: (String, ContainerMetrics)| (c.0@, c.1.usage))
                        =~= cs.update(j as int, (container@, with_usage(cs[j as int].1, res, v))));
                },
            }
            let ghost inner_v = inner;
            outer.replace_value_at(i, inner);
            assert(groups_view(*outer) =~= record_usage(g, pod@, container@, res, v));
            assert(names_agree(*outer)) by {
                assert forall|k: int| 0 <= k < outer.entries_view().len() implies inner_agrees(
                    #[trigger] outer.entries_view()[k].1,
                ) by {
                    if k != i {
                        assert(outer.entries_view()[k] == e[k]);
                    }
                }
            }
        },
    }
}

/// Records the samples of named containers, in order.
fn record_all(outer: &mut KeyedMap<KeyedMap<ContainerMetrics>>, samples: &Vec<Sample>, res: Resource) -> (r: Result<(), SampleError>)
    requires
        names_agree(*old(outer)),
    ensures
        names_agree(*final(outer)),
        match record_samples(groups_view(*old(outer)), samples@, res) {
            Err(e) => r == Err::<(), SampleError>(e),
            Ok(g) => r is Ok && groups_view(*final(outer)) == g,
        },
{
    let ghost g0 = groups_view(*outer);
    let mut i: usize = 0;
    assert(samples@.take(0) =~= Seq::<Sample>::empty());
    while i < samples.len()
        invariant
            i <= samples@.len(),
            g0 == groups_view(*old(outer)),
            names_agree(*outer),
            record_samples(g0, samples@.take(i as int), res) == Ok::<Seq<Group>, SampleError>(groups_view(*outer)),
        decreases samples.len() - i,
    {
        assert(samples@.take(i + 1).drop_last() =~= samples@.take(i as int));
        assert(samples@.take(i + 1).last() == samples@[i as int]);
        let sample = &samples[i];
        match get_names(&sample.labels) {
            Some((container, pod)) => {
                match sample.value {
                    Some(v) => {
                        record(outer, pod, container, res, v);
                    },
                    None => {
                        proof {
                            lemma_record_err_prefix(g0, samples@, (i + 1) as int, res);
                        }
                        return Err(SampleError::BadValue);
                    },
                }
            },
            None => {},
        }
        i = i + 1;
    }
    assert(samples@.take(i as int) =~= samples@);
    Ok(())
}

/// Once a prefix of the samples fails, so do all of them.
proof fn lemma_record_err_prefix(g: Seq<Group>, samples: Seq<Sample>, k: int, res: Resource)
    requires
        0 < k <= samples.len(),
        record_samples(g, samples.take(k), res) == Err::<Seq<Group>, SampleError>(SampleError::BadValue),
    ensures
        record_samples(g, samples, res) == Err::<Seq<Group>, SampleError>(SampleError::BadValue),
    decreases samples.len() - k,
{
    if k < samples.len() {
        assert(samples.take(k + 1).drop_last() =~= samples.take(k));
        lemma_record_err_prefix(g, samples, k + 1, res);
    } else {
        assert(samples.take(k) =~= samples);
    }
}

/// Whether the pod metrics are the groups, measured at `now` over a window
/// of 60 seconds.
pub open spec fn metrics_of_groups(ms: Seq<PodMetrics>, g: Seq<Group>, now: i64) -> bool {
    &&& ms.len() == g.len()
    &&& forall|i: int| 0 <= i < ms.len() ==> {
        &&& (#[trigger] ms[i]).name@ == g[i].0
        &&& ms[i].timestamp == now
        &&& ms[i].window == 60
        &&& ms[i].containers@.map_values(|c: ContainerMetrics| (c.name@, c.usage)) == g[i].1
    }
}

/// The metrics of each pod, from the CPU samples (in milli CPU) and then the
/// memory samples (in bytes) of its containers: one entry per pod and per
/// container, in the order first seen, a later sample replacing an earlier
/// one. Fails at the first named sample whose value is not a number.
pub fn gather_pod_metrics(cpu: &Vec<Sample>, memory: &Vec<Sample>, now: i64) -> (r: Result<Vec<PodMetrics>, SampleError>)
    ensures
        match gathered(cpu@, memory@) {
            Err(e) => r == Err::<Vec<PodMetrics>, SampleError>(e),
            Ok(g) => r is Ok && metrics_of_groups(r->Ok_0@, g, now),
        },
{
    let mut outer: KeyedMap<KeyedMap<ContainerMetrics>> = KeyedMap::new();
    assert(groups_view(outer) =~= Seq::<Group>::empty());
    match record_all(&mut outer, cpu, Resource::CPU) {
        Ok(()) => {},
        Err(e) => return Err(e),
    }
    match record_all(&mut outer, memory, Resource::Memory) {
        Ok(()) => {},
        Err(e) => return Err(e),
    }
    let ghost g = groups_view(outer);
    let entries = outer.into_entries();
    let ghost es = entries@;
    let mut rest = entries;
    let mut result: Vec<PodMetrics> = Vec::new();
    let ghost mut i: int = 0;
    assert(es.skip(0) =~= es);
    while rest.len() > 0
        invariant
            0 <= i <= es.len(),
            rest@ == es.skip(i),
            g == es.map_values(
                |e: (String, KeyedMap<ContainerMetrics>)|
                    (e.0@, e.1.entries_view().map_values(|c: (String, ContainerMetrics)| (c.0@, c.1.usage))),
            ),
            forall|k: int| 0 <= k < es.len() ==> inner_agrees(#[trigger] es[k].1),
            metrics_of_groups(result@, g.take(i), now),
        decreases rest.len(),
    {
        let (name, inner) = rest.remove(0);
        proof {
            assert((name, inner) == es[i]);
            assert(rest@ =~= es.skip(i + 1));
        }
        let ghost ie = inner.entries_view();
        let containers = values_of(inner);
        assert(containers@.map_values(|c: ContainerMetrics| (c.name@, c.usage)) =~= ie.map_values(
            |c: (String, ContainerMetrics)| (c.0@, c.1.usage),
        )) by {
            assert(inner_agrees(es[i].1));
            assert forall|k: int| 0 <= k < ie.len() implies #[trigger] ie[k].1.name@ == ie[k].0@ by {
                assert(es[i].1.entries_view()[k] == ie[k]);
            }
        }
        let ghost before = result@;
        result.push(PodMetrics { name, timestamp: now, window: 60, containers });
        proof {
            assert forall|k: int| 0 <= k < result@.len() implies {
                &&& (#[trigger] result@[k]).name@ == g.take(i + 1)[k].0
                &&& result@[k].timestamp == now
                &&& result@[k].window == 60
                &&& result@[k].containers@.map_values(|c: ContainerMetrics| (c.name@, c.usage)) == g.take(i + 1)[k].1
            } by {
                if k < i {
                    assert(result@[k] == before[k]);
                    assert(g.take(i + 1)[k] == g.take(i)[k]);
                }
            }
            i = i + 1;
        }
    }
    assert(g.take(i) =~= g);
    Ok(result)
}

/// The values of the entries, in order, taking the map apart.
fn values_of(m: KeyedMap<ContainerMetrics>) -> (r: Vec<ContainerMetrics>)
    ensures
        r@ == m.entries_view().map_values(|e: (String, ContainerMetrics)| e.1),
{
    let entries = m.into_entries();
    let ghost es = entries@;
    let mut rest = entries;
    let mut r: Vec<ContainerMetrics> = Vec::new();
    let ghost mut i: int = 0;
    assert(es.skip(0) =~= es);
    while rest.len() > 0
        invariant
            0 <= i <= es.len(),
            rest@ == es.skip(i),
            r@ == es.take(i).map_values(|e: (String, ContainerMetrics)| e.1),
        decreases rest.len(),
    {
        let (_, v) = rest.remove(0);
        proof {
            assert(rest@ =~= es.skip(i + 1));
        }
        r.push(v);
        proof {
            assert(r@ =~= es.take(i + 1).map_values(|e: (String, ContainerMetrics)| e.1));
            i = i + 1;
        }
    }
    assert(es.take(i) =~= es);
    r
}

} // verus!
