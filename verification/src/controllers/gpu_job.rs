//! The decisions of the GPU job controller: the status a job reports,
//! whether a pod is to be created or deleted, and the files that a job's
//! image is built from.

use vstd::prelude::*;
use crate::informer::{ReflectorNotification, Store};
use crate::objects::gpu_job::{GpuJob, GpuJobSpec, GpuJobStatus, SlurmConfig};
use crate::objects::object_reference::{ObjectReference, contains_ref};
use crate::objects::pod::{Pod, PodPhase, pod_active};
use crate::text::{decimal, push_decimal, push_str};
use super::pods::{new_owned_pod, owner_in, resolve_owner};
use super::replica_set::{ControllerError, ScaleAction};

verus! {

/// The kind name of GPU jobs, `GpuJob`.
pub open spec fn gpu_job_kind() -> Seq<char> {
    seq!['G', 'p', 'u', 'J', 'o', 'b']
}

/// The plural of GPU jobs in paths, `gpujobs`.
pub open spec fn gpu_jobs_plural() -> Seq<char> {
    seq!['g', 'p', 'u', 'j', 'o', 'b', 's']
}

/// A reference to the job, as its pods name their owner.
pub fn job_reference(job: &GpuJob) -> (r: ObjectReference)
    ensures
        r.kind@ == gpu_job_kind(),
        r.name == job.metadata.name,
{
    proof {
        reveal_strlit("GpuJob");
    }
    let kind = crate::text::to_owned_string("GpuJob");
    assert(kind@ =~= gpu_job_kind());
    ObjectReference::new(kind, job.metadata.name.clone())
}

/// Whether the pod names the job as an owner.
pub open spec fn owned_by(pod: Pod, job: GpuJob) -> bool {
    exists|i: int|
        0 <= i < pod.metadata.owner_references@.len() && (#[trigger] pod.metadata.owner_references@[i]).kind@
            == gpu_job_kind() && pod.metadata.owner_references@[i].name@ == job.metadata.name@
}

/// The pods that the job owns, in order.
pub fn owned_pods(pods: Vec<Pod>, job: &GpuJob) -> (r: Vec<Pod>)
    ensures
        r@ == pods@.filter(|p: Pod| owned_by(p, *job)),
{
    let ghost f = |p: Pod| owned_by(p, *job);
    let job_ref = job_reference(job);
    let mut r: Vec<Pod> = Vec::new();
    let mut rest = pods;
    let ghost all = rest@;
    let ghost mut i: int = 0;
    proof {
        reveal(Seq::filter);
    }
    assert(all.take(0).filter(f) =~= Seq::<Pod>::empty());
    assert(all.skip(0) =~= all);
    while rest.len() > 0
        invariant
            0 <= i <= all.len(),
            rest@ == all.skip(i),
            r@ == all.take(i).filter(f),
            f == (|p: Pod| owned_by(p, *job)),
            job_ref.kind@ == gpu_job_kind(),
            job_ref.name == job.metadata.name,
        decreases rest.len(),
    {
        let p = rest.remove(0);
        let keep = contains_ref(&p.metadata.owner_references, &job_ref);
        proof {
            reveal(Seq::filter);
            let s = all.take(i + 1);
            assert(p == all[i]);
            assert(s.drop_last() =~= all.take(i));
            assert(s.last() == all[i]);
            assert(s.len() == i + 1);
            assert(rest@ =~= all.skip(i + 1));
            assert(keep == f(p)) by {
                if keep {
                    let j = choose|j: int|
                        0 <= j < p.metadata.owner_references@.len() && crate::objects::object_reference::same_ref(
                            p.metadata.owner_references@[j],
                            job_ref,
                        );
                    assert(p.metadata.owner_references@[j].kind@ == gpu_job_kind());
                }
                if f(p) {
                    let j = choose|j: int|
                        0 <= j < p.metadata.owner_references@.len() && (#[trigger] p.metadata.owner_references@[j]).kind@
                            == gpu_job_kind() && p.metadata.owner_references@[j].name@ == job.metadata.name@;
                    assert(crate::objects::object_reference::same_ref(p.metadata.owner_references@[j], job_ref));
                }
            }
        }
        if keep {
            r.push(p);
        }
        proof {
            i = i + 1;
        }
    }
    assert(all.take(i) =~= all);
    r
}

/// The pods that are pending or running, in order.
pub fn active_pods(pods: Vec<Pod>) -> (r: Vec<Pod>)
    ensures
        r@ == pods@.filter(|p: Pod| pod_active(p)),
        forall|i: int| 0 <= i < r@.len() ==> (#[trigger] r@[i]).status is Some,
{
    let ghost f = |p: Pod| pod_active(p);
    let mut r: Vec<Pod> = Vec::new();
    let mut rest = pods;
    let ghost all = rest@;
    let ghost mut i: int = 0;
    proof {
        reveal(Seq::filter);
    }
    assert(all.take(0).filter(f) =~= Seq::<Pod>::empty());
    assert(all.skip(0) =~= all);
    while rest.len() > 0
        invariant
            0 <= i <= all.len(),
            rest@ == all.skip(i),
            r@ == all.take(i).filter(f),
            f == (|p: Pod| pod_active(p)),
            forall|k: int| 0 <= k < r@.len() ==> (#[trigger] r@[k]).status is Some,
        decreases rest.len(),
    {
        let p = rest.remove(0);
        let keep = p.is_active();
        proof {
            reveal(Seq::filter);
            let s = all.take(i + 1);
            assert(p == all[i]);
            assert(s.drop_last() =~= all.take(i));
            assert(s.last() == all[i]);
            assert(s.len() == i + 1);
            assert(rest@ =~= all.skip(i + 1));
        }
        if keep {
            r.push(p);
        }
        proof {
            i = i + 1;
        }
    }
    assert(all.take(i) =~= all);
    r
}

/// The pods of `pods` in the given phase.
pub open spec fn phase_count(pods: Seq<Pod>, phase: PodPhase) -> nat
    decreases pods.len(),
{
    if pods.len() == 0 {
        0
    } else {
        phase_count(pods.drop_last(), phase) + match pods.last().status {
            Some(s) => if s.phase == phase { 1nat } else { 0nat },
            None => 0nat,
        }
    }
}

/// A count of pods is at most the number of pods.
proof fn lemma_phase_counts(pods: Seq<Pod>)
    ensures
        phase_count(pods, PodPhase::Failed) + phase_count(pods, PodPhase::Succeeded) + phase_count(
            pods,
            PodPhase::Pending,
        ) + phase_count(pods, PodPhase::Running) <= pods.len(),
    decreases pods.len(),
{
    if pods.len() > 0 {
        lemma_phase_counts(pods.drop_last());
    }
}

/// The status that the job's pods give: how many are active (pending or
/// running), failed and succeeded; pods without status are not counted.
pub fn calculate_status(job: &GpuJob, pods: &Vec<Pod>) -> (r: GpuJobStatus)
    requires
        job.status is Some,
        pods@.len() <= u32::MAX,
    ensures
        r.active == phase_count(pods@, PodPhase::Pending) + phase_count(pods@, PodPhase::Running),
        r.failed == phase_count(pods@, PodPhase::Failed),
        r.succeeded == phase_count(pods@, PodPhase::Succeeded),
{
    let mut active: u32 = 0;
    let mut failed: u32 = 0;
    let mut succeeded: u32 = 0;
    let mut i: usize = 0;
    assert(pods@.take(0) =~= Seq::<Pod>::empty());
    while i < pods.len()
        invariant
            i <= pods@.len(),
            pods@.len() <= u32::MAX,
            active == phase_count(pods@.take(i as int), PodPhase::Pending) + phase_count(
                pods@.take(i as int),
                PodPhase::Running,
            ),
            failed == phase_count(pods@.take(i as int), PodPhase::Failed),
            succeeded == phase_count(pods@.take(i as int), PodPhase::Succeeded),
        decreases pods.len() - i,
    {
        assert(pods@.take(i + 1).drop_last() =~= pods@.take(i as int));
        assert(pods@.take(i + 1).last() == pods@[i as int]);
        proof {
            lemma_phase_counts(pods@.take(i as int));
        }
        if let Some(status) = &pods[i].status {
            match status.phase {
                PodPhase::Failed => failed = failed + 1,
                PodPhase::Succeeded => succeeded = succeeded + 1,
                _ => active = active + 1,
            }
        }
        i = i + 1;
    }
    assert(pods@.take(i as int) =~= pods@);
    GpuJobStatus { active, failed, succeeded }
}

/// The job with its status brought up to date from its pods, when that
/// changes the status; None when the status stays.
pub fn update_gpujob(job: GpuJob, pods: &Vec<Pod>) -> (r: Option<GpuJob>)
    requires
        job.status is Some,
        pods@.len() <= u32::MAX,
    ensures
        ({
            let new_status = GpuJobStatus {
                active: (phase_count(pods@, PodPhase::Pending) + phase_count(pods@, PodPhase::Running)) as u32,
                failed: phase_count(pods@, PodPhase::Failed) as u32,
                succeeded: phase_count(pods@, PodPhase::Succeeded) as u32,
            };
            &&& new_status == job.status->0 ==> r is None
            &&& new_status != job.status->0 ==> r == Some(GpuJob { status: Some(new_status), ..job })
        }),
{
    let new_status = calculate_status(&job, pods);
    let status = match job.status {
        Some(s) => s,
        None => return None,
    };
    if new_status.active == status.active && new_status.failed == status.failed && new_status.succeeded
        == status.succeeded {
        None
    } else {
        let mut job = job;
        job.status = Some(new_status);
        Some(job)
    }
}

/// The number of pods a job wants active: those still to succeed, at most
/// its parallelism.
pub open spec fn want_active(spec: GpuJobSpec, status: GpuJobStatus) -> int {
    let remaining = spec.completions - status.succeeded;
    if remaining < spec.parallelism {
        remaining
    } else {
        spec.parallelism as int
    }
}

/// What to do for a job: create a pod when fewer are active than it wants,
/// delete one when more are, nothing otherwise.
pub fn reconcile(job: &GpuJob) -> (r: Result<ScaleAction, ControllerError>)
    requires
        job.status is Some ==> job.status->0.succeeded <= job.spec.completions,
    ensures
        match job.status {
            None => r == Err::<ScaleAction, ControllerError>(ControllerError::MissingStatus),
            Some(s) => r == Ok::<ScaleAction, ControllerError>(
                if s.active < want_active(job.spec, s) {
                    ScaleAction::CreatePod
                } else if s.active > want_active(job.spec, s) {
                    ScaleAction::DeletePod
                } else {
                    ScaleAction::Nothing
                },
            ),
        },
{
    let status = match &job.status {
        Some(s) => s,
        None => return Err(ControllerError::MissingStatus),
    };
    let remaining = job.spec.completions - status.succeeded;
    let want = if remaining < job.spec.parallelism { remaining } else { job.spec.parallelism };
    if status.active < want {
        Ok(ScaleAction::CreatePod)
    } else if status.active > want {
        Ok(ScaleAction::DeletePod)
    } else {
        Ok(ScaleAction::Nothing)
    }
}

/// The job to reconcile after a change: the new one when added or updated;
/// when deleted, the old one wanting no parallel pods.
pub fn gpujob_to_reconcile(n: ReflectorNotification<GpuJob>) -> (job: GpuJob)
    ensures
        match n {
            ReflectorNotification::Add(new) => job == new,
            ReflectorNotification::Update(_, new) => job == new,
            ReflectorNotification::Delete(old) => job == GpuJob { spec: GpuJobSpec { parallelism: 0, ..old.spec }, ..old },
        },
{
    match n {
        ReflectorNotification::Add(new) => new,
        ReflectorNotification::Update(_, new) => new,
        ReflectorNotification::Delete(old) => {
            let mut job = old;
            job.spec.parallelism = 0;
            job
        },
    }
}

/// A new pod for the job, made from its template and owned by it. Fails
/// when the job has no status or no template.
pub fn create_pod(job: GpuJob) -> (r: Result<Pod, ControllerError>)
    ensures
        job.status is None ==> r == Err::<Pod, ControllerError>(ControllerError::MissingStatus),
        job.status is Some && job.spec.template is None ==> r == Err::<Pod, ControllerError>(
            ControllerError::MissingTemplate,
        ),
        job.status is Some && job.spec.template is Some ==> r is Ok && {
            let t = job.spec.template->0;
            let pod = r->Ok_0;
            &&& pod.metadata.name == t.metadata.name
            &&& pod.metadata.labels == t.metadata.labels
            &&& pod.metadata.owner_references@.len() == t.metadata.owner_references@.len() + 1
            &&& pod.metadata.owner_references@.drop_last() == t.metadata.owner_references@
            &&& pod.metadata.owner_references@.last().kind@ == gpu_job_kind()
            &&& pod.metadata.owner_references@.last().name == job.metadata.name
            &&& pod.spec == t.spec
            &&& pod.status is None
        },
{
    if job.status.is_none() {
        return Err(ControllerError::MissingStatus);
    }
    let owner = job_reference(&job);
    match job.spec.template {
        Some(t) => {
            let pod = new_owned_pod(t, owner);
            assert(pod.metadata.owner_references@.drop_last() =~= job.spec.template->0.metadata.owner_references@);
            Ok(pod)
        },
        None => Err(ControllerError::MissingTemplate),
    }
}

/// The job that owns a pod with owner references `refs`: the only owner of
/// kind `GpuJob`, looked up in the store.
pub fn resolve_job_owner<'a>(refs: &Vec<ObjectReference>, store: &'a Store<GpuJob>) -> (r: Option<&'a GpuJob>)
    ensures
        match owner_in(refs@, gpu_job_kind(), gpu_jobs_plural(), store@) {
            Some(o) => r is Some && *r->0 == o,
            None => r is None,
        },
{
    proof {
        reveal_strlit("GpuJob");
        reveal_strlit("gpujobs");
    }
    let r = resolve_owner(refs, "GpuJob", "gpujobs", store);
    assert("GpuJob"@ =~= gpu_job_kind());
    assert("gpujobs"@ =~= gpu_jobs_plural());
    r
}

/// The name of the job's code file. Fails when the job names none.
pub fn job_filename(job: &GpuJob) -> (r: Result<String, ControllerError>)
    ensures
        match job.spec.filename {
            Some(f) => r == Ok::<String, ControllerError>(f),
            None => r == Err::<String, ControllerError>(ControllerError::MissingFilename),
        },
{
    match &job.spec.filename {
        Some(f) => Ok(f.clone()),
        None => Err(ControllerError::MissingFilename),
    }
}

/// The lines of a list of script lines, each ended by a newline.
pub open spec fn script_lines(scripts: Seq<String>) -> Seq<char>
    decreases scripts.len(),
{
    if scripts.len() == 0 {
        Seq::empty()
    } else {
        script_lines(scripts.drop_last()) + scripts.last()@ + "\n"@
    }
}

/// The Slurm batch script of a job named `name`.
pub open spec fn slurm_text(name: Seq<char>, c: SlurmConfig) -> Seq<char> {
    "#!/bin/bash\n\n"@ + "#SBATCH --job-name="@ + name + "\n"@ + "#SBATCH --partition="@ + c.partition@
        + "\n"@ + "#SBATCH --output=%j.out\n"@ + "#SBATCH --error=%j.err\n"@ + "#SBATCH -N "@ + decimal(
        c.total_core_number as nat,
    ) + "\n"@ + "#SBATCH --ntasks-per-node="@ + decimal(c.ntasks_per_node as nat) + "\n"@
        + "#SBATCH --cpus-per-task="@ + decimal(c.cpus_per_task as nat) + "\n"@ + "#SBATCH --gres="@
        + c.gres@ + "\n"@ + match c.scripts {
        Some(s) => script_lines(s@),
        None => Seq::empty(),
    }
}

/// The Slurm batch script of the job: its name, partition, output files,
/// node and task counts, resources, then the script lines.
pub fn slurm_script(job: &GpuJob) -> (s: String)
    ensures
        s@ == slurm_text(job.metadata.name@, job.spec.gpu_config.slurm_config),
{
    let c = &job.spec.gpu_config.slurm_config;
    let mut s = crate::text::to_owned_string("#!/bin/bash\n\n");
    push_str(&mut s, "#SBATCH --job-name=");
    push_str(&mut s, job.metadata.name.as_str());
    push_str(&mut s, "\n");
    push_str(&mut s, "#SBATCH --partition=");
    push_str(&mut s, c.partition.as_str());
    push_str(&mut s, "\n");
    push_str(&mut s, "#SBATCH --output=%j.out\n");
    push_str(&mut s, "#SBATCH --error=%j.err\n");
    push_str(&mut s, "#SBATCH -N ");
    push_decimal(&mut s, c.total_core_number as u64);
    push_str(&mut s, "\n");
    push_str(&mut s, "#SBATCH --ntasks-per-node=");
    push_decimal(&mut s, c.ntasks_per_node as u64);
    push_str(&mut s, "\n");
    push_str(&mut s, "#SBATCH --cpus-per-task=");
    push_decimal(&mut s, c.cpus_per_task as u64);
    push_str(&mut s, "\n");
    push_str(&mut s, "#SBATCH --gres=");
    push_str(&mut s, c.gres.as_str());
    push_str(&mut s, "\n");
    let ghost head = s@;
    if let Some(scripts) = &c.scripts {
        let mut i: usize = 0;
        assert(scripts@.take(0) =~= Seq::<String>::empty());
        assert(head + script_lines(scripts@.take(0)) =~= head);
        while i < scripts.len()
            invariant
                i <= scripts@.len(),
                s@ == head + script_lines(scripts@.take(i as int)),
            decreases scripts.len() - i,
        {
            assert(scripts@.take(i + 1).drop_last() =~= scripts@.take(i as int));
            assert(scripts@.take(i + 1).last() == scripts@[i as int]);
            push_str(&mut s, scripts[i].as_str());
            push_str(&mut s, "\n");
            assert(s@ =~= head + script_lines(scripts@.take(i + 1)));
            i = i + 1;
        }
        assert(scripts@.take(i as int) =~= scripts@);
    }
    assert(s@ =~= slurm_text(job.metadata.name@, *c));
    s
}

/// The Dockerfile of a job's image.
pub open spec fn dockerfile_text(
    base_image: Seq<char>,
    username: Seq<char>,
    password: Seq<char>,
    job_name: Seq<char>,
    code_file: Seq<char>,
    compile_script: Seq<char>,
) -> Seq<char> {
    "FROM "@ + base_image + "\n"@ + "COPY . /code/\n"@ + "ENV USERNAME="@ + username + " PASSWORD="@
        + password + " JOB_NAME="@ + job_name + "\n"@ + "ENV CODE_FILE_NAME="@ + code_file
        + " COMPILE_SCRIPT="@ + compile_script + "\n"@
}

/// The Dockerfile of a job's image: the base image, the code, and the
/// settings that the image's entry point reads.
pub fn dockerfile(
    base_image: &str,
    username: &str,
    password: &str,
    job_name: &str,
    code_file: &str,
    compile_script: &str,
) -> (s: String)
    ensures
        s@ == dockerfile_text(base_image@, username@, password@, job_name@, code_file@, compile_script@),
{
    let mut s = crate::text::to_owned_string("FROM ");
    push_str(&mut s, base_image);
    push_str(&mut s, "\n");
    push_str(&mut s, "COPY . /code/\n");
    push_str(&mut s, "ENV USERNAME=");
    push_str(&mut s, username);
    push_str(&mut s, " PASSWORD=");
    push_str(&mut s, password);
    push_str(&mut s, " JOB_NAME=");
    push_str(&mut s, job_name);
    push_str(&mut s, "\n");
    push_str(&mut s, "ENV CODE_FILE_NAME=");
    push_str(&mut s, code_file);
    push_str(&mut s, " COMPILE_SCRIPT=");
    push_str(&mut s, compile_script);
    push_str(&mut s, "\n");
    assert(s@ =~= dockerfile_text(base_image@, username@, password@, job_name@, code_file@, compile_script@));
    s
}

} // verus!
