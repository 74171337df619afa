//! GPU jobs run through a Slurm cluster.

use vstd::prelude::*;
use super::{pod::PodTemplateSpec, Metadata};

verus! {

/// A batch job that compiles and runs code on a GPU cluster.
#[derive(Clone, Debug, PartialEq)]
pub struct GpuJob {
    /// Standard object's metadata.
    pub metadata: Metadata,
    /// Specification of the desired behavior of a job.
    pub spec: GpuJobSpec,
    /// Current status of a job.
    pub status: Option<GpuJobStatus>,
}

/// The desired behavior of a job.
#[derive(Clone, Debug, PartialEq)]
pub struct GpuJobSpec {
    /// The pod that will be created when executing the job.
    pub template: Option<PodTemplateSpec>,
    /// File name of the code zip file.
    pub filename: Option<String>,
    /// GPU config of the job.
    pub gpu_config: GpuConfig,
    /// The desired number of successfully finished pods. Defaults to 1.
    pub completions: u32,
    /// The maximum number of pods running at any given time. Defaults to 1.
    pub parallelism: u32,
    /// The number of retries before marking the job failed. Defaults to 6.
    pub back_off_limit: u32,
}

/// GPU settings of a job.
#[derive(Clone, Debug, PartialEq)]
pub struct GpuConfig {
    pub slurm_config: SlurmConfig,
    pub compile_scripts: Vec<String>,
}

/// Settings of the Slurm batch script.
#[derive(Clone, Debug, PartialEq)]
pub struct SlurmConfig {
    pub job_name: String,
    pub partition: String,
    pub total_core_number: u32,
    pub ntasks_per_node: u32,
    pub cpus_per_task: u32,
    pub gres: String,
    pub scripts: Option<Vec<String>>,
}

/// The observed state of a job.
#[derive(Clone, Copy, Debug, PartialEq, Eq, Default, Structural)]
pub struct GpuJobStatus {
    /// The number of pending and running pods.
    pub active: u32,
    /// The number of pods which reached phase Failed.
    pub failed: u32,
    /// The number of pods which reached phase Succeeded.
    pub succeeded: u32,
}

/// The default number of completions.
pub fn completions_default() -> (r: u32)
    ensures
        r == 1,
{
    1
}

/// The default parallelism.
pub fn parallelism_default() -> (r: u32)
    ensures
        r == 1,
{
    1
}

/// The default number of retries.
pub fn back_off_limit_default() -> (r: u32)
    ensures
        r == 6,
{
    6
}

} // verus!
