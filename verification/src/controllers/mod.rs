//! The decisions of the cluster's controllers.

pub mod podautoscaler;
pub mod pods;
pub mod replica_set;
pub mod gpu_job;
pub mod endpoints;
pub mod ingress;
pub mod function;
