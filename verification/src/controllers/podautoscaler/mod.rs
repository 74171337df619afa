//! The horizontal pod autoscaler.

pub mod horizontal;
pub mod queue;
pub mod replica_calculator;
