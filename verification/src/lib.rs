//! A small Kubernetes-like orchestration system: API objects, the decisions
//! of its controllers (replica sets, GPU jobs, autoscaling, endpoints, ingress)
//! and the pure parts of its API server, each stated and proved with Verus.

pub mod keyed;
pub mod text;
pub mod clock;
pub mod controllers;
pub mod copy;
pub mod ids;
pub mod net;
pub mod objects;
pub mod config;
pub mod informer;
pub mod models;
pub mod utils;
pub mod api_server;
